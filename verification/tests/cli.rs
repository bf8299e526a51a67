//! The command line.

use felx::cli::{command, parse_render, pick_comp, render_job, Command};
use felx::media::encode::{HwEncoder, RateControl};
use felx::media::wav::WavBitDepth;
use felx::model::composition::CompId;
use felx::model::project::Project;
use felx::studio::export::{ExportJobKind, GifDither};

fn words(text: &str) -> Vec<String> {
    text.split_whitespace().map(|w| w.to_string()).collect()
}

fn project() -> Project {
    let mut p = Project::new();
    p.add_composition("one".to_string(), 64, 36);
    p.add_composition("two".to_string(), 128, 72);
    p
}

fn job(text: &str) -> Result<ExportJobKind, String> {
    let req = parse_render(&words(text))?;
    let p = project();
    let id = pick_comp(&p, req.args.comp_name.as_deref())?;
    render_job(p.composition(id).unwrap(), &req)
}

#[test]
fn subcommands_are_told_apart() {
    assert_eq!(command(&words("felx")), Command::Help);
    assert_eq!(command(&words("felx render x")), Command::Render);
    assert_eq!(command(&words("felx --help")), Command::Help);
    assert_eq!(command(&words("felx -h")), Command::Help);
    assert_eq!(command(&words("felx bake")), Command::Unknown("bake".to_string()));
}

#[test]
fn every_fault_has_its_message() {
    let fault = |t: &str| parse_render(&words(t)).unwrap_err();
    assert_eq!(fault(""), "missing project file path");
    assert_eq!(fault("p"), "--out required");
    assert_eq!(fault("p --out o"), "--format required");
    assert_eq!(fault("p --out"), "missing --out value");
    assert_eq!(fault("p --comp"), "missing --comp value");
    assert_eq!(fault("p --crf x"), "invalid --crf");
    assert_eq!(fault("p --crf 4294967296"), "invalid --crf");
    assert_eq!(fault("p --bitrate -1"), "invalid --bitrate");
    assert_eq!(fault("p --gop"), "missing --gop value");
    assert_eq!(fault("p --hw cuda"), "unknown --hw value: cuda");
    assert_eq!(fault("p --gif-dither dots"), "unknown --gif-dither: dots");
    assert_eq!(fault("p --wav-depth 8"), "unknown --wav-depth: 8");
    assert_eq!(fault("p --loud"), "unknown flag: --loud");
    assert_eq!(fault("p --loud --out"), "unknown flag: --loud");
}

#[test]
fn requests_hold_what_was_asked_for() {
    let r = parse_render(&words("p.felx --out o.mp4 --format h264 --crf +23 --crf 24")).unwrap();
    assert_eq!(
        (r.project_path.as_str(), r.out_path.as_str(), r.format.as_str()),
        ("p.felx", "o.mp4", "h264")
    );
    assert_eq!(r.args.crf, Some(24));
    assert_eq!(r.args.png_pattern, "frame_{frame:05}.png");
}

#[test]
fn compositions_are_picked_by_name_or_first() {
    let p = project();
    assert_eq!(pick_comp(&p, None), Ok(CompId(1)));
    assert_eq!(pick_comp(&p, Some("two")), Ok(CompId(2)));
    assert_eq!(pick_comp(&p, Some("three")), Err("no comp named 'three'".to_string()));
    assert_eq!(pick_comp(&Project::new(), None), Err("project has no compositions".to_string()));
}

#[test]
fn formats_lead_to_jobs() {
    match job("p --out o --format h265 --bitrate 5000 --max-bitrate 9000 --gop 12 --hw vaapi") {
        Ok(ExportJobKind::Video(v)) => {
            assert_eq!((v.target_bitrate, v.max_bitrate), (5000, 9000));
            assert_eq!(v.rate_control, RateControl::Vbr);
            assert_eq!(v.keyframe_interval, 12);
            assert_eq!(v.hw, HwEncoder::Vaapi);
            assert_eq!((v.width, v.height), (64, 36));
        }
        other => panic!("unexpected {other:?}"),
    }
    match job("p --out o --format h264 --crf 30 --bitrate 5000 --comp two --preset slow") {
        Ok(ExportJobKind::Video(v)) => {
            assert_eq!((v.crf, v.rate_control), (30, RateControl::Cbr));
            assert_eq!((v.width, v.preset.as_str()), (128, "slow"));
        }
        other => panic!("unexpected {other:?}"),
    }
    match job("p --out o --format prores4444 --profile hq --crf 1") {
        Ok(ExportJobKind::Video(v)) => assert_eq!(v.profile, "hq"),
        other => panic!("unexpected {other:?}"),
    }
    match job("p --out o --format gif --gif-palette 64 --gif-dither floyd") {
        Ok(ExportJobKind::Gif(g)) => {
            assert_eq!((g.max_palette, g.dither), (64, GifDither::FloydSteinberg));
        }
        other => panic!("unexpected {other:?}"),
    }
    assert_eq!(
        job("p --out frames/ --format png --png-pattern f_{frame}.png"),
        Ok(ExportJobKind::Png { pattern: "f_{frame}.png".to_string() })
    );
    assert_eq!(
        job("p --out frames/ --format exr"),
        Ok(ExportJobKind::Exr { pattern: "frame_{frame:05}.exr".to_string() })
    );
    assert_eq!(
        job("p --out m.wav --format wav --wav-depth 24"),
        Ok(ExportJobKind::Wav { sample_rate: 48_000, depth: WavBitDepth::Pcm24 })
    );
    assert_eq!(job("p --out o --format avi"), Err("unknown format: avi".to_string()));
}
