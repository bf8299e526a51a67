//! The command line: what was asked for, and what a render does.

use crate::media::encode::{
    codec_label, h264_options, h265_options, hw_label, prores422_options, prores4444_options,
    EncodeModel, EncodeOptions, HwEncoder, RateControl, VideoCodec,
};
use crate::media::wav::WavBitDepth;
use crate::model::composition::{CompId, Composition, CompositionModel};
use crate::model::project::{comp_index, is_comp, Project};
use crate::seqs::{first_where, first_where_is_first};
use crate::studio::export::{
    default_export, export_job, gif_options, text_view, ExportFormat, ExportJobKind, ExportModel,
    GifDither, GifOptions, JobModel,
};
use crate::text::{cat, parse_unsigned, str_eq, unsigned_value};
use vstd::prelude::*;

verus! {

/// A subcommand.
#[derive(Clone, Debug, PartialEq, Eq)]
pub enum Command {
    Help,
    Render,
    Unknown(String),
}

/// Whether `c` is what the arguments of the program ask for.
pub open spec fn is_command(c: Command, args: Seq<String>) -> bool {
    if args.len() < 2 {
        c is Help
    } else if args[1]@ == "render"@ {
        c is Render
    } else if args[1]@ == "help"@ || args[1]@ == "-h"@ || args[1]@ == "--help"@ {
        c is Help
    } else {
        c matches Command::Unknown(t) && t@ == args[1]@
    }
}

/// What the arguments of the program, whose first is its name, ask for.
pub fn command(args: &Vec<String>) -> (r: Command)
    ensures
        is_command(r, args@),
{
    if args.len() < 2 {
        return Command::Help;
    }
    let name = &args[1];
    if str_eq(name, "render") {
        Command::Render
    } else if str_eq(name, "help") || str_eq(name, "-h") || str_eq(name, "--help") {
        Command::Help
    } else {
        Command::Unknown(name.clone())
    }
}

/// What the flags of a render say.
#[derive(Debug, PartialEq, Eq)]
pub struct RenderArgs {
    pub comp_name: Option<String>,
    pub out_path: Option<String>,
    pub format: Option<String>,
    pub crf: Option<u32>,
    pub bitrate: Option<u64>,
    pub max_bitrate: Option<u64>,
    pub preset: Option<String>,
    pub profile: Option<String>,
    pub gop: Option<u32>,
    pub hw: HwEncoder,
    pub gif_palette: u32,
    pub gif_dither: GifDither,
    pub png_pattern: String,
    pub exr_pattern: String,
    pub wav_depth: WavBitDepth,
}

/// What the flags of a render hold.
#[verifier::ext_equal]
pub struct RenderModel {
    pub comp_name: Option<Seq<char>>,
    pub out_path: Option<Seq<char>>,
    pub format: Option<Seq<char>>,
    pub crf: Option<u32>,
    pub bitrate: Option<u64>,
    pub max_bitrate: Option<u64>,
    pub preset: Option<Seq<char>>,
    pub profile: Option<Seq<char>>,
    pub gop: Option<u32>,
    pub hw: HwEncoder,
    pub gif_palette: u32,
    pub gif_dither: GifDither,
    pub png_pattern: Seq<char>,
    pub exr_pattern: Seq<char>,
    pub wav_depth: WavBitDepth,
}

impl View for RenderArgs {
    type V = RenderModel;

    open spec fn view(&self) -> RenderModel {
        RenderModel {
            comp_name: text_view(self.comp_name),
            out_path: text_view(self.out_path),
            format: text_view(self.format),
            crf: self.crf,
            bitrate: self.bitrate,
            max_bitrate: self.max_bitrate,
            preset: text_view(self.preset),
            profile: text_view(self.profile),
            gop: self.gop,
            hw: self.hw,
            gif_palette: self.gif_palette,
            gif_dither: self.gif_dither,
            png_pattern: self.png_pattern@,
            exr_pattern: self.exr_pattern@,
            wav_depth: self.wav_depth,
        }
    }
}

/// A render without flags.
pub open spec fn no_flags() -> RenderModel {
    RenderModel {
        comp_name: None,
        out_path: None,
        format: None,
        crf: None,
        bitrate: None,
        max_bitrate: None,
        preset: None,
        profile: None,
        gop: None,
        hw: HwEncoder::Software,
        gif_palette: 128,
        gif_dither: GifDither::FloydSteinberg,
        png_pattern: "frame_{frame:05}.png"@,
        exr_pattern: "frame_{frame:05}.exr"@,
        wav_depth: WavBitDepth::Pcm16,
    }
}

impl Default for RenderArgs {
    fn default() -> (r: Self)
        ensures
            r@ == no_flags(),
    {
        RenderArgs {
            comp_name: None,
            out_path: None,
            format: None,
            crf: None,
            bitrate: None,
            max_bitrate: None,
            preset: None,
            profile: None,
            gop: None,
            hw: HwEncoder::Software,
            gif_palette: 128,
            gif_dither: GifDither::FloydSteinberg,
            png_pattern: "frame_{frame:05}.png".to_owned(),
            exr_pattern: "frame_{frame:05}.exr".to_owned(),
            wav_depth: WavBitDepth::Pcm16,
        }
    }
}

/// Whether there is a flag of that name.
pub open spec fn is_flag(flag: Seq<char>) -> bool {
    ||| flag == "--comp"@
    ||| flag == "--out"@
    ||| flag == "--format"@
    ||| flag == "--crf"@
    ||| flag == "--bitrate"@
    ||| flag == "--max-bitrate"@
    ||| flag == "--preset"@
    ||| flag == "--profile"@
    ||| flag == "--gop"@
    ||| flag == "--hw"@
    ||| flag == "--gif-palette"@
    ||| flag == "--gif-dither"@
    ||| flag == "--png-pattern"@
    ||| flag == "--exr-pattern"@
    ||| flag == "--wav-depth"@
}

fn flag_known(flag: &str) -> (r: bool)
    ensures
        r == is_flag(flag@),
{
    str_eq(flag, "--comp") || str_eq(flag, "--out") || str_eq(flag, "--format") || str_eq(
        flag,
        "--crf",
    ) || str_eq(flag, "--bitrate") || str_eq(flag, "--max-bitrate") || str_eq(flag, "--preset")
        || str_eq(flag, "--profile") || str_eq(flag, "--gop") || str_eq(flag, "--hw") || str_eq(
        flag,
        "--gif-palette",
    ) || str_eq(flag, "--gif-dither") || str_eq(flag, "--png-pattern") || str_eq(
        flag,
        "--exr-pattern",
    ) || str_eq(flag, "--wav-depth")
}

/// The number that `v` writes, if it is at most `max`.
pub open spec fn number(v: Seq<char>, max: nat) -> Option<nat> {
    match unsigned_value(v) {
        Some(n) => if n <= max {
            Some(n)
        } else {
            None
        },
        None => None,
    }
}

/// The encoder that `--hw` names.
pub open spec fn hw_named(v: Seq<char>) -> Option<HwEncoder> {
    if v == "auto"@ || v == "software"@ {
        Some(HwEncoder::Software)
    } else if v == "nvenc"@ {
        Some(HwEncoder::Nvenc)
    } else if v == "vaapi"@ {
        Some(HwEncoder::Vaapi)
    } else if v == "videotoolbox"@ {
        Some(HwEncoder::VideoToolbox)
    } else {
        None
    }
}

fn hw_of(v: &str) -> (r: Option<HwEncoder>)
    ensures
        r == hw_named(v@),
{
    if str_eq(v, "auto") || str_eq(v, "software") {
        Some(HwEncoder::Software)
    } else if str_eq(v, "nvenc") {
        Some(HwEncoder::Nvenc)
    } else if str_eq(v, "vaapi") {
        Some(HwEncoder::Vaapi)
    } else if str_eq(v, "videotoolbox") {
        Some(HwEncoder::VideoToolbox)
    } else {
        None
    }
}

/// The dithering that `--gif-dither` names.
pub open spec fn dither_named(v: Seq<char>) -> Option<GifDither> {
    if v == "none"@ {
        Some(GifDither::Off)
    } else if v == "bayer"@ {
        Some(GifDither::Bayer)
    } else if v == "floyd"@ || v == "floyd_steinberg"@ {
        Some(GifDither::FloydSteinberg)
    } else if v == "sierra"@ || v == "sierra2_4a"@ {
        Some(GifDither::Sierra2_4a)
    } else {
        None
    }
}

fn dither_of(v: &str) -> (r: Option<GifDither>)
    ensures
        r == dither_named(v@),
{
    if str_eq(v, "none") {
        Some(GifDither::Off)
    } else if str_eq(v, "bayer") {
        Some(GifDither::Bayer)
    } else if str_eq(v, "floyd") || str_eq(v, "floyd_steinberg") {
        Some(GifDither::FloydSteinberg)
    } else if str_eq(v, "sierra") || str_eq(v, "sierra2_4a") {
        Some(GifDither::Sierra2_4a)
    } else {
        None
    }
}

/// The bit depth that `--wav-depth` names.
pub open spec fn depth_named(v: Seq<char>) -> Option<WavBitDepth> {
    if v == "16"@ {
        Some(WavBitDepth::Pcm16)
    } else if v == "24"@ {
        Some(WavBitDepth::Pcm24)
    } else if v == "f32"@ || v == "32f"@ {
        Some(WavBitDepth::Float32)
    } else {
        None
    }
}

fn depth_of(v: &str) -> (r: Option<WavBitDepth>)
    ensures
        r == depth_named(v@),
{
    if str_eq(v, "16") {
        Some(WavBitDepth::Pcm16)
    } else if str_eq(v, "24") {
        Some(WavBitDepth::Pcm24)
    } else if str_eq(v, "f32") || str_eq(v, "32f") {
        Some(WavBitDepth::Float32)
    } else {
        None
    }
}

/// `m` with a flag set to `v`, or why that is refused.
pub open spec fn flag_set(m: RenderModel, flag: Seq<char>, v: Seq<char>) -> Result<
    RenderModel,
    Seq<char>,
> {
    let invalid = Err("invalid "@ + flag);
    if flag == "--comp"@ {
        Ok(RenderModel { comp_name: Some(v), ..m })
    } else if flag == "--out"@ {
        Ok(RenderModel { out_path: Some(v), ..m })
    } else if flag == "--format"@ {
        Ok(RenderModel { format: Some(v), ..m })
    } else if flag == "--crf"@ {
        match number(v, u32::MAX as nat) {
            Some(n) => Ok(RenderModel { crf: Some(n as u32), ..m }),
            None => invalid,
        }
    } else if flag == "--bitrate"@ {
        match number(v, u64::MAX as nat) {
            Some(n) => Ok(RenderModel { bitrate: Some(n as u64), ..m }),
            None => invalid,
        }
    } else if flag == "--max-bitrate"@ {
        match number(v, u64::MAX as nat) {
            Some(n) => Ok(RenderModel { max_bitrate: Some(n as u64), ..m }),
            None => invalid,
        }
    } else if flag == "--preset"@ {
        Ok(RenderModel { preset: Some(v), ..m })
    } else if flag == "--profile"@ {
        Ok(RenderModel { profile: Some(v), ..m })
    } else if flag == "--gop"@ {
        match number(v, u32::MAX as nat) {
            Some(n) => Ok(RenderModel { gop: Some(n as u32), ..m }),
            None => invalid,
        }
    } else if flag == "--hw"@ {
        match hw_named(v) {
            Some(hw) => Ok(RenderModel { hw, ..m }),
            None => Err("unknown --hw value: "@ + v),
        }
    } else if flag == "--gif-palette"@ {
        match number(v, u32::MAX as nat) {
            Some(n) => Ok(RenderModel { gif_palette: n as u32, ..m }),
            None => invalid,
        }
    } else if flag == "--gif-dither"@ {
        match dither_named(v) {
            Some(gif_dither) => Ok(RenderModel { gif_dither, ..m }),
            None => Err("unknown --gif-dither: "@ + v),
        }
    } else if flag == "--png-pattern"@ {
        Ok(RenderModel { png_pattern: v, ..m })
    } else if flag == "--exr-pattern"@ {
        Ok(RenderModel { exr_pattern: v, ..m })
    } else {
        match depth_named(v) {
            Some(wav_depth) => Ok(RenderModel { wav_depth, ..m }),
            None => Err("unknown --wav-depth: "@ + v),
        }
    }
}

fn set_flag(args: RenderArgs, flag: &str, v: &String) -> (r: Result<RenderArgs, String>)
    requires
        is_flag(flag@),
    ensures
        match flag_set(args@, flag@, v@) {
            Ok(m) => r is Ok && r->Ok_0@ == m,
            Err(t) => r is Err && r->Err_0@ == t,
        },
{
    let mut args = args;
    if str_eq(flag, "--comp") {
        args.comp_name = Some(v.clone());
    } else if str_eq(flag, "--out") {
        args.out_path = Some(v.clone());
    } else if str_eq(flag, "--format") {
        args.format = Some(v.clone());
    } else if str_eq(flag, "--crf") {
        match parse_unsigned(v, u32::MAX as u64) {
            Some(n) => {
                args.crf = Some(n as u32);
            },
            None => {
                return Err(cat("invalid ", flag));
            },
        }
    } else if str_eq(flag, "--bitrate") {
        match parse_unsigned(v, u64::MAX) {
            Some(n) => {
                args.bitrate = Some(n);
            },
            None => {
                return Err(cat("invalid ", flag));
            },
        }
    } else if str_eq(flag, "--max-bitrate") {
        match parse_unsigned(v, u64::MAX) {
            Some(n) => {
                args.max_bitrate = Some(n);
            },
            None => {
                return Err(cat("invalid ", flag));
            },
        }
    } else if str_eq(flag, "--preset") {
        args.preset = Some(v.clone());
    } else if str_eq(flag, "--profile") {
        args.profile = Some(v.clone());
    } else if str_eq(flag, "--gop") {
        match parse_unsigned(v, u32::MAX as u64) {
            Some(n) => {
                args.gop = Some(n as u32);
            },
            None => {
                return Err(cat("invalid ", flag));
            },
        }
    } else if str_eq(flag, "--hw") {
        match hw_of(v) {
            Some(hw) => {
                args.hw = hw;
            },
            None => {
                return Err(cat("unknown --hw value: ", v));
            },
        }
    } else if str_eq(flag, "--gif-palette") {
        match parse_unsigned(v, u32::MAX as u64) {
            Some(n) => {
                args.gif_palette = n as u32;
            },
            None => {
                return Err(cat("invalid ", flag));
            },
        }
    } else if str_eq(flag, "--gif-dither") {
        match dither_of(v) {
            Some(d) => {
                args.gif_dither = d;
            },
            None => {
                return Err(cat("unknown --gif-dither: ", v));
            },
        }
    } else if str_eq(flag, "--png-pattern") {
        args.png_pattern = v.clone();
    } else if str_eq(flag, "--exr-pattern") {
        args.exr_pattern = v.clone();
    } else {
        match depth_of(v) {
            Some(d) => {
                args.wav_depth = d;
            },
            None => {
                return Err(cat("unknown --wav-depth: ", v));
            },
        }
    }
    Ok(args)
}

/// `m` with the flags from position `i` on set, in order, or why one of them
/// is refused: the first that is at fault decides.
pub open spec fn flags_read(args: Seq<String>, i: int, m: RenderModel) -> Result<
    RenderModel,
    Seq<char>,
>
    decreases args.len() - i,
{
    if i < 0 || i >= args.len() {
        Ok(m)
    } else {
        let flag = args[i]@;
        if !is_flag(flag) {
            Err("unknown flag: "@ + flag)
        } else if i + 1 >= args.len() {
            Err("missing "@ + flag + " value"@)
        } else {
            match flag_set(m, flag, args[i + 1]@) {
                Ok(next) => flags_read(args, i + 2, next),
                Err(t) => Err(t),
            }
        }
    }
}

/// What the arguments of a render say: the project file, then flags. An output
/// path and a format are needed.
pub open spec fn render_read(args: Seq<String>) -> Result<RenderModel, Seq<char>> {
    if args.len() == 0 {
        Err("missing project file path"@)
    } else {
        match flags_read(args, 1, no_flags()) {
            Err(t) => Err(t),
            Ok(m) => if m.out_path is None {
                Err("--out required"@)
            } else if m.format is None {
                Err("--format required"@)
            } else {
                Ok(m)
            },
        }
    }
}

/// A render that was asked for.
#[derive(Debug, PartialEq, Eq)]
pub struct RenderRequest {
    pub project_path: String,
    pub out_path: String,
    pub format: String,
    pub args: RenderArgs,
}

/// Reads the arguments of a render.
pub fn parse_render(args: &Vec<String>) -> (r: Result<RenderRequest, String>)
    ensures
        match render_read(args@) {
            Ok(m) => r is Ok && r->Ok_0.args@ == m && r->Ok_0.project_path@ == args@[0]@
                && m.out_path == Some(r->Ok_0.out_path@) && m.format == Some(r->Ok_0.format@),
            Err(t) => r is Err && r->Err_0@ == t,
        },
{
    if args.len() == 0 {
        return Err("missing project file path".to_owned());
    }
    let mut flags = RenderArgs::default();
    let mut i: usize = 1;
    while i < args.len()
        invariant
            1 <= args.len(),
            flags_read(args@, 1, no_flags()) == flags_read(args@, i as int, flags@),
        decreases args.len() - i,
    {
        let flag = &args[i];
        if !flag_known(flag) {
            return Err(cat("unknown flag: ", flag));
        }
        if args.len() - i < 2 {
            let head = cat("missing ", flag);
            return Err(cat(&head, " value"));
        }
        match set_flag(flags, flag, &args[i + 1]) {
            Ok(next) => {
                flags = next;
            },
            Err(e) => {
                return Err(e);
            },
        }
        if args.len() - i == 2 {
            i = args.len();
        } else {
            i = i + 2;
        }
    }
    let out_path = match &flags.out_path {
        Some(p) => p.clone(),
        None => {
            return Err("--out required".to_owned());
        },
    };
    let format = match &flags.format {
        Some(f) => f.clone(),
        None => {
            return Err("--format required".to_owned());
        },
    };
    Ok(RenderRequest { project_path: args[0].clone(), out_path, format, args: flags })
}

/// Setting a flag twice is setting it to the last value: the first value is
/// forgotten, where it was accepted at all.
pub proof fn later_flag_wins(m: RenderModel, flag: Seq<char>, first: Seq<char>, last: Seq<char>)
    requires
        flag_set(m, flag, first) is Ok,
    ensures
        flag_set(flag_set(m, flag, first)->Ok_0, flag, last) == flag_set(m, flag, last),
{
    let n = flag_set(m, flag, first)->Ok_0;
    let twice = flag_set(n, flag, last);
    let once = flag_set(m, flag, last);
    if flag == "--comp"@ {
        assert(twice == once);
    } else if flag == "--out"@ {
        assert(twice == once);
    } else if flag == "--format"@ {
        assert(twice == once);
    } else if flag == "--crf"@ {
        assert(twice == once);
    } else if flag == "--bitrate"@ {
        assert(twice == once);
    } else if flag == "--max-bitrate"@ {
        assert(twice == once);
    } else if flag == "--preset"@ {
        assert(twice == once);
    } else if flag == "--profile"@ {
        assert(twice == once);
    } else if flag == "--gop"@ {
        assert(twice == once);
    } else if flag == "--hw"@ {
        assert(twice == once);
    } else if flag == "--gif-palette"@ {
        assert(twice == once);
    } else if flag == "--gif-dither"@ {
        assert(twice == once);
    } else if flag == "--png-pattern"@ {
        assert(twice == once);
    } else if flag == "--exr-pattern"@ {
        assert(twice == once);
    } else {
        assert(twice == once);
    }
}

/// The test for a composition's name.
pub open spec fn is_named(name: Seq<char>) -> spec_fn(CompositionModel) -> bool {
    |c: CompositionModel| c.name == name
}

/// The composition that a render is of: the first of the given name, or the
/// first of all.
pub open spec fn comp_picked(comps: Seq<CompositionModel>, name: Option<Seq<char>>) -> Result<
    CompId,
    Seq<char>,
> {
    match name {
        Some(n) => match first_where(comps, is_named(n), 0) {
            Some(i) => Ok(comps[i].id),
            None => Err("no comp named '"@ + n + "'"@),
        },
        None => if comps.len() > 0 {
            Ok(comps[0].id)
        } else {
            Err("project has no compositions"@)
        },
    }
}

/// The composition that a render is of.
pub fn pick_comp(project: &Project, name: Option<&str>) -> (r: Result<CompId, String>)
    ensures
        match comp_picked(
            project@.compositions,
            match name {
                Some(n) => Some(n@),
                None => None,
            },
        ) {
            Ok(id) => r == Ok::<CompId, String>(id),
            Err(t) => r is Err && r->Err_0@ == t,
        },
{
    match name {
        Some(n) => {
            let mut i: usize = 0;
            while i < project.compositions.len()
                invariant
                    i <= project.compositions.len(),
                    name == Some(n),
                    first_where(project@.compositions, is_named(n@), 0) == first_where(
                        project@.compositions,
                        is_named(n@),
                        i as int,
                    ),
                decreases project.compositions.len() - i,
            {
                assert(project@.compositions[i as int] == project.compositions@[i as int]@);
                if str_eq(&project.compositions[i].name, n) {
                    return Ok(project.compositions[i].id);
                }
                i = i + 1;
            }
            let head = cat("no comp named '", n);
            Err(cat(&head, "'"))
        },
        None => {
            if project.compositions.len() > 0 {
                assert(project@.compositions[0] == project.compositions@[0]@);
                Ok(project.compositions[0].id)
            } else {
                Err("project has no compositions".to_owned())
            }
        },
    }
}

/// A composition that was picked is in the project.
pub proof fn picked_comp_exists(comps: Seq<CompositionModel>, name: Option<Seq<char>>)
    requires
        comp_picked(comps, name) is Ok,
    ensures
        comp_index(comps, comp_picked(comps, name)->Ok_0) is Some,
{
    let id = comp_picked(comps, name)->Ok_0;
    first_where_is_first(comps, is_comp(id), 0);
    match name {
        Some(n) => {
            first_where_is_first(comps, is_named(n), 0);
            let i = first_where(comps, is_named(n), 0)->0;
            assert(is_comp(id)(comps[i]));
        },
        None => {
            assert(is_comp(id)(comps[0]));
        },
    }
}

/// `base` with the flags for H.264 and H.265. A bitrate without a maximum is a
/// constant one.
pub open spec fn lossy_flags(base: EncodeModel, m: RenderModel) -> EncodeModel {
    EncodeModel {
        crf: match m.crf {
            Some(v) => v,
            None => base.crf,
        },
        target_bitrate: match m.bitrate {
            Some(v) => v,
            None => base.target_bitrate,
        },
        rate_control: if m.bitrate is Some {
            if m.max_bitrate is Some {
                RateControl::Vbr
            } else {
                RateControl::Cbr
            }
        } else if m.crf is Some {
            RateControl::Crf
        } else {
            base.rate_control
        },
        max_bitrate: match m.max_bitrate {
            Some(v) => v,
            None => base.max_bitrate,
        },
        preset: match m.preset {
            Some(v) => v,
            None => base.preset,
        },
        profile: match m.profile {
            Some(v) => v,
            None => base.profile,
        },
        keyframe_interval: match m.gop {
            Some(v) => v,
            None => base.keyframe_interval,
        },
        hw: m.hw,
        ..base
    }
}

/// `base` with the flags for ProRes.
pub open spec fn prores_flags(base: EncodeModel, m: RenderModel) -> EncodeModel {
    EncodeModel {
        profile: match m.profile {
            Some(v) => v,
            None => base.profile,
        },
        ..base
    }
}

fn with_lossy_flags(base: EncodeOptions, a: &RenderArgs) -> (r: EncodeOptions)
    ensures
        r@ == lossy_flags(base@, a@),
{
    let mut o = base;
    if let Some(v) = a.crf {
        o.crf = v;
        o.rate_control = RateControl::Crf;
    }
    if let Some(v) = a.bitrate {
        o.target_bitrate = v;
        o.rate_control = if a.max_bitrate.is_some() {
            RateControl::Vbr
        } else {
            RateControl::Cbr
        };
    }
    if let Some(v) = a.max_bitrate {
        o.max_bitrate = v;
    }
    if let Some(v) = &a.preset {
        o.preset = v.clone();
    }
    if let Some(v) = &a.profile {
        o.profile = v.clone();
    }
    if let Some(v) = a.gop {
        o.keyframe_interval = v;
    }
    o.hw = a.hw;
    o
}

fn with_prores_flags(base: EncodeOptions, a: &RenderArgs) -> (r: EncodeOptions)
    ensures
        r@ == prores_flags(base@, a@),
{
    let mut o = base;
    if let Some(v) = &a.profile {
        o.profile = v.clone();
    }
    o
}

/// What a render of `c` to `format` does, or why there is no such format.
pub open spec fn render_job_of(c: CompositionModel, format: Seq<char>, m: RenderModel) -> Result<
    JobModel,
    Seq<char>,
> {
    let w = c.width;
    let h = c.height;
    let num = c.framerate.0.num;
    let den = c.framerate.0.den;
    if format == "h264"@ {
        Ok(JobModel::Video(lossy_flags(h264_options(w, h, num, den), m)))
    } else if format == "h265"@ {
        Ok(JobModel::Video(lossy_flags(h265_options(w, h, num, den), m)))
    } else if format == "prores422"@ {
        Ok(JobModel::Video(prores_flags(prores422_options(w, h, num, den), m)))
    } else if format == "prores4444"@ {
        Ok(JobModel::Video(prores_flags(prores4444_options(w, h, num, den), m)))
    } else if format == "gif"@ {
        Ok(JobModel::Gif(gif_options(m.gif_palette, m.gif_dither)))
    } else if format == "png"@ {
        Ok(JobModel::Png { pattern: m.png_pattern })
    } else if format == "exr"@ {
        Ok(JobModel::Exr { pattern: m.exr_pattern })
    } else if format == "wav"@ {
        Ok(JobModel::Wav { sample_rate: 48_000, depth: m.wav_depth })
    } else {
        Err("unknown format: "@ + format)
    }
}

/// What a render of `comp` does.
pub fn render_job(comp: &Composition, req: &RenderRequest) -> (r: Result<ExportJobKind, String>)
    ensures
        match render_job_of(comp@, req.format@, req.args@) {
            Ok(j) => r is Ok && r->Ok_0@ == j,
            Err(t) => r is Err && r->Err_0@ == t,
        },
        r matches Ok(ExportJobKind::Video(o)) ==> o.width == comp.width && o.height == comp.height
            && o.framerate.0 == comp.framerate.0.num && o.framerate.1 == if comp.framerate.0.den
            == 0 {
            1
        } else {
            comp.framerate.0.den
        },
{
    let w: u32 = comp.width;
    let h: u32 = comp.height;
    let num: u32 = comp.framerate.0.num;
    let den: u32 = comp.framerate.0.den;
    let a = &req.args;
    let format = &req.format;
    if str_eq(format, "h264") {
        Ok(ExportJobKind::Video(with_lossy_flags(EncodeOptions::h264_default(w, h, num, den), a)))
    } else if str_eq(format, "h265") {
        Ok(ExportJobKind::Video(with_lossy_flags(EncodeOptions::h265_default(w, h, num, den), a)))
    } else if str_eq(format, "prores422") {
        Ok(
            ExportJobKind::Video(
                with_prores_flags(EncodeOptions::prores422_default(w, h, num, den), a),
            ),
        )
    } else if str_eq(format, "prores4444") {
        Ok(
            ExportJobKind::Video(
                with_prores_flags(EncodeOptions::prores4444_default(w, h, num, den), a),
            ),
        )
    } else if str_eq(format, "gif") {
        Ok(ExportJobKind::Gif(GifOptions::looping(a.gif_palette, a.gif_dither)))
    } else if str_eq(format, "png") {
        Ok(ExportJobKind::Png { pattern: a.png_pattern.clone() })
    } else if str_eq(format, "exr") {
        Ok(ExportJobKind::Exr { pattern: a.exr_pattern.clone() })
    } else if str_eq(format, "wav") {
        Ok(ExportJobKind::Wav { sample_rate: 48_000, depth: a.wav_depth })
    } else {
        Err(cat("unknown format: ", format))
    }
}

/// A number that tells the flags apart: made of the length and of two letters.
spec fn flag_mark(flag: Seq<char>) -> int {
    flag.len() + 1000 * (flag[2] as int) + 1_000_000 * (flag[3] as int)
}

proof fn flags_are_marked()
    ensures
        flag_mark("--comp"@) == 111099006,
        flag_mark("--out"@) == 117111005,
        flag_mark("--format"@) == 111102008,
        flag_mark("--crf"@) == 114099005,
        flag_mark("--bitrate"@) == 105098009,
        flag_mark("--max-bitrate"@) == 97109013,
        flag_mark("--preset"@) == 114112008,
        flag_mark("--profile"@) == 114112009,
        flag_mark("--gop"@) == 111103005,
        flag_mark("--hw"@) == 119104004,
        flag_mark("--gif-palette"@) == 105103013,
        flag_mark("--gif-dither"@) == 105103012,
        flag_mark("--png-pattern"@) == 110112013,
        flag_mark("--exr-pattern"@) == 120101013,
        flag_mark("--wav-depth"@) == 97119011,
{
    reveal_strlit("--comp");
    reveal_strlit("--out");
    reveal_strlit("--format");
    reveal_strlit("--crf");
    reveal_strlit("--bitrate");
    reveal_strlit("--max-bitrate");
    reveal_strlit("--preset");
    reveal_strlit("--profile");
    reveal_strlit("--gop");
    reveal_strlit("--hw");
    reveal_strlit("--gif-palette");
    reveal_strlit("--gif-dither");
    reveal_strlit("--png-pattern");
    reveal_strlit("--exr-pattern");
    reveal_strlit("--wav-depth");
}

/// A flag that takes a text sets its field to that text, whatever it is, and
/// leaves the others.
pub proof fn text_flags_are_taken(m: RenderModel, v: Seq<char>)
    ensures
        flag_set(m, "--comp"@, v) == Ok::<RenderModel, Seq<char>>(RenderModel { comp_name: Some(v), ..m }),
        flag_set(m, "--out"@, v) == Ok::<RenderModel, Seq<char>>(RenderModel { out_path: Some(v), ..m }),
        flag_set(m, "--format"@, v) == Ok::<RenderModel, Seq<char>>(RenderModel { format: Some(v), ..m }),
        flag_set(m, "--preset"@, v) == Ok::<RenderModel, Seq<char>>(RenderModel { preset: Some(v), ..m }),
        flag_set(m, "--profile"@, v) == Ok::<RenderModel, Seq<char>>(RenderModel { profile: Some(v), ..m }),
        flag_set(m, "--png-pattern"@, v) == Ok::<RenderModel, Seq<char>>(RenderModel { png_pattern: v, ..m }),
        flag_set(m, "--exr-pattern"@, v) == Ok::<RenderModel, Seq<char>>(RenderModel { exr_pattern: v, ..m }),
{
    flags_are_marked();
}

/// A flag that takes a number sets its field to the number that the text
/// writes and leaves the others. A text that writes none, or one that is too
/// large, is refused.
pub proof fn number_flags_are_taken(m: RenderModel, v: Seq<char>)
    ensures
        match unsigned_value(v) {
            Some(n) => {
                &&& if n <= u32::MAX {
                    flag_set(m, "--crf"@, v) == Ok::<RenderModel, Seq<char>>(
                        RenderModel { crf: Some(n as u32), ..m },
                    )
                } else {
                    flag_set(m, "--crf"@, v) is Err
                }
                &&& if n <= u64::MAX {
                    flag_set(m, "--bitrate"@, v) == Ok::<RenderModel, Seq<char>>(
                        RenderModel { bitrate: Some(n as u64), ..m },
                    )
                } else {
                    flag_set(m, "--bitrate"@, v) is Err
                }
                &&& if n <= u64::MAX {
                    flag_set(m, "--max-bitrate"@, v) == Ok::<RenderModel, Seq<char>>(
                        RenderModel { max_bitrate: Some(n as u64), ..m },
                    )
                } else {
                    flag_set(m, "--max-bitrate"@, v) is Err
                }
                &&& if n <= u32::MAX {
                    flag_set(m, "--gop"@, v) == Ok::<RenderModel, Seq<char>>(
                        RenderModel { gop: Some(n as u32), ..m },
                    )
                } else {
                    flag_set(m, "--gop"@, v) is Err
                }
                &&& if n <= u32::MAX {
                    flag_set(m, "--gif-palette"@, v) == Ok::<RenderModel, Seq<char>>(
                        RenderModel { gif_palette: n as u32, ..m },
                    )
                } else {
                    flag_set(m, "--gif-palette"@, v) is Err
                }
            },
            None => {
                &&& flag_set(m, "--crf"@, v) is Err
                &&& flag_set(m, "--bitrate"@, v) is Err
                &&& flag_set(m, "--max-bitrate"@, v) is Err
                &&& flag_set(m, "--gop"@, v) is Err
                &&& flag_set(m, "--gif-palette"@, v) is Err
            },
        },
{
    flags_are_marked();
}

/// A choice is set by its name, and leaves the other fields.
pub proof fn choices_are_taken(m: RenderModel, hw: HwEncoder)
    ensures
        flag_set(m, "--hw"@, hw_label(hw)) == Ok::<RenderModel, Seq<char>>(RenderModel { hw, ..m }),
        flag_set(m, "--hw"@, "auto"@) == Ok::<RenderModel, Seq<char>>(
            RenderModel { hw: HwEncoder::Software, ..m },
        ),
{
    flags_are_marked();
    reveal_strlit("auto");
    reveal_strlit("software");
    reveal_strlit("nvenc");
    reveal_strlit("vaapi");
    reveal_strlit("videotoolbox");
    assert("auto"@.len() != "software"@.len());
    assert("auto"@.len() != "nvenc"@.len());
    assert("auto"@.len() != "vaapi"@.len());
    assert("auto"@.len() != "videotoolbox"@.len());
    assert("software"@.len() != "nvenc"@.len());
    assert("software"@.len() != "vaapi"@.len());
    assert("software"@.len() != "videotoolbox"@.len());
    assert("nvenc"@[0] != "vaapi"@[0]);
    assert("nvenc"@.len() != "videotoolbox"@.len());
    assert("vaapi"@.len() != "videotoolbox"@.len());
}

/// The short name of the dithering `d`.
pub open spec fn dither_name(d: GifDither) -> Seq<char> {
    match d {
        GifDither::Off => "none"@,
        GifDither::Bayer => "bayer"@,
        GifDither::FloydSteinberg => "floyd"@,
        GifDither::Sierra2_4a => "sierra"@,
    }
}

/// Dithering is set by its short name, and leaves the other fields.
pub proof fn dithering_is_taken(m: RenderModel, d: GifDither)
    ensures
        flag_set(m, "--gif-dither"@, dither_name(d)) == Ok::<RenderModel, Seq<char>>(
            RenderModel { gif_dither: d, ..m },
        ),
        flag_set(m, "--gif-dither"@, "floyd_steinberg"@) == flag_set(m, "--gif-dither"@, "floyd"@),
        flag_set(m, "--gif-dither"@, "sierra2_4a"@) == flag_set(m, "--gif-dither"@, "sierra"@),
{
    flags_are_marked();
    reveal_strlit("none");
    reveal_strlit("bayer");
    reveal_strlit("floyd");
    reveal_strlit("sierra");
    reveal_strlit("floyd_steinberg");
    reveal_strlit("sierra2_4a");
    assert("none"@.len() != "bayer"@.len());
    assert("none"@.len() != "floyd"@.len());
    assert("none"@.len() != "sierra"@.len());
    assert("none"@.len() != "floyd_steinberg"@.len());
    assert("none"@.len() != "sierra2_4a"@.len());
    assert("bayer"@[0] != "floyd"@[0]);
    assert("bayer"@.len() != "sierra"@.len());
    assert("bayer"@.len() != "floyd_steinberg"@.len());
    assert("bayer"@.len() != "sierra2_4a"@.len());
    assert("floyd"@.len() != "sierra"@.len());
    assert("floyd"@.len() != "floyd_steinberg"@.len());
    assert("floyd"@.len() != "sierra2_4a"@.len());
    assert("sierra"@.len() != "floyd_steinberg"@.len());
    assert("sierra"@.len() != "sierra2_4a"@.len());
    assert("floyd_steinberg"@.len() != "sierra2_4a"@.len());
}

/// The name of the bit depth `d`: its bits, or that of its numbers.
pub open spec fn depth_name(d: WavBitDepth) -> Seq<char> {
    match d {
        WavBitDepth::Pcm16 => "16"@,
        WavBitDepth::Pcm24 => "24"@,
        WavBitDepth::Float32 => "f32"@,
    }
}

/// The bit depth is set by its name, and leaves the other fields.
pub proof fn bit_depth_is_taken(m: RenderModel, d: WavBitDepth)
    ensures
        flag_set(m, "--wav-depth"@, depth_name(d)) == Ok::<RenderModel, Seq<char>>(
            RenderModel { wav_depth: d, ..m },
        ),
        flag_set(m, "--wav-depth"@, "32f"@) == flag_set(m, "--wav-depth"@, "f32"@),
{
    flags_are_marked();
    reveal_strlit("16");
    reveal_strlit("24");
    reveal_strlit("f32");
    reveal_strlit("32f");
    assert("16"@[0] != "24"@[0]);
    assert("16"@.len() != "f32"@.len());
    assert("16"@.len() != "32f"@.len());
    assert("24"@.len() != "f32"@.len());
    assert("24"@.len() != "32f"@.len());
    assert("f32"@[0] != "32f"@[0]);
}

/// What names no choice is refused, and the text is given back.
pub proof fn unknown_choices_are_refused(m: RenderModel, v: Seq<char>)
    ensures
        (forall|h: HwEncoder| v != #[trigger] hw_label(h)) && v != "auto"@ ==> flag_set(
            m,
            "--hw"@,
            v,
        ) == Err::<RenderModel, Seq<char>>("unknown --hw value: "@ + v),
        (forall|d: GifDither| v != #[trigger] dither_name(d)) && v != "floyd_steinberg"@ && v
            != "sierra2_4a"@ ==> flag_set(m, "--gif-dither"@, v) == Err::<RenderModel, Seq<char>>(
            "unknown --gif-dither: "@ + v,
        ),
        (forall|d: WavBitDepth| v != #[trigger] depth_name(d)) && v != "32f"@ ==> flag_set(
            m,
            "--wav-depth"@,
            v,
        ) == Err::<RenderModel, Seq<char>>("unknown --wav-depth: "@ + v),
{
    flags_are_marked();
    assert(hw_label(HwEncoder::Software) == "software"@);
    assert(hw_label(HwEncoder::Nvenc) == "nvenc"@);
    assert(hw_label(HwEncoder::Vaapi) == "vaapi"@);
    assert(hw_label(HwEncoder::VideoToolbox) == "videotoolbox"@);
    assert(dither_name(GifDither::Off) == "none"@);
    assert(dither_name(GifDither::Bayer) == "bayer"@);
    assert(dither_name(GifDither::FloydSteinberg) == "floyd"@);
    assert(dither_name(GifDither::Sierra2_4a) == "sierra"@);
    assert(depth_name(WavBitDepth::Pcm16) == "16"@);
    assert(depth_name(WavBitDepth::Pcm24) == "24"@);
    assert(depth_name(WavBitDepth::Float32) == "f32"@);
}

/// Flags are read one after the other: a flag and its value at the end change
/// what the flags before them said, as that flag does.
pub proof fn flags_are_read_in_order(
    args: Seq<String>,
    flag: String,
    value: String,
    i: int,
    m: RenderModel,
)
    requires
        0 <= i <= args.len(),
        (args.len() - i) % 2 == 0,
        flags_read(args, i, m) is Ok,
    ensures
        flags_read(args.push(flag).push(value), i, m) == if is_flag(flag@) {
            flag_set(flags_read(args, i, m)->Ok_0, flag@, value@)
        } else {
            Err("unknown flag: "@ + flag@)
        },
    decreases args.len() - i,
{
    let more = args.push(flag).push(value);
    if i == args.len() {
        assert(more[i] == flag && more[i + 1] == value);
        reveal_with_fuel(flags_read, 2);
    } else {
        assert(more[i] == args[i] && more[i + 1] == args[i + 1]);
        let next = flag_set(m, args[i]@, args[i + 1]@)->Ok_0;
        flags_are_read_in_order(args, flag, value, i + 2, next);
    }
}

/// A flag at the end without a value is refused.
pub proof fn flags_need_values(args: Seq<String>, flag: String, i: int, m: RenderModel)
    requires
        0 <= i <= args.len(),
        (args.len() - i) % 2 == 0,
        flags_read(args, i, m) is Ok,
    ensures
        flags_read(args.push(flag), i, m) is Err,
    decreases args.len() - i,
{
    let more = args.push(flag);
    if i == args.len() {
        assert(more[i] == flag);
    } else {
        assert(more[i] == args[i] && more[i + 1] == args[i + 1]);
        flags_need_values(args, flag, i + 2, flag_set(m, args[i]@, args[i + 1]@)->Ok_0);
    }
}

/// A render has an output path and a format.
pub proof fn renders_have_a_target(args: Seq<String>)
    requires
        render_read(args) is Ok,
    ensures
        render_read(args)->Ok_0.out_path is Some,
        render_read(args)->Ok_0.format is Some,
        args.len() >= 5,
{
    if args.len() < 5 {
        reveal_with_fuel(flags_read, 3);
        flags_are_marked();
        let m = no_flags();
        if args.len() >= 3 {
            let n = flag_set(m, args[1]@, args[2]@);
            assert(n is Ok ==> n->Ok_0.out_path is None || n->Ok_0.format is None);
        }
    }
}

/// The composition that is picked by name has that name, and none before it
/// does; without a name it is the first.
pub proof fn picked_comp_is_the_first_of_its_name(
    comps: Seq<CompositionModel>,
    name: Option<Seq<char>>,
)
    ensures
        match comp_picked(comps, name) {
            Ok(id) => exists|i: int|
                0 <= i < comps.len() && (#[trigger] comps[i]).id == id && match name {
                    Some(n) => comps[i].name == n && forall|j: int|
                        0 <= j < i ==> (#[trigger] comps[j]).name != n,
                    None => i == 0,
                },
            Err(_) => match name {
                Some(n) => forall|j: int| 0 <= j < comps.len() ==> (#[trigger] comps[j]).name != n,
                None => comps.len() == 0,
            },
        },
{
    if let Some(n) = name {
        first_where_is_first(comps, is_named(n), 0);
        match first_where(comps, is_named(n), 0) {
            Some(i) => {
                assert(is_named(n)(comps[i]));
                assert forall|j: int| 0 <= j < i implies (#[trigger] comps[j]).name != n by {
                    assert(!is_named(n)(comps[j]));
                }
            },
            None => {
                assert forall|j: int| 0 <= j < comps.len() implies (#[trigger] comps[j]).name
                    != n by {
                    assert(!is_named(n)(comps[j]));
                }
            },
        }
    } else if comps.len() > 0 {
        assert(comps[0].id == comp_picked(comps, name)->Ok_0);
    }
}

proof fn formats_differ()
    ensures
        "h264"@ != "h265"@,
        "prores422"@ != "prores4444"@,
        forall|f: Seq<char>| #[trigger] is_video_format(f) ==> f.len() == 4 || f.len() == 9 || f.len()
            == 10,
        "gif"@.len() == 3,
        "png"@.len() == 3,
        "exr"@.len() == 3,
        "wav"@.len() == 3,
        "gif"@ != "png"@,
        "gif"@ != "exr"@,
        "gif"@ != "wav"@,
        "png"@ != "exr"@,
        "png"@ != "wav"@,
        "exr"@ != "wav"@,
        "h264"@.len() == 4,
        "h265"@.len() == 4,
        "prores422"@.len() == 9,
        "prores4444"@.len() == 10,
{
    reveal_strlit("h264");
    reveal_strlit("h265");
    reveal_strlit("prores422");
    reveal_strlit("prores4444");
    reveal_strlit("gif");
    reveal_strlit("png");
    reveal_strlit("exr");
    reveal_strlit("wav");
    assert("h264"@[3] != "h265"@[3]);
    assert("h264"@.len() != "prores422"@.len());
    assert("h264"@.len() != "prores4444"@.len());
    assert("h264"@.len() != "gif"@.len());
    assert("h264"@.len() != "png"@.len());
    assert("h264"@.len() != "exr"@.len());
    assert("h264"@.len() != "wav"@.len());
    assert("h265"@.len() != "prores422"@.len());
    assert("h265"@.len() != "prores4444"@.len());
    assert("h265"@.len() != "gif"@.len());
    assert("h265"@.len() != "png"@.len());
    assert("h265"@.len() != "exr"@.len());
    assert("h265"@.len() != "wav"@.len());
    assert("prores422"@.len() != "prores4444"@.len());
    assert("prores422"@.len() != "gif"@.len());
    assert("prores422"@.len() != "png"@.len());
    assert("prores422"@.len() != "exr"@.len());
    assert("prores422"@.len() != "wav"@.len());
    assert("prores4444"@.len() != "gif"@.len());
    assert("prores4444"@.len() != "png"@.len());
    assert("prores4444"@.len() != "exr"@.len());
    assert("prores4444"@.len() != "wav"@.len());
    assert("gif"@[0] != "png"@[0]);
    assert("gif"@[0] != "exr"@[0]);
    assert("gif"@[0] != "wav"@[0]);
    assert("png"@[0] != "exr"@[0]);
    assert("png"@[0] != "wav"@[0]);
    assert("exr"@[0] != "wav"@[0]);
}

/// Whether `format` is that of a video.
pub open spec fn is_video_format(format: Seq<char>) -> bool {
    exists|c: VideoCodec| format == #[trigger] codec_label(c)
}

/// A render to a video makes a video of the codec that the format names, as
/// large as the composition and as long: at its framerate.
pub proof fn rendered_video_keeps_size_and_rate(
    c: CompositionModel,
    codec: VideoCodec,
    m: RenderModel,
)
    ensures
        render_job_of(c, codec_label(codec), m) matches Ok(JobModel::Video(o)) && {
            &&& o.codec == codec
            &&& o.width == c.width
            &&& o.height == c.height
            &&& o.framerate.1 > 0
            &&& c.framerate.0.den > 0 ==> o.framerate.0 * c.framerate.0.den == o.framerate.1
                * c.framerate.0.num
        },
{
    formats_differ();
    let a = c.framerate.0.num as int;
    let b = c.framerate.0.den as int;
    assert(a * b == b * a) by (nonlinear_arith);
}

/// What the flags give reaches the encoder of a lossy video; what they leave
/// out stays as it is without flags. A bitrate controls the rate, up to the
/// maximum if one is given.
pub proof fn lossy_flags_reach_the_encoder(c: CompositionModel, codec: VideoCodec, m: RenderModel)
    requires
        codec == VideoCodec::H264 || codec == VideoCodec::H265,
    ensures
        render_job_of(c, codec_label(codec), m) matches Ok(JobModel::Video(o)) && {
            &&& o.crf == if m.crf is Some {
                m.crf->0
            } else {
                18
            }
            &&& o.target_bitrate == if m.bitrate is Some {
                m.bitrate->0
            } else {
                0
            }
            &&& o.max_bitrate == if m.max_bitrate is Some {
                m.max_bitrate->0
            } else {
                0
            }
            &&& o.keyframe_interval == if m.gop is Some {
                m.gop->0
            } else {
                0
            }
            &&& m.preset is Some ==> o.preset == m.preset->0
            &&& m.preset is None ==> o.preset == "medium"@
            &&& m.profile is Some ==> o.profile == m.profile->0
            &&& m.profile is None ==> o.profile == "high"@
            &&& o.hw == m.hw
            &&& o.rate_control == RateControl::Crf <==> m.bitrate is None
            &&& o.rate_control == RateControl::Vbr <==> m.bitrate is Some && m.max_bitrate is Some
        },
{
    formats_differ();
}

/// Of the flags, only the profile reaches the encoder of a ProRes video.
pub proof fn prores_takes_the_profile_alone(
    c: CompositionModel,
    codec: VideoCodec,
    m: RenderModel,
    n: RenderModel,
)
    requires
        codec == VideoCodec::Prores422 || codec == VideoCodec::Prores4444,
        m.profile == n.profile,
    ensures
        render_job_of(c, codec_label(codec), m) == render_job_of(c, codec_label(codec), n),
        m.profile is Some ==> (render_job_of(c, codec_label(codec), m) matches Ok(JobModel::Video(o))
            && o.profile == m.profile->0),
{
    formats_differ();
}

/// The other formats are made as their flags say, whatever the composition.
pub proof fn other_formats_follow_their_flags(c: CompositionModel, m: RenderModel)
    ensures
        render_job_of(c, "gif"@, m) matches Ok(JobModel::Gif(g)) && g.max_palette == m.gif_palette
            && g.dither == m.gif_dither && g.framerate_cap is None && g.loop_forever
            && !g.transparency,
        render_job_of(c, "png"@, m) matches Ok(JobModel::Png { pattern }) && pattern
            == m.png_pattern,
        render_job_of(c, "exr"@, m) matches Ok(JobModel::Exr { pattern }) && pattern
            == m.exr_pattern,
        render_job_of(c, "wav"@, m) matches Ok(JobModel::Wav { sample_rate, depth }) && depth
            == m.wav_depth && sample_rate == 48_000,
{
    formats_differ();
}

/// There are no other formats.
pub proof fn unknown_formats_are_refused(c: CompositionModel, format: Seq<char>, m: RenderModel)
    requires
        !is_video_format(format),
        format != "gif"@,
        format != "png"@,
        format != "exr"@,
        format != "wav"@,
    ensures
        render_job_of(c, format, m) == Err::<JobModel, Seq<char>>("unknown format: "@ + format),
{
    assert(codec_label(VideoCodec::H264) == "h264"@);
    assert(codec_label(VideoCodec::H265) == "h265"@);
    assert(codec_label(VideoCodec::Prores422) == "prores422"@);
    assert(codec_label(VideoCodec::Prores4444) == "prores4444"@);
}

/// A render without flags makes what an export with the options that the
/// program starts with makes.
pub proof fn render_without_flags_is_the_default_export(c: CompositionModel, codec: VideoCodec)
    ensures
        render_job_of(c, codec_label(codec), no_flags()) == Ok::<JobModel, Seq<char>>(
            export_job(
                c,
                ExportModel {
                    format: match codec {
                        VideoCodec::H264 => ExportFormat::H264,
                        VideoCodec::H265 => ExportFormat::H265,
                        VideoCodec::Prores422 => ExportFormat::Prores422,
                        VideoCodec::Prores4444 => ExportFormat::Prores4444,
                    },
                    ..default_export()
                },
            ),
        ),
        render_job_of(c, "gif"@, no_flags()) == Ok::<JobModel, Seq<char>>(
            export_job(c, ExportModel { format: ExportFormat::Gif, ..default_export() }),
        ),
        render_job_of(c, "png"@, no_flags()) == Ok::<JobModel, Seq<char>>(
            export_job(c, ExportModel { format: ExportFormat::PngSequence, ..default_export() }),
        ),
        render_job_of(c, "exr"@, no_flags()) == Ok::<JobModel, Seq<char>>(
            export_job(c, ExportModel { format: ExportFormat::ExrSequence, ..default_export() }),
        ),
        render_job_of(c, "wav"@, no_flags()) == Ok::<JobModel, Seq<char>>(
            export_job(c, ExportModel { format: ExportFormat::Wav, ..default_export() }),
        ),
{
    formats_differ();
    reveal_strlit("medium");
}

/// The first word decides what is done: rendering is asked for by name, help
/// by any of its names or by no word at all, and another word is reported as
/// it was given.
pub proof fn first_word_decides(c: Command, args: Seq<String>)
    requires
        is_command(c, args),
    ensures
        args.len() >= 2 && args[1]@ == "render"@ <==> c is Render,
        args.len() < 2 ==> c is Help,
        args.len() >= 2 && (args[1]@ == "help"@ || args[1]@ == "--help"@ || args[1]@ == "-h"@)
            ==> c is Help,
        c matches Command::Unknown(word) ==> args.len() >= 2 && word@ == args[1]@,
{
    reveal_strlit("render");
    reveal_strlit("help");
    reveal_strlit("--help");
    reveal_strlit("-h");
    assert("render"@.len() == 6 && "help"@.len() == 4 && "-h"@.len() == 2);
    assert("--help"@[0] != "render"@[0]);
}

/// The flags of the render command, as the help lists them.
pub open spec fn render_flags() -> Seq<Seq<char>> {
    seq![
        "--comp"@,
        "--out"@,
        "--format"@,
        "--crf"@,
        "--bitrate"@,
        "--max-bitrate"@,
        "--preset"@,
        "--profile"@,
        "--gop"@,
        "--hw"@,
        "--gif-palette"@,
        "--gif-dither"@,
        "--png-pattern"@,
        "--exr-pattern"@,
        "--wav-depth"@,
    ]
}

/// The flags that are listed are the ones that are known.
pub proof fn listed_flags_are_known(flag: Seq<char>, i: int)
    ensures
        is_flag(flag) <==> render_flags().contains(flag),
        0 <= i < render_flags().len() ==> is_flag(render_flags()[i]),
{
    let all = render_flags();
    assert forall|k: int| 0 <= k < all.len() implies is_flag(#[trigger] all[k]) by {}
    if is_flag(flag) {
        assert(all[0] == "--comp"@);
        assert(all[1] == "--out"@);
        assert(all[2] == "--format"@);
        assert(all[3] == "--crf"@);
        assert(all[4] == "--bitrate"@);
        assert(all[5] == "--max-bitrate"@);
        assert(all[6] == "--preset"@);
        assert(all[7] == "--profile"@);
        assert(all[8] == "--gop"@);
        assert(all[9] == "--hw"@);
        assert(all[10] == "--gif-palette"@);
        assert(all[11] == "--gif-dither"@);
        assert(all[12] == "--png-pattern"@);
        assert(all[13] == "--exr-pattern"@);
        assert(all[14] == "--wav-depth"@);
    }
}

/// The first argument is the project and no flag; the one behind it is a flag,
/// and is reported if it is not known. Flags without a target are refused.
pub proof fn flags_follow_the_project(args: Seq<String>)
    ensures
        args.len() == 0 ==> render_read(args) is Err,
        args.len() == 1 ==> render_read(args) == Err::<RenderModel, Seq<char>>("--out required"@),
        args.len() >= 2 && !is_flag(args[1]@) ==> render_read(args) == Err::<
            RenderModel,
            Seq<char>,
        >("unknown flag: "@ + args[1]@),
        args.len() == 2 && is_flag(args[1]@) ==> render_read(args) == Err::<
            RenderModel,
            Seq<char>,
        >("missing "@ + args[1]@ + " value"@),
{
}

} // verus!
