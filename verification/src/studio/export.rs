//! Exports: formats, options, the plan that a worker follows, and the state
//! of a running export.

use crate::media::encode::{
    h264_options, h265_options, prores4444_options, prores422_options, EncodeModel, EncodeOptions,
    HwEncoder, RateControl, VideoCodec,
};
use crate::media::wav::WavBitDepth;
use crate::model::composition::{CompId, CompositionModel};
use crate::model::project::{comp_index, Project};
use crate::paths::{
    extension, extension_of, file_name, file_name_is_name, file_name_of, is_name,
    named_has_extension, set_file_name, with_file_name,
};
use crate::text::{ascii_lowercase, ascii_lowercase_text, cat, str_eq};
use vstd::prelude::*;

verus! {

#[derive(Clone, Copy, Debug, PartialEq, Eq, Structural)]
pub enum ExportFormat {
    H264,
    H265,
    Prores422,
    Prores4444,
    Gif,
    PngSequence,
    ExrSequence,
    Wav,
}

/// The name of `f` in the interface.
pub open spec fn format_label(f: ExportFormat) -> Seq<char> {
    match f {
        ExportFormat::H264 => "H.264 / MP4"@,
        ExportFormat::H265 => "H.265 / MP4"@,
        ExportFormat::Prores422 => "ProRes 422 / MOV"@,
        ExportFormat::Prores4444 => "ProRes 4444 / MOV"@,
        ExportFormat::Gif => "Animated GIF"@,
        ExportFormat::PngSequence => "PNG sequence"@,
        ExportFormat::ExrSequence => "EXR sequence"@,
        ExportFormat::Wav => "WAV audio only"@,
    }
}

/// The file extension that `f` needs. Sequences go to a directory.
pub open spec fn format_extension(f: ExportFormat) -> Option<Seq<char>> {
    match f {
        ExportFormat::H264 => Some("mp4"@),
        ExportFormat::H265 => Some("mp4"@),
        ExportFormat::Prores422 => Some("mov"@),
        ExportFormat::Prores4444 => Some("mov"@),
        ExportFormat::Gif => Some("gif"@),
        ExportFormat::Wav => Some("wav"@),
        ExportFormat::PngSequence => None,
        ExportFormat::ExrSequence => None,
    }
}

impl ExportFormat {
    pub fn label(self) -> (r: &'static str)
        ensures
            r@ == format_label(self),
    {
        match self {
            ExportFormat::H264 => "H.264 / MP4",
            ExportFormat::H265 => "H.265 / MP4",
            ExportFormat::Prores422 => "ProRes 422 / MOV",
            ExportFormat::Prores4444 => "ProRes 4444 / MOV",
            ExportFormat::Gif => "Animated GIF",
            ExportFormat::PngSequence => "PNG sequence",
            ExportFormat::ExrSequence => "EXR sequence",
            ExportFormat::Wav => "WAV audio only",
        }
    }

    /// Every format, in menu order.
    pub fn all() -> (r: [ExportFormat; 8])
        ensures
            r@ == seq![
                ExportFormat::H264,
                ExportFormat::H265,
                ExportFormat::Prores422,
                ExportFormat::Prores4444,
                ExportFormat::Gif,
                ExportFormat::PngSequence,
                ExportFormat::ExrSequence,
                ExportFormat::Wav,
            ],
    {
        [
            ExportFormat::H264,
            ExportFormat::H265,
            ExportFormat::Prores422,
            ExportFormat::Prores4444,
            ExportFormat::Gif,
            ExportFormat::PngSequence,
            ExportFormat::ExrSequence,
            ExportFormat::Wav,
        ]
    }

    /// The file extension that the format needs, since the container is
    /// picked by it. Sequences go to a directory and need none.
    pub fn required_extension(self) -> (r: Option<&'static str>)
        ensures
            match format_extension(self) {
                Some(e) => r is Some && r->0@ == e,
                None => r is None,
            },
    {
        match self {
            ExportFormat::H264 | ExportFormat::H265 => Some("mp4"),
            ExportFormat::Prores422 | ExportFormat::Prores4444 => Some("mov"),
            ExportFormat::Gif => Some("gif"),
            ExportFormat::Wav => Some("wav"),
            ExportFormat::PngSequence | ExportFormat::ExrSequence => None,
        }
    }
}

/// Whether `f` is a video in a container.
pub open spec fn is_video(f: ExportFormat) -> bool {
    f == ExportFormat::H264 || f == ExportFormat::H265 || f == ExportFormat::Prores422 || f
        == ExportFormat::Prores4444
}

/// Whether `e` is the extension of a video container.
pub open spec fn is_container(e: Seq<char>) -> bool {
    e == "mp4"@ || e == "mov"@ || e == "m4v"@ || e == "mkv"@
}

/// Whether `path` already has an extension that `f` can be written under.
pub open spec fn extension_fits(f: ExportFormat, path: Seq<char>) -> bool {
    match format_extension(f) {
        None => true,
        Some(want) => match extension(path) {
            None => false,
            Some(e) => ascii_lowercase(e) == want || (is_video(f) && is_container(
                ascii_lowercase(e),
            )),
        },
    }
}

/// `path` with the extension that `f` needs behind its name.
pub open spec fn with_extension_added(f: ExportFormat, path: Seq<char>) -> Seq<char> {
    let name = match file_name(path) {
        Some(n) => n,
        None => "export"@,
    };
    with_file_name(path, (name + "."@) + format_extension(f).unwrap())
}

/// Appends the extension that the format expects if `path` does not carry it
/// (in any case). Videos may go into any video container; other formats need
/// their own extension. Returns the path and whether it was changed.
pub fn ensure_extension(format: ExportFormat, path: String) -> (r: (String, bool))
    ensures
        r.1 == !extension_fits(format, path@),
        r.0@ == if extension_fits(format, path@) {
            path@
        } else {
            with_extension_added(format, path@)
        },
{
    let want = match format.required_extension() {
        Some(w) => w,
        None => {
            return (path, false);
        },
    };
    if let Some(e) = extension_of(&path) {
        let have = ascii_lowercase_text(&e);
        if str_eq(&have, want) {
            return (path, false);
        }
        let video = match format {
            ExportFormat::H264
            | ExportFormat::H265
            | ExportFormat::Prores422
            | ExportFormat::Prores4444 => true,
            _ => false,
        };
        if video && (str_eq(&have, "mp4") || str_eq(&have, "mov") || str_eq(&have, "m4v")
            || str_eq(&have, "mkv")) {
            return (path, false);
        }
    }
    let name = match file_name_of(&path) {
        Some(n) => n,
        None => "export".to_owned(),
    };
    let name = cat(&name, ".");
    let name = cat(&name, want);
    (set_file_name(&path, &name), true)
}

/// How colours of a GIF are approximated.
#[derive(Clone, Copy, Debug, PartialEq, Eq, Structural)]
pub enum GifDither {
    Off,
    Bayer,
    FloydSteinberg,
    Sierra2_4a,
}

/// How a GIF is written.
#[derive(Clone, Copy, Debug, PartialEq, Eq, Structural)]
pub struct GifOptions {
    pub max_palette: u32,
    pub dither: GifDither,
    /// Frames per second at most, as they come if there is no limit.
    pub framerate_cap: Option<u32>,
    pub loop_forever: bool,
    pub transparency: bool,
}

/// A GIF that loops, at full framerate, without transparency.
pub open spec fn gif_options(max_palette: u32, dither: GifDither) -> GifOptions {
    GifOptions { max_palette, dither, framerate_cap: None, loop_forever: true, transparency: false }
}

impl GifOptions {
    pub fn looping(max_palette: u32, dither: GifDither) -> (r: Self)
        ensures
            r == gif_options(max_palette, dither),
    {
        GifOptions {
            max_palette,
            dither,
            framerate_cap: None,
            loop_forever: true,
            transparency: false,
        }
    }
}

/// What the user can choose for an export.
#[derive(Debug, PartialEq, Eq)]
pub struct ExportOptions {
    pub format: ExportFormat,
    pub out_path: Option<String>,
    pub crf: u32,
    pub preset: String,
    pub gif_palette: u32,
    pub gif_dither: GifDither,
    pub wav_depth: WavBitDepth,
    /// Preferred graphics adapter; `None` is automatic.
    pub gpu_name_pref: Option<String>,
}

/// What export options hold.
#[verifier::ext_equal]
pub struct ExportModel {
    pub format: ExportFormat,
    pub out_path: Option<Seq<char>>,
    pub crf: u32,
    pub preset: Seq<char>,
    pub gif_palette: u32,
    pub gif_dither: GifDither,
    pub wav_depth: WavBitDepth,
    pub gpu_name_pref: Option<Seq<char>>,
}

/// The characters of `s`, if there is one.
pub open spec fn text_view(s: Option<String>) -> Option<Seq<char>> {
    match s {
        Some(t) => Some(t@),
        None => None,
    }
}

impl View for ExportOptions {
    type V = ExportModel;

    open spec fn view(&self) -> ExportModel {
        ExportModel {
            format: self.format,
            out_path: text_view(self.out_path),
            crf: self.crf,
            preset: self.preset@,
            gif_palette: self.gif_palette,
            gif_dither: self.gif_dither,
            wav_depth: self.wav_depth,
            gpu_name_pref: text_view(self.gpu_name_pref),
        }
    }
}

/// The options that a program starts with.
pub open spec fn default_export() -> ExportModel {
    ExportModel {
        format: ExportFormat::H264,
        out_path: None,
        crf: 18,
        preset: "medium"@,
        gif_palette: 128,
        gif_dither: GifDither::FloydSteinberg,
        wav_depth: WavBitDepth::Pcm16,
        gpu_name_pref: None,
    }
}

impl Default for ExportOptions {
    fn default() -> (r: Self)
        ensures
            r@ == default_export(),
    {
        ExportOptions {
            format: ExportFormat::H264,
            out_path: None,
            crf: 18,
            preset: "medium".to_owned(),
            gif_palette: 128,
            gif_dither: GifDither::FloydSteinberg,
            wav_depth: WavBitDepth::Pcm16,
            gpu_name_pref: None,
        }
    }
}

fn copy_text(s: &Option<String>) -> (r: Option<String>)
    ensures
        text_view(r) == text_view(*s),
{
    match s {
        Some(t) => Some(t.clone()),
        None => None,
    }
}

impl ExportOptions {
    /// A copy of these options.
    pub fn duplicate(&self) -> (r: Self)
        ensures
            r@ == self@,
    {
        ExportOptions {
            format: self.format,
            out_path: copy_text(&self.out_path),
            crf: self.crf,
            preset: self.preset.clone(),
            gif_palette: self.gif_palette,
            gif_dither: self.gif_dither,
            wav_depth: self.wav_depth,
            gpu_name_pref: copy_text(&self.gpu_name_pref),
        }
    }

    /// Chooses a format. The output path is dropped, since its extension is
    /// wrong now.
    pub fn choose_format(&mut self, format: ExportFormat)
        ensures
            final(self)@ == (ExportModel { format, out_path: None, ..old(self)@ }),
    {
        self.format = format;
        self.out_path = None;
    }

    /// Whether an export can start: it needs an output path.
    pub fn ready(&self) -> (r: bool)
        ensures
            r == (self@.out_path is Some),
    {
        self.out_path.is_some()
    }

    /// Settles the output path before an export starts: completes its
    /// extension. Fails if there is none.
    pub fn settle_path(&mut self) -> (r: Result<(), String>)
        ensures
            match old(self)@.out_path {
                None => r matches Err(t) && t@ == "no output path"@ && final(self)@ == old(self)@,
                Some(p) => r is Ok && final(self)@ == (ExportModel {
                    out_path: Some(
                        if extension_fits(old(self)@.format, p) {
                            p
                        } else {
                            with_extension_added(old(self)@.format, p)
                        },
                    ),
                    ..old(self)@
                }),
            },
    {
        match &self.out_path {
            None => Err("no output path".to_owned()),
            Some(p) => {
                let (path, _changed) = ensure_extension(self.format, p.clone());
                self.out_path = Some(path);
                Ok(())
            },
        }
    }
}

/// What an export worker does.
#[derive(Debug, PartialEq, Eq)]
pub enum ExportJobKind {
    Video(EncodeOptions),
    Gif(GifOptions),
    /// One picture per frame, named by the pattern.
    Png { pattern: String },
    Exr { pattern: String },
    Wav { sample_rate: u32, depth: WavBitDepth },
}

/// What a job does, over mathematical values.
pub enum JobModel {
    Video(EncodeModel),
    Gif(GifOptions),
    Png { pattern: Seq<char> },
    Exr { pattern: Seq<char> },
    Wav { sample_rate: u32, depth: WavBitDepth },
}

impl View for ExportJobKind {
    type V = JobModel;

    open spec fn view(&self) -> JobModel {
        match self {
            ExportJobKind::Video(o) => JobModel::Video(o@),
            ExportJobKind::Gif(o) => JobModel::Gif(*o),
            ExportJobKind::Png { pattern } => JobModel::Png { pattern: pattern@ },
            ExportJobKind::Exr { pattern } => JobModel::Exr { pattern: pattern@ },
            ExportJobKind::Wav { sample_rate, depth } => JobModel::Wav {
                sample_rate: *sample_rate,
                depth: *depth,
            },
        }
    }
}

/// The encode options of an H.264 or H.265 export: by quality, with the chosen
/// preset unless it is empty.
pub open spec fn lossy_options(base: EncodeModel, o: ExportModel) -> EncodeModel {
    EncodeModel {
        rate_control: RateControl::Crf,
        crf: o.crf,
        preset: if o.preset.len() == 0 {
            base.preset
        } else {
            o.preset
        },
        hw: HwEncoder::Software,
        ..base
    }
}

/// What the export of `c` with the options `o` does.
pub open spec fn export_job(c: CompositionModel, o: ExportModel) -> JobModel {
    let w = c.width;
    let h = c.height;
    let num = c.framerate.0.num;
    let den = c.framerate.0.den;
    match o.format {
        ExportFormat::H264 => JobModel::Video(lossy_options(h264_options(w, h, num, den), o)),
        ExportFormat::H265 => JobModel::Video(lossy_options(h265_options(w, h, num, den), o)),
        ExportFormat::Prores422 => JobModel::Video(prores422_options(w, h, num, den)),
        ExportFormat::Prores4444 => JobModel::Video(prores4444_options(w, h, num, den)),
        ExportFormat::Gif => JobModel::Gif(gif_options(o.gif_palette, o.gif_dither)),
        ExportFormat::PngSequence => JobModel::Png { pattern: "frame_{frame:05}.png"@ },
        ExportFormat::ExrSequence => JobModel::Exr { pattern: "frame_{frame:05}.exr"@ },
        ExportFormat::Wav => JobModel::Wav { sample_rate: 48_000, depth: o.wav_depth },
    }
}

/// A planned export.
#[derive(Debug, PartialEq, Eq)]
pub struct ExportPlan {
    pub out_path: String,
    pub total_frames: u32,
    pub job: ExportJobKind,
}

fn apply_lossy(base: EncodeOptions, o: &ExportOptions) -> (r: EncodeOptions)
    ensures
        r@ == lossy_options(base@, o@),
{
    let mut e = base;
    e.rate_control = RateControl::Crf;
    e.crf = o.crf;
    proof {
        reveal_strlit("");
        if o@.preset.len() == 0 {
            assert(o@.preset =~= ""@);
        }
    }
    if !str_eq(&o.preset, "") {
        e.preset = o.preset.clone();
    }
    e.hw = HwEncoder::Software;
    e
}

/// Plans an export of the composition with `comp_id`.
pub fn plan_export(project: &Project, comp_id: CompId, opts: &ExportOptions) -> (r: Result<
    ExportPlan,
    String,
>)
    ensures
        match comp_index(project@.compositions, comp_id) {
            None => r matches Err(t) && t@ == "comp not found in project"@,
            Some(i) => match opts@.out_path {
                None => r matches Err(t) && t@ == "no output path"@,
                Some(path) => {
                    let c = project@.compositions[i];
                    r matches Ok(plan) && plan.out_path@ == path && plan.total_frames
                        == c.duration_frames && plan.job@ == export_job(c, opts@)
                },
            },
        },
{
    let comp = match project.composition(comp_id) {
        Some(c) => c,
        None => {
            return Err("comp not found in project".to_owned());
        },
    };
    let w: u32 = comp.width;
    let h: u32 = comp.height;
    let num: u32 = comp.framerate.0.num;
    let den: u32 = comp.framerate.0.den;
    let out_path = match &opts.out_path {
        Some(p) => p.clone(),
        None => {
            return Err("no output path".to_owned());
        },
    };
    let job = match opts.format {
        ExportFormat::H264 => ExportJobKind::Video(
            apply_lossy(EncodeOptions::h264_default(w, h, num, den), opts),
        ),
        ExportFormat::H265 => ExportJobKind::Video(
            apply_lossy(EncodeOptions::h265_default(w, h, num, den), opts),
        ),
        ExportFormat::Prores422 => ExportJobKind::Video(
            EncodeOptions::prores422_default(w, h, num, den),
        ),
        ExportFormat::Prores4444 => ExportJobKind::Video(
            EncodeOptions::prores4444_default(w, h, num, den),
        ),
        ExportFormat::Gif => ExportJobKind::Gif(
            GifOptions::looping(opts.gif_palette, opts.gif_dither),
        ),
        ExportFormat::PngSequence => ExportJobKind::Png {
            pattern: "frame_{frame:05}.png".to_owned(),
        },
        ExportFormat::ExrSequence => ExportJobKind::Exr {
            pattern: "frame_{frame:05}.exr".to_owned(),
        },
        ExportFormat::Wav => ExportJobKind::Wav { sample_rate: 48_000, depth: opts.wav_depth },
    };
    Ok(ExportPlan { out_path, total_frames: comp.duration_frames, job })
}

/// Messages of an export worker.
#[derive(Clone, Debug, PartialEq, Eq)]
pub enum ExportProgress {
    Started { total_frames: u32 },
    Frame { done: u32, total: u32 },
    Done,
    Failed(String),
}

/// A running export.
#[derive(Clone, Debug, PartialEq, Eq)]
pub struct ExportJob {
    pub format: ExportFormat,
    pub out_path: String,
}

#[derive(Clone, Debug, PartialEq, Eq)]
pub struct ExportStatus {
    pub done: u32,
    pub total: u32,
    pub finished: bool,
    pub error: Option<String>,
}

/// What an export status holds.
#[verifier::ext_equal]
pub struct StatusModel {
    pub done: u32,
    pub total: u32,
    pub finished: bool,
    pub error: Option<Seq<char>>,
}

impl View for ExportStatus {
    type V = StatusModel;

    open spec fn view(&self) -> StatusModel {
        StatusModel {
            done: self.done,
            total: self.total,
            finished: self.finished,
            error: text_view(self.error),
        }
    }
}

/// The status before anything has happened.
pub open spec fn new_status() -> StatusModel {
    StatusModel { done: 0, total: 0, finished: false, error: None }
}

/// `s` after the message `m`.
pub open spec fn status_after(s: StatusModel, m: ExportProgress) -> StatusModel {
    match m {
        ExportProgress::Started { total_frames } => StatusModel { total: total_frames, ..s },
        ExportProgress::Frame { done, total } => StatusModel { done, total, ..s },
        ExportProgress::Done => StatusModel { finished: true, error: None, ..s },
        ExportProgress::Failed(e) => StatusModel { finished: true, error: Some(e@), ..s },
    }
}

/// Whether the message `m` is the worker's last.
pub open spec fn is_last(m: ExportProgress) -> bool {
    m is Done || m is Failed
}

/// `s` after the worker went away without a last message.
pub open spec fn status_lost(s: StatusModel) -> StatusModel {
    if s.finished {
        s
    } else {
        StatusModel {
            finished: true,
            error: Some("export worker disconnected unexpectedly"@),
            ..s
        }
    }
}

impl Default for ExportStatus {
    fn default() -> (r: Self)
        ensures
            r@ == new_status(),
    {
        ExportStatus { done: 0, total: 0, finished: false, error: None }
    }
}

impl ExportStatus {
    /// The status of an export that could not start.
    pub fn failed_to_start(error: String) -> (r: Self)
        ensures
            r@ == (StatusModel { done: 0, total: 0, finished: true, error: Some(error@) }),
    {
        ExportStatus { done: 0, total: 0, finished: true, error: Some(error) }
    }

    /// Takes in a message. Returns whether it was the last one.
    pub fn absorb(&mut self, m: ExportProgress) -> (r: bool)
        ensures
            final(self)@ == status_after(old(self)@, m),
            r == is_last(m),
    {
        match m {
            ExportProgress::Started { total_frames } => {
                self.total = total_frames;
                false
            },
            ExportProgress::Frame { done, total } => {
                self.done = done;
                self.total = total;
                false
            },
            ExportProgress::Done => {
                self.finished = true;
                self.error = None;
                true
            },
            ExportProgress::Failed(e) => {
                self.finished = true;
                self.error = Some(e);
                true
            },
        }
    }

    /// Takes in that the worker went away.
    pub fn worker_lost(&mut self)
        ensures
            final(self)@ == status_lost(old(self)@),
    {
        if !self.finished {
            self.finished = true;
            self.error = Some("export worker disconnected unexpectedly".to_owned());
        }
    }
}

/// A path that was completed needs no completing again.
pub proof fn completed_path_fits(format: ExportFormat, path: Seq<char>)
    requires
        format_extension(format) is Some,
    ensures
        extension_fits(format, with_extension_added(format, path)),
{
    reveal_strlit("mp4");
    reveal_strlit("mov");
    reveal_strlit("gif");
    reveal_strlit("wav");
    reveal_strlit(".");
    reveal_strlit("export");
    let stem = match file_name(path) {
        Some(n) => n,
        None => "export"@,
    };
    if file_name(path) is Some {
        file_name_is_name(path);
    } else {
        assert(is_name(stem)) by {
            assert(stem.len() == 6);
        }
    }
    let e = format_extension(format).unwrap();
    assert("."@ =~= seq!['.']);
    named_has_extension(path, stem, e);
    assert(ascii_lowercase(e) =~= e);
}

/// An exported video is as large as the composition and as long: it has its
/// framerate. It is of the codec that was chosen, in software.
pub proof fn exported_video_keeps_size_and_rate(c: CompositionModel, o: ExportModel)
    requires
        is_video(o.format),
    ensures
        export_job(c, o) matches JobModel::Video(e) && {
            &&& e.width == c.width
            &&& e.height == c.height
            &&& e.framerate.1 > 0
            &&& c.framerate.0.den > 0 ==> e.framerate.0 * c.framerate.0.den == e.framerate.1
                * c.framerate.0.num
            &&& e.codec == VideoCodec::H264 <==> o.format == ExportFormat::H264
            &&& e.codec == VideoCodec::H265 <==> o.format == ExportFormat::H265
            &&& e.codec == VideoCodec::Prores422 <==> o.format == ExportFormat::Prores422
            &&& e.codec == VideoCodec::Prores4444 <==> o.format == ExportFormat::Prores4444
            &&& e.hw == HwEncoder::Software
        },
{
    let a = c.framerate.0.num as int;
    let b = c.framerate.0.den as int;
    assert(a * b == b * a) by (nonlinear_arith);
}

/// The chosen quality and preset reach a lossy video, and nothing else of the
/// options does.
pub proof fn quality_reaches_the_video(c: CompositionModel, o: ExportModel, p: ExportModel)
    requires
        o.format == ExportFormat::H264 || o.format == ExportFormat::H265,
        p.format == o.format,
        p.crf == o.crf,
        p.preset == o.preset,
    ensures
        export_job(c, o) == export_job(c, p),
        export_job(c, o) matches JobModel::Video(e) && {
            &&& e.rate_control == RateControl::Crf
            &&& e.crf == o.crf
            &&& o.preset.len() > 0 ==> e.preset == o.preset
            &&& o.preset.len() == 0 ==> e.preset == "medium"@
        },
{
}

/// ProRes videos and picture sequences do not depend on the options beyond the
/// format; a GIF takes its palette and dithering, a sound file its bit depth.
pub proof fn options_reach_their_formats(c: CompositionModel, o: ExportModel, p: ExportModel)
    requires
        p.format == o.format,
    ensures
        o.format == ExportFormat::Prores422 || o.format == ExportFormat::Prores4444 || o.format
            == ExportFormat::PngSequence || o.format == ExportFormat::ExrSequence ==> export_job(
            c,
            o,
        ) == export_job(c, p),
        o.format == ExportFormat::Gif ==> (export_job(c, o) matches JobModel::Gif(g)
            && g.max_palette == o.gif_palette && g.dither == o.gif_dither && g.framerate_cap is None
            && g.loop_forever && !g.transparency),
        o.format == ExportFormat::Wav ==> (export_job(c, o) matches JobModel::Wav {
            sample_rate,
            depth,
        } && depth == o.wav_depth && sample_rate == 48_000),
        export_job(c, o) is Png <==> o.format == ExportFormat::PngSequence,
        export_job(c, o) is Exr <==> o.format == ExportFormat::ExrSequence,
{
}

/// A sequence goes to a directory and needs no extension; every other format
/// has one, and videos of one family share theirs.
pub proof fn extensions_tell_formats_apart(f: ExportFormat, g: ExportFormat)
    ensures
        format_extension(f) is None <==> f == ExportFormat::PngSequence || f
            == ExportFormat::ExrSequence,
        format_extension(f) is Some && format_extension(f) == format_extension(g) ==> f == g || (
        is_video(f) && is_video(g)),
        format_extension(ExportFormat::H264) == format_extension(ExportFormat::H265),
        format_extension(ExportFormat::Prores422) == format_extension(ExportFormat::Prores4444),
        format_extension(ExportFormat::H264) != format_extension(ExportFormat::Prores422),
        is_video(f) ==> format_extension(f) is Some && is_container(format_extension(f)->0),
{
    reveal_strlit("mp4");
    reveal_strlit("mov");
    reveal_strlit("gif");
    reveal_strlit("wav");
    reveal_strlit("m4v");
    reveal_strlit("mkv");
    assert("mp4"@[1] != "mov"@[1]);
    assert("mp4"@[0] != "gif"@[0]);
    assert("mp4"@[0] != "wav"@[0]);
    assert("mp4"@[1] != "m4v"@[1]);
    assert("mp4"@[1] != "mkv"@[1]);
    assert("mov"@[0] != "gif"@[0]);
    assert("mov"@[0] != "wav"@[0]);
    assert("mov"@[1] != "m4v"@[1]);
    assert("mov"@[1] != "mkv"@[1]);
    assert("gif"@[0] != "wav"@[0]);
    assert("gif"@[0] != "m4v"@[0]);
    assert("gif"@[0] != "mkv"@[0]);
    assert("wav"@[0] != "m4v"@[0]);
    assert("wav"@[0] != "mkv"@[0]);
    assert("m4v"@[1] != "mkv"@[1]);
}

/// A path that fits is left as it is; any other gets an extension behind its
/// name and keeps the text in front of it.
pub proof fn completed_path_begins_with_the_name(format: ExportFormat, path: Seq<char>)
    requires
        format_extension(format) is Some,
        file_name(path) is Some,
    ensures
        file_name(with_extension_added(format, path)) == Some(
            file_name(path)->0 + seq!['.'] + format_extension(format)->0,
        ),
        crate::paths::parent(with_extension_added(format, path)) == crate::paths::parent(path),
{
    reveal_strlit("mp4");
    reveal_strlit("mov");
    reveal_strlit("gif");
    reveal_strlit("wav");
    reveal_strlit(".");
    assert("."@ =~= seq!['.']);
    let n = (file_name(path)->0 + "."@) + format_extension(format)->0;
    file_name_is_name(path);
    assert(is_name(n)) by {
        assert(n.last() != '.');
        assert forall|i: int| 0 <= i < n.len() implies n[i] != '/' by {}
    }
    crate::paths::renamed_has_name(path, n);
    crate::paths::renamed_stays_in_place(path, n);
}

/// A status follows the messages: counts are those of the last one that gave
/// them, and it ends with the last message and not before.
pub proof fn status_follows_the_worker(s: StatusModel, m: ExportProgress)
    ensures
        status_after(s, m).finished <==> s.finished || is_last(m),
        m is Frame ==> status_after(s, m).done == m->done && status_after(s, m).total == m->total
            && status_after(s, m).error == s.error,
        m is Started ==> status_after(s, m) == (StatusModel { total: m->total_frames, ..s }),
        is_last(m) ==> status_after(s, m).done == s.done && status_after(s, m).total == s.total,
        is_last(m) ==> (status_after(s, m).error is Some <==> m is Failed),
        m is Failed ==> status_after(s, m).error == Some(m->Failed_0@),
        is_last(m) ==> status_lost(status_after(s, m)) == status_after(s, m),
        !s.finished ==> status_lost(s).finished && status_lost(s).error is Some
            && status_lost(s).done == s.done && status_lost(s).total == s.total,
{
}

/// The format that the dialog calls `label`.
pub open spec fn format_called(label: Seq<char>) -> Option<ExportFormat> {
    if label == "H.264 / MP4"@ {
        Some(ExportFormat::H264)
    } else if label == "H.265 / MP4"@ {
        Some(ExportFormat::H265)
    } else if label == "ProRes 422 / MOV"@ {
        Some(ExportFormat::Prores422)
    } else if label == "ProRes 4444 / MOV"@ {
        Some(ExportFormat::Prores4444)
    } else if label == "Animated GIF"@ {
        Some(ExportFormat::Gif)
    } else if label == "PNG sequence"@ {
        Some(ExportFormat::PngSequence)
    } else if label == "EXR sequence"@ {
        Some(ExportFormat::ExrSequence)
    } else if label == "WAV audio only"@ {
        Some(ExportFormat::Wav)
    } else {
        None
    }
}

/// The label of a format tells which it is.
pub proof fn formats_are_told_by_their_labels(x: ExportFormat)
    ensures
        format_called(format_label(x)) == Some(x),
{
    reveal_strlit("H.264 / MP4");
    reveal_strlit("H.265 / MP4");
    reveal_strlit("ProRes 422 / MOV");
    reveal_strlit("ProRes 4444 / MOV");
    reveal_strlit("Animated GIF");
    reveal_strlit("PNG sequence");
    reveal_strlit("EXR sequence");
    reveal_strlit("WAV audio only");
    match x {
        ExportFormat::H264 => {},
        ExportFormat::H265 => {
            assert("H.265 / MP4"@[4] != "H.264 / MP4"@[4]);
        },
        ExportFormat::Prores422 => {
            assert("ProRes 422 / MOV"@.len() != "H.264 / MP4"@.len());
            assert("ProRes 422 / MOV"@.len() != "H.265 / MP4"@.len());
        },
        ExportFormat::Prores4444 => {
            assert("ProRes 4444 / MOV"@.len() != "H.264 / MP4"@.len());
            assert("ProRes 4444 / MOV"@.len() != "H.265 / MP4"@.len());
            assert("ProRes 4444 / MOV"@.len() != "ProRes 422 / MOV"@.len());
        },
        ExportFormat::Gif => {
            assert("Animated GIF"@.len() != "H.264 / MP4"@.len());
            assert("Animated GIF"@.len() != "H.265 / MP4"@.len());
            assert("Animated GIF"@.len() != "ProRes 422 / MOV"@.len());
            assert("Animated GIF"@.len() != "ProRes 4444 / MOV"@.len());
        },
        ExportFormat::PngSequence => {
            assert("PNG sequence"@.len() != "H.264 / MP4"@.len());
            assert("PNG sequence"@.len() != "H.265 / MP4"@.len());
            assert("PNG sequence"@.len() != "ProRes 422 / MOV"@.len());
            assert("PNG sequence"@.len() != "ProRes 4444 / MOV"@.len());
            assert("PNG sequence"@[0] != "Animated GIF"@[0]);
        },
        ExportFormat::ExrSequence => {
            assert("EXR sequence"@.len() != "H.264 / MP4"@.len());
            assert("EXR sequence"@.len() != "H.265 / MP4"@.len());
            assert("EXR sequence"@.len() != "ProRes 422 / MOV"@.len());
            assert("EXR sequence"@.len() != "ProRes 4444 / MOV"@.len());
            assert("EXR sequence"@[0] != "Animated GIF"@[0]);
            assert("EXR sequence"@[0] != "PNG sequence"@[0]);
        },
        ExportFormat::Wav => {
            assert("WAV audio only"@.len() != "H.264 / MP4"@.len());
            assert("WAV audio only"@.len() != "H.265 / MP4"@.len());
            assert("WAV audio only"@.len() != "ProRes 422 / MOV"@.len());
            assert("WAV audio only"@.len() != "ProRes 4444 / MOV"@.len());
            assert("WAV audio only"@.len() != "Animated GIF"@.len());
            assert("WAV audio only"@.len() != "PNG sequence"@.len());
            assert("WAV audio only"@.len() != "EXR sequence"@.len());
        },
    }
}

/// A status that counts nothing and has neither ended nor failed is a new one,
/// and no other is.
pub proof fn new_status_counts_nothing(s: StatusModel)
    ensures
        s == new_status() <==> s.done == 0 && s.total == 0 && !s.finished && s.error is None,
{
}

/// A path that fits one video format fits every other. A format that is no
/// video fits under its own ending only, in any case of the letters.
pub proof fn videos_share_their_containers(f: ExportFormat, g: ExportFormat, path: Seq<char>)
    requires
        is_video(f),
    ensures
        is_video(g) ==> extension_fits(g, path) == extension_fits(f, path),
        !is_video(g) && format_extension(g) is Some ==> (extension_fits(g, path) <==> (extension(
            path,
        ) matches Some(e) && Some(ascii_lowercase(e)) == format_extension(g))),
        extension_fits(f, path) ==> extension(path) is Some,
        extension(path) matches Some(e) && (ascii_lowercase(e) == "mp4"@ || ascii_lowercase(e)
            == "mov"@ || ascii_lowercase(e) == "mkv"@ || ascii_lowercase(e) == "m4v"@)
            ==> extension_fits(f, path),
        !is_video(g) && extension_fits(g, path) && format_extension(g) is Some ==> !extension_fits(
            f,
            path,
        ),
{
    reveal_strlit("mp4");
    reveal_strlit("mov");
    reveal_strlit("m4v");
    reveal_strlit("mkv");
    reveal_strlit("gif");
    reveal_strlit("wav");
    assert("gif"@[0] == 'g' && "wav"@[0] == 'w');
    assert("mp4"@[0] == 'm' && "mov"@[0] == 'm' && "m4v"@[0] == 'm' && "mkv"@[0] == 'm');
}

} // verus!
