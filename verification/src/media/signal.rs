//! Settings of the analog signal effect, read from parameter values.
//!
//! Values that are absent, or not of the expected kind, stand at their
//! defaults; names that are not known stand for the usual choice.

use crate::params::values::{stored, ParamValueModel, ParamValues};
use crate::scalar::{scalar, Scalar};
use crate::text::str_eq;
use vstd::prelude::*;

verus! {

/// Which fields of the picture are used.
#[derive(Clone, Copy, Debug, PartialEq, Eq, Structural)]
pub enum UseField {
    Alternating,
    Upper,
    Lower,
    Both,
    InterleavedLower,
    InterleavedUpper,
}

/// The choice called `name`.
pub open spec fn use_field_called(name: Seq<char>) -> UseField {
    if name == "alternating"@ {
        UseField::Alternating
    } else if name == "upper"@ {
        UseField::Upper
    } else if name == "lower"@ {
        UseField::Lower
    } else if name == "both"@ {
        UseField::Both
    } else if name == "interleaved_lower"@ {
        UseField::InterleavedLower
    } else {
        UseField::InterleavedUpper
    }
}

fn use_field_of(name: &str) -> (r: UseField)
    ensures
        r == use_field_called(name@),
{
    if str_eq(name, "alternating") {
        UseField::Alternating
    } else if str_eq(name, "upper") {
        UseField::Upper
    } else if str_eq(name, "lower") {
        UseField::Lower
    } else if str_eq(name, "both") {
        UseField::Both
    } else if str_eq(name, "interleaved_lower") {
        UseField::InterleavedLower
    } else {
        UseField::InterleavedUpper
    }
}

/// Kind of low-pass filter.
#[derive(Clone, Copy, Debug, PartialEq, Eq, Structural)]
pub enum FilterType {
    ConstantK,
    Butterworth,
}

/// The choice called `name`.
pub open spec fn filter_type_called(name: Seq<char>) -> FilterType {
    if name == "constant_k"@ {
        FilterType::ConstantK
    } else {
        FilterType::Butterworth
    }
}

fn filter_type_of(name: &str) -> (r: FilterType)
    ensures
        r == filter_type_called(name@),
{
    if str_eq(name, "constant_k") {
        FilterType::ConstantK
    } else {
        FilterType::Butterworth
    }
}

/// Luma filter at the input.
#[derive(Clone, Copy, Debug, PartialEq, Eq, Structural)]
pub enum LumaLowpass {
    Off,
    Box,
    Notch,
}

/// The choice called `name`.
pub open spec fn luma_lowpass_called(name: Seq<char>) -> LumaLowpass {
    if name == "none"@ {
        LumaLowpass::Off
    } else if name == "box"@ {
        LumaLowpass::Box
    } else {
        LumaLowpass::Notch
    }
}

fn luma_lowpass_of(name: &str) -> (r: LumaLowpass)
    ensures
        r == luma_lowpass_called(name@),
{
    if str_eq(name, "none") {
        LumaLowpass::Off
    } else if str_eq(name, "box") {
        LumaLowpass::Box
    } else {
        LumaLowpass::Notch
    }
}

/// Chroma low-pass filter.
#[derive(Clone, Copy, Debug, PartialEq, Eq, Structural)]
pub enum ChromaLowpass {
    Off,
    Light,
    Full,
}

/// The choice called `name`.
pub open spec fn chroma_lowpass_called(name: Seq<char>) -> ChromaLowpass {
    if name == "none"@ {
        ChromaLowpass::Off
    } else if name == "light"@ {
        ChromaLowpass::Light
    } else {
        ChromaLowpass::Full
    }
}

fn chroma_lowpass_of(name: &str) -> (r: ChromaLowpass)
    ensures
        r == chroma_lowpass_called(name@),
{
    if str_eq(name, "none") {
        ChromaLowpass::Off
    } else if str_eq(name, "light") {
        ChromaLowpass::Light
    } else {
        ChromaLowpass::Full
    }
}

/// How chroma is separated.
#[derive(Clone, Copy, Debug, PartialEq, Eq, Structural)]
pub enum ChromaDemodulation {
    Box,
    OneLineComb,
    TwoLineComb,
    Notch,
}

/// The choice called `name`.
pub open spec fn chroma_demodulation_called(name: Seq<char>) -> ChromaDemodulation {
    if name == "box"@ {
        ChromaDemodulation::Box
    } else if name == "one_line_comb"@ {
        ChromaDemodulation::OneLineComb
    } else if name == "two_line_comb"@ {
        ChromaDemodulation::TwoLineComb
    } else {
        ChromaDemodulation::Notch
    }
}

fn chroma_demodulation_of(name: &str) -> (r: ChromaDemodulation)
    ensures
        r == chroma_demodulation_called(name@),
{
    if str_eq(name, "box") {
        ChromaDemodulation::Box
    } else if str_eq(name, "one_line_comb") {
        ChromaDemodulation::OneLineComb
    } else if str_eq(name, "two_line_comb") {
        ChromaDemodulation::TwoLineComb
    } else {
        ChromaDemodulation::Notch
    }
}

/// Tape speed.
#[derive(Clone, Copy, Debug, PartialEq, Eq, Structural)]
pub enum TapeSpeed {
    Lp,
    Ep,
    Off,
    Sp,
}

/// The choice called `name`.
pub open spec fn tape_speed_called(name: Seq<char>) -> TapeSpeed {
    if name == "lp"@ {
        TapeSpeed::Lp
    } else if name == "ep"@ {
        TapeSpeed::Ep
    } else if name == "off"@ {
        TapeSpeed::Off
    } else {
        TapeSpeed::Sp
    }
}

fn tape_speed_of(name: &str) -> (r: TapeSpeed)
    ensures
        r == tape_speed_called(name@),
{
    if str_eq(name, "lp") {
        TapeSpeed::Lp
    } else if str_eq(name, "ep") {
        TapeSpeed::Ep
    } else if str_eq(name, "off") {
        TapeSpeed::Off
    } else {
        TapeSpeed::Sp
    }
}

/// Phase shift between scanlines.
#[derive(Clone, Copy, Debug, PartialEq, Eq, Structural)]
pub enum PhaseShift {
    Degrees0,
    Degrees90,
    Degrees180,
    Degrees270,
}

/// The phase shift of `degrees`; half a turn for an angle that cannot be had.
pub open spec fn phase_shift_by(degrees: i32) -> PhaseShift {
    if degrees == 0 {
        PhaseShift::Degrees0
    } else if degrees == 90 {
        PhaseShift::Degrees90
    } else if degrees == 270 {
        PhaseShift::Degrees270
    } else {
        PhaseShift::Degrees180
    }
}

fn phase_shift_of(degrees: i32) -> (r: PhaseShift)
    ensures
        r == phase_shift_by(degrees),
{
    if degrees == 0 {
        PhaseShift::Degrees0
    } else if degrees == 90 {
        PhaseShift::Degrees90
    } else if degrees == 270 {
        PhaseShift::Degrees270
    } else {
        PhaseShift::Degrees180
    }
}

/// The number stored under `id`, else the one with bit pattern `bits`.
pub open spec fn float_or(m: Map<Seq<char>, ParamValueModel>, id: Seq<char>, bits: u32) -> Scalar {
    match stored(m, id) {
        Some(ParamValueModel::Float(v)) => v,
        _ => scalar(bits),
    }
}

/// The integer stored under `id`, else `default`.
pub open spec fn int_or(m: Map<Seq<char>, ParamValueModel>, id: Seq<char>, default: i32) -> i32 {
    match stored(m, id) {
        Some(ParamValueModel::Int(v)) => v,
        _ => default,
    }
}

/// The flag stored under `id`, else `default`.
pub open spec fn bool_or(m: Map<Seq<char>, ParamValueModel>, id: Seq<char>, default: bool) -> bool {
    match stored(m, id) {
        Some(ParamValueModel::Bool(v)) => v,
        _ => default,
    }
}

/// The name stored under `id`, else `default`.
pub open spec fn name_or(
    m: Map<Seq<char>, ParamValueModel>,
    id: Seq<char>,
    default: Seq<char>,
) -> Seq<char> {
    match stored(m, id) {
        Some(ParamValueModel::Enum(v)) => v,
        _ => default,
    }
}

/// Whether the group `id` is enabled, else `default`.
pub open spec fn group_or(
    m: Map<Seq<char>, ParamValueModel>,
    id: Seq<char>,
    default: bool,
) -> bool {
    match stored(m, id) {
        Some(ParamValueModel::GroupEnabled(v)) => v,
        _ => default,
    }
}

fn float_of(p: &ParamValues, id: &str, bits: u32) -> (r: Scalar)
    ensures
        r == float_or(p@, id@, bits),
{
    match p.float(id) {
        Some(v) => v,
        None => Scalar::from_bits(bits),
    }
}

fn int_of(p: &ParamValues, id: &str, default: i32) -> (r: i32)
    ensures
        r == int_or(p@, id@, default),
{
    match p.integer(id) {
        Some(v) => v,
        None => default,
    }
}

fn bool_of(p: &ParamValues, id: &str, default: bool) -> (r: bool)
    ensures
        r == bool_or(p@, id@, default),
{
    match p.bool(id) {
        Some(v) => v,
        None => default,
    }
}

fn name_of<'a>(p: &'a ParamValues, id: &str, default: &'a str) -> (r: &'a str)
    ensures
        r@ == name_or(p@, id@, default@),
{
    match p.enum_str(id) {
        Some(v) => v,
        None => default,
    }
}

fn group_of(p: &ParamValues, id: &str, default: bool) -> (r: bool)
    ensures
        r == group_or(p@, id@, default),
{
    match p.group_enabled(id) {
        Some(v) => v,
        None => default,
    }
}

/// Layered noise.
#[derive(Clone, Copy, Debug, PartialEq, Eq, Structural)]
pub struct NoiseSettings {
    pub intensity: Scalar,
    pub frequency: Scalar,
    pub detail: i32,
}

/// Ringing at edges.
#[derive(Clone, Copy, Debug, PartialEq, Eq, Structural)]
pub struct RingingSettings {
    pub frequency: Scalar,
    pub power: Scalar,
    pub intensity: Scalar,
}

/// Head switching at the bottom of the picture.
#[derive(Clone, Copy, Debug, PartialEq, Eq, Structural)]
pub struct HeadSwitchingSettings {
    pub height: i32,
    pub offset: i32,
    pub horiz_shift: Scalar,
}

/// Tracking noise.
#[derive(Clone, Copy, Debug, PartialEq, Eq, Structural)]
pub struct TrackingNoiseSettings {
    pub height: i32,
    pub wave_intensity: Scalar,
    pub snow_intensity: Scalar,
    pub snow_anisotropy: Scalar,
    pub noise_intensity: Scalar,
}

/// Sharpening of the tape.
#[derive(Clone, Copy, Debug, PartialEq, Eq, Structural)]
pub struct SharpenSettings {
    pub intensity: Scalar,
    pub frequency: Scalar,
}

/// Waves along edges of the tape.
#[derive(Clone, Copy, Debug, PartialEq, Eq, Structural)]
pub struct EdgeWaveSettings {
    pub intensity: Scalar,
    pub speed: Scalar,
    pub frequency: Scalar,
    pub detail: i32,
}

/// Video tape.
#[derive(Clone, Copy, Debug, PartialEq, Eq, Structural)]
pub struct VhsSettings {
    pub tape_speed: TapeSpeed,
    pub chroma_loss: Scalar,
    pub sharpen: Option<SharpenSettings>,
    pub edge_wave: Option<EdgeWaveSettings>,
}

/// All settings of the effect.
#[derive(Clone, Copy, Debug, PartialEq, Eq, Structural)]
pub struct SignalSettings {
    pub random_seed: i32,
    pub use_field: UseField,
    pub filter_type: FilterType,
    pub input_luma_filter: LumaLowpass,
    pub chroma_lowpass_in: ChromaLowpass,
    pub chroma_demodulation: ChromaDemodulation,
    pub luma_smear: Scalar,
    pub composite_sharpening: Scalar,
    pub video_scanline_phase_shift: PhaseShift,
    pub video_scanline_phase_shift_offset: i32,
    pub snow_intensity: Scalar,
    pub snow_anisotropy: Scalar,
    pub chroma_phase_noise_intensity: Scalar,
    pub chroma_phase_error: Scalar,
    pub chroma_delay_horizontal: Scalar,
    pub chroma_delay_vertical: i32,
    pub chroma_vert_blend: bool,
    pub chroma_lowpass_out: ChromaLowpass,
    pub composite_noise: Option<NoiseSettings>,
    pub luma_noise: Option<NoiseSettings>,
    pub chroma_noise: Option<NoiseSettings>,
    pub ringing: Option<RingingSettings>,
    pub head_switching: Option<HeadSwitchingSettings>,
    pub tracking_noise: Option<TrackingNoiseSettings>,
    pub vhs_settings: Option<VhsSettings>,
}

/// The settings of group `composite_noise`, if it is enabled.
pub open spec fn composite_noise_in(m: Map<Seq<char>, ParamValueModel>) -> Option<NoiseSettings> {
    if group_or(m, "composite_noise"@, false) {
        Some(
            NoiseSettings {
                intensity: float_or(m, "composite_noise.intensity"@, 0x3dcc_cccd),
                frequency: float_or(m, "composite_noise.frequency"@, 0x3f00_0000),
                detail: int_or(m, "composite_noise.detail"@, 1),
            },
        )
    } else {
        None
    }
}

fn composite_noise_from(p: &ParamValues) -> (r: Option<NoiseSettings>)
    ensures
        r == composite_noise_in(p@),
{
    if group_of(p, "composite_noise", false) {
        Some(
            NoiseSettings {
                intensity: float_of(p, "composite_noise.intensity", 0x3dcc_cccd),
                frequency: float_of(p, "composite_noise.frequency", 0x3f00_0000),
                detail: int_of(p, "composite_noise.detail", 1),
            },
        )
    } else {
        None
    }
}

/// The settings of group `luma_noise`, if it is enabled.
pub open spec fn luma_noise_in(m: Map<Seq<char>, ParamValueModel>) -> Option<NoiseSettings> {
    if group_or(m, "luma_noise"@, false) {
        Some(
            NoiseSettings {
                intensity: float_or(m, "luma_noise.intensity"@, 0),
                frequency: float_or(m, "luma_noise.frequency"@, 0x3f00_0000),
                detail: int_or(m, "luma_noise.detail"@, 1),
            },
        )
    } else {
        None
    }
}

fn luma_noise_from(p: &ParamValues) -> (r: Option<NoiseSettings>)
    ensures
        r == luma_noise_in(p@),
{
    if group_of(p, "luma_noise", false) {
        Some(
            NoiseSettings {
                intensity: float_of(p, "luma_noise.intensity", 0),
                frequency: float_of(p, "luma_noise.frequency", 0x3f00_0000),
                detail: int_of(p, "luma_noise.detail", 1),
            },
        )
    } else {
        None
    }
}

/// The settings of group `chroma_noise`, if it is enabled.
pub open spec fn chroma_noise_in(m: Map<Seq<char>, ParamValueModel>) -> Option<NoiseSettings> {
    if group_or(m, "chroma_noise"@, false) {
        Some(
            NoiseSettings {
                intensity: float_or(m, "chroma_noise.intensity"@, 0),
                frequency: float_or(m, "chroma_noise.frequency"@, 0x3d4c_cccd),
                detail: int_or(m, "chroma_noise.detail"@, 1),
            },
        )
    } else {
        None
    }
}

fn chroma_noise_from(p: &ParamValues) -> (r: Option<NoiseSettings>)
    ensures
        r == chroma_noise_in(p@),
{
    if group_of(p, "chroma_noise", false) {
        Some(
            NoiseSettings {
                intensity: float_of(p, "chroma_noise.intensity", 0),
                frequency: float_of(p, "chroma_noise.frequency", 0x3d4c_cccd),
                detail: int_of(p, "chroma_noise.detail", 1),
            },
        )
    } else {
        None
    }
}

/// The settings of group `ringing`, if it is enabled.
pub open spec fn ringing_in(m: Map<Seq<char>, ParamValueModel>) -> Option<RingingSettings> {
    if group_or(m, "ringing"@, false) {
        Some(
            RingingSettings {
                frequency: float_or(m, "ringing.frequency"@, 0x3f00_0000),
                power: float_or(m, "ringing.power"@, 0x4040_0000),
                intensity: float_or(m, "ringing.intensity"@, 0x3f00_0000),
            },
        )
    } else {
        None
    }
}

fn ringing_from(p: &ParamValues) -> (r: Option<RingingSettings>)
    ensures
        r == ringing_in(p@),
{
    if group_of(p, "ringing", false) {
        Some(
            RingingSettings {
                frequency: float_of(p, "ringing.frequency", 0x3f00_0000),
                power: float_of(p, "ringing.power", 0x4040_0000),
                intensity: float_of(p, "ringing.intensity", 0x3f00_0000),
            },
        )
    } else {
        None
    }
}

/// The settings of group `head_switching`, if it is enabled.
pub open spec fn head_switching_in(
    m: Map<Seq<char>, ParamValueModel>,
) -> Option<HeadSwitchingSettings> {
    if group_or(m, "head_switching"@, false) {
        Some(
            HeadSwitchingSettings {
                height: int_or(m, "head_switching.height"@, 8),
                offset: int_or(m, "head_switching.offset"@, 3),
                horiz_shift: float_or(m, "head_switching.horiz_shift"@, 0x4290_0000),
            },
        )
    } else {
        None
    }
}

fn head_switching_from(p: &ParamValues) -> (r: Option<HeadSwitchingSettings>)
    ensures
        r == head_switching_in(p@),
{
    if group_of(p, "head_switching", false) {
        Some(
            HeadSwitchingSettings {
                height: int_of(p, "head_switching.height", 8),
                offset: int_of(p, "head_switching.offset", 3),
                horiz_shift: float_of(p, "head_switching.horiz_shift", 0x4290_0000),
            },
        )
    } else {
        None
    }
}

/// The settings of group `tracking_noise`, if it is enabled.
pub open spec fn tracking_noise_in(
    m: Map<Seq<char>, ParamValueModel>,
) -> Option<TrackingNoiseSettings> {
    if group_or(m, "tracking_noise"@, false) {
        Some(
            TrackingNoiseSettings {
                height: int_or(m, "tracking_noise.height"@, 24),
                wave_intensity: float_or(m, "tracking_noise.wave_intensity"@, 0x40a0_0000),
                snow_intensity: float_or(m, "tracking_noise.snow_intensity"@, 0x3d4c_cccd),
                snow_anisotropy: float_or(m, "tracking_noise.snow_anisotropy"@, 0x3f00_0000),
                noise_intensity: float_or(m, "tracking_noise.noise_intensity"@, 0x3ba3_d70a),
            },
        )
    } else {
        None
    }
}

fn tracking_noise_from(p: &ParamValues) -> (r: Option<TrackingNoiseSettings>)
    ensures
        r == tracking_noise_in(p@),
{
    if group_of(p, "tracking_noise", false) {
        Some(
            TrackingNoiseSettings {
                height: int_of(p, "tracking_noise.height", 24),
                wave_intensity: float_of(p, "tracking_noise.wave_intensity", 0x40a0_0000),
                snow_intensity: float_of(p, "tracking_noise.snow_intensity", 0x3d4c_cccd),
                snow_anisotropy: float_of(p, "tracking_noise.snow_anisotropy", 0x3f00_0000),
                noise_intensity: float_of(p, "tracking_noise.noise_intensity", 0x3ba3_d70a),
            },
        )
    } else {
        None
    }
}

/// The settings of group `vhs_settings.sharpen`, if it is enabled.
pub open spec fn sharpen_in(m: Map<Seq<char>, ParamValueModel>) -> Option<SharpenSettings> {
    if group_or(m, "vhs_settings.sharpen"@, true) {
        Some(
            SharpenSettings {
                intensity: float_or(m, "vhs_settings.sharpen.intensity"@, 0x3fc0_0000),
                frequency: float_or(m, "vhs_settings.sharpen.frequency"@, 0x3f80_0000),
            },
        )
    } else {
        None
    }
}

fn sharpen_from(p: &ParamValues) -> (r: Option<SharpenSettings>)
    ensures
        r == sharpen_in(p@),
{
    if group_of(p, "vhs_settings.sharpen", true) {
        Some(
            SharpenSettings {
                intensity: float_of(p, "vhs_settings.sharpen.intensity", 0x3fc0_0000),
                frequency: float_of(p, "vhs_settings.sharpen.frequency", 0x3f80_0000),
            },
        )
    } else {
        None
    }
}

/// The settings of group `vhs_settings.edge_wave`, if it is enabled.
pub open spec fn edge_wave_in(m: Map<Seq<char>, ParamValueModel>) -> Option<EdgeWaveSettings> {
    if group_or(m, "vhs_settings.edge_wave"@, true) {
        Some(
            EdgeWaveSettings {
                intensity: float_or(m, "vhs_settings.edge_wave.intensity"@, 0x3f80_0000),
                speed: float_or(m, "vhs_settings.edge_wave.speed"@, 0x4080_0000),
                frequency: float_or(m, "vhs_settings.edge_wave.frequency"@, 0x3d4c_cccd),
                detail: int_or(m, "vhs_settings.edge_wave.detail"@, 1),
            },
        )
    } else {
        None
    }
}

fn edge_wave_from(p: &ParamValues) -> (r: Option<EdgeWaveSettings>)
    ensures
        r == edge_wave_in(p@),
{
    if group_of(p, "vhs_settings.edge_wave", true) {
        Some(
            EdgeWaveSettings {
                intensity: float_of(p, "vhs_settings.edge_wave.intensity", 0x3f80_0000),
                speed: float_of(p, "vhs_settings.edge_wave.speed", 0x4080_0000),
                frequency: float_of(p, "vhs_settings.edge_wave.frequency", 0x3d4c_cccd),
                detail: int_of(p, "vhs_settings.edge_wave.detail", 1),
            },
        )
    } else {
        None
    }
}

/// The settings of group `vhs_settings`, if it is enabled.
pub open spec fn tape_in(m: Map<Seq<char>, ParamValueModel>) -> Option<VhsSettings> {
    if group_or(m, "vhs_settings"@, false) {
        Some(
            VhsSettings {
                tape_speed: tape_speed_called(name_or(m, "vhs_settings.tape_speed"@, "sp"@)),
                chroma_loss: float_or(m, "vhs_settings.chroma_loss"@, 0),
                sharpen: sharpen_in(m),
                edge_wave: edge_wave_in(m),
            },
        )
    } else {
        None
    }
}

fn tape_from(p: &ParamValues) -> (r: Option<VhsSettings>)
    ensures
        r == tape_in(p@),
{
    if group_of(p, "vhs_settings", false) {
        Some(
            VhsSettings {
                tape_speed: tape_speed_of(name_of(p, "vhs_settings.tape_speed", "sp")),
                chroma_loss: float_of(p, "vhs_settings.chroma_loss", 0),
                sharpen: sharpen_from(p),
                edge_wave: edge_wave_from(p),
            },
        )
    } else {
        None
    }
}

/// The settings that the values `m` stand for.
pub open spec fn signal_settings(m: Map<Seq<char>, ParamValueModel>) -> SignalSettings {
    SignalSettings {
        random_seed: int_or(m, "random_seed"@, 0),
        use_field: use_field_called(name_or(m, "use_field"@, "interleaved_upper"@)),
        filter_type: filter_type_called(name_or(m, "filter_type"@, "butterworth"@)),
        input_luma_filter: luma_lowpass_called(name_or(m, "input_luma_filter"@, "notch"@)),
        chroma_lowpass_in: chroma_lowpass_called(name_or(m, "chroma_lowpass_in"@, "full"@)),
        chroma_demodulation: chroma_demodulation_called(name_or(m, "chroma_demodulation"@, "notch"@)),
        luma_smear: float_or(m, "luma_smear"@, 0x3f00_0000),
        composite_sharpening: float_or(m, "composite_sharpening"@, 0x3f80_0000),
        video_scanline_phase_shift: phase_shift_by(int_or(m, "video_scanline_phase_shift_deg"@, 180)),
        video_scanline_phase_shift_offset: int_or(m, "video_scanline_phase_shift_offset"@, 0),
        snow_intensity: float_or(m, "snow_intensity"@, 0),
        snow_anisotropy: float_or(m, "snow_anisotropy"@, 0x3f00_0000),
        chroma_phase_noise_intensity: float_or(m, "chroma_phase_noise_intensity"@, 0),
        chroma_phase_error: float_or(m, "chroma_phase_error"@, 0),
        chroma_delay_horizontal: float_or(m, "chroma_delay_horizontal"@, 0),
        chroma_delay_vertical: int_or(m, "chroma_delay_vertical"@, 0),
        chroma_vert_blend: bool_or(m, "chroma_vert_blend"@, true),
        chroma_lowpass_out: chroma_lowpass_called(name_or(m, "chroma_lowpass_out"@, "full"@)),
        composite_noise: composite_noise_in(m),
        luma_noise: luma_noise_in(m),
        chroma_noise: chroma_noise_in(m),
        ringing: ringing_in(m),
        head_switching: head_switching_in(m),
        tracking_noise: tracking_noise_in(m),
        vhs_settings: tape_in(m),
    }
}

/// Reads all settings of the effect from parameter values.
pub fn build_effect(p: &ParamValues) -> (r: SignalSettings)
    ensures
        r == signal_settings(p@),
{
    SignalSettings {
        random_seed: int_of(p, "random_seed", 0),
        use_field: use_field_of(name_of(p, "use_field", "interleaved_upper")),
        filter_type: filter_type_of(name_of(p, "filter_type", "butterworth")),
        input_luma_filter: luma_lowpass_of(name_of(p, "input_luma_filter", "notch")),
        chroma_lowpass_in: chroma_lowpass_of(name_of(p, "chroma_lowpass_in", "full")),
        chroma_demodulation: chroma_demodulation_of(name_of(p, "chroma_demodulation", "notch")),
        luma_smear: float_of(p, "luma_smear", 0x3f00_0000),
        composite_sharpening: float_of(p, "composite_sharpening", 0x3f80_0000),
        video_scanline_phase_shift: phase_shift_of(int_of(p, "video_scanline_phase_shift_deg", 180)),
        video_scanline_phase_shift_offset: int_of(p, "video_scanline_phase_shift_offset", 0),
        snow_intensity: float_of(p, "snow_intensity", 0),
        snow_anisotropy: float_of(p, "snow_anisotropy", 0x3f00_0000),
        chroma_phase_noise_intensity: float_of(p, "chroma_phase_noise_intensity", 0),
        chroma_phase_error: float_of(p, "chroma_phase_error", 0),
        chroma_delay_horizontal: float_of(p, "chroma_delay_horizontal", 0),
        chroma_delay_vertical: int_of(p, "chroma_delay_vertical", 0),
        chroma_vert_blend: bool_of(p, "chroma_vert_blend", true),
        chroma_lowpass_out: chroma_lowpass_of(name_of(p, "chroma_lowpass_out", "full")),
        composite_noise: composite_noise_from(p),
        luma_noise: luma_noise_from(p),
        chroma_noise: chroma_noise_from(p),
        ringing: ringing_from(p),
        head_switching: head_switching_from(p),
        tracking_noise: tracking_noise_from(p),
        vhs_settings: tape_from(p),
    }
}

/// The number that `v` is, else the one with bit pattern `bits`.
pub open spec fn held_float(v: Option<ParamValueModel>, bits: u32) -> Scalar {
    if v is Some && v->0 is Float {
        v->0->Float_0
    } else {
        scalar(bits)
    }
}

/// The integer that `v` is, else `default`.
pub open spec fn held_int(v: Option<ParamValueModel>, default: i32) -> i32 {
    if v is Some && v->0 is Int {
        v->0->Int_0
    } else {
        default
    }
}

/// The flag that `v` is, else `default`.
pub open spec fn held_bool(v: Option<ParamValueModel>, default: bool) -> bool {
    if v is Some && v->0 is Bool {
        v->0->Bool_0
    } else {
        default
    }
}

/// The name that `v` is, else `default`.
pub open spec fn held_name(v: Option<ParamValueModel>, default: Seq<char>) -> Seq<char> {
    if v is Some && v->0 is Enum {
        v->0->Enum_0
    } else {
        default
    }
}

/// Whether `v` says that a group is enabled, else `default`.
pub open spec fn held_switch(v: Option<ParamValueModel>, default: bool) -> bool {
    if v is Some && v->0 is GroupEnabled {
        v->0->GroupEnabled_0
    } else {
        default
    }
}

/// Each setting of the picture as a whole is what stands under its id, or its
/// default where nothing of the right kind does.
pub proof fn settings_follow_their_ids(m: Map<Seq<char>, ParamValueModel>)
    ensures
        ({
            let s = signal_settings(m);
            &&& s.random_seed == held_int(stored(m, "random_seed"@), 0)
            &&& s.use_field
                == use_field_called(held_name(stored(m, "use_field"@), "interleaved_upper"@))
            &&& s.filter_type
                == filter_type_called(held_name(stored(m, "filter_type"@), "butterworth"@))
            &&& s.input_luma_filter
                == luma_lowpass_called(held_name(stored(m, "input_luma_filter"@), "notch"@))
            &&& s.chroma_lowpass_in
                == chroma_lowpass_called(held_name(stored(m, "chroma_lowpass_in"@), "full"@))
            &&& s.chroma_demodulation
                == chroma_demodulation_called(held_name(stored(m, "chroma_demodulation"@), "notch"@))
            &&& s.luma_smear == held_float(stored(m, "luma_smear"@), 0x3f00_0000)
            &&& s.composite_sharpening
                == held_float(stored(m, "composite_sharpening"@), 0x3f80_0000)
            &&& s.video_scanline_phase_shift
                == phase_shift_by(held_int(stored(m, "video_scanline_phase_shift_deg"@), 180))
            &&& s.video_scanline_phase_shift_offset
                == held_int(stored(m, "video_scanline_phase_shift_offset"@), 0)
            &&& s.snow_intensity == held_float(stored(m, "snow_intensity"@), 0)
            &&& s.snow_anisotropy == held_float(stored(m, "snow_anisotropy"@), 0x3f00_0000)
            &&& s.chroma_phase_noise_intensity
                == held_float(stored(m, "chroma_phase_noise_intensity"@), 0)
            &&& s.chroma_phase_error == held_float(stored(m, "chroma_phase_error"@), 0)
            &&& s.chroma_delay_horizontal == held_float(stored(m, "chroma_delay_horizontal"@), 0)
            &&& s.chroma_delay_vertical == held_int(stored(m, "chroma_delay_vertical"@), 0)
            &&& s.chroma_vert_blend == held_bool(stored(m, "chroma_vert_blend"@), true)
            &&& s.chroma_lowpass_out
                == chroma_lowpass_called(held_name(stored(m, "chroma_lowpass_out"@), "full"@))
        }),
{
}

/// The group `composite_noise` is there exactly if it is switched on. What it
/// holds is what stands under its ids, or the default.
pub proof fn composite_noise_follows_its_ids(m: Map<Seq<char>, ParamValueModel>)
    ensures
        ({
            let g = signal_settings(m).composite_noise;
            &&& g is Some <==> stored(m, "composite_noise"@) == Some(ParamValueModel::GroupEnabled(true))
            &&& g is Some ==> g->0.intensity
                == held_float(stored(m, "composite_noise.intensity"@), 0x3dcc_cccd)
            &&& g is Some ==> g->0.frequency
                == held_float(stored(m, "composite_noise.frequency"@), 0x3f00_0000)
            &&& g is Some ==> g->0.detail == held_int(stored(m, "composite_noise.detail"@), 1)
        }),
{
}

/// The group `luma_noise` is there exactly if it is switched on. What it
/// holds is what stands under its ids, or the default.
pub proof fn luma_noise_follows_its_ids(m: Map<Seq<char>, ParamValueModel>)
    ensures
        ({
            let g = signal_settings(m).luma_noise;
            &&& g is Some <==> stored(m, "luma_noise"@) == Some(ParamValueModel::GroupEnabled(true))
            &&& g is Some ==> g->0.intensity == held_float(stored(m, "luma_noise.intensity"@), 0)
            &&& g is Some ==> g->0.frequency
                == held_float(stored(m, "luma_noise.frequency"@), 0x3f00_0000)
            &&& g is Some ==> g->0.detail == held_int(stored(m, "luma_noise.detail"@), 1)
        }),
{
}

/// The group `chroma_noise` is there exactly if it is switched on. What it
/// holds is what stands under its ids, or the default.
pub proof fn chroma_noise_follows_its_ids(m: Map<Seq<char>, ParamValueModel>)
    ensures
        ({
            let g = signal_settings(m).chroma_noise;
            &&& g is Some <==> stored(m, "chroma_noise"@) == Some(ParamValueModel::GroupEnabled(true))
            &&& g is Some ==> g->0.intensity == held_float(stored(m, "chroma_noise.intensity"@), 0)
            &&& g is Some ==> g->0.frequency
                == held_float(stored(m, "chroma_noise.frequency"@), 0x3d4c_cccd)
            &&& g is Some ==> g->0.detail == held_int(stored(m, "chroma_noise.detail"@), 1)
        }),
{
}

/// The group `ringing` is there exactly if it is switched on. What it
/// holds is what stands under its ids, or the default.
pub proof fn ringing_follows_its_ids(m: Map<Seq<char>, ParamValueModel>)
    ensures
        ({
            let g = signal_settings(m).ringing;
            &&& g is Some <==> stored(m, "ringing"@) == Some(ParamValueModel::GroupEnabled(true))
            &&& g is Some ==> g->0.frequency
                == held_float(stored(m, "ringing.frequency"@), 0x3f00_0000)
            &&& g is Some ==> g->0.power == held_float(stored(m, "ringing.power"@), 0x4040_0000)
            &&& g is Some ==> g->0.intensity
                == held_float(stored(m, "ringing.intensity"@), 0x3f00_0000)
        }),
{
}

/// The group `head_switching` is there exactly if it is switched on. What it
/// holds is what stands under its ids, or the default.
pub proof fn head_switching_follows_its_ids(m: Map<Seq<char>, ParamValueModel>)
    ensures
        ({
            let g = signal_settings(m).head_switching;
            &&& g is Some <==> stored(m, "head_switching"@) == Some(ParamValueModel::GroupEnabled(true))
            &&& g is Some ==> g->0.height == held_int(stored(m, "head_switching.height"@), 8)
            &&& g is Some ==> g->0.offset == held_int(stored(m, "head_switching.offset"@), 3)
            &&& g is Some ==> g->0.horiz_shift
                == held_float(stored(m, "head_switching.horiz_shift"@), 0x4290_0000)
        }),
{
}

/// The group `tracking_noise` is there exactly if it is switched on. What it
/// holds is what stands under its ids, or the default.
pub proof fn tracking_noise_follows_its_ids(m: Map<Seq<char>, ParamValueModel>)
    ensures
        ({
            let g = signal_settings(m).tracking_noise;
            &&& g is Some <==> stored(m, "tracking_noise"@) == Some(ParamValueModel::GroupEnabled(true))
            &&& g is Some ==> g->0.height == held_int(stored(m, "tracking_noise.height"@), 24)
            &&& g is Some ==> g->0.wave_intensity
                == held_float(stored(m, "tracking_noise.wave_intensity"@), 0x40a0_0000)
            &&& g is Some ==> g->0.snow_intensity
                == held_float(stored(m, "tracking_noise.snow_intensity"@), 0x3d4c_cccd)
            &&& g is Some ==> g->0.snow_anisotropy
                == held_float(stored(m, "tracking_noise.snow_anisotropy"@), 0x3f00_0000)
            &&& g is Some ==> g->0.noise_intensity
                == held_float(stored(m, "tracking_noise.noise_intensity"@), 0x3ba3_d70a)
        }),
{
}

/// The group `vhs_settings` is there exactly if it is switched on. What it
/// holds is what stands under its ids, or the default.
pub proof fn tape_follows_its_ids(m: Map<Seq<char>, ParamValueModel>)
    ensures
        ({
            let g = signal_settings(m).vhs_settings;
            &&& g is Some <==> stored(m, "vhs_settings"@) == Some(
                ParamValueModel::GroupEnabled(true),
            )
            &&& g is Some ==> g->0.tape_speed == tape_speed_called(
                held_name(stored(m, "vhs_settings.tape_speed"@), "sp"@),
            )
            &&& g is Some ==> g->0.chroma_loss == held_float(
                stored(m, "vhs_settings.chroma_loss"@),
                0,
            )
        }),
{
}

/// The group `vhs_settings.sharpen` is there exactly if the tape is, unless it
/// is switched off. What it
/// holds is what stands under its ids, or the default.
pub proof fn tape_sharpen_follows_its_ids(m: Map<Seq<char>, ParamValueModel>)
    ensures
        signal_settings(m).vhs_settings is Some ==> ({
            let g = signal_settings(m).vhs_settings->0.sharpen;
            &&& g is Some <==> stored(m, "vhs_settings.sharpen"@) != Some(ParamValueModel::GroupEnabled(false))
            &&& g is Some ==> g->0.intensity
                == held_float(stored(m, "vhs_settings.sharpen.intensity"@), 0x3fc0_0000)
            &&& g is Some ==> g->0.frequency
                == held_float(stored(m, "vhs_settings.sharpen.frequency"@), 0x3f80_0000)
        }),
{
}

/// The group `vhs_settings.edge_wave` is there exactly if the tape is, unless
/// it is switched off. What it
/// holds is what stands under its ids, or the default.
pub proof fn tape_edge_wave_follows_its_ids(m: Map<Seq<char>, ParamValueModel>)
    ensures
        signal_settings(m).vhs_settings is Some ==> ({
            let g = signal_settings(m).vhs_settings->0.edge_wave;
            &&& g is Some <==> stored(m, "vhs_settings.edge_wave"@) != Some(ParamValueModel::GroupEnabled(false))
            &&& g is Some ==> g->0.intensity
                == held_float(stored(m, "vhs_settings.edge_wave.intensity"@), 0x3f80_0000)
            &&& g is Some ==> g->0.speed
                == held_float(stored(m, "vhs_settings.edge_wave.speed"@), 0x4080_0000)
            &&& g is Some ==> g->0.frequency
                == held_float(stored(m, "vhs_settings.edge_wave.frequency"@), 0x3d4c_cccd)
            &&& g is Some ==> g->0.detail
                == held_int(stored(m, "vhs_settings.edge_wave.detail"@), 1)
        }),
{
}

/// Whether `id` names the group `g` or something in it.
pub open spec fn in_group(id: Seq<char>, g: Seq<char>) -> bool {
    id == g || (id.len() > g.len() && id.take(g.len() as int) == g && id[g.len() as int] == '.')
}

/// Whether `a` and `b` hold the same under every id of the group `g`.
pub open spec fn agree_on(
    a: Map<Seq<char>, ParamValueModel>,
    b: Map<Seq<char>, ParamValueModel>,
    g: Seq<char>,
) -> bool {
    forall|id: Seq<char>| #[trigger] in_group(id, g) ==> stored(a, id) == stored(b, id)
}

/// Values outside the group `composite_noise` do not change it.
pub proof fn composite_noise_is_its_own(
    a: Map<Seq<char>, ParamValueModel>,
    b: Map<Seq<char>, ParamValueModel>,
)
    requires
        agree_on(a, b, "composite_noise"@),
    ensures
        signal_settings(a).composite_noise == signal_settings(b).composite_noise,
{
    reveal_strlit("composite_noise");
    assert(in_group("composite_noise"@, "composite_noise"@));
    assert(in_group("composite_noise.intensity"@, "composite_noise"@)) by {
        reveal_strlit("composite_noise.intensity");
        assert("composite_noise.intensity"@.take(15) =~= "composite_noise"@);
    }
    assert(in_group("composite_noise.frequency"@, "composite_noise"@)) by {
        reveal_strlit("composite_noise.frequency");
        assert("composite_noise.frequency"@.take(15) =~= "composite_noise"@);
    }
    assert(in_group("composite_noise.detail"@, "composite_noise"@)) by {
        reveal_strlit("composite_noise.detail");
        assert("composite_noise.detail"@.take(15) =~= "composite_noise"@);
    }
}

/// Values outside the group `luma_noise` do not change it.
pub proof fn luma_noise_is_its_own(
    a: Map<Seq<char>, ParamValueModel>,
    b: Map<Seq<char>, ParamValueModel>,
)
    requires
        agree_on(a, b, "luma_noise"@),
    ensures
        signal_settings(a).luma_noise == signal_settings(b).luma_noise,
{
    reveal_strlit("luma_noise");
    assert(in_group("luma_noise"@, "luma_noise"@));
    assert(in_group("luma_noise.intensity"@, "luma_noise"@)) by {
        reveal_strlit("luma_noise.intensity");
        assert("luma_noise.intensity"@.take(10) =~= "luma_noise"@);
    }
    assert(in_group("luma_noise.frequency"@, "luma_noise"@)) by {
        reveal_strlit("luma_noise.frequency");
        assert("luma_noise.frequency"@.take(10) =~= "luma_noise"@);
    }
    assert(in_group("luma_noise.detail"@, "luma_noise"@)) by {
        reveal_strlit("luma_noise.detail");
        assert("luma_noise.detail"@.take(10) =~= "luma_noise"@);
    }
}

/// Values outside the group `chroma_noise` do not change it.
pub proof fn chroma_noise_is_its_own(
    a: Map<Seq<char>, ParamValueModel>,
    b: Map<Seq<char>, ParamValueModel>,
)
    requires
        agree_on(a, b, "chroma_noise"@),
    ensures
        signal_settings(a).chroma_noise == signal_settings(b).chroma_noise,
{
    reveal_strlit("chroma_noise");
    assert(in_group("chroma_noise"@, "chroma_noise"@));
    assert(in_group("chroma_noise.intensity"@, "chroma_noise"@)) by {
        reveal_strlit("chroma_noise.intensity");
        assert("chroma_noise.intensity"@.take(12) =~= "chroma_noise"@);
    }
    assert(in_group("chroma_noise.frequency"@, "chroma_noise"@)) by {
        reveal_strlit("chroma_noise.frequency");
        assert("chroma_noise.frequency"@.take(12) =~= "chroma_noise"@);
    }
    assert(in_group("chroma_noise.detail"@, "chroma_noise"@)) by {
        reveal_strlit("chroma_noise.detail");
        assert("chroma_noise.detail"@.take(12) =~= "chroma_noise"@);
    }
}

/// Values outside the group `ringing` do not change it.
pub proof fn ringing_is_its_own(
    a: Map<Seq<char>, ParamValueModel>,
    b: Map<Seq<char>, ParamValueModel>,
)
    requires
        agree_on(a, b, "ringing"@),
    ensures
        signal_settings(a).ringing == signal_settings(b).ringing,
{
    reveal_strlit("ringing");
    assert(in_group("ringing"@, "ringing"@));
    assert(in_group("ringing.frequency"@, "ringing"@)) by {
        reveal_strlit("ringing.frequency");
        assert("ringing.frequency"@.take(7) =~= "ringing"@);
    }
    assert(in_group("ringing.power"@, "ringing"@)) by {
        reveal_strlit("ringing.power");
        assert("ringing.power"@.take(7) =~= "ringing"@);
    }
    assert(in_group("ringing.intensity"@, "ringing"@)) by {
        reveal_strlit("ringing.intensity");
        assert("ringing.intensity"@.take(7) =~= "ringing"@);
    }
}

/// Values outside the group `head_switching` do not change it.
pub proof fn head_switching_is_its_own(
    a: Map<Seq<char>, ParamValueModel>,
    b: Map<Seq<char>, ParamValueModel>,
)
    requires
        agree_on(a, b, "head_switching"@),
    ensures
        signal_settings(a).head_switching == signal_settings(b).head_switching,
{
    reveal_strlit("head_switching");
    assert(in_group("head_switching"@, "head_switching"@));
    assert(in_group("head_switching.height"@, "head_switching"@)) by {
        reveal_strlit("head_switching.height");
        assert("head_switching.height"@.take(14) =~= "head_switching"@);
    }
    assert(in_group("head_switching.offset"@, "head_switching"@)) by {
        reveal_strlit("head_switching.offset");
        assert("head_switching.offset"@.take(14) =~= "head_switching"@);
    }
    assert(in_group("head_switching.horiz_shift"@, "head_switching"@)) by {
        reveal_strlit("head_switching.horiz_shift");
        assert("head_switching.horiz_shift"@.take(14) =~= "head_switching"@);
    }
}

/// Values outside the group `tracking_noise` do not change it.
pub proof fn tracking_noise_is_its_own(
    a: Map<Seq<char>, ParamValueModel>,
    b: Map<Seq<char>, ParamValueModel>,
)
    requires
        agree_on(a, b, "tracking_noise"@),
    ensures
        signal_settings(a).tracking_noise == signal_settings(b).tracking_noise,
{
    reveal_strlit("tracking_noise");
    assert(in_group("tracking_noise"@, "tracking_noise"@));
    assert(in_group("tracking_noise.height"@, "tracking_noise"@)) by {
        reveal_strlit("tracking_noise.height");
        assert("tracking_noise.height"@.take(14) =~= "tracking_noise"@);
    }
    assert(in_group("tracking_noise.wave_intensity"@, "tracking_noise"@)) by {
        reveal_strlit("tracking_noise.wave_intensity");
        assert("tracking_noise.wave_intensity"@.take(14) =~= "tracking_noise"@);
    }
    assert(in_group("tracking_noise.snow_intensity"@, "tracking_noise"@)) by {
        reveal_strlit("tracking_noise.snow_intensity");
        assert("tracking_noise.snow_intensity"@.take(14) =~= "tracking_noise"@);
    }
    assert(in_group("tracking_noise.snow_anisotropy"@, "tracking_noise"@)) by {
        reveal_strlit("tracking_noise.snow_anisotropy");
        assert("tracking_noise.snow_anisotropy"@.take(14) =~= "tracking_noise"@);
    }
    assert(in_group("tracking_noise.noise_intensity"@, "tracking_noise"@)) by {
        reveal_strlit("tracking_noise.noise_intensity");
        assert("tracking_noise.noise_intensity"@.take(14) =~= "tracking_noise"@);
    }
}

/// Values outside the group `vhs_settings` do not change it.
pub proof fn tape_is_its_own(a: Map<Seq<char>, ParamValueModel>, b: Map<Seq<char>, ParamValueModel>)
    requires
        agree_on(a, b, "vhs_settings"@),
    ensures
        signal_settings(a).vhs_settings == signal_settings(b).vhs_settings,
{
    reveal_strlit("vhs_settings");
    assert(in_group("vhs_settings"@, "vhs_settings"@));
    assert(in_group("vhs_settings.tape_speed"@, "vhs_settings"@)) by {
        reveal_strlit("vhs_settings.tape_speed");
        assert("vhs_settings.tape_speed"@.take(12) =~= "vhs_settings"@);
    }
    assert(in_group("vhs_settings.chroma_loss"@, "vhs_settings"@)) by {
        reveal_strlit("vhs_settings.chroma_loss");
        assert("vhs_settings.chroma_loss"@.take(12) =~= "vhs_settings"@);
    }
    assert(in_group("vhs_settings.sharpen"@, "vhs_settings"@)) by {
        reveal_strlit("vhs_settings.sharpen");
        assert("vhs_settings.sharpen"@.take(12) =~= "vhs_settings"@);
    }
    assert(in_group("vhs_settings.sharpen.intensity"@, "vhs_settings"@)) by {
        reveal_strlit("vhs_settings.sharpen.intensity");
        assert("vhs_settings.sharpen.intensity"@.take(12) =~= "vhs_settings"@);
    }
    assert(in_group("vhs_settings.sharpen.frequency"@, "vhs_settings"@)) by {
        reveal_strlit("vhs_settings.sharpen.frequency");
        assert("vhs_settings.sharpen.frequency"@.take(12) =~= "vhs_settings"@);
    }
    assert(in_group("vhs_settings.edge_wave"@, "vhs_settings"@)) by {
        reveal_strlit("vhs_settings.edge_wave");
        assert("vhs_settings.edge_wave"@.take(12) =~= "vhs_settings"@);
    }
    assert(in_group("vhs_settings.edge_wave.intensity"@, "vhs_settings"@)) by {
        reveal_strlit("vhs_settings.edge_wave.intensity");
        assert("vhs_settings.edge_wave.intensity"@.take(12) =~= "vhs_settings"@);
    }
    assert(in_group("vhs_settings.edge_wave.speed"@, "vhs_settings"@)) by {
        reveal_strlit("vhs_settings.edge_wave.speed");
        assert("vhs_settings.edge_wave.speed"@.take(12) =~= "vhs_settings"@);
    }
    assert(in_group("vhs_settings.edge_wave.frequency"@, "vhs_settings"@)) by {
        reveal_strlit("vhs_settings.edge_wave.frequency");
        assert("vhs_settings.edge_wave.frequency"@.take(12) =~= "vhs_settings"@);
    }
    assert(in_group("vhs_settings.edge_wave.detail"@, "vhs_settings"@)) by {
        reveal_strlit("vhs_settings.edge_wave.detail");
        assert("vhs_settings.edge_wave.detail"@.take(12) =~= "vhs_settings"@);
    }
}

/// The name of the choice `c`.
pub open spec fn use_field_name(c: UseField) -> Seq<char> {
    match c {
        UseField::Alternating => "alternating"@,
        UseField::Upper => "upper"@,
        UseField::Lower => "lower"@,
        UseField::Both => "both"@,
        UseField::InterleavedLower => "interleaved_lower"@,
        UseField::InterleavedUpper => "interleaved_upper"@,
    }
}

/// Every choice is read from its name, and a text that names none stands for
/// the usual one.
pub proof fn use_field_is_read_from_its_name(c: UseField, text: Seq<char>)
    ensures
        use_field_called(use_field_name(c)) == c,
        (forall|d: UseField| text != #[trigger] use_field_name(d)) ==> use_field_called(text)
            == UseField::InterleavedUpper,
{
    reveal_strlit("alternating");
    reveal_strlit("upper");
    reveal_strlit("lower");
    reveal_strlit("both");
    reveal_strlit("interleaved_lower");
    reveal_strlit("interleaved_upper");
    assert("alternating"@.len() != "upper"@.len());
    assert("alternating"@.len() != "lower"@.len());
    assert("alternating"@.len() != "both"@.len());
    assert("alternating"@.len() != "interleaved_lower"@.len());
    assert("alternating"@.len() != "interleaved_upper"@.len());
    assert("upper"@[0] != "lower"@[0]);
    assert("upper"@.len() != "both"@.len());
    assert("upper"@.len() != "interleaved_lower"@.len());
    assert("upper"@.len() != "interleaved_upper"@.len());
    assert("lower"@.len() != "both"@.len());
    assert("lower"@.len() != "interleaved_lower"@.len());
    assert("lower"@.len() != "interleaved_upper"@.len());
    assert("both"@.len() != "interleaved_lower"@.len());
    assert("both"@.len() != "interleaved_upper"@.len());
    assert("interleaved_lower"@[12] != "interleaved_upper"@[12]);
    assert(use_field_name(UseField::Alternating) == "alternating"@);
    assert(use_field_name(UseField::Upper) == "upper"@);
    assert(use_field_name(UseField::Lower) == "lower"@);
    assert(use_field_name(UseField::Both) == "both"@);
    assert(use_field_name(UseField::InterleavedLower) == "interleaved_lower"@);
    assert(use_field_name(UseField::InterleavedUpper) == "interleaved_upper"@);
}

/// The name of the choice `c`.
pub open spec fn filter_type_name(c: FilterType) -> Seq<char> {
    match c {
        FilterType::ConstantK => "constant_k"@,
        FilterType::Butterworth => "butterworth"@,
    }
}

/// Every choice is read from its name, and a text that names none stands for
/// the usual one.
pub proof fn filter_type_is_read_from_its_name(c: FilterType, text: Seq<char>)
    ensures
        filter_type_called(filter_type_name(c)) == c,
        (forall|d: FilterType| text != #[trigger] filter_type_name(d)) ==> filter_type_called(text)
            == FilterType::Butterworth,
{
    reveal_strlit("constant_k");
    reveal_strlit("butterworth");
    assert("constant_k"@.len() != "butterworth"@.len());
    assert(filter_type_name(FilterType::ConstantK) == "constant_k"@);
    assert(filter_type_name(FilterType::Butterworth) == "butterworth"@);
}

/// The name of the choice `c`.
pub open spec fn luma_lowpass_name(c: LumaLowpass) -> Seq<char> {
    match c {
        LumaLowpass::Off => "none"@,
        LumaLowpass::Box => "box"@,
        LumaLowpass::Notch => "notch"@,
    }
}

/// Every choice is read from its name, and a text that names none stands for
/// the usual one.
pub proof fn luma_lowpass_is_read_from_its_name(c: LumaLowpass, text: Seq<char>)
    ensures
        luma_lowpass_called(luma_lowpass_name(c)) == c,
        (forall|d: LumaLowpass| text != #[trigger] luma_lowpass_name(d)) ==> luma_lowpass_called(text)
            == LumaLowpass::Notch,
{
    reveal_strlit("none");
    reveal_strlit("box");
    reveal_strlit("notch");
    assert("none"@.len() != "box"@.len());
    assert("none"@.len() != "notch"@.len());
    assert("box"@.len() != "notch"@.len());
    assert(luma_lowpass_name(LumaLowpass::Off) == "none"@);
    assert(luma_lowpass_name(LumaLowpass::Box) == "box"@);
    assert(luma_lowpass_name(LumaLowpass::Notch) == "notch"@);
}

/// The name of the choice `c`.
pub open spec fn chroma_lowpass_name(c: ChromaLowpass) -> Seq<char> {
    match c {
        ChromaLowpass::Off => "none"@,
        ChromaLowpass::Light => "light"@,
        ChromaLowpass::Full => "full"@,
    }
}

/// Every choice is read from its name, and a text that names none stands for
/// the usual one.
pub proof fn chroma_lowpass_is_read_from_its_name(c: ChromaLowpass, text: Seq<char>)
    ensures
        chroma_lowpass_called(chroma_lowpass_name(c)) == c,
        (forall|d: ChromaLowpass| text != #[trigger] chroma_lowpass_name(d)) ==> chroma_lowpass_called(text)
            == ChromaLowpass::Full,
{
    reveal_strlit("none");
    reveal_strlit("light");
    reveal_strlit("full");
    assert("none"@.len() != "light"@.len());
    assert("none"@[0] != "full"@[0]);
    assert("light"@.len() != "full"@.len());
    assert(chroma_lowpass_name(ChromaLowpass::Off) == "none"@);
    assert(chroma_lowpass_name(ChromaLowpass::Light) == "light"@);
    assert(chroma_lowpass_name(ChromaLowpass::Full) == "full"@);
}

/// The name of the choice `c`.
pub open spec fn chroma_demodulation_name(c: ChromaDemodulation) -> Seq<char> {
    match c {
        ChromaDemodulation::Box => "box"@,
        ChromaDemodulation::OneLineComb => "one_line_comb"@,
        ChromaDemodulation::TwoLineComb => "two_line_comb"@,
        ChromaDemodulation::Notch => "notch"@,
    }
}

/// Every choice is read from its name, and a text that names none stands for
/// the usual one.
pub proof fn chroma_demodulation_is_read_from_its_name(c: ChromaDemodulation, text: Seq<char>)
    ensures
        chroma_demodulation_called(chroma_demodulation_name(c)) == c,
        (forall|d: ChromaDemodulation| text != #[trigger] chroma_demodulation_name(d)) ==> chroma_demodulation_called(text)
            == ChromaDemodulation::Notch,
{
    reveal_strlit("box");
    reveal_strlit("one_line_comb");
    reveal_strlit("two_line_comb");
    reveal_strlit("notch");
    assert("box"@.len() != "one_line_comb"@.len());
    assert("box"@.len() != "two_line_comb"@.len());
    assert("box"@.len() != "notch"@.len());
    assert("one_line_comb"@[0] != "two_line_comb"@[0]);
    assert("one_line_comb"@.len() != "notch"@.len());
    assert("two_line_comb"@.len() != "notch"@.len());
    assert(chroma_demodulation_name(ChromaDemodulation::Box) == "box"@);
    assert(chroma_demodulation_name(ChromaDemodulation::OneLineComb) == "one_line_comb"@);
    assert(chroma_demodulation_name(ChromaDemodulation::TwoLineComb) == "two_line_comb"@);
    assert(chroma_demodulation_name(ChromaDemodulation::Notch) == "notch"@);
}

/// The name of the choice `c`.
pub open spec fn tape_speed_name(c: TapeSpeed) -> Seq<char> {
    match c {
        TapeSpeed::Lp => "lp"@,
        TapeSpeed::Ep => "ep"@,
        TapeSpeed::Off => "off"@,
        TapeSpeed::Sp => "sp"@,
    }
}

/// Every choice is read from its name, and a text that names none stands for
/// the usual one.
pub proof fn tape_speed_is_read_from_its_name(c: TapeSpeed, text: Seq<char>)
    ensures
        tape_speed_called(tape_speed_name(c)) == c,
        (forall|d: TapeSpeed| text != #[trigger] tape_speed_name(d)) ==> tape_speed_called(text)
            == TapeSpeed::Sp,
{
    reveal_strlit("lp");
    reveal_strlit("ep");
    reveal_strlit("off");
    reveal_strlit("sp");
    assert("lp"@[0] != "ep"@[0]);
    assert("lp"@.len() != "off"@.len());
    assert("lp"@[0] != "sp"@[0]);
    assert("ep"@.len() != "off"@.len());
    assert("ep"@[0] != "sp"@[0]);
    assert("off"@.len() != "sp"@.len());
    assert(tape_speed_name(TapeSpeed::Lp) == "lp"@);
    assert(tape_speed_name(TapeSpeed::Ep) == "ep"@);
    assert(tape_speed_name(TapeSpeed::Off) == "off"@);
    assert(tape_speed_name(TapeSpeed::Sp) == "sp"@);
}

/// The angle of the phase shift `p` in degrees.
pub open spec fn phase_degrees(p: PhaseShift) -> int {
    match p {
        PhaseShift::Degrees0 => 0,
        PhaseShift::Degrees90 => 90,
        PhaseShift::Degrees180 => 180,
        PhaseShift::Degrees270 => 270,
    }
}

/// A quarter turn or a multiple of it is read as the angle that it is; any
/// other angle stands for half a turn.
pub proof fn phase_shift_is_its_angle(degrees: i32)
    ensures
        phase_degrees(phase_shift_by(degrees)) == if 0 <= degrees < 360 && degrees % 90 == 0 {
            degrees as int
        } else {
            180
        },
{
}

} // verus!
