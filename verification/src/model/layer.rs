//! Layer types and the per-kind data they carry.

use crate::model::asset::AssetId;
use crate::model::composition::CompId;
use crate::model::effect::{Effect, EffectModel};
use crate::model::mask::{Mask, MaskModel};
use crate::model::time::wrap32;
use crate::model::transform::{Transform, TransformModel};
use crate::scalar::{about_one, Rgba, Scalar};
use crate::seqs::views;
use vstd::prelude::*;

verus! {

/// How a layer composites onto everything below it.
#[derive(Clone, Copy, Debug, PartialEq, Eq, Structural)]
pub enum BlendMode {
    Normal,
    Add,
    Multiply,
    Screen,
    Overlay,
    SoftLight,
    HardLight,
    Lighten,
    Darken,
    Difference,
    Exclusion,
    ColorDodge,
    ColorBurn,
    LinearDodge,
    LinearBurn,
    Hue,
    Saturation,
    Color,
    Luminosity,
}

impl Default for BlendMode {
    fn default() -> (r: Self)
        ensures
            r == BlendMode::Normal,
    {
        BlendMode::Normal
    }
}

/// The index that the blend shader switches on. The hue, saturation, colour
/// and luminosity modes and soft light blend as `Normal`.
pub open spec fn blend_shader_index(mode: BlendMode) -> u32 {
    match mode {
        BlendMode::Normal => 0,
        BlendMode::Add => 1,
        BlendMode::Multiply => 2,
        BlendMode::Screen => 3,
        BlendMode::Overlay => 4,
        BlendMode::SoftLight => 0,
        BlendMode::HardLight => 5,
        BlendMode::Lighten => 6,
        BlendMode::Darken => 7,
        BlendMode::Difference => 8,
        BlendMode::Exclusion => 9,
        BlendMode::ColorDodge => 10,
        BlendMode::ColorBurn => 11,
        BlendMode::LinearDodge => 1,
        BlendMode::LinearBurn => 12,
        BlendMode::Hue => 0,
        BlendMode::Saturation => 0,
        BlendMode::Color => 0,
        BlendMode::Luminosity => 0,
    }
}

/// The name of `mode` in the interface.
pub open spec fn blend_label(mode: BlendMode) -> Seq<char> {
    match mode {
        BlendMode::Normal => "Normal"@,
        BlendMode::Add => "Add"@,
        BlendMode::Multiply => "Multiply"@,
        BlendMode::Screen => "Screen"@,
        BlendMode::Overlay => "Overlay"@,
        BlendMode::SoftLight => "Soft Light"@,
        BlendMode::HardLight => "Hard Light"@,
        BlendMode::Lighten => "Lighten"@,
        BlendMode::Darken => "Darken"@,
        BlendMode::Difference => "Difference"@,
        BlendMode::Exclusion => "Exclusion"@,
        BlendMode::ColorDodge => "Color Dodge"@,
        BlendMode::ColorBurn => "Color Burn"@,
        BlendMode::LinearDodge => "Linear Dodge"@,
        BlendMode::LinearBurn => "Linear Burn"@,
        BlendMode::Hue => "Hue"@,
        BlendMode::Saturation => "Saturation"@,
        BlendMode::Color => "Color"@,
        BlendMode::Luminosity => "Luminosity"@,
    }
}

/// Every blend mode, in menu order.
pub open spec fn blend_modes() -> Seq<BlendMode> {
    seq![
        BlendMode::Normal,
        BlendMode::Add,
        BlendMode::Multiply,
        BlendMode::Screen,
        BlendMode::Overlay,
        BlendMode::SoftLight,
        BlendMode::HardLight,
        BlendMode::Lighten,
        BlendMode::Darken,
        BlendMode::Difference,
        BlendMode::Exclusion,
        BlendMode::ColorDodge,
        BlendMode::ColorBurn,
        BlendMode::LinearDodge,
        BlendMode::LinearBurn,
        BlendMode::Hue,
        BlendMode::Saturation,
        BlendMode::Color,
        BlendMode::Luminosity,
    ]
}

/// The menu lists every blend mode.
pub proof fn blend_modes_complete(mode: BlendMode)
    ensures
        blend_modes().contains(mode),
        blend_modes().len() == 19,
{
    let s = blend_modes();
    match mode {
        BlendMode::Normal => assert(s[0] == mode),
        BlendMode::Add => assert(s[1] == mode),
        BlendMode::Multiply => assert(s[2] == mode),
        BlendMode::Screen => assert(s[3] == mode),
        BlendMode::Overlay => assert(s[4] == mode),
        BlendMode::SoftLight => assert(s[5] == mode),
        BlendMode::HardLight => assert(s[6] == mode),
        BlendMode::Lighten => assert(s[7] == mode),
        BlendMode::Darken => assert(s[8] == mode),
        BlendMode::Difference => assert(s[9] == mode),
        BlendMode::Exclusion => assert(s[10] == mode),
        BlendMode::ColorDodge => assert(s[11] == mode),
        BlendMode::ColorBurn => assert(s[12] == mode),
        BlendMode::LinearDodge => assert(s[13] == mode),
        BlendMode::LinearBurn => assert(s[14] == mode),
        BlendMode::Hue => assert(s[15] == mode),
        BlendMode::Saturation => assert(s[16] == mode),
        BlendMode::Color => assert(s[17] == mode),
        BlendMode::Luminosity => assert(s[18] == mode),
    }
}

impl BlendMode {
    /// Every blend mode, in menu order.
    pub fn all() -> (r: [BlendMode; 19])
        ensures
            r@ == blend_modes(),
    {
        [
            BlendMode::Normal,
            BlendMode::Add,
            BlendMode::Multiply,
            BlendMode::Screen,
            BlendMode::Overlay,
            BlendMode::SoftLight,
            BlendMode::HardLight,
            BlendMode::Lighten,
            BlendMode::Darken,
            BlendMode::Difference,
            BlendMode::Exclusion,
            BlendMode::ColorDodge,
            BlendMode::ColorBurn,
            BlendMode::LinearDodge,
            BlendMode::LinearBurn,
            BlendMode::Hue,
            BlendMode::Saturation,
            BlendMode::Color,
            BlendMode::Luminosity,
        ]
    }

    /// Stable index that the blend shader switches on.
    pub fn shader_index(self) -> (r: u32)
        ensures
            r == blend_shader_index(self),
    {
        match self {
            BlendMode::Normal => 0,
            BlendMode::Add | BlendMode::LinearDodge => 1,
            BlendMode::Multiply => 2,
            BlendMode::Screen => 3,
            BlendMode::Overlay => 4,
            BlendMode::HardLight => 5,
            BlendMode::Lighten => 6,
            BlendMode::Darken => 7,
            BlendMode::Difference => 8,
            BlendMode::Exclusion => 9,
            BlendMode::ColorDodge => 10,
            BlendMode::ColorBurn => 11,
            BlendMode::LinearBurn => 12,
            BlendMode::SoftLight
            | BlendMode::Hue
            | BlendMode::Saturation
            | BlendMode::Color
            | BlendMode::Luminosity => 0,
        }
    }

    pub fn label(self) -> (r: &'static str)
        ensures
            r@ == blend_label(self),
    {
        match self {
            BlendMode::Normal => "Normal",
            BlendMode::Add => "Add",
            BlendMode::Multiply => "Multiply",
            BlendMode::Screen => "Screen",
            BlendMode::Overlay => "Overlay",
            BlendMode::SoftLight => "Soft Light",
            BlendMode::HardLight => "Hard Light",
            BlendMode::Lighten => "Lighten",
            BlendMode::Darken => "Darken",
            BlendMode::Difference => "Difference",
            BlendMode::Exclusion => "Exclusion",
            BlendMode::ColorDodge => "Color Dodge",
            BlendMode::ColorBurn => "Color Burn",
            BlendMode::LinearDodge => "Linear Dodge",
            BlendMode::LinearBurn => "Linear Burn",
            BlendMode::Hue => "Hue",
            BlendMode::Saturation => "Saturation",
            BlendMode::Color => "Color",
            BlendMode::Luminosity => "Luminosity",
        }
    }
}

#[derive(Clone, Copy, Debug, PartialEq, Eq, Structural, Hash)]
pub struct LayerId(pub u32);

/// Which part of the layer above gates this one.
#[derive(Clone, Copy, Debug, PartialEq, Eq, Structural)]
pub enum TrackMatteMode {
    Alpha,
    AlphaInverted,
    Luma,
    LumaInverted,
}

/// The index that the matte shader switches on.
pub open spec fn matte_shader_index(mode: TrackMatteMode) -> u32 {
    match mode {
        TrackMatteMode::Alpha => 0,
        TrackMatteMode::AlphaInverted => 1,
        TrackMatteMode::Luma => 2,
        TrackMatteMode::LumaInverted => 3,
    }
}

/// The name of `mode` in the interface.
pub open spec fn matte_label(mode: TrackMatteMode) -> Seq<char> {
    match mode {
        TrackMatteMode::Alpha => "Alpha"@,
        TrackMatteMode::AlphaInverted => "Alpha Inverted"@,
        TrackMatteMode::Luma => "Luma"@,
        TrackMatteMode::LumaInverted => "Luma Inverted"@,
    }
}

impl TrackMatteMode {
    pub fn shader_index(self) -> (r: u32)
        ensures
            r == matte_shader_index(self),
    {
        match self {
            TrackMatteMode::Alpha => 0,
            TrackMatteMode::AlphaInverted => 1,
            TrackMatteMode::Luma => 2,
            TrackMatteMode::LumaInverted => 3,
        }
    }

    pub fn label(self) -> (r: &'static str)
        ensures
            r@ == matte_label(self),
    {
        match self {
            TrackMatteMode::Alpha => "Alpha",
            TrackMatteMode::AlphaInverted => "Alpha Inverted",
            TrackMatteMode::Luma => "Luma",
            TrackMatteMode::LumaInverted => "Luma Inverted",
        }
    }
}

#[derive(Clone, Copy, Debug, PartialEq, Eq, Structural)]
pub enum LayerKind {
    Video { asset: AssetId },
    Image { asset: AssetId },
    Audio { asset: AssetId },
    Solid { color: Rgba },
    Null,
    Adjustment,
    Composition { comp: CompId },
}

#[derive(Debug, PartialEq)]
pub struct Layer {
    pub id: LayerId,
    pub name: String,
    pub kind: LayerKind,
    /// First frame on the composition's timeline at which this layer is
    /// visible.
    pub in_frame: u32,
    /// One past the last frame. `out_frame == in_frame` means a zero-length
    /// layer, which is valid (just invisible).
    pub out_frame: u32,
    pub transform: Transform,
    pub effects: Vec<Effect>,
    /// Layer this one inherits its transform from. Cycles are rejected by
    /// `Project::validate`.
    pub parent: Option<LayerId>,
    pub blend_mode: BlendMode,
    /// Use the layer immediately above this one in the stack as a track
    /// matte. The source layer becomes invisible.
    pub track_matte: Option<TrackMatteMode>,
    /// Constant time offset applied to the source clock: with `+N` the source
    /// plays N frames later relative to `in_frame`.
    pub time_offset_frames: i32,
    /// Constant speed multiplier on the source clock. 1 is identity, 0.5
    /// plays at half speed, -1 reverses.
    pub time_scale: Scalar,
    /// Masks, combined from first to last by their modes.
    pub masks: Vec<Mask>,
}

/// What a layer holds.
#[verifier::ext_equal]
pub struct LayerModel {
    pub id: LayerId,
    pub name: Seq<char>,
    pub kind: LayerKind,
    pub in_frame: u32,
    pub out_frame: u32,
    pub transform: TransformModel,
    pub effects: Seq<EffectModel>,
    pub parent: Option<LayerId>,
    pub blend_mode: BlendMode,
    pub track_matte: Option<TrackMatteMode>,
    pub time_offset_frames: i32,
    pub time_scale: Scalar,
    pub masks: Seq<MaskModel>,
}

impl View for Layer {
    type V = LayerModel;

    open spec fn view(&self) -> LayerModel {
        LayerModel {
            id: self.id,
            name: self.name@,
            kind: self.kind,
            in_frame: self.in_frame,
            out_frame: self.out_frame,
            transform: self.transform@,
            effects: views(self.effects@),
            parent: self.parent,
            blend_mode: self.blend_mode,
            track_matte: self.track_matte,
            time_offset_frames: self.time_offset_frames,
            time_scale: self.time_scale,
            masks: views(self.masks@),
        }
    }
}

/// Whether the layer's source plays at its own speed from its own start.
pub open spec fn plays_straight(l: LayerModel) -> bool {
    l.time_offset_frames == 0 && about_one(l.time_scale)
}

/// The source frame shown at `comp_frame`, where `scaled` is the frame count
/// since `in_frame` times the speed, rounded. It is never before the start.
pub open spec fn source_frame(l: LayerModel, comp_frame: u32, scaled: int) -> int {
    if plays_straight(l) {
        if comp_frame <= l.in_frame {
            0
        } else {
            comp_frame - l.in_frame
        }
    } else if scaled + l.time_offset_frames <= 0 {
        0
    } else {
        wrap32(scaled + l.time_offset_frames)
    }
}

impl Layer {
    /// Duration on the composition's timeline, in frames.
    pub fn duration(&self) -> (r: u32)
        ensures
            r == if self@.out_frame >= self@.in_frame {
                self@.out_frame - self@.in_frame
            } else {
                0
            },
            self@.in_frame <= self@.out_frame ==> self@.in_frame + r == self@.out_frame,
    {
        if self.out_frame >= self.in_frame {
            self.out_frame - self.in_frame
        } else {
            0
        }
    }

    /// Frames from `in_frame` to `comp_frame`; negative before `in_frame`.
    pub fn local_frame(&self, comp_frame: u32) -> (r: i64)
        ensures
            r == comp_frame - self@.in_frame,
            self@.in_frame + r == comp_frame,
    {
        comp_frame as i64 - self.in_frame as i64
    }

    /// Maps a composition frame to the source clock of this layer. `scaled`
    /// is the local frame times the speed, rounded; it does not matter while
    /// the source plays straight. Negative results are clamped to 0: the
    /// source cannot play before it starts.
    pub fn source_frame_for(&self, comp_frame: u32, scaled: i64) -> (r: u32)
        requires
            i64::MIN <= scaled + self@.time_offset_frames <= i64::MAX,
        ensures
            r == source_frame(self@, comp_frame, scaled as int),
    {
        if self.time_offset_frames == 0 && self.time_scale.is_about_one() {
            return if comp_frame <= self.in_frame {
                0
            } else {
                comp_frame - self.in_frame
            };
        }
        let with_offset: i64 = scaled + self.time_offset_frames as i64;
        if with_offset <= 0 {
            0
        } else {
            crate::model::time::low_bits(with_offset as u64)
        }
    }
}

/// A layer that plays straight and one that counts the same local frames
/// without an offset show the same source frame from `in_frame` on.
pub proof fn straight_is_unscaled(a: LayerModel, b: LayerModel, comp_frame: u32)
    requires
        plays_straight(a),
        !plays_straight(b),
        b.time_offset_frames == 0,
        a.in_frame == b.in_frame,
        comp_frame >= a.in_frame,
    ensures
        source_frame(a, comp_frame, comp_frame - a.in_frame) == source_frame(
            b,
            comp_frame,
            comp_frame - b.in_frame,
        ),
{
}

/// Whether the compositor has a formula of its own for `mode`.
pub open spec fn has_own_formula(mode: BlendMode) -> bool {
    !(mode is SoftLight || mode is LinearDodge || mode is Hue || mode is Saturation
        || mode is Color || mode is Luminosity)
}

/// The modes with a formula of their own are numbered in the order of the
/// menu, so no two share a number.
pub proof fn formulas_follow_the_menu(i: int, j: int)
    requires
        0 <= i < j < blend_modes().len(),
        has_own_formula(blend_modes()[i]),
        has_own_formula(blend_modes()[j]),
    ensures
        blend_shader_index(blend_modes()[i]) < blend_shader_index(blend_modes()[j]) < 13,
{
}

/// Every other mode borrows a formula: linear dodge is drawn as adding is, and
/// the rest as normal layers are.
pub proof fn other_modes_borrow_a_formula(mode: BlendMode)
    requires
        !has_own_formula(mode),
    ensures
        blend_shader_index(mode) == blend_shader_index(
            if mode is LinearDodge {
                BlendMode::Add
            } else {
                BlendMode::Normal
            },
        ),
{
}

/// The number of a matte tells what it reads and whether it is turned round.
pub proof fn matte_number_tells_the_matte(mode: TrackMatteMode)
    ensures
        matte_shader_index(mode) < 4,
        matte_shader_index(mode) % 2 == 1 <==> mode is AlphaInverted || mode is LumaInverted,
        matte_shader_index(mode) / 2 == 1 <==> mode is Luma || mode is LumaInverted,
{
}

/// A layer that plays straight starts with its first frame and goes on by one
/// frame per frame of the composition.
pub proof fn straight_layer_counts_up(l: LayerModel, comp_frame: u32, scaled: int)
    requires
        plays_straight(l),
        comp_frame < u32::MAX,
    ensures
        comp_frame <= l.in_frame ==> source_frame(l, comp_frame, scaled) == 0,
        comp_frame >= l.in_frame ==> source_frame(l, (comp_frame + 1) as u32, scaled)
            == source_frame(l, comp_frame, scaled) + 1,
{
}

/// Shifting a layer by some frames shifts what it shows by as many, as long as
/// that is not before the start of the source.
pub proof fn offset_shifts_the_source(a: LayerModel, b: LayerModel, comp_frame: u32, scaled: int)
    requires
        !plays_straight(a),
        !plays_straight(b),
        0 <= scaled + a.time_offset_frames <= u32::MAX,
        0 <= scaled + b.time_offset_frames <= u32::MAX,
    ensures
        source_frame(a, comp_frame, scaled) - source_frame(b, comp_frame, scaled)
            == a.time_offset_frames - b.time_offset_frames,
        a.time_offset_frames == 0 ==> source_frame(a, comp_frame, scaled) == scaled,
{
}

/// Before the start of the source its first frame is shown.
pub proof fn source_does_not_run_backwards(l: LayerModel, comp_frame: u32, scaled: int)
    requires
        !plays_straight(l),
        scaled + l.time_offset_frames < 0,
    ensures
        source_frame(l, comp_frame, scaled) == 0,
{
}

/// The blend mode that the menu calls `label`.
pub open spec fn blend_mode_called(label: Seq<char>) -> Option<BlendMode> {
    if label == "Normal"@ {
        Some(BlendMode::Normal)
    } else if label == "Add"@ {
        Some(BlendMode::Add)
    } else if label == "Multiply"@ {
        Some(BlendMode::Multiply)
    } else if label == "Screen"@ {
        Some(BlendMode::Screen)
    } else if label == "Overlay"@ {
        Some(BlendMode::Overlay)
    } else if label == "Soft Light"@ {
        Some(BlendMode::SoftLight)
    } else if label == "Hard Light"@ {
        Some(BlendMode::HardLight)
    } else if label == "Lighten"@ {
        Some(BlendMode::Lighten)
    } else if label == "Darken"@ {
        Some(BlendMode::Darken)
    } else if label == "Difference"@ {
        Some(BlendMode::Difference)
    } else if label == "Exclusion"@ {
        Some(BlendMode::Exclusion)
    } else if label == "Color Dodge"@ {
        Some(BlendMode::ColorDodge)
    } else if label == "Color Burn"@ {
        Some(BlendMode::ColorBurn)
    } else if label == "Linear Dodge"@ {
        Some(BlendMode::LinearDodge)
    } else if label == "Linear Burn"@ {
        Some(BlendMode::LinearBurn)
    } else if label == "Hue"@ {
        Some(BlendMode::Hue)
    } else if label == "Saturation"@ {
        Some(BlendMode::Saturation)
    } else if label == "Color"@ {
        Some(BlendMode::Color)
    } else if label == "Luminosity"@ {
        Some(BlendMode::Luminosity)
    } else {
        None
    }
}

/// The label of a blend mode tells which it is.
pub proof fn blend_modes_are_told_by_their_labels(x: BlendMode)
    ensures
        blend_mode_called(blend_label(x)) == Some(x),
{
    reveal_strlit("Normal");
    reveal_strlit("Add");
    reveal_strlit("Multiply");
    reveal_strlit("Screen");
    reveal_strlit("Overlay");
    reveal_strlit("Soft Light");
    reveal_strlit("Hard Light");
    reveal_strlit("Lighten");
    reveal_strlit("Darken");
    reveal_strlit("Difference");
    reveal_strlit("Exclusion");
    reveal_strlit("Color Dodge");
    reveal_strlit("Color Burn");
    reveal_strlit("Linear Dodge");
    reveal_strlit("Linear Burn");
    reveal_strlit("Hue");
    reveal_strlit("Saturation");
    reveal_strlit("Color");
    reveal_strlit("Luminosity");
    match x {
        BlendMode::Normal => {},
        BlendMode::Add => {
            assert("Add"@.len() != "Normal"@.len());
        },
        BlendMode::Multiply => {
            assert("Multiply"@.len() != "Normal"@.len());
            assert("Multiply"@.len() != "Add"@.len());
        },
        BlendMode::Screen => {
            assert("Screen"@[0] != "Normal"@[0]);
            assert("Screen"@.len() != "Add"@.len());
            assert("Screen"@.len() != "Multiply"@.len());
        },
        BlendMode::Overlay => {
            assert("Overlay"@.len() != "Normal"@.len());
            assert("Overlay"@.len() != "Add"@.len());
            assert("Overlay"@.len() != "Multiply"@.len());
            assert("Overlay"@.len() != "Screen"@.len());
        },
        BlendMode::SoftLight => {
            assert("Soft Light"@.len() != "Normal"@.len());
            assert("Soft Light"@.len() != "Add"@.len());
            assert("Soft Light"@.len() != "Multiply"@.len());
            assert("Soft Light"@.len() != "Screen"@.len());
            assert("Soft Light"@.len() != "Overlay"@.len());
        },
        BlendMode::HardLight => {
            assert("Hard Light"@.len() != "Normal"@.len());
            assert("Hard Light"@.len() != "Add"@.len());
            assert("Hard Light"@.len() != "Multiply"@.len());
            assert("Hard Light"@.len() != "Screen"@.len());
            assert("Hard Light"@.len() != "Overlay"@.len());
            assert("Hard Light"@[0] != "Soft Light"@[0]);
        },
        BlendMode::Lighten => {
            assert("Lighten"@.len() != "Normal"@.len());
            assert("Lighten"@.len() != "Add"@.len());
            assert("Lighten"@.len() != "Multiply"@.len());
            assert("Lighten"@.len() != "Screen"@.len());
            assert("Lighten"@[0] != "Overlay"@[0]);
            assert("Lighten"@.len() != "Soft Light"@.len());
            assert("Lighten"@.len() != "Hard Light"@.len());
        },
        BlendMode::Darken => {
            assert("Darken"@[0] != "Normal"@[0]);
            assert("Darken"@.len() != "Add"@.len());
            assert("Darken"@.len() != "Multiply"@.len());
            assert("Darken"@[0] != "Screen"@[0]);
            assert("Darken"@.len() != "Overlay"@.len());
            assert("Darken"@.len() != "Soft Light"@.len());
            assert("Darken"@.len() != "Hard Light"@.len());
            assert("Darken"@.len() != "Lighten"@.len());
        },
        BlendMode::Difference => {
            assert("Difference"@.len() != "Normal"@.len());
            assert("Difference"@.len() != "Add"@.len());
            assert("Difference"@.len() != "Multiply"@.len());
            assert("Difference"@.len() != "Screen"@.len());
            assert("Difference"@.len() != "Overlay"@.len());
            assert("Difference"@[0] != "Soft Light"@[0]);
            assert("Difference"@[0] != "Hard Light"@[0]);
            assert("Difference"@.len() != "Lighten"@.len());
            assert("Difference"@.len() != "Darken"@.len());
        },
        BlendMode::Exclusion => {
            assert("Exclusion"@.len() != "Normal"@.len());
            assert("Exclusion"@.len() != "Add"@.len());
            assert("Exclusion"@.len() != "Multiply"@.len());
            assert("Exclusion"@.len() != "Screen"@.len());
            assert("Exclusion"@.len() != "Overlay"@.len());
            assert("Exclusion"@.len() != "Soft Light"@.len());
            assert("Exclusion"@.len() != "Hard Light"@.len());
            assert("Exclusion"@.len() != "Lighten"@.len());
            assert("Exclusion"@.len() != "Darken"@.len());
            assert("Exclusion"@.len() != "Difference"@.len());
        },
        BlendMode::ColorDodge => {
            assert("Color Dodge"@.len() != "Normal"@.len());
            assert("Color Dodge"@.len() != "Add"@.len());
            assert("Color Dodge"@.len() != "Multiply"@.len());
            assert("Color Dodge"@.len() != "Screen"@.len());
            assert("Color Dodge"@.len() != "Overlay"@.len());
            assert("Color Dodge"@.len() != "Soft Light"@.len());
            assert("Color Dodge"@.len() != "Hard Light"@.len());
            assert("Color Dodge"@.len() != "Lighten"@.len());
            assert("Color Dodge"@.len() != "Darken"@.len());
            assert("Color Dodge"@.len() != "Difference"@.len());
            assert("Color Dodge"@.len() != "Exclusion"@.len());
        },
        BlendMode::ColorBurn => {
            assert("Color Burn"@.len() != "Normal"@.len());
            assert("Color Burn"@.len() != "Add"@.len());
            assert("Color Burn"@.len() != "Multiply"@.len());
            assert("Color Burn"@.len() != "Screen"@.len());
            assert("Color Burn"@.len() != "Overlay"@.len());
            assert("Color Burn"@[0] != "Soft Light"@[0]);
            assert("Color Burn"@[0] != "Hard Light"@[0]);
            assert("Color Burn"@.len() != "Lighten"@.len());
            assert("Color Burn"@.len() != "Darken"@.len());
            assert("Color Burn"@[0] != "Difference"@[0]);
            assert("Color Burn"@.len() != "Exclusion"@.len());
            assert("Color Burn"@.len() != "Color Dodge"@.len());
        },
        BlendMode::LinearDodge => {
            assert("Linear Dodge"@.len() != "Normal"@.len());
            assert("Linear Dodge"@.len() != "Add"@.len());
            assert("Linear Dodge"@.len() != "Multiply"@.len());
            assert("Linear Dodge"@.len() != "Screen"@.len());
            assert("Linear Dodge"@.len() != "Overlay"@.len());
            assert("Linear Dodge"@.len() != "Soft Light"@.len());
            assert("Linear Dodge"@.len() != "Hard Light"@.len());
            assert("Linear Dodge"@.len() != "Lighten"@.len());
            assert("Linear Dodge"@.len() != "Darken"@.len());
            assert("Linear Dodge"@.len() != "Difference"@.len());
            assert("Linear Dodge"@.len() != "Exclusion"@.len());
            assert("Linear Dodge"@.len() != "Color Dodge"@.len());
            assert("Linear Dodge"@.len() != "Color Burn"@.len());
        },
        BlendMode::LinearBurn => {
            assert("Linear Burn"@.len() != "Normal"@.len());
            assert("Linear Burn"@.len() != "Add"@.len());
            assert("Linear Burn"@.len() != "Multiply"@.len());
            assert("Linear Burn"@.len() != "Screen"@.len());
            assert("Linear Burn"@.len() != "Overlay"@.len());
            assert("Linear Burn"@.len() != "Soft Light"@.len());
            assert("Linear Burn"@.len() != "Hard Light"@.len());
            assert("Linear Burn"@.len() != "Lighten"@.len());
            assert("Linear Burn"@.len() != "Darken"@.len());
            assert("Linear Burn"@.len() != "Difference"@.len());
            assert("Linear Burn"@.len() != "Exclusion"@.len());
            assert("Linear Burn"@[0] != "Color Dodge"@[0]);
            assert("Linear Burn"@.len() != "Color Burn"@.len());
            assert("Linear Burn"@.len() != "Linear Dodge"@.len());
        },
        BlendMode::Hue => {
            assert("Hue"@.len() != "Normal"@.len());
            assert("Hue"@[0] != "Add"@[0]);
            assert("Hue"@.len() != "Multiply"@.len());
            assert("Hue"@.len() != "Screen"@.len());
            assert("Hue"@.len() != "Overlay"@.len());
            assert("Hue"@.len() != "Soft Light"@.len());
            assert("Hue"@.len() != "Hard Light"@.len());
            assert("Hue"@.len() != "Lighten"@.len());
            assert("Hue"@.len() != "Darken"@.len());
            assert("Hue"@.len() != "Difference"@.len());
            assert("Hue"@.len() != "Exclusion"@.len());
            assert("Hue"@.len() != "Color Dodge"@.len());
            assert("Hue"@.len() != "Color Burn"@.len());
            assert("Hue"@.len() != "Linear Dodge"@.len());
            assert("Hue"@.len() != "Linear Burn"@.len());
        },
        BlendMode::Saturation => {
            assert("Saturation"@.len() != "Normal"@.len());
            assert("Saturation"@.len() != "Add"@.len());
            assert("Saturation"@.len() != "Multiply"@.len());
            assert("Saturation"@.len() != "Screen"@.len());
            assert("Saturation"@.len() != "Overlay"@.len());
            assert("Saturation"@[1] != "Soft Light"@[1]);
            assert("Saturation"@[0] != "Hard Light"@[0]);
            assert("Saturation"@.len() != "Lighten"@.len());
            assert("Saturation"@.len() != "Darken"@.len());
            assert("Saturation"@[0] != "Difference"@[0]);
            assert("Saturation"@.len() != "Exclusion"@.len());
            assert("Saturation"@.len() != "Color Dodge"@.len());
            assert("Saturation"@[0] != "Color Burn"@[0]);
            assert("Saturation"@.len() != "Linear Dodge"@.len());
            assert("Saturation"@.len() != "Linear Burn"@.len());
            assert("Saturation"@.len() != "Hue"@.len());
        },
        BlendMode::Color => {
            assert("Color"@.len() != "Normal"@.len());
            assert("Color"@.len() != "Add"@.len());
            assert("Color"@.len() != "Multiply"@.len());
            assert("Color"@.len() != "Screen"@.len());
            assert("Color"@.len() != "Overlay"@.len());
            assert("Color"@.len() != "Soft Light"@.len());
            assert("Color"@.len() != "Hard Light"@.len());
            assert("Color"@.len() != "Lighten"@.len());
            assert("Color"@.len() != "Darken"@.len());
            assert("Color"@.len() != "Difference"@.len());
            assert("Color"@.len() != "Exclusion"@.len());
            assert("Color"@.len() != "Color Dodge"@.len());
            assert("Color"@.len() != "Color Burn"@.len());
            assert("Color"@.len() != "Linear Dodge"@.len());
            assert("Color"@.len() != "Linear Burn"@.len());
            assert("Color"@.len() != "Hue"@.len());
            assert("Color"@.len() != "Saturation"@.len());
        },
        BlendMode::Luminosity => {
            assert("Luminosity"@.len() != "Normal"@.len());
            assert("Luminosity"@.len() != "Add"@.len());
            assert("Luminosity"@.len() != "Multiply"@.len());
            assert("Luminosity"@.len() != "Screen"@.len());
            assert("Luminosity"@.len() != "Overlay"@.len());
            assert("Luminosity"@[0] != "Soft Light"@[0]);
            assert("Luminosity"@[0] != "Hard Light"@[0]);
            assert("Luminosity"@.len() != "Lighten"@.len());
            assert("Luminosity"@.len() != "Darken"@.len());
            assert("Luminosity"@[0] != "Difference"@[0]);
            assert("Luminosity"@.len() != "Exclusion"@.len());
            assert("Luminosity"@.len() != "Color Dodge"@.len());
            assert("Luminosity"@[0] != "Color Burn"@[0]);
            assert("Luminosity"@.len() != "Linear Dodge"@.len());
            assert("Luminosity"@.len() != "Linear Burn"@.len());
            assert("Luminosity"@.len() != "Hue"@.len());
            assert("Luminosity"@[0] != "Saturation"@[0]);
            assert("Luminosity"@.len() != "Color"@.len());
        },
    }
}

/// The matte that the menu calls `label`.
pub open spec fn matte_called(label: Seq<char>) -> Option<TrackMatteMode> {
    if label == "Alpha"@ {
        Some(TrackMatteMode::Alpha)
    } else if label == "Alpha Inverted"@ {
        Some(TrackMatteMode::AlphaInverted)
    } else if label == "Luma"@ {
        Some(TrackMatteMode::Luma)
    } else if label == "Luma Inverted"@ {
        Some(TrackMatteMode::LumaInverted)
    } else {
        None
    }
}

/// The label of a matte tells which it is.
pub proof fn mattes_are_told_by_their_labels(x: TrackMatteMode)
    ensures
        matte_called(matte_label(x)) == Some(x),
{
    reveal_strlit("Alpha");
    reveal_strlit("Alpha Inverted");
    reveal_strlit("Luma");
    reveal_strlit("Luma Inverted");
    match x {
        TrackMatteMode::Alpha => {},
        TrackMatteMode::AlphaInverted => {
            assert("Alpha Inverted"@.len() != "Alpha"@.len());
        },
        TrackMatteMode::Luma => {
            assert("Luma"@.len() != "Alpha"@.len());
            assert("Luma"@.len() != "Alpha Inverted"@.len());
        },
        TrackMatteMode::LumaInverted => {
            assert("Luma Inverted"@.len() != "Alpha"@.len());
            assert("Luma Inverted"@.len() != "Alpha Inverted"@.len());
            assert("Luma Inverted"@.len() != "Luma"@.len());
        },
    }
}

} // verus!
