//! Manifests, parameter values and presets.

use felx::model::curve::{Curve, CurveSample, InterpKind, Keyframe};
use felx::model::time::Rational;
use felx::params::manifest::{
    EffectManifest, EnumVariant, FloatRange, IntRange, ManifestError, ParamDecl, ParamKind,
    PassKind, WorkingSpace,
};
use felx::params::preset::{preset_effect, PresetError};
use felx::params::values::{ParamValue, ParamValues};
use felx::scalar::{Point, Rgba, Scalar};

fn s(x: f32) -> Scalar {
    Scalar::from_bits(x.to_bits())
}

fn f(x: Scalar) -> f32 {
    f32::from_bits(x.bits)
}

/// What a sample amounts to at `time`, for linear segments.
fn value(sample: CurveSample, time: Rational) -> f32 {
    match sample {
        CurveSample::Exact(v) => f(v),
        CurveSample::Blend { from, to } => {
            let secs = |t: Rational| t.num as f64 / t.den as f64;
            let u = (secs(time) - secs(from.t)) / (secs(to.t) - secs(from.t));
            f(from.v) + (f(to.v) - f(from.v)) * u as f32
        }
    }
}

fn decl(id: &str, name: &str, kind: ParamKind) -> ParamDecl {
    ParamDecl { id: id.to_string(), display_name: name.to_string(), kind }
}

fn float(default: f32, min: f32, max: f32) -> ParamKind {
    ParamKind::Float { default: s(default), range: FloatRange { min: s(min), max: s(max) } }
}

fn integer(default: i32, min: i32, max: i32) -> ParamKind {
    ParamKind::Int { default, range: IntRange { min, max } }
}

fn manifest(id: &str, parameters: Vec<ParamDecl>) -> EffectManifest {
    EffectManifest {
        id: id.to_string(),
        display_name: id.to_uppercase(),
        category: String::new(),
        working_space: WorkingSpace::default(),
        pass: PassKind::default(),
        parameters,
    }
}

fn signal_manifest() -> EffectManifest {
    manifest(
        "signal",
        vec![
            decl("intensity", "Intensity", float(0.7, 0.0, 1.0)),
            decl(
                "head_switching",
                "Head switching",
                ParamKind::OptionalGroup {
                    default_enabled: false,
                    parameters: vec![
                        decl("height", "Height (px)", integer(8, 0, 64)),
                        decl("horiz_shift", "Horizontal shift", float(4.0, 0.0, 32.0)),
                    ],
                },
            ),
        ],
    )
}

#[test]
fn ids_uses_dotted_paths_for_nested_params() {
    let m = signal_manifest();
    let ids = m.ids();
    assert!(ids.contains(&"intensity".to_string()));
    assert!(ids.contains(&"head_switching".to_string()));
    assert!(ids.contains(&"head_switching.height".to_string()));
    assert!(ids.contains(&"head_switching.horiz_shift".to_string()));
    assert_eq!(ids.len(), 4);
}

#[test]
fn duplicate_parameter_id_rejected() {
    let m = manifest(
        "x",
        vec![
            decl("a", "A", ParamKind::Bool { default: true }),
            decl("a", "Also A", ParamKind::Bool { default: false }),
        ],
    );
    let err = m.validate().unwrap_err();
    assert!(matches!(err, ManifestError::DuplicateParameterId(_)));
    assert_eq!(err.message(), "duplicate parameter id: a");
    assert!(signal_manifest().validate().is_ok());
}

#[test]
fn duplicates_are_looked_for_within_groups_only_at_their_level() {
    let inner = |id: &str| {
        decl(
            id,
            "G",
            ParamKind::Group {
                parameters: vec![decl("x", "X", ParamKind::Bool { default: true })],
            },
        )
    };
    assert!(manifest("m", vec![inner("g"), inner("h")]).validate().is_ok());
    let nested = manifest(
        "m",
        vec![decl(
            "g",
            "G",
            ParamKind::OptionalGroup {
                default_enabled: true,
                parameters: vec![
                    decl("y", "Y", ParamKind::Bool { default: true }),
                    decl("y", "Y", ParamKind::Bool { default: true }),
                ],
            },
        )],
    );
    assert_eq!(nested.validate(), Err(ManifestError::DuplicateParameterId("y".to_string())));
}

#[test]
fn from_manifest_seeds_defaults() {
    let m = manifest(
        "x",
        vec![
            decl("intensity", "I", float(0.7, 0.0, 1.0)),
            decl(
                "head_switching",
                "HS",
                ParamKind::OptionalGroup {
                    default_enabled: false,
                    parameters: vec![decl("height", "H", integer(8, 0, 64))],
                },
            ),
        ],
    );
    let v = ParamValues::from_manifest(&m);
    assert_eq!(v.float("intensity").map(f), Some(0.7));
    assert_eq!(v.group_enabled("head_switching"), Some(false));
    assert_eq!(v.integer("head_switching.height"), Some(8));
}

#[test]
fn every_kind_seeds_its_default() {
    let colour = Rgba { r: s(1.0), g: s(0.5), b: s(0.25), a: s(1.0) };
    let point = Point { x: s(2.0), y: s(3.0) };
    let variants = vec![
        EnumVariant { id: "one".to_string(), display_name: "One".to_string() },
        EnumVariant { id: "two".to_string(), display_name: "Two".to_string() },
    ];
    let m = manifest(
        "m",
        vec![
            decl("c", "C", ParamKind::Color { default: colour }),
            decl("v", "V", ParamKind::Vec2 { default: point }),
            decl("b", "B", ParamKind::Bool { default: true }),
            decl(
                "known",
                "K",
                ParamKind::Enum { variants: variants.clone(), default: "two".to_string() },
            ),
            decl("unknown", "U", ParamKind::Enum { variants, default: "three".to_string() }),
            decl("none", "N", ParamKind::Enum { variants: vec![], default: "three".to_string() }),
            decl(
                "g",
                "G",
                ParamKind::Group {
                    parameters: vec![decl("n", "N", integer(-3, -5, 5))],
                },
            ),
        ],
    );
    let v = ParamValues::from_manifest(&m);
    assert_eq!(v.color("c"), Some(colour));
    assert_eq!(v.vec2("v"), Some(point));
    assert_eq!(v.bool("b"), Some(true));
    assert_eq!(v.enum_str("known"), Some("two"));
    assert_eq!(v.enum_str("unknown"), Some("one"));
    assert_eq!(v.enum_str("none"), Some(""));
    assert_eq!(v.integer("g.n"), Some(-3));
    assert!(v.get("g").is_none());
    assert_eq!(v.len(), 7);
}

#[test]
fn set_then_get() {
    let mut v = ParamValues::new();
    v.set("a".to_string(), ParamValue::Float(s(0.25)));
    assert_eq!(v.float("a").map(f), Some(0.25));
    v.set("a".to_string(), ParamValue::Float(s(0.75)));
    assert_eq!(v.float("a").map(f), Some(0.75));
    assert_eq!(v.len(), 1);
}

#[test]
fn type_mismatched_accessor_returns_none() {
    let mut v = ParamValues::new();
    v.set("a".to_string(), ParamValue::Float(s(1.0)));
    assert!(v.bool("a").is_none());
    assert!(v.integer("a").is_none());
}

#[test]
fn iter_is_stable_alphabetical() {
    let mut v = ParamValues::new();
    v.set("z".to_string(), ParamValue::Bool(true));
    v.set("a".to_string(), ParamValue::Bool(false));
    let ids: Vec<&str> = v.iter().iter().map(|(id, _)| id.as_str()).collect();
    assert_eq!(ids, ["a", "z"]);
}

fn ramp() -> ParamValue {
    ParamValue::FloatCurve(Curve::Animated(vec![
        Keyframe { t: Rational::new(0, 30), v: s(0.0), interp: InterpKind::Linear },
        Keyframe { t: Rational::new(60, 30), v: s(1.0), interp: InterpKind::Linear },
    ]))
}

#[test]
fn float_at_samples_curve() {
    let mut v = ParamValues::new();
    v.set("g".to_string(), ramp());
    let t = Rational::new(30, 30);
    let mid = value(v.float_at("g", t).unwrap(), t);
    assert!((mid - 0.5).abs() < 1e-6);
    assert!(v.float("g").is_none());
    assert!(v.float_curve("g").is_some());
}

#[test]
fn resolved_at_collapses_curve_to_static_float() {
    let mut v = ParamValues::new();
    v.set("g".to_string(), ramp());
    v.set("h".to_string(), ParamValue::Bool(true));
    let t = Rational::new(30, 30);
    let resolved = v.resolved_at(t, |sample| s(value(sample, t)));
    assert_eq!(resolved.float("g").map(f), Some(0.5));
    assert_eq!(resolved.bool("h"), Some(true));
}

#[test]
fn values_are_empty_until_set() {
    let v = ParamValues::new();
    assert!(v.is_empty());
    assert_eq!(v.len(), 0);
    let mut w = v.duplicate();
    w.set("a".to_string(), ParamValue::Enum("x".to_string()));
    assert!(!w.is_empty());
    assert_eq!(w.duplicate(), w);
    assert!(v.is_empty());
}

#[test]
fn preset_effects_collect_their_values() {
    let e = preset_effect(
        "gain".to_string(),
        &[
            ("gain", ParamValue::Float(s(0.5))),
            ("on", ParamValue::Bool(true)),
            ("gain", ParamValue::Float(s(0.75))),
        ],
    );
    assert_eq!(e.id, "gain");
    assert_eq!(e.values.float("gain").map(f), Some(0.75));
    assert_eq!(e.values.bool("on"), Some(true));
    assert_eq!(e.values.len(), 2);
}

#[test]
fn reader_errors_have_texts() {
    assert_eq!(PresetError::Io("gone".to_string()).message(), "io: gone");
    assert_eq!(PresetError::Parse("1:2".to_string()).message(), "parse: 1:2");
    assert_eq!(ManifestError::Io("gone".to_string()).message(), "io: gone");
    assert_eq!(ManifestError::Parse("1:2".to_string()).message(), "parse: 1:2");
}
