//! Effect parameters: manifests that declare them, values that hold them, and
//! presets.
//!
//! Parameter ids are stable across renames in the interface: a change of
//! `display_name` does not break projects that refer to `id`.

pub mod defaults;
pub mod manifest;
pub mod values;
pub mod preset;
