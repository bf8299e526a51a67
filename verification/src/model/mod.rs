//! Domain model: project, compositions, layers, transforms, curves, effects,
//! assets, and time.

pub mod asset;
pub mod composition;
pub mod curve;
pub mod effect;
pub mod io;
pub mod layer;
pub mod mask;
pub mod project;
pub mod time;
pub mod transform;
