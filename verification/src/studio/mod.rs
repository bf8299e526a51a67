//! The state behind the desktop program: transport, autosave, exports, the
//! render queue, settings, and the editor itself.

pub mod audio;
pub mod autosave;
pub mod curve_edit;
pub mod diagnostics;
pub mod editor;
pub mod effects_panel;
pub mod export;
pub mod files;
pub mod graph;
pub mod hot_reload;
pub mod layer_panel;
pub mod mask_panel;
pub mod playback;
pub mod registry;
pub mod render_queue;
pub mod settings;
pub mod viewer;
