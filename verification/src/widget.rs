//! Names of the app's windows, as the Tauri configuration declares them.
use vstd::prelude::*;

verus! {

/// Label of the floating recording widget window.
pub const WIDGET_LABEL: &'static str = "recording-widget";

/// Label of the main window.
pub const MAIN_LABEL: &'static str = "main";

/// Frames of the snap-to-side animation of the widget.
pub const SNAP_FRAMES: u32 = 12;

/// Length of one frame of that animation, in ms.
pub const SNAP_FRAME_MS: u64 = 16;

} // verus!
