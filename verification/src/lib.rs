//! Plain-value core of the composite overlay renderer.
//!
//! Layer order is deterministic: caller primitives submitted through the
//! underlay draw list, then the captured WebView texture, then ordinary ImGui
//! windows and the foreground draw list.
use vstd::prelude::*;

pub mod geometry;
pub mod input;
pub mod ipc;
pub mod overlay;
pub mod stats;
pub mod webview_texture;

pub use overlay::{OverlayError, OverlayFrame, OverlayState};
pub use webview_texture::FrameInfo;
