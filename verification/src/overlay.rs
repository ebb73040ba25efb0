//! The decisions of the overlay's frame loop, kept apart from the Windows,
//! Wry and ImGui calls that carry them out.
//!
//! Each frame the host asks [`OverlayState::sync_target`] what to do with
//! the target window's geometry, forwards input as
//! [`OverlayState::take_input`] says, then renders: an inactive overlay
//! reports [`OverlayState::idle_frame`]; an active one records the WebView
//! capture with [`OverlayState::record_capture`], draws the WebView layer when
//! [`OverlayState::draws_webview_layer`] holds, and reports
//! [`OverlayState::composed_frame`].
use vstd::prelude::*;

use crate::geometry::{full_rect, PhysicalRect};
use crate::input::{mouse_event_script, mouse_event_script_spec};
use crate::webview_texture::{Error, FrameInfo, WindowsError};

verus! {

/// Result of one composed overlay frame.
#[derive(Clone, Copy, Debug, PartialEq, Eq, Structural)]
pub struct OverlayFrame {
    /// Metadata for the combined texture.
    pub texture: FrameInfo,
    /// Whether the WebView supplied a new compositor frame this iteration.
    pub webview_updated: bool,
}

/// Errors returned by the D3D11/WebView/ImGui overlay pipeline.
#[derive(Debug, PartialEq, Eq)]
pub enum OverlayError {
    /// The foreground target window was not found.
    DiscordWindowNotFound,
    /// The foreground target window has an invalid client size.
    InvalidWindowSize,
    /// A Windows API returned no object for the named resource.
    MissingObject(&'static str),
    /// An error of the texture-backed WebView.
    WebView(Error),
    /// A Windows API call failed.
    Windows(WindowsError),
    /// The ImGui D3D11 renderer failed; its message.
    ImGuiRenderer(String),
}

/// The first check of `Overlay::resize`: `Err(OverlayError::InvalidWindowSize)`
/// exactly when a side is zero.
pub fn check_overlay_size(width: u32, height: u32) -> (result: Result<(), OverlayError>)
    ensures
        result is Err <==> (width == 0 || height == 0),
        result is Err ==> result == Err::<(), OverlayError>(OverlayError::InvalidWindowSize),
{
    if width == 0 || height == 0 {
        Err(OverlayError::InvalidWindowSize)
    } else {
        Ok(())
    }
}

/// What the overlay does with the target window's geometry this frame.
#[derive(Clone, Copy, Debug, PartialEq, Eq, Structural)]
pub enum TargetStep {
    /// The target has no usable client area: hide the overlay window, skip
    /// this frame's input, keep running.
    Hidden,
    /// Move the overlay window over `bounds` and show it when `visible`,
    /// otherwise hide it and skip this frame's input. When `resize` holds the
    /// composition resources must be resized to the new client size first.
    Follow { bounds: PhysicalRect, visible: bool, resize: bool },
}

/// One step of composing a frame into the combined texture.
#[derive(Clone, Copy, Debug, PartialEq, Eq, Structural)]
pub enum LayerStep {
    /// Bind the combined texture and clear it with the clear color.
    Clear,
    /// The caller's primitives in the underlay draw list.
    CallerUnderlay,
    /// The captured WebView image, stretched over the whole texture.
    WebViewImage,
    /// Ordinary ImGui windows and the foreground draw list.
    ImGuiWindows,
    /// Unbind, flush, and present the combined texture.
    Present,
}

/// The steps of a composed frame, in order: clear, the caller's underlay,
/// the WebView image once a frame has been captured, the ImGui windows, and
/// presentation.
pub open spec fn frame_layers_of(has_webview_frame: bool) -> Seq<LayerStep> {
    seq![LayerStep::Clear, LayerStep::CallerUnderlay] + (if has_webview_frame {
        seq![LayerStep::WebViewImage]
    } else {
        Seq::empty()
    }) + seq![LayerStep::ImGuiWindows, LayerStep::Present]
}

/// The abstract state of an overlay: the size and generation of its layers,
/// whether a WebView frame has been captured into them, the input
/// preferences, the last input that was forwarded, and whether the target is
/// active.
pub struct OverlayModel {
    pub width: u32,
    pub height: u32,
    pub generation: u64,
    pub has_webview_frame: bool,
    pub respect_imgui_mouse_capture: bool,
    pub last_mouse: Seq<i32>,
    pub last_buttons: Seq<bool>,
    pub active: bool,
}

/// The model right after construction over a `width` x `height` target.
pub open spec fn initial_model(width: u32, height: u32, respect_imgui_mouse_capture: bool) -> OverlayModel {
    OverlayModel {
        width,
        height,
        generation: 0,
        has_webview_frame: false,
        respect_imgui_mouse_capture,
        last_mouse: seq![-1i32, -1i32],
        last_buttons: seq![false, false, false, false, false],
        active: true,
    }
}

/// The step that the target's geometry calls for.
pub open spec fn target_step(m: OverlayModel, bounds: Option<PhysicalRect>, target_active: bool) -> TargetStep {
    match bounds {
        None => TargetStep::Hidden,
        Some(b) => TargetStep::Follow {
            bounds: b,
            visible: target_active,
            resize: target_active && (b.width != m.width || b.height != m.height),
        },
    }
}

/// The model after the target's geometry was taken in: the overlay is active
/// exactly when the target has a client area and is the visible, restored
/// foreground window.
pub open spec fn after_sync(m: OverlayModel, bounds: Option<PhysicalRect>, target_active: bool) -> OverlayModel {
    OverlayModel { active: bounds is Some && target_active, ..m }
}

/// Whether this frame's mouse input is forwarded to the WebView: always,
/// unless the overlay respects ImGui's mouse capture and ImGui wants the
/// mouse.
pub open spec fn forwards_mouse(m: OverlayModel, imgui_wants_mouse: bool) -> bool {
    !m.respect_imgui_mouse_capture || !imgui_wants_mouse
}

/// The model after a WebView capture attempt: a captured frame is drawn from
/// now on and its generation is reported.
pub open spec fn after_capture(m: OverlayModel, captured: Option<FrameInfo>) -> OverlayModel {
    match captured {
        Some(f) => OverlayModel { has_webview_frame: true, generation: f.generation, ..m },
        None => m,
    }
}

/// The model after the layers were rebuilt at `width` x `height`: nothing
/// captured into them yet, so no WebView image is drawn until the next
/// capture. The generation, a count of the frames copied so far, is kept.
pub open spec fn after_layers_reset(m: OverlayModel, width: u32, height: u32) -> OverlayModel {
    OverlayModel { width, height, has_webview_frame: false, ..m }
}

/// What an inactive overlay reports instead of composing a frame.
pub open spec fn idle_frame_of(m: OverlayModel) -> OverlayFrame {
    OverlayFrame {
        texture: FrameInfo { width: m.width, height: m.height, generation: m.generation },
        webview_updated: false,
    }
}

/// The plain state of an overlay, kept beside its window, WebView and GPU
/// resources.
pub struct OverlayState {
    width: u32,
    height: u32,
    generation: u64,
    has_webview_frame: bool,
    respect_imgui_mouse_capture: bool,
    last_mouse: [i32; 2],
    last_buttons: [bool; 5],
    active: bool,
}

impl View for OverlayState {
    type V = OverlayModel;

    closed spec fn view(&self) -> OverlayModel {
        OverlayModel {
            width: self.width,
            height: self.height,
            generation: self.generation,
            has_webview_frame: self.has_webview_frame,
            respect_imgui_mouse_capture: self.respect_imgui_mouse_capture,
            last_mouse: self.last_mouse@,
            last_buttons: self.last_buttons@,
            active: self.active,
        }
    }
}

impl OverlayState {
    /// The overlay always covers a non-empty area.
    #[verifier::type_invariant]
    spec fn non_empty(&self) -> bool {
        self.width > 0 && self.height > 0
    }

    /// The state of a freshly built overlay over a `width` x `height` target:
    /// active, no WebView frame yet, no button held, cursor unknown.
    pub fn new(width: u32, height: u32, respect_imgui_mouse_capture: bool) -> (state: Self)
        requires
            width > 0,
            height > 0,
        ensures
            state@ == initial_model(width, height, respect_imgui_mouse_capture),
    {
        let state = OverlayState {
            width,
            height,
            generation: 0,
            has_webview_frame: false,
            respect_imgui_mouse_capture,
            last_mouse: [-1, -1],
            last_buttons: [false; 5],
            active: true,
        };
        assert(state@.last_mouse =~= seq![-1i32, -1i32]);
        assert(state@.last_buttons =~= seq![false, false, false, false, false]);
        state
    }

    /// Physical dimensions of the combined texture.
    pub fn window_size(&self) -> (size: (u32, u32))
        ensures
            size == (self@.width, self@.height),
            size.0 > 0 && size.1 > 0,
    {
        proof {
            use_type_invariant(self);
        }
        (self.width, self.height)
    }

    /// Whether the target is active, so that frames are composed.
    pub fn is_active(&self) -> (active: bool)
        ensures
            active == self@.active,
    {
        self.active
    }

    /// Takes in the target's client area (`None` when it has none) and
    /// whether the target is the visible, restored foreground window, and
    /// says what to do with the overlay window.
    pub fn sync_target(&mut self, bounds: Option<PhysicalRect>, target_active: bool) -> (step:
        TargetStep)
        ensures
            step == target_step(old(self)@, bounds, target_active),
            final(self)@ == after_sync(old(self)@, bounds, target_active),
    {
        proof {
            use_type_invariant(&*self);
        }
        match bounds {
            None => {
                self.active = false;
                TargetStep::Hidden
            },
            Some(b) => {
                self.active = target_active;
                TargetStep::Follow {
                    bounds: b,
                    visible: target_active,
                    resize: target_active && (b.width != self.width || b.height != self.height),
                }
            },
        }
    }

    /// Records this frame's cursor position (in overlay client coordinates)
    /// and held buttons, and returns the script that replays them in the
    /// WebView when mouse input is forwarded this frame.
    pub fn take_input(&mut self, mouse: [i32; 2], buttons: [bool; 5], imgui_wants_mouse: bool) -> (script: Option<String>)
        ensures
            script is Some <==> forwards_mouse(old(self)@, imgui_wants_mouse),
            script matches Some(s) ==> s@ == mouse_event_script_spec(
                mouse@,
                buttons@,
                old(self)@.last_buttons,
            ),
            final(self)@ == (OverlayModel { last_mouse: mouse@, last_buttons: buttons@, ..old(self)@ }),
    {
        proof {
            use_type_invariant(&*self);
        }
        let script = if !self.respect_imgui_mouse_capture || !imgui_wants_mouse {
            Some(mouse_event_script(mouse, buttons, self.last_buttons))
        } else {
            None
        };
        self.last_mouse = mouse;
        self.last_buttons = buttons;
        script
    }

    /// What `render` reports while the target is inactive: the layer size
    /// and generation, with no WebView update.
    pub fn idle_frame(&self) -> (frame: OverlayFrame)
        ensures
            frame == idle_frame_of(self@),
    {
        OverlayFrame {
            texture: FrameInfo {
                width: self.width,
                height: self.height,
                generation: self.generation,
            },
            webview_updated: false,
        }
    }

    /// Takes in the result of the WebView capture for this frame and returns
    /// whether the WebView layer was updated.
    pub fn record_capture(&mut self, captured: Option<FrameInfo>) -> (updated: bool)
        ensures
            updated == captured is Some,
            final(self)@ == after_capture(old(self)@, captured),
    {
        proof {
            use_type_invariant(&*self);
        }
        match captured {
            Some(frame) => {
                self.has_webview_frame = true;
                self.generation = frame.generation;
                true
            },
            None => false,
        }
    }

    /// Whether the WebView image is drawn between the caller's underlay and
    /// the ImGui windows: from the first captured frame on.
    pub fn draws_webview_layer(&self) -> (draws: bool)
        ensures
            draws == self@.has_webview_frame,
    {
        self.has_webview_frame
    }

    /// The steps that compose this frame, in the order the host carries them
    /// out.
    pub fn frame_layers(&self) -> (steps: Vec<LayerStep>)
        ensures
            steps@ == frame_layers_of(self@.has_webview_frame),
    {
        let mut steps: Vec<LayerStep> = Vec::new();
        steps.push(LayerStep::Clear);
        steps.push(LayerStep::CallerUnderlay);
        if self.has_webview_frame {
            steps.push(LayerStep::WebViewImage);
        }
        steps.push(LayerStep::ImGuiWindows);
        steps.push(LayerStep::Present);
        assert(steps@ =~= frame_layers_of(self.has_webview_frame));
        steps
    }

    /// What `render` reports for a composed frame of the given display size.
    pub fn composed_frame(&self, display_width: u32, display_height: u32, webview_updated: bool) -> (frame: OverlayFrame)
        ensures
            frame == (OverlayFrame {
                texture: FrameInfo {
                    width: display_width,
                    height: display_height,
                    generation: self@.generation,
                },
                webview_updated,
            }),
    {
        OverlayFrame {
            texture: FrameInfo {
                width: display_width,
                height: display_height,
                generation: self.generation,
            },
            webview_updated,
        }
    }

    /// The layers were rebuilt at `width` x `height` (both non-zero, as
    /// `check_overlay_size` demands): the WebView image waits for the next
    /// capture, and the generation keeps counting.
    pub fn reset_layers(&mut self, width: u32, height: u32)
        requires
            width > 0,
            height > 0,
        ensures
            final(self)@ == after_layers_reset(old(self)@, width, height),
    {
        proof {
            use_type_invariant(&*self);
        }
        self.width = width;
        self.height = height;
        self.has_webview_frame = false;
    }

    /// The WebView bounds that cover the whole overlay.
    pub fn full_bounds(&self) -> (rect: PhysicalRect)
        ensures
            rect == (PhysicalRect { x: 0, y: 0, width: self@.width, height: self@.height }),
    {
        full_rect(self.width, self.height)
    }
}

/// Whether the overlay window is shown; a change is carried out with
/// `ShowWindow`, a repeated request is not.
pub struct WindowVisibility {
    visible: bool,
}

impl View for WindowVisibility {
    type V = bool;

    closed spec fn view(&self) -> bool {
        self.visible
    }
}

impl WindowVisibility {
    /// A window that was created shown.
    pub fn shown() -> (state: Self)
        ensures
            state@,
    {
        WindowVisibility { visible: true }
    }

    /// Requests the window be shown or hidden; returns whether the window
    /// must be told (the request changes its state).
    pub fn set_visible(&mut self, visible: bool) -> (changed: bool)
        ensures
            changed == (old(self)@ != visible),
            final(self)@ == visible,
    {
        if self.visible == visible {
            return false;
        }
        self.visible = visible;
        true
    }
}

/// The overlay is resized exactly when an active target's client size
/// differs from the overlay's current size, in either dimension; a target
/// that is not active is followed and hidden without a resize, and a target
/// without a client area hides the overlay.
pub proof fn lemma_resize_exactly_on_size_change(
    m: OverlayModel,
    b: PhysicalRect,
    target_active: bool,
)
    ensures
        target_step(m, Some(b), true) == (TargetStep::Follow {
            bounds: b,
            visible: true,
            resize: (b.width, b.height) != (m.width, m.height),
        }),
        target_step(m, Some(b), false) == (TargetStep::Follow {
            bounds: b,
            visible: false,
            resize: false,
        }),
        target_step(m, None, target_active) == TargetStep::Hidden,
{
}

/// Mouse input is withheld only when the overlay respects ImGui's mouse
/// capture and ImGui wants the mouse: whenever ImGui does not want the mouse,
/// or the overlay does not respect its capture, the input is forwarded.
pub proof fn lemma_input_withheld_only_for_imgui(m: OverlayModel, imgui_wants_mouse: bool)
    ensures
        !forwards_mouse(m, imgui_wants_mouse) <==> (m.respect_imgui_mouse_capture
            && imgui_wants_mouse),
        !imgui_wants_mouse ==> forwards_mouse(m, imgui_wants_mouse),
        !m.respect_imgui_mouse_capture ==> forwards_mouse(m, imgui_wants_mouse),
{
}

/// The overlay composes frames exactly when the target has a client area and
/// is the visible, restored foreground window; otherwise `render` reports the
/// idle frame, which carries the layer size and generation and no update.
pub proof fn lemma_inactive_target_pauses_composition(
    m: OverlayModel,
    bounds: Option<PhysicalRect>,
    target_active: bool,
)
    ensures
        after_sync(m, bounds, target_active).active <==> (bounds is Some && target_active),
        !after_sync(m, bounds, target_active).active ==> idle_frame_of(
            after_sync(m, bounds, target_active),
        ) == (OverlayFrame {
            texture: FrameInfo { width: m.width, height: m.height, generation: m.generation },
            webview_updated: false,
        }),
        target_step(m, bounds, target_active) matches TargetStep::Follow { resize, .. } ==> (resize
            ==> target_active),
{
}

/// Layer order is deterministic: every frame is cleared first and presented
/// last; the caller's underlay comes before the WebView image, which comes
/// before the ImGui windows; each step happens once; and the WebView image is
/// drawn exactly when a WebView frame has been captured.
pub proof fn lemma_layer_order(has_webview_frame: bool)
    ensures
        ({
            let steps = frame_layers_of(has_webview_frame);
            let windows = if has_webview_frame {
                3int
            } else {
                2int
            };
            &&& steps.len() == windows + 2
            &&& steps[0] == LayerStep::Clear
            &&& steps[1] == LayerStep::CallerUnderlay
            &&& has_webview_frame ==> steps[2] == LayerStep::WebViewImage
            &&& steps[windows] == LayerStep::ImGuiWindows
            &&& steps[windows + 1] == LayerStep::Present
            &&& steps.contains(LayerStep::WebViewImage) <==> has_webview_frame
            &&& forall|i: int, j: int|
                0 <= i < j < steps.len() ==> steps[i] != steps[j]
        }),
{
    let steps = frame_layers_of(has_webview_frame);
    if has_webview_frame {
        assert(steps =~= seq![
            LayerStep::Clear,
            LayerStep::CallerUnderlay,
            LayerStep::WebViewImage,
            LayerStep::ImGuiWindows,
            LayerStep::Present,
        ]);
        assert(steps[2] == LayerStep::WebViewImage);
    } else {
        assert(steps =~= seq![
            LayerStep::Clear,
            LayerStep::CallerUnderlay,
            LayerStep::ImGuiWindows,
            LayerStep::Present,
        ]);
        assert forall|i: int| 0 <= i < steps.len() implies steps[i] != LayerStep::WebViewImage by {}
    }
}

/// The model after a run of capture results, in frame order.
pub open spec fn after_captures(m: OverlayModel, captures: Seq<Option<FrameInfo>>) -> OverlayModel
    decreases captures.len(),
{
    if captures.len() == 0 {
        m
    } else {
        after_capture(after_captures(m, captures.drop_last()), captures.last())
    }
}

/// Index of the last captured frame in a run of capture results, or -1.
pub open spec fn last_captured(captures: Seq<Option<FrameInfo>>) -> int
    decreases captures.len(),
{
    if captures.len() == 0 {
        -1
    } else if captures.last() is Some {
        captures.len() - 1
    } else {
        last_captured(captures.drop_last())
    }
}

/// Once a WebView frame has been captured, the WebView layer is drawn in
/// every later frame, and composed frames report the generation of the most
/// recent capture; frames without a capture change nothing.
pub proof fn lemma_webview_layer_follows_latest_capture(
    m: OverlayModel,
    captures: Seq<Option<FrameInfo>>,
)
    ensures
        -1 <= last_captured(captures) < captures.len(),
        last_captured(captures) >= 0 ==> captures[last_captured(captures)] is Some,
        after_captures(m, captures).has_webview_frame == (m.has_webview_frame || last_captured(
            captures,
        ) >= 0),
        after_captures(m, captures).generation == if last_captured(captures) >= 0 {
            captures[last_captured(captures)]->0.generation
        } else {
            m.generation
        },
        after_captures(m, captures).width == m.width,
        after_captures(m, captures).height == m.height,
        after_captures(m, captures).active == m.active,
    decreases captures.len(),
{
    if captures.len() > 0 {
        lemma_webview_layer_follows_latest_capture(m, captures.drop_last());
    }
}

/// Resizing restarts the layers: the overlay reports the new size, draws no
/// WebView image until the next capture, and keeps the generation, so the
/// generation it reports never goes back.
pub proof fn lemma_resize_restarts_layers(m: OverlayModel, width: u32, height: u32)
    ensures
        after_layers_reset(m, width, height).width == width,
        after_layers_reset(m, width, height).height == height,
        !after_layers_reset(m, width, height).has_webview_frame,
        after_layers_reset(m, width, height).generation == m.generation,
        idle_frame_of(after_layers_reset(m, width, height)) == (OverlayFrame {
            texture: FrameInfo { width, height, generation: m.generation },
            webview_updated: false,
        }),
        after_layers_reset(m, width, height).active == m.active,
{
}

} // verus!
