use composite::geometry::{client_size, full_rect, PhysicalRect};
use composite::ipc::IpcQueue;
use composite::overlay::{check_overlay_size, LayerStep, TargetStep, WindowVisibility};
use composite::{FrameInfo, OverlayError, OverlayFrame, OverlayState};

#[test]
fn new_overlay_is_active_without_webview_frame() {
    let state = OverlayState::new(1280, 720, true);
    assert!(state.is_active());
    assert_eq!(state.window_size(), (1280, 720));
    assert!(!state.draws_webview_layer());
    assert_eq!(
        state.full_bounds(),
        PhysicalRect { x: 0, y: 0, width: 1280, height: 720 }
    );
}

#[test]
fn missing_client_area_hides_and_pauses() {
    let mut state = OverlayState::new(1280, 720, true);
    assert_eq!(state.sync_target(None, true), TargetStep::Hidden);
    assert!(!state.is_active());
    assert_eq!(
        state.idle_frame(),
        OverlayFrame {
            texture: FrameInfo { width: 1280, height: 720, generation: 0 },
            webview_updated: false,
        }
    );
}

#[test]
fn background_target_hides_without_resize() {
    let mut state = OverlayState::new(1280, 720, true);
    let bounds = PhysicalRect { x: 10, y: 20, width: 800, height: 600 };
    assert_eq!(
        state.sync_target(Some(bounds), false),
        TargetStep::Follow { bounds, visible: false, resize: false }
    );
    assert!(!state.is_active());
}

#[test]
fn foreground_target_follows_and_asks_for_resize() {
    let mut state = OverlayState::new(1280, 720, true);
    let same = PhysicalRect { x: 0, y: 0, width: 1280, height: 720 };
    assert_eq!(
        state.sync_target(Some(same), true),
        TargetStep::Follow { bounds: same, visible: true, resize: false }
    );
    let bigger = PhysicalRect { x: -5, y: 3, width: 1920, height: 720 };
    assert_eq!(
        state.sync_target(Some(bigger), true),
        TargetStep::Follow { bounds: bigger, visible: true, resize: true }
    );
    assert!(state.is_active());
}

#[test]
fn input_waits_while_imgui_wants_the_mouse() {
    let mut state = OverlayState::new(100, 100, true);
    assert_eq!(state.take_input([1, 2], [true, false, false, false, false], true), None);
    // The press was recorded, so releasing it later yields a mouseup.
    let script = state
        .take_input([1, 2], [false; 5], false)
        .expect("forwarded when ImGui does not want the mouse");
    assert!(script.contains("'mouseup'"));
    assert!(script.contains("'click'"));
}

#[test]
fn input_is_always_forwarded_without_respect() {
    let mut state = OverlayState::new(100, 100, false);
    let script = state.take_input([4, 5], [false; 5], true).expect("always forwarded");
    assert!(script.starts_with("(function(){var x=4,y=5,m=0;"));
    assert!(!script.contains("mousedown"));
}

#[test]
fn captures_update_generation_and_layer() {
    let mut state = OverlayState::new(300, 200, true);
    assert!(!state.record_capture(None));
    assert!(!state.draws_webview_layer());
    let frame = FrameInfo { width: 300, height: 200, generation: 7 };
    assert!(state.record_capture(Some(frame)));
    assert!(state.draws_webview_layer());
    assert!(!state.record_capture(None));
    assert!(state.draws_webview_layer());
    assert_eq!(
        state.composed_frame(300, 200, false),
        OverlayFrame {
            texture: FrameInfo { width: 300, height: 200, generation: 7 },
            webview_updated: false,
        }
    );
}

#[test]
fn resize_restarts_layers() {
    let mut state = OverlayState::new(300, 200, true);
    state.record_capture(Some(FrameInfo { width: 300, height: 200, generation: 9 }));
    assert_eq!(check_overlay_size(640, 480), Ok(()));
    state.reset_layers(640, 480);
    assert_eq!(state.window_size(), (640, 480));
    assert!(!state.draws_webview_layer());
    // The count of copied frames carries on across the resize.
    assert_eq!(
        state.idle_frame(),
        OverlayFrame {
            texture: FrameInfo { width: 640, height: 480, generation: 9 },
            webview_updated: false,
        }
    );
}

#[test]
fn frame_layers_put_webview_between_underlay_and_windows() {
    let mut state = OverlayState::new(300, 200, true);
    assert_eq!(
        state.frame_layers(),
        vec![
            LayerStep::Clear,
            LayerStep::CallerUnderlay,
            LayerStep::ImGuiWindows,
            LayerStep::Present,
        ]
    );
    state.record_capture(Some(FrameInfo { width: 300, height: 200, generation: 1 }));
    assert_eq!(
        state.frame_layers(),
        vec![
            LayerStep::Clear,
            LayerStep::CallerUnderlay,
            LayerStep::WebViewImage,
            LayerStep::ImGuiWindows,
            LayerStep::Present,
        ]
    );
    state.reset_layers(400, 300);
    assert!(!state.frame_layers().contains(&LayerStep::WebViewImage));
}

#[test]
fn resize_refuses_zero_sides() {
    assert_eq!(check_overlay_size(0, 480), Err(OverlayError::InvalidWindowSize));
    assert_eq!(check_overlay_size(640, 0), Err(OverlayError::InvalidWindowSize));
}

#[test]
fn visibility_changes_only_once() {
    let mut visibility = WindowVisibility::shown();
    // Created shown: showing again needs no call.
    assert!(!visibility.set_visible(true));
    assert!(visibility.set_visible(false));
    assert!(!visibility.set_visible(false));
    assert!(visibility.set_visible(true));
    assert!(!visibility.set_visible(true));
}

#[test]
fn ipc_messages_are_delivered_in_order_once() {
    let mut queue = IpcQueue::new();
    queue.push("first".to_string());
    queue.push("second".to_string());
    assert_eq!(queue.drain(), vec!["first".to_string(), "second".to_string()]);
    assert!(queue.drain().is_empty());
    queue.push("third".to_string());
    assert_eq!(queue.drain(), vec!["third".to_string()]);
}

#[test]
fn client_size_clamps_and_rejects_empty_areas() {
    assert_eq!(client_size(0, 0, 800, 600), Some((800, 600)));
    assert_eq!(client_size(-100, 50, 100, 150), Some((200, 100)));
    assert_eq!(client_size(10, 0, 10, 600), None);
    assert_eq!(client_size(20, 0, 10, 600), None);
    assert_eq!(client_size(0, 600, 800, 0), None);
    assert_eq!(full_rect(3, 4), PhysicalRect { x: 0, y: 0, width: 3, height: 4 });
}
