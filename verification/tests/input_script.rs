use composite::input::{
    append_decimal, button_mask, key_state_is_down, mouse_event_script, BUTTON_COUNT,
};

fn decimal(n: i32) -> String {
    let mut out = String::new();
    append_decimal(&mut out, n);
    out
}

#[test]
fn decimal_matches_display() {
    for n in [0, 7, 10, 42, -1, -42, 1000, i32::MAX, i32::MIN] {
        assert_eq!(decimal(n), n.to_string());
    }
}

#[test]
fn decimal_appends_to_existing_text() {
    let mut out = String::from("x=");
    append_decimal(&mut out, -305);
    assert_eq!(out, "x=-305");
}

#[test]
fn button_mask_sets_one_bit_per_held_button() {
    assert_eq!(button_mask([false; 5]), 0);
    assert_eq!(button_mask([true, false, false, false, false]), 1);
    assert_eq!(button_mask([false, true, false, false, false]), 2);
    assert_eq!(button_mask([true, false, true, false, false]), 5);
    assert_eq!(button_mask([false, false, false, true, true]), 24);
    assert_eq!(button_mask([true; 5]), 31);
}

#[test]
fn button_mask_bits_read_back_as_buttons() {
    let buttons = [false, true, true, false, true];
    let mask = button_mask(buttons);
    for (index, down) in buttons.iter().enumerate() {
        assert_eq!((mask >> index) & 1 == 1, *down);
    }
    assert_eq!(BUTTON_COUNT, 5);
}

#[test]
fn key_state_uses_the_high_bit() {
    assert!(key_state_is_down(i16::MIN));
    assert!(key_state_is_down(-1));
    assert!(key_state_is_down(-32767));
    assert!(!key_state_is_down(0));
    assert!(!key_state_is_down(1));
    assert!(!key_state_is_down(i16::MAX));
}

const PREFIX_10_20_0: &str = "(function(){var x=10,y=20,m=0;var t=window.__newoverlayCapture||document.elementFromPoint(x,y)||document.body;";
const MOVE: &str = "t.dispatchEvent(new MouseEvent('mousemove',{clientX:x,clientY:y,buttons:m,bubbles:true,cancelable:true}));";

#[test]
fn unchanged_buttons_replay_only_a_move() {
    let script = mouse_event_script([10, 20], [false; 5], [false; 5]);
    assert_eq!(script, format!("{PREFIX_10_20_0}{MOVE}}})();"));
}

#[test]
fn left_press_captures_target_and_dispatches_mousedown() {
    let script = mouse_event_script([-3, 7], [true, false, false, false, false], [false; 5]);
    let expected = [
        "(function(){var x=-3,y=7,m=1;var t=window.__newoverlayCapture||document.elementFromPoint(x,y)||document.body;",
        "t.dispatchEvent(new MouseEvent('mousemove',{clientX:x,clientY:y,buttons:m,bubbles:true,cancelable:true}));",
        "window.__newoverlayCapture=t;",
        "t.dispatchEvent(new MouseEvent('mousedown',{clientX:x,clientY:y,button:0,buttons:m,bubbles:true,cancelable:true}));",
        "})();"
    ]
    .concat();
    assert_eq!(script, expected);
}

#[test]
fn left_release_dispatches_mouseup_click_and_clears_capture() {
    let script = mouse_event_script([10, 20], [false; 5], [true, false, false, false, false]);
    let expected = format!(
        "{PREFIX_10_20_0}{MOVE}{}{}{}}})();",
        "t.dispatchEvent(new MouseEvent('mouseup',{clientX:x,clientY:y,button:0,buttons:m,bubbles:true,cancelable:true}));",
        "t.dispatchEvent(new MouseEvent('click',{clientX:x,clientY:y,button:0,buttons:m,bubbles:true,cancelable:true}));",
        "window.__newoverlayCapture=null;",
    );
    assert_eq!(script, expected);
}

#[test]
fn right_and_middle_buttons_use_dom_numbers() {
    // Right released, middle pressed: right is DOM button 2, middle is 1.
    let script = mouse_event_script(
        [0, 0],
        [false, false, true, false, false],
        [false, true, false, false, false],
    );
    let expected = [
        "(function(){var x=0,y=0,m=4;var t=window.__newoverlayCapture||document.elementFromPoint(x,y)||document.body;",
        "t.dispatchEvent(new MouseEvent('mousemove',{clientX:x,clientY:y,buttons:m,bubbles:true,cancelable:true}));",
        "t.dispatchEvent(new MouseEvent('mouseup',{clientX:x,clientY:y,button:2,buttons:m,bubbles:true,cancelable:true}));",
        "window.__newoverlayCapture=null;",
        "window.__newoverlayCapture=t;",
        "t.dispatchEvent(new MouseEvent('mousedown',{clientX:x,clientY:y,button:1,buttons:m,bubbles:true,cancelable:true}));",
        "})();"
    ]
    .concat();
    assert_eq!(script, expected);
}

#[test]
fn extra_buttons_keep_their_numbers_and_no_click() {
    let script = mouse_event_script([5, 6], [false; 5], [false, false, false, true, true]);
    assert!(script.contains("'mouseup',{clientX:x,clientY:y,button:3,"));
    assert!(script.contains("'mouseup',{clientX:x,clientY:y,button:4,"));
    assert!(!script.contains("'click'"));
    assert_eq!(script.matches("window.__newoverlayCapture=null;").count(), 2);
}
