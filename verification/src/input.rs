//! Mouse input forwarded to the WebView: button state, the button mask, and
//! the JavaScript that replays pointer events inside the page.
use vstd::prelude::*;

verus! {

/// Number of mouse buttons that are tracked: left, right, middle, X1, X2.
pub const BUTTON_COUNT: usize = 5;

/// The character for a decimal digit `d` (`0 <= d < 10`).
pub open spec fn digit_char(d: int) -> char {
    if d == 0 {
        '0'
    } else if d == 1 {
        '1'
    } else if d == 2 {
        '2'
    } else if d == 3 {
        '3'
    } else if d == 4 {
        '4'
    } else if d == 5 {
        '5'
    } else if d == 6 {
        '6'
    } else if d == 7 {
        '7'
    } else if d == 8 {
        '8'
    } else {
        '9'
    }
}

/// Decimal digits of a natural number, most significant first, without
/// leading zeros (zero itself is written `0`).
pub open spec fn decimal_digits(n: nat) -> Seq<char>
    decreases n,
{
    if n < 10 {
        seq![digit_char(n as int)]
    } else {
        decimal_digits(n / 10).push(digit_char((n % 10) as int))
    }
}

/// Decimal notation of an integer, as Rust's `Display` writes it.
pub open spec fn decimal(n: int) -> Seq<char> {
    if n < 0 {
        seq!['-'] + decimal_digits((-n) as nat)
    } else {
        decimal_digits(n as nat)
    }
}

fn digit_str(d: u32) -> (s: &'static str)
    requires
        d < 10,
    ensures
        s@ == seq![digit_char(d as int)],
{
    proof {
        reveal_strlit("0");
        reveal_strlit("1");
        reveal_strlit("2");
        reveal_strlit("3");
        reveal_strlit("4");
        reveal_strlit("5");
        reveal_strlit("6");
        reveal_strlit("7");
        reveal_strlit("8");
        reveal_strlit("9");
    }
    if d == 0 {
        "0"
    } else if d == 1 {
        "1"
    } else if d == 2 {
        "2"
    } else if d == 3 {
        "3"
    } else if d == 4 {
        "4"
    } else if d == 5 {
        "5"
    } else if d == 6 {
        "6"
    } else if d == 7 {
        "7"
    } else if d == 8 {
        "8"
    } else {
        "9"
    }
}

fn append_digits(out: &mut String, n: u32)
    ensures
        final(out)@ == old(out)@ + decimal_digits(n as nat),
    decreases n,
{
    if n >= 10 {
        append_digits(out, n / 10);
    }
    out.append(digit_str(n % 10));
    proof {
        assert(old(out)@ + decimal_digits(n as nat) =~= if n >= 10 {
            old(out)@ + decimal_digits((n / 10) as nat) + seq![digit_char((n % 10) as int)]
        } else {
            old(out)@ + seq![digit_char(n as int)]
        });
    }
}

/// Whether a character is one of the ASCII digits `0`..`9`.
pub open spec fn is_ascii_digit(c: char) -> bool {
    48 <= (c as int) && (c as int) <= 57
}

/// The number that a run of ASCII digits denotes, read most significant
/// first: each character stands for its code minus the code of `0`.
pub open spec fn digits_value(s: Seq<char>) -> int
    decreases s.len(),
{
    if s.len() == 0 {
        0
    } else {
        digits_value(s.drop_last()) * 10 + ((s.last() as int) - 48)
    }
}

/// The number that decimal text denotes, with an optional leading `-`.
pub open spec fn decimal_value(s: Seq<char>) -> int {
    if s.len() > 0 && s[0] == '-' {
        -digits_value(s.drop_first())
    } else {
        digits_value(s)
    }
}

proof fn lemma_digit_char_code(d: int)
    requires
        0 <= d < 10,
    ensures
        digit_char(d) as int == 48 + d,
{
    assert('0' as int == 48 && '1' as int == 49 && '2' as int == 50 && '3' as int == 51 && '4' as int
        == 52 && '5' as int == 53 && '6' as int == 54 && '7' as int == 55 && '8' as int == 56
        && '9' as int == 57);
}

proof fn lemma_digits_read_back(n: nat)
    ensures
        digits_value(decimal_digits(n)) == n,
        decimal_digits(n).len() >= 1,
        forall|i: int| 0 <= i < decimal_digits(n).len() ==> is_ascii_digit(#[trigger] decimal_digits(n)[i]),
        n > 0 ==> decimal_digits(n)[0] != '0',
    decreases n,
{
    if n < 10 {
        lemma_digit_char_code(n as int);
        assert(decimal_digits(n).drop_last() =~= Seq::<char>::empty());
        assert(digits_value(Seq::<char>::empty()) == 0);
        assert(decimal_digits(n).last() == digit_char(n as int));
    } else {
        lemma_digits_read_back(n / 10);
        lemma_digit_char_code((n % 10) as int);
        let s = decimal_digits(n);
        assert(s.drop_last() =~= decimal_digits(n / 10));
        assert(s.last() == digit_char((n % 10) as int));
        assert(n == (n / 10) * 10 + n % 10);
        assert forall|i: int| 0 <= i < s.len() implies is_ascii_digit(#[trigger] s[i]) by {
            if i < s.len() - 1 {
                assert(s[i] == decimal_digits(n / 10)[i]);
            }
        }
        assert(s[0] == decimal_digits(n / 10)[0]);
    }
}

/// The decimal text written for an integer reads back as that integer: it is
/// a `-` exactly for a negative number, followed by ASCII digits without a
/// leading zero whose value is the magnitude.
pub proof fn lemma_decimal_reads_back(n: int)
    ensures
        decimal_value(decimal(n)) == n,
        decimal(n).len() >= 1,
        (decimal(n)[0] == '-') == (n < 0),
        forall|i: int|
            (if n < 0 {
                1int
            } else {
                0int
            }) <= i < decimal(n).len() ==> is_ascii_digit(#[trigger] decimal(n)[i]),
{
    if n < 0 {
        let m = (-n) as nat;
        lemma_digits_read_back(m);
        let s = decimal(n);
        assert(s.drop_first() =~= decimal_digits(m));
        assert forall|i: int| 1 <= i < s.len() implies is_ascii_digit(#[trigger] s[i]) by {
            assert(s[i] == decimal_digits(m)[i - 1]);
        }
    } else {
        lemma_digits_read_back(n as nat);
        assert('-' as int == 45);
        assert(is_ascii_digit(decimal(n)[0]));
    }
}

/// Appends the decimal notation of `n` to `out`.
pub fn append_decimal(out: &mut String, n: i32)
    ensures
        final(out)@ == old(out)@ + decimal(n as int),
{
    if n < 0 {
        proof {
            reveal_strlit("-");
        }
        out.append("-");
        let magnitude: u32 = (0i64 - n as i64) as u32;
        append_digits(out, magnitude);
        assert(final(out)@ =~= old(out)@ + (seq!['-'] + decimal_digits((-n) as nat)));
    } else {
        append_digits(out, n as u32);
    }
}


/// Whether a button is held according to the state word that
/// `GetAsyncKeyState` reports: its most significant bit is set.
pub open spec fn key_state_down(state: i16) -> bool {
    (state as u16) & 0x8000u16 != 0
}

/// Reads the "currently down" bit of a key state word.
pub fn key_state_is_down(state: i16) -> (down: bool)
    ensures
        down == key_state_down(state),
        down == (state < 0),
{
    let word = state as u16;
    assert((state as u16) & 0x8000u16 != 0 <==> state < 0) by (bit_vector);
    word & 0x8000u16 != 0
}

/// 1 for a held button, 0 otherwise.
pub open spec fn bit(down: bool) -> int {
    if down {
        1
    } else {
        0
    }
}

/// The DOM `MouseEvent.buttons` value of the first `n` buttons: bit `i`
/// is set exactly when button `i` is held.
pub open spec fn button_mask_upto(buttons: Seq<bool>, n: int) -> int
    decreases n,
{
    if n <= 0 {
        0
    } else {
        button_mask_upto(buttons, n - 1) + if buttons[n - 1] {
            pow2_small(n - 1)
        } else {
            0
        }
    }
}

/// `2^i` for the few exponents the mask uses.
pub open spec fn pow2_small(i: int) -> int
    decreases i,
{
    if i <= 0 {
        1
    } else {
        2 * pow2_small(i - 1)
    }
}

/// The DOM `MouseEvent.buttons` value of all tracked buttons.
pub open spec fn button_mask_spec(buttons: Seq<bool>) -> int {
    button_mask_upto(buttons, 5)
}

proof fn lemma_or_power(value: u8, i: u8)
    requires
        i < 5,
        (value as int) < pow2_small(i as int),
    ensures
        (value | (1u8 << i)) as int == value + pow2_small(i as int),
        (value | (0u8 << i)) == value,
{
    reveal_with_fuel(pow2_small, 6);
    assert(value | (0u8 << i) == value) by (bit_vector);
    if i == 0 {
        assert(value < 1u8 ==> (value | (1u8 << 0u8)) == value + 1) by (bit_vector);
    } else if i == 1 {
        assert(value < 2u8 ==> (value | (1u8 << 1u8)) == value + 2) by (bit_vector);
    } else if i == 2 {
        assert(value < 4u8 ==> (value | (1u8 << 2u8)) == value + 4) by (bit_vector);
    } else if i == 3 {
        assert(value < 8u8 ==> (value | (1u8 << 3u8)) == value + 8) by (bit_vector);
    } else {
        assert(value < 16u8 ==> (value | (1u8 << 4u8)) == value + 16) by (bit_vector);
    }
}

/// The DOM `MouseEvent.buttons` value for the held buttons: bit `i` is set
/// when button `i` (left, right, middle, X1, X2) is held.
pub fn button_mask(buttons: [bool; 5]) -> (mask: u8)
    ensures
        mask as int == button_mask_spec(buttons@),
        mask < 32,
{
    let mut value: u8 = 0;
    let mut index: u8 = 0;
    while index < 5
        invariant
            index <= 5,
            value as int == button_mask_upto(buttons@, index as int),
            (value as int) < pow2_small(index as int),
        decreases 5 - index,
    {
        proof {
            lemma_or_power(value, index);
        }
        let down = buttons[index as usize];
        let shifted: u8 = (down as u8) << index;
        assert(shifted == if down { 1u8 << index } else { 0u8 << index });
        value = value | shifted;
        index = index + 1;
    }
    proof {
        reveal_with_fuel(pow2_small, 6);
    }
    value
}

/// Reading the mask back: bit `i` of the mask says whether button `i` is held.
pub proof fn lemma_button_mask_bits(buttons: [bool; 5], mask: u8)
    requires
        mask as int == button_mask_spec(buttons@),
    ensures
        ((mask >> 0u8) & 1u8 == 1u8) == buttons@[0],
        ((mask >> 1u8) & 1u8 == 1u8) == buttons@[1],
        ((mask >> 2u8) & 1u8 == 1u8) == buttons@[2],
        ((mask >> 3u8) & 1u8 == 1u8) == buttons@[3],
        ((mask >> 4u8) & 1u8 == 1u8) == buttons@[4],
{
    reveal_with_fuel(button_mask_upto, 6);
    reveal_with_fuel(pow2_small, 6);
    let b0 = buttons@[0];
    let b1 = buttons@[1];
    let b2 = buttons@[2];
    let b3 = buttons@[3];
    let b4 = buttons@[4];
    assert(pow2_small(0) == 1 && pow2_small(1) == 2 && pow2_small(2) == 4 && pow2_small(3) == 8
        && pow2_small(4) == 16);
    assert(button_mask_upto(buttons@, 1) == bit(b0));
    assert(button_mask_upto(buttons@, 2) == bit(b0) + 2 * bit(b1));
    assert(button_mask_upto(buttons@, 3) == bit(b0) + 2 * bit(b1) + 4 * bit(b2));
    assert(button_mask_upto(buttons@, 4) == bit(b0) + 2 * bit(b1) + 4 * bit(b2) + 8 * bit(b3));
    assert(mask as int == bit(b0) + 2 * bit(b1) + 4 * bit(b2) + 8 * bit(b3) + 16 * bit(b4));
    assert({
        &&& ((mask >> 0u8) & 1u8 == 1u8) == b0
        &&& ((mask >> 1u8) & 1u8 == 1u8) == b1
        &&& ((mask >> 2u8) & 1u8 == 1u8) == b2
        &&& ((mask >> 3u8) & 1u8 == 1u8) == b3
        &&& ((mask >> 4u8) & 1u8 == 1u8) == b4
    }) by (bit_vector)
        requires
            mask == (if b0 { 1u8 } else { 0u8 }) + (if b1 { 2u8 } else { 0u8 }) + (if b2 {
                4u8
            } else {
                0u8
            }) + (if b3 { 8u8 } else { 0u8 }) + (if b4 { 16u8 } else { 0u8 }),
    ;
}


/// Opening of the replay script; the mouse x coordinate follows.
pub const SCRIPT_OPEN: &'static str = "(function(){var x=";
/// Separator before the y coordinate.
pub const SCRIPT_Y: &'static str = ",y=";
/// Separator before the button mask.
pub const SCRIPT_MASK: &'static str = ",m=";
/// Picks the event target: the element that captured the last press, else
/// the element under the cursor, else the document body.
pub const SCRIPT_TARGET: &'static str = ";var t=window.__newoverlayCapture||document.elementFromPoint(x,y)||document.body;";
/// The `mousemove` that every replay dispatches.
pub const MOVE_EVENT: &'static str = "t.dispatchEvent(new MouseEvent('mousemove',{clientX:x,clientY:y,buttons:m,bubbles:true,cancelable:true}));";
/// Records the target of a press so that the matching release reaches it.
pub const CAPTURE_SET: &'static str = "window.__newoverlayCapture=t;";
/// Forgets the captured target after a release.
pub const CAPTURE_CLEAR: &'static str = "window.__newoverlayCapture=null;";
/// Start of a press or release event; the event name follows.
pub const BUTTON_EVENT_OPEN: &'static str = "t.dispatchEvent(new MouseEvent('";
/// Between the event name and the DOM button number.
pub const BUTTON_EVENT_ARGS: &'static str = "',{clientX:x,clientY:y,button:";
/// End of a press or release event.
pub const BUTTON_EVENT_CLOSE: &'static str = ",buttons:m,bubbles:true,cancelable:true}));";
/// The `click` that follows a release of the left button.
pub const CLICK_EVENT: &'static str = "t.dispatchEvent(new MouseEvent('click',{clientX:x,clientY:y,button:0,buttons:m,bubbles:true,cancelable:true}));";
/// Name of the press event.
pub const MOUSE_DOWN: &'static str = "mousedown";
/// Name of the release event.
pub const MOUSE_UP: &'static str = "mouseup";
/// End of the replay script.
pub const SCRIPT_CLOSE: &'static str = "})();";

/// DOM `MouseEvent.button` number of tracked button `index`
/// (left 0, right 2, middle 1, X1 3, X2 4).
pub open spec fn dom_button(index: int) -> int {
    if index == 1 {
        2
    } else if index == 2 {
        1
    } else {
        index
    }
}

/// Script that dispatches a press (`down`) or release of tracked button `index`.
pub open spec fn button_event(index: int, down: bool) -> Seq<char> {
    BUTTON_EVENT_OPEN@ + (if down {
        MOUSE_DOWN@
    } else {
        MOUSE_UP@
    }) + BUTTON_EVENT_ARGS@ + decimal(dom_button(index)) + BUTTON_EVENT_CLOSE@
}

/// What the replay does for button `index`: nothing when its state did not
/// change; on a press it captures the target and dispatches `mousedown`; on a
/// release it dispatches `mouseup`, then `click` for the left button, then
/// forgets the captured target.
pub open spec fn button_change(index: int, down: bool, was_down: bool) -> Seq<char> {
    if down == was_down {
        Seq::empty()
    } else if down {
        CAPTURE_SET@ + button_event(index, true)
    } else {
        button_event(index, false) + (if index == 0 {
            CLICK_EVENT@
        } else {
            Seq::empty()
        }) + CAPTURE_CLEAR@
    }
}

/// The button changes of buttons `0..n`, in button order.
pub open spec fn button_changes(buttons: Seq<bool>, previous: Seq<bool>, n: int) -> Seq<char>
    decreases n,
{
    if n <= 0 {
        Seq::empty()
    } else {
        button_changes(buttons, previous, n - 1) + button_change(
            n - 1,
            buttons[n - 1],
            previous[n - 1],
        )
    }
}

/// Opening of the replay script up to and including the target selection.
pub open spec fn script_prefix(x: int, y: int, mask: int) -> Seq<char> {
    SCRIPT_OPEN@ + decimal(x) + SCRIPT_Y@ + decimal(y) + SCRIPT_MASK@ + decimal(mask)
        + SCRIPT_TARGET@
}

/// The JavaScript that replays the cursor at `mouse` with `buttons` held,
/// after `previous` were held on the last frame.
pub open spec fn mouse_event_script_spec(
    mouse: Seq<i32>,
    buttons: Seq<bool>,
    previous: Seq<bool>,
) -> Seq<char> {
    script_prefix(mouse[0] as int, mouse[1] as int, button_mask_spec(buttons)) + MOVE_EVENT@
        + button_changes(buttons, previous, 5) + SCRIPT_CLOSE@
}

/// Builds the script that forwards the cursor position and the button changes
/// since the previous frame to the page: a `mousemove` always, then a
/// `mousedown` or `mouseup` (and `click` for a left release) for each button
/// whose state changed, in button order.
pub fn mouse_event_script(mouse: [i32; 2], buttons: [bool; 5], previous: [bool; 5]) -> (script:
    String)
    ensures
        script@ == mouse_event_script_spec(mouse@, buttons@, previous@),
{
    let button_numbers: [u8; 5] = [0, 2, 1, 3, 4];
    let mask = button_mask(buttons);
    let mut script = String::new();
    script.append(SCRIPT_OPEN);
    append_decimal(&mut script, mouse[0]);
    script.append(SCRIPT_Y);
    append_decimal(&mut script, mouse[1]);
    script.append(SCRIPT_MASK);
    append_decimal(&mut script, mask as i32);
    script.append(SCRIPT_TARGET);
    script.append(MOVE_EVENT);
    let ghost head = script@;
    assert(head =~= script_prefix(mouse@[0] as int, mouse@[1] as int, button_mask_spec(buttons@))
        + MOVE_EVENT@);
    let mut index: usize = 0;
    while index < BUTTON_COUNT
        invariant
            index <= 5,
            button_numbers@ == seq![0u8, 2u8, 1u8, 3u8, 4u8],
            script@ == head + button_changes(buttons@, previous@, index as int),
        decreases 5 - index,
    {
        let ghost before = script@;
        if buttons[index] != previous[index] {
            if buttons[index] {
                script.append(CAPTURE_SET);
            }
            script.append(BUTTON_EVENT_OPEN);
            script.append(if buttons[index] { MOUSE_DOWN } else { MOUSE_UP });
            script.append(BUTTON_EVENT_ARGS);
            append_decimal(&mut script, button_numbers[index] as i32);
            script.append(BUTTON_EVENT_CLOSE);
            if !buttons[index] {
                if index == 0 {
                    script.append(CLICK_EVENT);
                }
                script.append(CAPTURE_CLEAR);
            }
        }
        assert(button_numbers@[index as int] as int == dom_button(index as int));
        assert(script@ =~= before + button_change(
            index as int,
            buttons@[index as int],
            previous@[index as int],
        ));
        index = index + 1;
    }
    script.append(SCRIPT_CLOSE);
    script
}

/// What each button does to the replay: the DOM numbers put the main (left)
/// button at 0, the middle at 1 and the secondary (right) at 2; an unchanged
/// button dispatches nothing; a press captures the target and dispatches
/// `mousedown`, never a click; a release dispatches `mouseup` and forgets the
/// captured target, and only a release of the left button dispatches
/// `click`, between the two.
pub proof fn lemma_click_only_on_left_release(index: int, down: bool, was_down: bool)
    requires
        0 <= index < 5,
    ensures
        dom_button(0) == 0 && dom_button(1) == 2 && dom_button(2) == 1 && dom_button(3) == 3
            && dom_button(4) == 4,
        dom_button(index) == 0 <==> index == 0,
        down == was_down ==> button_change(index, down, was_down).len() == 0,
        down && !was_down ==> button_change(index, down, was_down) == CAPTURE_SET@ + button_event(
            index,
            true,
        ),
        !down && was_down && index == 0 ==> button_change(index, down, was_down) == button_event(
            index,
            false,
        ) + CLICK_EVENT@ + CAPTURE_CLEAR@,
        !down && was_down && index != 0 ==> button_change(index, down, was_down) == button_event(
            index,
            false,
        ) + CAPTURE_CLEAR@,
{
    if !down && was_down {
        if index == 0 {
            assert(button_change(index, down, was_down) =~= button_event(index, false)
                + CLICK_EVENT@ + CAPTURE_CLEAR@);
        } else {
            assert(button_change(index, down, was_down) =~= button_event(index, false)
                + CAPTURE_CLEAR@);
        }
    }
}

/// The replay script names the cursor position and the held buttons in its
/// opening: after `SCRIPT_OPEN` comes text that reads back as the x
/// coordinate, then `SCRIPT_Y` and text that reads back as the y coordinate,
/// then `SCRIPT_MASK` and text that reads back as the button mask.
pub proof fn lemma_script_reports_position(mouse: Seq<i32>, buttons: Seq<bool>, previous: Seq<bool>)
    requires
        mouse.len() == 2,
    ensures
        ({
            let s = mouse_event_script_spec(mouse, buttons, previous);
            let a = SCRIPT_OPEN@.len() as int;
            let b = a + decimal(mouse[0] as int).len();
            let c = b + SCRIPT_Y@.len();
            let d = c + decimal(mouse[1] as int).len();
            let e = d + SCRIPT_MASK@.len();
            let f = e + decimal(button_mask_spec(buttons)).len();
            &&& f <= s.len()
            &&& s.subrange(0, a) == SCRIPT_OPEN@
            &&& decimal_value(s.subrange(a, b)) == mouse[0]
            &&& s.subrange(b, c) == SCRIPT_Y@
            &&& decimal_value(s.subrange(c, d)) == mouse[1]
            &&& s.subrange(d, e) == SCRIPT_MASK@
            &&& decimal_value(s.subrange(e, f)) == button_mask_spec(buttons)
        }),
{
    let x = mouse[0] as int;
    let y = mouse[1] as int;
    let m = button_mask_spec(buttons);
    lemma_decimal_reads_back(x);
    lemma_decimal_reads_back(y);
    lemma_decimal_reads_back(m);
    let s = mouse_event_script_spec(mouse, buttons, previous);
    let a = SCRIPT_OPEN@.len() as int;
    let b = a + decimal(x).len();
    let c = b + SCRIPT_Y@.len();
    let d = c + decimal(y).len();
    let e = d + SCRIPT_MASK@.len();
    let f = e + decimal(m).len();
    let head = SCRIPT_OPEN@ + decimal(x) + SCRIPT_Y@ + decimal(y) + SCRIPT_MASK@ + decimal(m);
    let tail = SCRIPT_TARGET@ + MOVE_EVENT@ + button_changes(buttons, previous, 5) + SCRIPT_CLOSE@;
    assert(s =~= head + tail);
    assert(head.len() == f);
    assert(s.subrange(0, f) =~= head);
    assert(s.subrange(0, a) =~= SCRIPT_OPEN@);
    assert(s.subrange(a, b) =~= decimal(x));
    assert(s.subrange(b, c) =~= SCRIPT_Y@);
    assert(s.subrange(c, d) =~= decimal(y));
    assert(s.subrange(d, e) =~= SCRIPT_MASK@);
    assert(s.subrange(e, f) =~= decimal(m));
}

/// When no button changed since the previous frame, the replay is a single
/// `mousemove` at the cursor position.
pub proof fn lemma_unchanged_buttons_only_move(mouse: Seq<i32>, buttons: Seq<bool>)
    requires
        mouse.len() == 2,
        buttons.len() == 5,
    ensures
        mouse_event_script_spec(mouse, buttons, buttons) == script_prefix(
            mouse[0] as int,
            mouse[1] as int,
            button_mask_spec(buttons),
        ) + MOVE_EVENT@ + SCRIPT_CLOSE@,
{
    reveal_with_fuel(button_changes, 6);
    assert(button_changes(buttons, buttons, 5) =~= Seq::<char>::empty());
    assert(mouse_event_script_spec(mouse, buttons, buttons) =~= script_prefix(
        mouse[0] as int,
        mouse[1] as int,
        button_mask_spec(buttons),
    ) + MOVE_EVENT@ + SCRIPT_CLOSE@);
}

} // verus!
