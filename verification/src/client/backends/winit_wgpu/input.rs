//! Keys, buttons, window edges and cursor names.
use crate::utils::text::{chars_of, lowered, owned, same_text, text_of, to_lowered};
use vstd::prelude::*;

verus! {

/// A mouse button.
#[derive(Debug, Clone, Copy, PartialEq, Eq, Structural)]
pub enum MouseButton {
    Left,
    Right,
    Middle,
    Back,
    Forward,
    Other(u16),
}

/// The edge or corner by which a window is resized.
#[derive(Debug, Clone, Copy, PartialEq, Eq, Structural)]
pub enum ResizeDirection {
    East,
    North,
    NorthEast,
    NorthWest,
    South,
    SouthEast,
    SouthWest,
    West,
}

/// The evdev code of a mouse button.
pub open spec fn linux_button(button: MouseButton) -> Option<u32> {
    match button {
        MouseButton::Left => Some(272),
        MouseButton::Right => Some(273),
        MouseButton::Middle => Some(274),
        MouseButton::Back => Some(275),
        MouseButton::Forward => Some(276),
        MouseButton::Other(_) => None,
    }
}

pub fn linux_button_from_winit(button: MouseButton) -> (r: Option<u32>)
    ensures
        r == linux_button(button),
{
    match button {
        MouseButton::Left => Some(272),
        MouseButton::Right => Some(273),
        MouseButton::Middle => Some(274),
        MouseButton::Back => Some(275),
        MouseButton::Forward => Some(276),
        MouseButton::Other(_) => None,
    }
}

pub open spec fn main_block_keycode(name: Seq<char>) -> Option<u32> {
    if name == "Escape"@ {
        Some(1)
    } else if name == "Digit1"@ {
        Some(2)
    } else if name == "Digit2"@ {
        Some(3)
    } else if name == "Digit3"@ {
        Some(4)
    } else if name == "Digit4"@ {
        Some(5)
    } else if name == "Digit5"@ {
        Some(6)
    } else if name == "Digit6"@ {
        Some(7)
    } else if name == "Digit7"@ {
        Some(8)
    } else if name == "Digit8"@ {
        Some(9)
    } else if name == "Digit9"@ {
        Some(10)
    } else if name == "Digit0"@ {
        Some(11)
    } else if name == "Minus"@ {
        Some(12)
    } else if name == "Equal"@ {
        Some(13)
    } else if name == "Backspace"@ {
        Some(14)
    } else if name == "Tab"@ {
        Some(15)
    } else if name == "KeyQ"@ {
        Some(16)
    } else if name == "KeyW"@ {
        Some(17)
    } else if name == "KeyE"@ {
        Some(18)
    } else if name == "KeyR"@ {
        Some(19)
    } else if name == "KeyT"@ {
        Some(20)
    } else if name == "KeyY"@ {
        Some(21)
    } else if name == "KeyU"@ {
        Some(22)
    } else if name == "KeyI"@ {
        Some(23)
    } else if name == "KeyO"@ {
        Some(24)
    } else if name == "KeyP"@ {
        Some(25)
    } else if name == "BracketLeft"@ {
        Some(26)
    } else if name == "BracketRight"@ {
        Some(27)
    } else if name == "Enter"@ {
        Some(28)
    } else {
        None
    }
}

fn find_main_block_keycode(name: &str) -> (r: Option<u32>)
    ensures
        r == main_block_keycode(name@),
{
    if same_text(name, "Escape") {
        Some(1)
    } else if same_text(name, "Digit1") {
        Some(2)
    } else if same_text(name, "Digit2") {
        Some(3)
    } else if same_text(name, "Digit3") {
        Some(4)
    } else if same_text(name, "Digit4") {
        Some(5)
    } else if same_text(name, "Digit5") {
        Some(6)
    } else if same_text(name, "Digit6") {
        Some(7)
    } else if same_text(name, "Digit7") {
        Some(8)
    } else if same_text(name, "Digit8") {
        Some(9)
    } else if same_text(name, "Digit9") {
        Some(10)
    } else if same_text(name, "Digit0") {
        Some(11)
    } else if same_text(name, "Minus") {
        Some(12)
    } else if same_text(name, "Equal") {
        Some(13)
    } else if same_text(name, "Backspace") {
        Some(14)
    } else if same_text(name, "Tab") {
        Some(15)
    } else if same_text(name, "KeyQ") {
        Some(16)
    } else if same_text(name, "KeyW") {
        Some(17)
    } else if same_text(name, "KeyE") {
        Some(18)
    } else if same_text(name, "KeyR") {
        Some(19)
    } else if same_text(name, "KeyT") {
        Some(20)
    } else if same_text(name, "KeyY") {
        Some(21)
    } else if same_text(name, "KeyU") {
        Some(22)
    } else if same_text(name, "KeyI") {
        Some(23)
    } else if same_text(name, "KeyO") {
        Some(24)
    } else if same_text(name, "KeyP") {
        Some(25)
    } else if same_text(name, "BracketLeft") {
        Some(26)
    } else if same_text(name, "BracketRight") {
        Some(27)
    } else if same_text(name, "Enter") {
        Some(28)
    } else {
        None
    }
}

pub open spec fn letters_keycode(name: Seq<char>) -> Option<u32> {
    if name == "ControlLeft"@ {
        Some(29)
    } else if name == "KeyA"@ {
        Some(30)
    } else if name == "KeyS"@ {
        Some(31)
    } else if name == "KeyD"@ {
        Some(32)
    } else if name == "KeyF"@ {
        Some(33)
    } else if name == "KeyG"@ {
        Some(34)
    } else if name == "KeyH"@ {
        Some(35)
    } else if name == "KeyJ"@ {
        Some(36)
    } else if name == "KeyK"@ {
        Some(37)
    } else if name == "KeyL"@ {
        Some(38)
    } else if name == "Semicolon"@ {
        Some(39)
    } else if name == "Quote"@ {
        Some(40)
    } else if name == "Backquote"@ {
        Some(41)
    } else if name == "ShiftLeft"@ {
        Some(42)
    } else if name == "Backslash"@ {
        Some(43)
    } else if name == "KeyZ"@ {
        Some(44)
    } else if name == "KeyX"@ {
        Some(45)
    } else if name == "KeyC"@ {
        Some(46)
    } else if name == "KeyV"@ {
        Some(47)
    } else if name == "KeyB"@ {
        Some(48)
    } else if name == "KeyN"@ {
        Some(49)
    } else if name == "KeyM"@ {
        Some(50)
    } else if name == "Comma"@ {
        Some(51)
    } else if name == "Period"@ {
        Some(52)
    } else if name == "Slash"@ {
        Some(53)
    } else if name == "ShiftRight"@ {
        Some(54)
    } else if name == "NumpadMultiply"@ {
        Some(55)
    } else if name == "AltLeft"@ {
        Some(56)
    } else if name == "Space"@ {
        Some(57)
    } else if name == "CapsLock"@ {
        Some(58)
    } else {
        None
    }
}

fn find_letters_keycode(name: &str) -> (r: Option<u32>)
    ensures
        r == letters_keycode(name@),
{
    if same_text(name, "ControlLeft") {
        Some(29)
    } else if same_text(name, "KeyA") {
        Some(30)
    } else if same_text(name, "KeyS") {
        Some(31)
    } else if same_text(name, "KeyD") {
        Some(32)
    } else if same_text(name, "KeyF") {
        Some(33)
    } else if same_text(name, "KeyG") {
        Some(34)
    } else if same_text(name, "KeyH") {
        Some(35)
    } else if same_text(name, "KeyJ") {
        Some(36)
    } else if same_text(name, "KeyK") {
        Some(37)
    } else if same_text(name, "KeyL") {
        Some(38)
    } else if same_text(name, "Semicolon") {
        Some(39)
    } else if same_text(name, "Quote") {
        Some(40)
    } else if same_text(name, "Backquote") {
        Some(41)
    } else if same_text(name, "ShiftLeft") {
        Some(42)
    } else if same_text(name, "Backslash") {
        Some(43)
    } else if same_text(name, "KeyZ") {
        Some(44)
    } else if same_text(name, "KeyX") {
        Some(45)
    } else if same_text(name, "KeyC") {
        Some(46)
    } else if same_text(name, "KeyV") {
        Some(47)
    } else if same_text(name, "KeyB") {
        Some(48)
    } else if same_text(name, "KeyN") {
        Some(49)
    } else if same_text(name, "KeyM") {
        Some(50)
    } else if same_text(name, "Comma") {
        Some(51)
    } else if same_text(name, "Period") {
        Some(52)
    } else if same_text(name, "Slash") {
        Some(53)
    } else if same_text(name, "ShiftRight") {
        Some(54)
    } else if same_text(name, "NumpadMultiply") {
        Some(55)
    } else if same_text(name, "AltLeft") {
        Some(56)
    } else if same_text(name, "Space") {
        Some(57)
    } else if same_text(name, "CapsLock") {
        Some(58)
    } else {
        None
    }
}

pub open spec fn function_and_keypad_keycode(name: Seq<char>) -> Option<u32> {
    if name == "F1"@ {
        Some(59)
    } else if name == "F2"@ {
        Some(60)
    } else if name == "F3"@ {
        Some(61)
    } else if name == "F4"@ {
        Some(62)
    } else if name == "F5"@ {
        Some(63)
    } else if name == "F6"@ {
        Some(64)
    } else if name == "F7"@ {
        Some(65)
    } else if name == "F8"@ {
        Some(66)
    } else if name == "F9"@ {
        Some(67)
    } else if name == "F10"@ {
        Some(68)
    } else if name == "NumLock"@ {
        Some(69)
    } else if name == "ScrollLock"@ {
        Some(70)
    } else if name == "Numpad7"@ {
        Some(71)
    } else if name == "Numpad8"@ {
        Some(72)
    } else if name == "Numpad9"@ {
        Some(73)
    } else if name == "NumpadSubtract"@ {
        Some(74)
    } else if name == "Numpad4"@ {
        Some(75)
    } else if name == "Numpad5"@ {
        Some(76)
    } else if name == "Numpad6"@ {
        Some(77)
    } else if name == "NumpadAdd"@ {
        Some(78)
    } else if name == "Numpad1"@ {
        Some(79)
    } else if name == "Numpad2"@ {
        Some(80)
    } else if name == "Numpad3"@ {
        Some(81)
    } else if name == "Numpad0"@ {
        Some(82)
    } else if name == "NumpadDecimal"@ {
        Some(83)
    } else if name == "F11"@ {
        Some(87)
    } else if name == "F12"@ {
        Some(88)
    } else {
        None
    }
}

fn find_function_and_keypad_keycode(name: &str) -> (r: Option<u32>)
    ensures
        r == function_and_keypad_keycode(name@),
{
    if same_text(name, "F1") {
        Some(59)
    } else if same_text(name, "F2") {
        Some(60)
    } else if same_text(name, "F3") {
        Some(61)
    } else if same_text(name, "F4") {
        Some(62)
    } else if same_text(name, "F5") {
        Some(63)
    } else if same_text(name, "F6") {
        Some(64)
    } else if same_text(name, "F7") {
        Some(65)
    } else if same_text(name, "F8") {
        Some(66)
    } else if same_text(name, "F9") {
        Some(67)
    } else if same_text(name, "F10") {
        Some(68)
    } else if same_text(name, "NumLock") {
        Some(69)
    } else if same_text(name, "ScrollLock") {
        Some(70)
    } else if same_text(name, "Numpad7") {
        Some(71)
    } else if same_text(name, "Numpad8") {
        Some(72)
    } else if same_text(name, "Numpad9") {
        Some(73)
    } else if same_text(name, "NumpadSubtract") {
        Some(74)
    } else if same_text(name, "Numpad4") {
        Some(75)
    } else if same_text(name, "Numpad5") {
        Some(76)
    } else if same_text(name, "Numpad6") {
        Some(77)
    } else if same_text(name, "NumpadAdd") {
        Some(78)
    } else if same_text(name, "Numpad1") {
        Some(79)
    } else if same_text(name, "Numpad2") {
        Some(80)
    } else if same_text(name, "Numpad3") {
        Some(81)
    } else if same_text(name, "Numpad0") {
        Some(82)
    } else if same_text(name, "NumpadDecimal") {
        Some(83)
    } else if same_text(name, "F11") {
        Some(87)
    } else if same_text(name, "F12") {
        Some(88)
    } else {
        None
    }
}

pub open spec fn navigation_keycode(name: Seq<char>) -> Option<u32> {
    if name == "NumpadEnter"@ {
        Some(96)
    } else if name == "ControlRight"@ {
        Some(97)
    } else if name == "NumpadDivide"@ {
        Some(98)
    } else if name == "AltRight"@ {
        Some(100)
    } else if name == "Home"@ {
        Some(102)
    } else if name == "ArrowUp"@ {
        Some(103)
    } else if name == "PageUp"@ {
        Some(104)
    } else if name == "ArrowLeft"@ {
        Some(105)
    } else if name == "ArrowRight"@ {
        Some(106)
    } else if name == "End"@ {
        Some(107)
    } else if name == "ArrowDown"@ {
        Some(108)
    } else if name == "PageDown"@ {
        Some(109)
    } else if name == "Insert"@ {
        Some(110)
    } else if name == "Delete"@ {
        Some(111)
    } else if name == "SuperLeft"@ {
        Some(125)
    } else if name == "SuperRight"@ {
        Some(126)
    } else {
        None
    }
}

fn find_navigation_keycode(name: &str) -> (r: Option<u32>)
    ensures
        r == navigation_keycode(name@),
{
    if same_text(name, "NumpadEnter") {
        Some(96)
    } else if same_text(name, "ControlRight") {
        Some(97)
    } else if same_text(name, "NumpadDivide") {
        Some(98)
    } else if same_text(name, "AltRight") {
        Some(100)
    } else if same_text(name, "Home") {
        Some(102)
    } else if same_text(name, "ArrowUp") {
        Some(103)
    } else if same_text(name, "PageUp") {
        Some(104)
    } else if same_text(name, "ArrowLeft") {
        Some(105)
    } else if same_text(name, "ArrowRight") {
        Some(106)
    } else if same_text(name, "End") {
        Some(107)
    } else if same_text(name, "ArrowDown") {
        Some(108)
    } else if same_text(name, "PageDown") {
        Some(109)
    } else if same_text(name, "Insert") {
        Some(110)
    } else if same_text(name, "Delete") {
        Some(111)
    } else if same_text(name, "SuperLeft") {
        Some(125)
    } else if same_text(name, "SuperRight") {
        Some(126)
    } else {
        None
    }
}

/// The evdev code of a key, given the name of its place on a keyboard.
pub open spec fn linux_keycode(name: Seq<char>) -> Option<u32> {
    if main_block_keycode(name) is Some {
        main_block_keycode(name)
    } else if letters_keycode(name) is Some {
        letters_keycode(name)
    } else if function_and_keypad_keycode(name) is Some {
        function_and_keypad_keycode(name)
    } else {
        navigation_keycode(name)
    }
}

pub fn linux_keycode_from_winit(name: &str) -> (r: Option<u32>)
    ensures
        r == linux_keycode(name@),
{
    if let Some(code) = find_main_block_keycode(name) {
        return Some(code);
    }
    if let Some(code) = find_letters_keycode(name) {
        return Some(code);
    }
    if let Some(code) = find_function_and_keypad_keycode(name) {
        return Some(code);
    }
    find_navigation_keycode(name)
}

proof fn lemma_main_block_keycodes(a: Seq<char>, b: Seq<char>)
    ensures
        main_block_keycode(a) matches Some(code) ==> 1 <= code <= 28,
        main_block_keycode(a) is Some && main_block_keycode(a) == main_block_keycode(b) ==> a == b,
{
}

proof fn lemma_letters_keycodes(a: Seq<char>, b: Seq<char>)
    ensures
        letters_keycode(a) matches Some(code) ==> 29 <= code <= 58,
        letters_keycode(a) is Some && letters_keycode(a) == letters_keycode(b) ==> a == b,
{
}

proof fn lemma_function_and_keypad_keycodes(a: Seq<char>, b: Seq<char>)
    ensures
        function_and_keypad_keycode(a) matches Some(code) ==> 59 <= code <= 88,
        function_and_keypad_keycode(a) is Some && function_and_keypad_keycode(a) == function_and_keypad_keycode(b) ==> a == b,
{
}

proof fn lemma_navigation_keycodes(a: Seq<char>, b: Seq<char>)
    ensures
        navigation_keycode(a) matches Some(code) ==> 96 <= code <= 126,
        navigation_keycode(a) is Some && navigation_keycode(a) == navigation_keycode(b) ==> a == b,
{
}

/// Different keys never have the same code.
pub proof fn keys_have_codes_of_their_own(a: Seq<char>, b: Seq<char>)
    requires
        linux_keycode(a) is Some,
        linux_keycode(a) == linux_keycode(b),
    ensures
        a == b,
{
    lemma_main_block_keycodes(a, b);
    lemma_main_block_keycodes(b, a);
    lemma_letters_keycodes(a, b);
    lemma_letters_keycodes(b, a);
    lemma_function_and_keypad_keycodes(a, b);
    lemma_function_and_keypad_keycodes(b, a);
    lemma_navigation_keycodes(a, b);
    lemma_navigation_keycodes(b, a);
}

/// The edge or corner that a position belongs to, given the borders it lies within. Corners come
/// before edges.
pub open spec fn resize_direction(left: bool, right: bool, top: bool, bottom: bool) -> Option<
    ResizeDirection,
> {
    if left && top {
        Some(ResizeDirection::NorthWest)
    } else if right && top {
        Some(ResizeDirection::NorthEast)
    } else if left && bottom {
        Some(ResizeDirection::SouthWest)
    } else if right && bottom {
        Some(ResizeDirection::SouthEast)
    } else if left {
        Some(ResizeDirection::West)
    } else if right {
        Some(ResizeDirection::East)
    } else if top {
        Some(ResizeDirection::North)
    } else if bottom {
        Some(ResizeDirection::South)
    } else {
        None
    }
}

pub fn hit_test_decorationless_resize(left: bool, right: bool, top: bool, bottom: bool) -> (r:
    Option<ResizeDirection>)
    ensures
        r == resize_direction(left, right, top, bottom),
{
    match (left, right, top, bottom) {
        (true, _, true, _) => Some(ResizeDirection::NorthWest),
        (_, true, true, _) => Some(ResizeDirection::NorthEast),
        (true, _, _, true) => Some(ResizeDirection::SouthWest),
        (_, true, _, true) => Some(ResizeDirection::SouthEast),
        (true, _, _, _) => Some(ResizeDirection::West),
        (_, true, _, _) => Some(ResizeDirection::East),
        (_, _, true, _) => Some(ResizeDirection::North),
        (_, _, _, true) => Some(ResizeDirection::South),
        _ => None,
    }
}

/// The name of the cursor shown at a window edge.
pub open spec fn resize_cursor(direction: ResizeDirection) -> Seq<char> {
    match direction {
        ResizeDirection::North | ResizeDirection::South => "ns-resize"@,
        ResizeDirection::East | ResizeDirection::West => "ew-resize"@,
        ResizeDirection::NorthEast | ResizeDirection::SouthWest => "nesw-resize"@,
        ResizeDirection::NorthWest | ResizeDirection::SouthEast => "nwse-resize"@,
    }
}

pub fn cursor_icon_for_resize(direction: ResizeDirection) -> (r: String)
    ensures
        r@ == resize_cursor(direction),
{
    match direction {
        ResizeDirection::North | ResizeDirection::South => owned("ns-resize"),
        ResizeDirection::East | ResizeDirection::West => owned("ew-resize"),
        ResizeDirection::NorthEast | ResizeDirection::SouthWest => owned("nesw-resize"),
        ResizeDirection::NorthWest | ResizeDirection::SouthEast => owned("nwse-resize"),
    }
}

/// Whether a name is one of the standard cursor names.
pub open spec fn is_cursor_name(name: Seq<char>) -> bool {
    ||| name == "default"@ || name == "context-menu"@ || name == "help"@
    ||| name == "pointer"@ || name == "progress"@ || name == "wait"@
    ||| name == "cell"@ || name == "crosshair"@ || name == "text"@
    ||| name == "vertical-text"@ || name == "alias"@ || name == "copy"@
    ||| name == "move"@ || name == "no-drop"@ || name == "not-allowed"@
    ||| name == "grab"@ || name == "grabbing"@ || name == "e-resize"@
    ||| name == "n-resize"@ || name == "ne-resize"@ || name == "nw-resize"@
    ||| name == "s-resize"@ || name == "se-resize"@ || name == "sw-resize"@
    ||| name == "w-resize"@ || name == "ew-resize"@ || name == "ns-resize"@
    ||| name == "nesw-resize"@ || name == "nwse-resize"@ || name == "col-resize"@
    ||| name == "row-resize"@ || name == "all-scroll"@ || name == "zoom-in"@
    ||| name == "zoom-out"@
}

/// Calls `from_str` of `winit::window::CursorIcon`, which takes the standard names in lower kebab
/// case and nothing else.
#[verifier::external_body]
fn parses_as_cursor_icon(name: &str) -> (r: bool)
    ensures
        r == is_cursor_name(name@),
{
    name.parse::<winit::window::CursorIcon>().is_ok()
}

/// The standard name behind a name that cursor themes commonly use.
pub open spec fn cursor_alias(name: Seq<char>) -> Option<Seq<char>> {
    if name == "left_ptr"@ || name == "arrow"@ {
        Some("default"@)
    } else if name == "hand"@ || name == "hand1"@ || name == "hand2"@ {
        Some("pointer"@)
    } else if name == "xterm"@ || name == "ibeam"@ {
        Some("text"@)
    } else if name == "cross"@ {
        Some("crosshair"@)
    } else if name == "fleur"@ {
        Some("move"@)
    } else if name == "left_ptr_watch"@ {
        Some("progress"@)
    } else if name == "watch"@ {
        Some("wait"@)
    } else if name == "question_arrow"@ {
        Some("help"@)
    } else if name == "forbidden"@ {
        Some("not-allowed"@)
    } else if name == "sb_h_double_arrow"@ {
        Some("col-resize"@)
    } else if name == "sb_v_double_arrow"@ {
        Some("row-resize"@)
    } else {
        None
    }
}

fn find_cursor_alias(name: &str) -> (r: Option<String>)
    ensures
        match r {
            Some(icon) => cursor_alias(name@) == Some(icon@),
            None => cursor_alias(name@) is None,
        },
{
    if same_text(name, "left_ptr") || same_text(name, "arrow") {
        Some(owned("default"))
    } else if same_text(name, "hand") || same_text(name, "hand1") || same_text(name, "hand2") {
        Some(owned("pointer"))
    } else if same_text(name, "xterm") || same_text(name, "ibeam") {
        Some(owned("text"))
    } else if same_text(name, "cross") {
        Some(owned("crosshair"))
    } else if same_text(name, "fleur") {
        Some(owned("move"))
    } else if same_text(name, "left_ptr_watch") {
        Some(owned("progress"))
    } else if same_text(name, "watch") {
        Some(owned("wait"))
    } else if same_text(name, "question_arrow") {
        Some(owned("help"))
    } else if same_text(name, "forbidden") {
        Some(owned("not-allowed"))
    } else if same_text(name, "sb_h_double_arrow") {
        Some(owned("col-resize"))
    } else if same_text(name, "sb_v_double_arrow") {
        Some(owned("row-resize"))
    } else {
        None
    }
}

/// A name with hyphens for underscores.
pub open spec fn hyphenated(name: Seq<char>) -> Seq<char> {
    name.map_values(
        |c: char|
            if c == '_' {
                '-'
            } else {
                c
            },
    )
}

fn hyphenate(name: &str) -> (r: String)
    ensures
        r@ == hyphenated(name@),
{
    let chars = chars_of(name);
    let mut out: Vec<char> = Vec::new();
    let mut i: usize = 0;
    while i < chars.len()
        invariant
            i <= chars@.len(),
            out@.len() == i,
            forall|j: int|
                0 <= j < i ==> (#[trigger] out@[j]) == (if chars@[j] == '_' {
                    '-'
                } else {
                    chars@[j]
                }),
        decreases chars@.len() - i,
    {
        if chars[i] == '_' {
            out.push('-');
        } else {
            out.push(chars[i]);
        }
        i = i + 1;
    }
    assert(out@ =~= hyphenated(chars@));
    text_of(&out)
}

/// The standard cursor that a server means by a name: the name itself whatever its case, then with
/// hyphens for underscores, then what cursor themes mean by it.
pub open spec fn cursor_icon(name: Seq<char>) -> Option<Seq<char>> {
    let small = lowered(name);
    if is_cursor_name(small) {
        Some(small)
    } else if is_cursor_name(hyphenated(small)) {
        Some(hyphenated(small))
    } else {
        cursor_alias(small)
    }
}

pub fn cursor_icon_from_wayland_name(name: &str) -> (r: Option<String>)
    ensures
        match r {
            Some(icon) => cursor_icon(name@) == Some(icon@),
            None => cursor_icon(name@) is None,
        },
{
    let small = to_lowered(name);
    if parses_as_cursor_icon(small.as_str()) {
        return Some(small);
    }
    let normalized = hyphenate(small.as_str());
    if parses_as_cursor_icon(normalized.as_str()) {
        return Some(normalized);
    }
    find_cursor_alias(small.as_str())
}

/// Whatever cursor is found is a standard one.
pub proof fn found_cursors_are_standard(name: Seq<char>)
    ensures
        cursor_icon(name) is Some ==> is_cursor_name(cursor_icon(name)->0),
{
}

/// The cursors of window edges are standard ones.
pub proof fn resize_cursors_are_standard(direction: ResizeDirection)
    ensures
        is_cursor_name(resize_cursor(direction)),
{
}

/// The upper rows of a keyboard, from Escape to Enter: each key has a code, and each code is that of one
/// key.
pub proof fn main_block_keys_have_their_codes(name: Seq<char>)
    ensures
        linux_keycode("Escape"@) is Some,
        linux_keycode(name) == Some(1u32) ==> name == "Escape"@,
        linux_keycode("Digit1"@) is Some,
        linux_keycode(name) == Some(2u32) ==> name == "Digit1"@,
        linux_keycode("Digit2"@) is Some,
        linux_keycode(name) == Some(3u32) ==> name == "Digit2"@,
        linux_keycode("Digit3"@) is Some,
        linux_keycode(name) == Some(4u32) ==> name == "Digit3"@,
        linux_keycode("Digit4"@) is Some,
        linux_keycode(name) == Some(5u32) ==> name == "Digit4"@,
        linux_keycode("Digit5"@) is Some,
        linux_keycode(name) == Some(6u32) ==> name == "Digit5"@,
        linux_keycode("Digit6"@) is Some,
        linux_keycode(name) == Some(7u32) ==> name == "Digit6"@,
        linux_keycode("Digit7"@) is Some,
        linux_keycode(name) == Some(8u32) ==> name == "Digit7"@,
        linux_keycode("Digit8"@) is Some,
        linux_keycode(name) == Some(9u32) ==> name == "Digit8"@,
        linux_keycode("Digit9"@) is Some,
        linux_keycode(name) == Some(10u32) ==> name == "Digit9"@,
        linux_keycode("Digit0"@) is Some,
        linux_keycode(name) == Some(11u32) ==> name == "Digit0"@,
        linux_keycode("Minus"@) is Some,
        linux_keycode(name) == Some(12u32) ==> name == "Minus"@,
        linux_keycode("Equal"@) is Some,
        linux_keycode(name) == Some(13u32) ==> name == "Equal"@,
        linux_keycode("Backspace"@) is Some,
        linux_keycode(name) == Some(14u32) ==> name == "Backspace"@,
        linux_keycode("Tab"@) is Some,
        linux_keycode(name) == Some(15u32) ==> name == "Tab"@,
        linux_keycode("KeyQ"@) is Some,
        linux_keycode(name) == Some(16u32) ==> name == "KeyQ"@,
        linux_keycode("KeyW"@) is Some,
        linux_keycode(name) == Some(17u32) ==> name == "KeyW"@,
        linux_keycode("KeyE"@) is Some,
        linux_keycode(name) == Some(18u32) ==> name == "KeyE"@,
        linux_keycode("KeyR"@) is Some,
        linux_keycode(name) == Some(19u32) ==> name == "KeyR"@,
        linux_keycode("KeyT"@) is Some,
        linux_keycode(name) == Some(20u32) ==> name == "KeyT"@,
        linux_keycode("KeyY"@) is Some,
        linux_keycode(name) == Some(21u32) ==> name == "KeyY"@,
        linux_keycode("KeyU"@) is Some,
        linux_keycode(name) == Some(22u32) ==> name == "KeyU"@,
        linux_keycode("KeyI"@) is Some,
        linux_keycode(name) == Some(23u32) ==> name == "KeyI"@,
        linux_keycode("KeyO"@) is Some,
        linux_keycode(name) == Some(24u32) ==> name == "KeyO"@,
        linux_keycode("KeyP"@) is Some,
        linux_keycode(name) == Some(25u32) ==> name == "KeyP"@,
        linux_keycode("BracketLeft"@) is Some,
        linux_keycode(name) == Some(26u32) ==> name == "BracketLeft"@,
        linux_keycode("BracketRight"@) is Some,
        linux_keycode(name) == Some(27u32) ==> name == "BracketRight"@,
        linux_keycode("Enter"@) is Some,
        linux_keycode(name) == Some(28u32) ==> name == "Enter"@,
{
}

/// The lower rows of a keyboard, from the left Control key on: each key has a code, and each code is that of one
/// key.
pub proof fn lower_rows_have_their_codes(name: Seq<char>)
    ensures
        linux_keycode("ControlLeft"@) is Some,
        linux_keycode(name) == Some(29u32) ==> name == "ControlLeft"@,
        linux_keycode("KeyA"@) is Some,
        linux_keycode(name) == Some(30u32) ==> name == "KeyA"@,
        linux_keycode("KeyS"@) is Some,
        linux_keycode(name) == Some(31u32) ==> name == "KeyS"@,
        linux_keycode("KeyD"@) is Some,
        linux_keycode(name) == Some(32u32) ==> name == "KeyD"@,
        linux_keycode("KeyF"@) is Some,
        linux_keycode(name) == Some(33u32) ==> name == "KeyF"@,
        linux_keycode("KeyG"@) is Some,
        linux_keycode(name) == Some(34u32) ==> name == "KeyG"@,
        linux_keycode("KeyH"@) is Some,
        linux_keycode(name) == Some(35u32) ==> name == "KeyH"@,
        linux_keycode("KeyJ"@) is Some,
        linux_keycode(name) == Some(36u32) ==> name == "KeyJ"@,
        linux_keycode("KeyK"@) is Some,
        linux_keycode(name) == Some(37u32) ==> name == "KeyK"@,
        linux_keycode("KeyL"@) is Some,
        linux_keycode(name) == Some(38u32) ==> name == "KeyL"@,
        linux_keycode("Semicolon"@) is Some,
        linux_keycode(name) == Some(39u32) ==> name == "Semicolon"@,
        linux_keycode("Quote"@) is Some,
        linux_keycode(name) == Some(40u32) ==> name == "Quote"@,
        linux_keycode("Backquote"@) is Some,
        linux_keycode(name) == Some(41u32) ==> name == "Backquote"@,
        linux_keycode("ShiftLeft"@) is Some,
        linux_keycode(name) == Some(42u32) ==> name == "ShiftLeft"@,
        linux_keycode("Backslash"@) is Some,
        linux_keycode(name) == Some(43u32) ==> name == "Backslash"@,
        linux_keycode("KeyZ"@) is Some,
        linux_keycode(name) == Some(44u32) ==> name == "KeyZ"@,
        linux_keycode("KeyX"@) is Some,
        linux_keycode(name) == Some(45u32) ==> name == "KeyX"@,
        linux_keycode("KeyC"@) is Some,
        linux_keycode(name) == Some(46u32) ==> name == "KeyC"@,
        linux_keycode("KeyV"@) is Some,
        linux_keycode(name) == Some(47u32) ==> name == "KeyV"@,
        linux_keycode("KeyB"@) is Some,
        linux_keycode(name) == Some(48u32) ==> name == "KeyB"@,
        linux_keycode("KeyN"@) is Some,
        linux_keycode(name) == Some(49u32) ==> name == "KeyN"@,
        linux_keycode("KeyM"@) is Some,
        linux_keycode(name) == Some(50u32) ==> name == "KeyM"@,
        linux_keycode("Comma"@) is Some,
        linux_keycode(name) == Some(51u32) ==> name == "Comma"@,
        linux_keycode("Period"@) is Some,
        linux_keycode(name) == Some(52u32) ==> name == "Period"@,
        linux_keycode("Slash"@) is Some,
        linux_keycode(name) == Some(53u32) ==> name == "Slash"@,
        linux_keycode("ShiftRight"@) is Some,
        linux_keycode(name) == Some(54u32) ==> name == "ShiftRight"@,
        linux_keycode("NumpadMultiply"@) is Some,
        linux_keycode(name) == Some(55u32) ==> name == "NumpadMultiply"@,
        linux_keycode("AltLeft"@) is Some,
        linux_keycode(name) == Some(56u32) ==> name == "AltLeft"@,
        linux_keycode("Space"@) is Some,
        linux_keycode(name) == Some(57u32) ==> name == "Space"@,
        linux_keycode("CapsLock"@) is Some,
        linux_keycode(name) == Some(58u32) ==> name == "CapsLock"@,
{
}

/// The function keys and the keypad: each key has a code, and each code is that of one
/// key.
pub proof fn function_and_keypad_keys_have_their_codes(name: Seq<char>)
    ensures
        linux_keycode("F1"@) is Some,
        linux_keycode(name) == Some(59u32) ==> name == "F1"@,
        linux_keycode("F2"@) is Some,
        linux_keycode(name) == Some(60u32) ==> name == "F2"@,
        linux_keycode("F3"@) is Some,
        linux_keycode(name) == Some(61u32) ==> name == "F3"@,
        linux_keycode("F4"@) is Some,
        linux_keycode(name) == Some(62u32) ==> name == "F4"@,
        linux_keycode("F5"@) is Some,
        linux_keycode(name) == Some(63u32) ==> name == "F5"@,
        linux_keycode("F6"@) is Some,
        linux_keycode(name) == Some(64u32) ==> name == "F6"@,
        linux_keycode("F7"@) is Some,
        linux_keycode(name) == Some(65u32) ==> name == "F7"@,
        linux_keycode("F8"@) is Some,
        linux_keycode(name) == Some(66u32) ==> name == "F8"@,
        linux_keycode("F9"@) is Some,
        linux_keycode(name) == Some(67u32) ==> name == "F9"@,
        linux_keycode("F10"@) is Some,
        linux_keycode(name) == Some(68u32) ==> name == "F10"@,
        linux_keycode("NumLock"@) is Some,
        linux_keycode(name) == Some(69u32) ==> name == "NumLock"@,
        linux_keycode("ScrollLock"@) is Some,
        linux_keycode(name) == Some(70u32) ==> name == "ScrollLock"@,
        linux_keycode("Numpad7"@) is Some,
        linux_keycode(name) == Some(71u32) ==> name == "Numpad7"@,
        linux_keycode("Numpad8"@) is Some,
        linux_keycode(name) == Some(72u32) ==> name == "Numpad8"@,
        linux_keycode("Numpad9"@) is Some,
        linux_keycode(name) == Some(73u32) ==> name == "Numpad9"@,
        linux_keycode("NumpadSubtract"@) is Some,
        linux_keycode(name) == Some(74u32) ==> name == "NumpadSubtract"@,
        linux_keycode("Numpad4"@) is Some,
        linux_keycode(name) == Some(75u32) ==> name == "Numpad4"@,
        linux_keycode("Numpad5"@) is Some,
        linux_keycode(name) == Some(76u32) ==> name == "Numpad5"@,
        linux_keycode("Numpad6"@) is Some,
        linux_keycode(name) == Some(77u32) ==> name == "Numpad6"@,
        linux_keycode("NumpadAdd"@) is Some,
        linux_keycode(name) == Some(78u32) ==> name == "NumpadAdd"@,
        linux_keycode("Numpad1"@) is Some,
        linux_keycode(name) == Some(79u32) ==> name == "Numpad1"@,
        linux_keycode("Numpad2"@) is Some,
        linux_keycode(name) == Some(80u32) ==> name == "Numpad2"@,
        linux_keycode("Numpad3"@) is Some,
        linux_keycode(name) == Some(81u32) ==> name == "Numpad3"@,
        linux_keycode("Numpad0"@) is Some,
        linux_keycode(name) == Some(82u32) ==> name == "Numpad0"@,
        linux_keycode("NumpadDecimal"@) is Some,
        linux_keycode(name) == Some(83u32) ==> name == "NumpadDecimal"@,
        linux_keycode("F11"@) is Some,
        linux_keycode(name) == Some(87u32) ==> name == "F11"@,
        linux_keycode("F12"@) is Some,
        linux_keycode(name) == Some(88u32) ==> name == "F12"@,
{
}

/// The keys for moving about, and those right of the space bar: each key has a code, and each code is that of one
/// key.
pub proof fn navigation_keys_have_their_codes(name: Seq<char>)
    ensures
        linux_keycode("NumpadEnter"@) is Some,
        linux_keycode(name) == Some(96u32) ==> name == "NumpadEnter"@,
        linux_keycode("ControlRight"@) is Some,
        linux_keycode(name) == Some(97u32) ==> name == "ControlRight"@,
        linux_keycode("NumpadDivide"@) is Some,
        linux_keycode(name) == Some(98u32) ==> name == "NumpadDivide"@,
        linux_keycode("AltRight"@) is Some,
        linux_keycode(name) == Some(100u32) ==> name == "AltRight"@,
        linux_keycode("Home"@) is Some,
        linux_keycode(name) == Some(102u32) ==> name == "Home"@,
        linux_keycode("ArrowUp"@) is Some,
        linux_keycode(name) == Some(103u32) ==> name == "ArrowUp"@,
        linux_keycode("PageUp"@) is Some,
        linux_keycode(name) == Some(104u32) ==> name == "PageUp"@,
        linux_keycode("ArrowLeft"@) is Some,
        linux_keycode(name) == Some(105u32) ==> name == "ArrowLeft"@,
        linux_keycode("ArrowRight"@) is Some,
        linux_keycode(name) == Some(106u32) ==> name == "ArrowRight"@,
        linux_keycode("End"@) is Some,
        linux_keycode(name) == Some(107u32) ==> name == "End"@,
        linux_keycode("ArrowDown"@) is Some,
        linux_keycode(name) == Some(108u32) ==> name == "ArrowDown"@,
        linux_keycode("PageDown"@) is Some,
        linux_keycode(name) == Some(109u32) ==> name == "PageDown"@,
        linux_keycode("Insert"@) is Some,
        linux_keycode(name) == Some(110u32) ==> name == "Insert"@,
        linux_keycode("Delete"@) is Some,
        linux_keycode(name) == Some(111u32) ==> name == "Delete"@,
        linux_keycode("SuperLeft"@) is Some,
        linux_keycode(name) == Some(125u32) ==> name == "SuperLeft"@,
        linux_keycode("SuperRight"@) is Some,
        linux_keycode(name) == Some(126u32) ==> name == "SuperRight"@,
{
}

/// Other keys have no code.
pub proof fn codes_are_those_of_keys(name: Seq<char>, code: u32)
    requires
        linux_keycode(name) == Some(code),
    ensures
        1 <= code <= 83 || 87 <= code <= 88 || 96 <= code <= 98 || code == 100 || 102 <= code <= 111
            || 125 <= code <= 126,
{
}

/// Mouse buttons have the codes from 0x110 on; those that are only numbered have none.
pub proof fn mouse_buttons_have_their_codes(number: u16)
    ensures
        linux_button(MouseButton::Left) == Some(0x110u32),
        linux_button(MouseButton::Right) == Some(0x111u32),
        linux_button(MouseButton::Middle) == Some(0x112u32),
        linux_button(MouseButton::Back) == Some(0x113u32),
        linux_button(MouseButton::Forward) == Some(0x114u32),
        linux_button(MouseButton::Other(number)) is None,
{
}

/// A position near two edges that meet belongs to their corner, one near a single edge to that edge,
/// and one near none to nothing.
pub proof fn edges_are_told_apart(left: bool, right: bool, top: bool, bottom: bool)
    requires
        !(left && right),
        !(top && bottom),
    ensures
        ({
            let d = resize_direction(left, right, top, bottom);
            &&& (d is None) == !(left || right || top || bottom)
            &&& d matches Some(d) ==> {
                &&& left == (d is West || d is NorthWest || d is SouthWest)
                &&& right == (d is East || d is NorthEast || d is SouthEast)
                &&& top == (d is North || d is NorthWest || d is NorthEast)
                &&& bottom == (d is South || d is SouthWest || d is SouthEast)
            }
        }),
{
}

/// The cursor at an edge or corner is that of the opposite one, and tells the direction.
pub proof fn resize_cursors_tell_the_direction()
    ensures
        resize_cursor(ResizeDirection::North) == "ns-resize"@,
        resize_cursor(ResizeDirection::South) == "ns-resize"@,
        resize_cursor(ResizeDirection::East) == "ew-resize"@,
        resize_cursor(ResizeDirection::West) == "ew-resize"@,
        resize_cursor(ResizeDirection::NorthEast) == "nesw-resize"@,
        resize_cursor(ResizeDirection::SouthWest) == "nesw-resize"@,
        resize_cursor(ResizeDirection::NorthWest) == "nwse-resize"@,
        resize_cursor(ResizeDirection::SouthEast) == "nwse-resize"@,
{
}

/// A standard name in small letters stands for itself, and the case of letters does not matter.
pub proof fn standard_cursors_stand_for_themselves(name: Seq<char>)
    ensures
        is_cursor_name(name) && (forall|i: int|
            0 <= i < name.len() ==> !('A' <= #[trigger] name[i] <= 'Z')) ==> cursor_icon(name)
            == Some(name),
        cursor_icon(lowered(name)) == cursor_icon(name),
{
    assert(lowered(lowered(name)) =~= lowered(name));
    if forall|i: int| 0 <= i < name.len() ==> !('A' <= #[trigger] name[i] <= 'Z') {
        assert(lowered(name) =~= name);
    }
}

/// Hyphens take the place of underscores, and nothing else changes.
pub proof fn underscores_become_hyphens(name: Seq<char>, i: int)
    requires
        0 <= i < name.len(),
    ensures
        hyphenated(name).len() == name.len(),
        name[i] == '_' ==> hyphenated(name)[i] == '-',
        name[i] != '_' ==> hyphenated(name)[i] == name[i],
{
}

/// What cursor themes mean by their own names.
pub proof fn theme_names_have_their_meaning(name: Seq<char>)
    ensures
        cursor_alias("left_ptr"@) == Some("default"@),
        cursor_alias("arrow"@) == Some("default"@),
        cursor_alias("hand"@) == Some("pointer"@),
        cursor_alias("hand1"@) == Some("pointer"@),
        cursor_alias("hand2"@) == Some("pointer"@),
        cursor_alias("xterm"@) == Some("text"@),
        cursor_alias("ibeam"@) == Some("text"@),
        cursor_alias("cross"@) == Some("crosshair"@),
        cursor_alias("fleur"@) == Some("move"@),
        cursor_alias("left_ptr_watch"@) == Some("progress"@),
        cursor_alias("watch"@) == Some("wait"@),
        cursor_alias("question_arrow"@) == Some("help"@),
        cursor_alias("forbidden"@) == Some("not-allowed"@),
        cursor_alias("sb_h_double_arrow"@) == Some("col-resize"@),
        cursor_alias("sb_v_double_arrow"@) == Some("row-resize"@),
        (cursor_alias(name) is Some) == is_theme_name(name),
{
    reveal_strlit("left_ptr");
    reveal_strlit("arrow");
    reveal_strlit("hand");
    reveal_strlit("hand1");
    reveal_strlit("hand2");
    reveal_strlit("xterm");
    reveal_strlit("ibeam");
    reveal_strlit("cross");
    reveal_strlit("fleur");
    reveal_strlit("left_ptr_watch");
    reveal_strlit("watch");
    reveal_strlit("question_arrow");
    reveal_strlit("forbidden");
    reveal_strlit("sb_h_double_arrow");
    reveal_strlit("sb_v_double_arrow");
    assert("arrow"@[0] == 'a' && "hand1"@[0] == 'h' && "hand2"@[0] == 'h' && "xterm"@[0] == 'x'
        && "ibeam"@[0] == 'i' && "cross"@[0] == 'c' && "fleur"@[0] == 'f' && "watch"@[0] == 'w');
    assert("question_arrow"@[0] == 'q' && "left_ptr_watch"@[0] == 'l');
    assert("left_ptr"@.len() == 8 && "arrow"@.len() == 5 && "hand"@.len() == 4 && "hand1"@.len() == 5
        && "xterm"@.len() == 5 && "cross"@.len() == 5 && "left_ptr_watch"@.len() == 14);
    assert("forbidden"@.len() == 9 && "watch"@.len() == 5 && "question_arrow"@.len() == 14);
    assert("hand2"@.len() == 5 && "ibeam"@.len() == 5 && "fleur"@.len() == 5
        && "sb_h_double_arrow"@.len() == 17 && "sb_v_double_arrow"@.len() == 17);
    assert("sb_h_double_arrow"@[3] == 'h' && "sb_v_double_arrow"@[3] == 'v');
}

/// Whether cursor themes use a name that is no standard one.
pub open spec fn is_theme_name(name: Seq<char>) -> bool {
    ||| name == "left_ptr"@ || name == "arrow"@ || name == "hand"@ || name == "hand1"@
    ||| name == "hand2"@ || name == "xterm"@ || name == "ibeam"@ || name == "cross"@
    ||| name == "fleur"@ || name == "left_ptr_watch"@ || name == "watch"@
    ||| name == "question_arrow"@ || name == "forbidden"@ || name == "sb_h_double_arrow"@
    ||| name == "sb_v_double_arrow"@
}

} // verus!
