//! Operator input forwarded from the live viewport UI to the browser:
//! mouse, key and IME composition events. The viewport socket's JSON
//! messages are turned into the input actions to dispatch here; the
//! coordinates travel alongside, untouched.

use vstd::prelude::*;

use crate::text::{copy_opt, opt_text, owned, str_eq, to_chars};

verus! {

#[derive(Debug, Clone, Copy, PartialEq, Eq)]
pub enum MouseKind {
    Pressed,
    Released,
    Moved,
    Wheel,
}

#[derive(Debug, Clone, Copy, PartialEq, Eq)]
pub enum Button {
    Left,
    Middle,
    Right,
    /// No button.
    NoButton,
}

#[derive(Debug, Clone, Copy, PartialEq, Eq)]
pub enum KeyKind {
    Down,
    Up,
    /// Emits a text-insertion-only event.
    Char,
    /// Keydown without producing a `keypress` (arrow keys, F-keys,
    /// modifier-only combos).
    RawDown,
}

#[derive(Debug, Clone)]
pub struct KeyEvent {
    pub kind_down: bool,
    pub key: String,
    pub code: String,
    pub text: Option<String>,
    pub modifiers: i64,
    pub windows_virtual_key_code: Option<i64>,
}

impl Default for KeyEvent {
    fn default() -> (e: Self)
        ensures
            !e.kind_down,
            e.key@ == Seq::<char>::empty(),
            e.code@ == Seq::<char>::empty(),
            e.text is None,
            e.modifiers == 0,
            e.windows_virtual_key_code is None,
    {
        KeyEvent {
            kind_down: false,
            key: String::new(),
            code: String::new(),
            text: None,
            modifiers: 0,
            windows_virtual_key_code: None,
        }
    }
}

/// The `buttons` bit mask sent with a mouse event: the pressed button on a
/// press, nothing otherwise.
pub fn buttons_field(kind: MouseKind, button: Button) -> (b: i64)
    ensures
        b == (match (kind, button) {
            (MouseKind::Pressed, Button::Left) => 1i64,
            (MouseKind::Pressed, Button::Right) => 2i64,
            (MouseKind::Pressed, Button::Middle) => 4i64,
            _ => 0i64,
        }),
{
    match (kind, button) {
        (MouseKind::Pressed, Button::Left) => 1,
        (MouseKind::Pressed, Button::Right) => 2,
        (MouseKind::Pressed, Button::Middle) => 4,
        _ => 0,
    }
}

/// The key event type sent for `ev`: a key-down with text produces a
/// character (keyDown); one without text is a raw key-down; otherwise keyUp.
/// Every key-down is followed by a key-up from the UI, so the page sees a
/// complete pair.
pub fn key_event_kind(ev: &KeyEvent) -> (k: KeyKind)
    ensures
        k == (if ev.kind_down {
            if ev.text is Some {
                KeyKind::Down
            } else {
                KeyKind::RawDown
            }
        } else {
            KeyKind::Up
        }),
{
    if ev.kind_down {
        if ev.text.is_some() {
            KeyKind::Down
        } else {
            KeyKind::RawDown
        }
    } else {
        KeyKind::Up
    }
}

/// The click count of a mouse message that gives none.
pub fn default_click_count() -> (n: i64)
    ensures
        n == 1,
{
    1
}

/// A mouse message from the viewport (its coordinates and wheel deltas are
/// carried by the caller).
pub struct MouseInput {
    /// "down" | "up" | "move" | "wheel"
    pub kind: String,
    /// "left" | "middle" | "right" | "none"; absent means left.
    pub button: Option<String>,
    pub click_count: i64,
    pub modifiers: i64,
}

/// A key message from the viewport.
pub struct KeyInput {
    /// "down" | "up"
    pub kind: String,
    pub key: String,
    pub code: String,
    pub text: Option<String>,
    pub modifiers: i64,
    pub windows_virtual_key_code: Option<i64>,
}

/// One input message of the viewport socket.
pub enum InputMsg {
    Mouse(MouseInput),
    Key(KeyInput),
    CompositionStart,
    CompositionUpdate { text: String, selection_start: Option<i64>, selection_end: Option<i64> },
    CompositionEnd { text: String },
}

/// What to dispatch to the browser for one input message.
pub enum InputAction {
    Mouse { kind: MouseKind, button: Button, click_count: i64, modifiers: i64 },
    Key(KeyEvent),
    /// Open or update the IME composition.
    ImeComposition { text: String, selection_start: i64, selection_end: i64 },
    /// Commit text (and clear the composition).
    InsertText { text: String },
}

/// Why an input message was refused.
#[derive(Debug)]
pub enum InputError {
    UnknownMouseType(String),
    UnknownMouseButton(String),
    UnknownKeyType(String),
}

pub open spec fn mouse_kind_of(s: Seq<char>) -> Option<MouseKind> {
    if s == "down"@ {
        Some(MouseKind::Pressed)
    } else if s == "up"@ {
        Some(MouseKind::Released)
    } else if s == "move"@ {
        Some(MouseKind::Moved)
    } else if s == "wheel"@ {
        Some(MouseKind::Wheel)
    } else {
        None
    }
}

pub open spec fn button_of(s: Option<Seq<char>>) -> Option<Button> {
    match s {
        None => Some(Button::Left),
        Some(b) => if b == "left"@ {
            Some(Button::Left)
        } else if b == "right"@ {
            Some(Button::Right)
        } else if b == "middle"@ {
            Some(Button::Middle)
        } else if b == "none"@ {
            Some(Button::NoButton)
        } else {
            None
        },
    }
}

/// Each button name selects the button of that name and no other: `left`
/// (or no name at all) the left button, `right` the right one, `middle` the
/// middle one, `none` no button; any other name is refused.
pub proof fn law_button_names(s: Seq<char>)
    ensures
        button_of(None) == Some(Button::Left),
        button_of(Some(s)) == Some(Button::Left) <==> s == "left"@,
        button_of(Some(s)) == Some(Button::Right) <==> s == "right"@,
        button_of(Some(s)) == Some(Button::Middle) <==> s == "middle"@,
        button_of(Some(s)) == Some(Button::NoButton) <==> s == "none"@,
        button_of(Some(s)) is None <==> (s != "left"@ && s != "right"@ && s != "middle"@ && s
            != "none"@),
{
    reveal_strlit("left");
    reveal_strlit("right");
    reveal_strlit("middle");
    reveal_strlit("none");
    assert("left"@.len() == 4 && "none"@.len() == 4 && "right"@.len() == 5 && "middle"@.len()
        == 6);
    assert("left"@[0] != "none"@[0]);
    assert("left"@ != "right"@ && "left"@ != "middle"@ && "left"@ != "none"@);
    assert("right"@ != "middle"@ && "right"@ != "none"@ && "middle"@ != "none"@);
}

/// Each mouse message type selects the event of that name and no other:
/// `down` a press, `up` a release, `move` a move, `wheel` a wheel event; and
/// a key message is a key-down exactly when its type is `down`, a key-up
/// exactly when it is `up`. Any other type is refused.
pub proof fn law_input_type_names(s: Seq<char>)
    ensures
        mouse_kind_of(s) == Some(MouseKind::Pressed) <==> s == "down"@,
        mouse_kind_of(s) == Some(MouseKind::Released) <==> s == "up"@,
        mouse_kind_of(s) == Some(MouseKind::Moved) <==> s == "move"@,
        mouse_kind_of(s) == Some(MouseKind::Wheel) <==> s == "wheel"@,
        key_down_of(s) == Some(true) <==> s == "down"@,
        key_down_of(s) == Some(false) <==> s == "up"@,
{
    reveal_strlit("down");
    reveal_strlit("up");
    reveal_strlit("move");
    reveal_strlit("wheel");
    assert("down"@.len() == 4 && "move"@.len() == 4 && "up"@.len() == 2 && "wheel"@.len() == 5);
    assert("down"@[0] != "move"@[0]);
    assert("down"@ != "up"@ && "down"@ != "move"@ && "down"@ != "wheel"@);
    assert("up"@ != "move"@ && "up"@ != "wheel"@ && "move"@ != "wheel"@);
}

pub open spec fn key_down_of(s: Seq<char>) -> Option<bool> {
    if s == "down"@ {
        Some(true)
    } else if s == "up"@ {
        Some(false)
    } else {
        None
    }
}


fn mouse_kind(s: &str) -> (r: Option<MouseKind>)
    ensures
        r == mouse_kind_of(s@),
{
    if str_eq(s, "down") {
        Some(MouseKind::Pressed)
    } else if str_eq(s, "up") {
        Some(MouseKind::Released)
    } else if str_eq(s, "move") {
        Some(MouseKind::Moved)
    } else if str_eq(s, "wheel") {
        Some(MouseKind::Wheel)
    } else {
        None
    }
}

fn button(s: &Option<String>) -> (r: Option<Button>)
    ensures
        r == button_of(opt_text(*s)),
{
    match s {
        None => Some(Button::Left),
        Some(b) => {
            let b = b.as_str();
            if str_eq(b, "left") {
                Some(Button::Left)
            } else if str_eq(b, "right") {
                Some(Button::Right)
            } else if str_eq(b, "middle") {
                Some(Button::Middle)
            } else if str_eq(b, "none") {
                Some(Button::NoButton)
            } else {
                None
            }
        },
    }
}


/// Turn a viewport input message into the action to dispatch, or refuse it
/// when it names an unknown mouse type, mouse button or key type.
pub fn plan_input(msg: &InputMsg) -> (r: Result<InputAction, InputError>)
    ensures
        match *msg {
            InputMsg::Mouse(m) => match (mouse_kind_of(m.kind@), button_of(opt_text(m.button))) {
                (Some(k), Some(b)) => r matches Ok(InputAction::Mouse { kind, button, click_count, modifiers })
                    && kind == k && button == b && click_count == m.click_count && modifiers == m.modifiers,
                (None, _) => r matches Err(InputError::UnknownMouseType(t)) && t@ == m.kind@,
                (Some(_), None) => r matches Err(InputError::UnknownMouseButton(t)) && Some(t@)
                    == opt_text(m.button),
            },
            InputMsg::Key(k) => match key_down_of(k.kind@) {
                Some(down) => r matches Ok(InputAction::Key(ev)) && ev.kind_down == down && ev.key@
                    == k.key@ && ev.code@ == k.code@ && opt_text(ev.text) == opt_text(k.text)
                    && ev.modifiers == k.modifiers && ev.windows_virtual_key_code
                    == k.windows_virtual_key_code,
                None => r matches Err(InputError::UnknownKeyType(t)) && t@ == k.kind@,
            },
            InputMsg::CompositionStart => r matches Ok(
                InputAction::ImeComposition { text, selection_start, selection_end },
            ) && text@ == Seq::<char>::empty() && selection_start == 0 && selection_end == 0,
            InputMsg::CompositionUpdate { text: t, selection_start: s, selection_end: e } => r matches Ok(
                InputAction::ImeComposition { text, selection_start, selection_end },
            ) && text@ == t@ && selection_start == (match s {
                Some(v) => v,
                None => t@.len() as i64,
            }) && selection_end == (match e {
                Some(v) => v,
                None => t@.len() as i64,
            }),
            InputMsg::CompositionEnd { text: t } => r matches Ok(InputAction::InsertText { text })
                && text@ == t@,
        },
{
    match msg {
        InputMsg::Mouse(m) => {
            let kind = match mouse_kind(m.kind.as_str()) {
                Some(k) => k,
                None => {
                    return Err(InputError::UnknownMouseType(owned(m.kind.as_str())));
                },
            };
            let b = match button(&m.button) {
                Some(b) => b,
                None => {
                    let t = match &m.button {
                        Some(t) => owned(t.as_str()),
                        None => String::new(),
                    };
                    return Err(InputError::UnknownMouseButton(t));
                },
            };
            Ok(
                InputAction::Mouse {
                    kind,
                    button: b,
                    click_count: m.click_count,
                    modifiers: m.modifiers,
                },
            )
        },
        InputMsg::Key(k) => {
            let down = if str_eq(k.kind.as_str(), "down") {
                true
            } else if str_eq(k.kind.as_str(), "up") {
                false
            } else {
                return Err(InputError::UnknownKeyType(owned(k.kind.as_str())));
            };
            Ok(
                InputAction::Key(
                    KeyEvent {
                        kind_down: down,
                        key: owned(k.key.as_str()),
                        code: owned(k.code.as_str()),
                        text: copy_opt(&k.text),
                        modifiers: k.modifiers,
                        windows_virtual_key_code: k.windows_virtual_key_code,
                    },
                ),
            )
        },
        InputMsg::CompositionStart => Ok(
            InputAction::ImeComposition { text: String::new(), selection_start: 0, selection_end: 0 },
        ),
        InputMsg::CompositionUpdate { text, selection_start, selection_end } => {
            let len = to_chars(text.as_str()).len() as i64;
            let s = match selection_start {
                Some(v) => *v,
                None => len,
            };
            let e = match selection_end {
                Some(v) => *v,
                None => len,
            };
            Ok(
                InputAction::ImeComposition {
                    text: owned(text.as_str()),
                    selection_start: s,
                    selection_end: e,
                },
            )
        },
        InputMsg::CompositionEnd { text } => Ok(InputAction::InsertText { text: owned(text.as_str()) }),
    }
}

} // verus!
