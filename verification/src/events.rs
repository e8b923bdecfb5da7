//! The input-event codec: turns decoded input events into records of the
//! fixed, host-consumable schema.

use vstd::prelude::*;
use crate::host::{hfields_of, hvals_of, lemma_hfields_of_index, lemma_hvals_of_index, HVal,
    HostValue};
use crate::text::{dec_str, push_char, u64_to_string};

verus! {

/// A symbolic key, as the input device reports it.
#[derive(Clone, Copy, PartialEq, Eq, Structural, Debug)]
pub enum KeyCode {
    Backspace,
    Enter,
    Left,
    Right,
    Up,
    Down,
    Home,
    End,
    PageUp,
    PageDown,
    Tab,
    BackTab,
    Delete,
    Insert,
    F(u8),
    Char(char),
    Null,
    Esc,
    CapsLock,
    ScrollLock,
    NumLock,
    PrintScreen,
    Pause,
    Menu,
    KeypadBegin,
    Media,
    Modifier,
}

/// The modifier keys held with a key press.
#[derive(Clone, Copy, PartialEq, Eq, Structural, Debug)]
pub struct Modifiers {
    pub control: bool,
    pub alt: bool,
    pub shift: bool,
    pub super_key: bool,
    pub hyper: bool,
    pub meta: bool,
}

impl Modifiers {
    /// No modifier held.
    pub fn none() -> (r: Modifiers)
        ensures
            r == (Modifiers {
                control: false,
                alt: false,
                shift: false,
                super_key: false,
                hyper: false,
                meta: false,
            }),
    {
        Modifiers {
            control: false,
            alt: false,
            shift: false,
            super_key: false,
            hyper: false,
            meta: false,
        }
    }
}

/// Spec-level form of an input event, with text as character sequences.
pub enum EventView {
    Key { code: KeyCode, modifiers: Modifiers },
    Mouse { x: u16, y: u16, button: Seq<char> },
    Resize { width: u16, height: u16 },
    Paste { text: Seq<char> },
    Unknown,
}

/// One decoded input event. The mouse button carries the device layer's
/// name for the press, wheel or drag kind as text.
#[derive(Clone, Debug)]
pub enum InputEvent {
    Key { code: KeyCode, modifiers: Modifiers },
    Mouse { x: u16, y: u16, button: String },
    Resize { width: u16, height: u16 },
    Paste { text: String },
    Unknown,
}

impl View for InputEvent {
    type V = EventView;

    open spec fn view(&self) -> EventView {
        match self {
            InputEvent::Key { code, modifiers } => EventView::Key {
                code: *code,
                modifiers: *modifiers,
            },
            InputEvent::Mouse { x, y, button } => EventView::Mouse {
                x: *x,
                y: *y,
                button: button@,
            },
            InputEvent::Resize { width, height } => EventView::Resize {
                width: *width,
                height: *height,
            },
            InputEvent::Paste { text } => EventView::Paste { text: text@ },
            InputEvent::Unknown => EventView::Unknown,
        }
    }
}

/// The symbolic name of a key: a fixed name per special key, `F` followed
/// by the number for a function key, and the character itself for a
/// character key.
pub open spec fn spec_key_name(code: KeyCode) -> Seq<char> {
    match code {
        KeyCode::Backspace => "Backspace"@,
        KeyCode::Enter => "Enter"@,
        KeyCode::Left => "Left"@,
        KeyCode::Right => "Right"@,
        KeyCode::Up => "Up"@,
        KeyCode::Down => "Down"@,
        KeyCode::Home => "Home"@,
        KeyCode::End => "End"@,
        KeyCode::PageUp => "PageUp"@,
        KeyCode::PageDown => "PageDown"@,
        KeyCode::Tab => "Tab"@,
        KeyCode::BackTab => "BackTab"@,
        KeyCode::Delete => "Delete"@,
        KeyCode::Insert => "Insert"@,
        KeyCode::F(n) => "F"@ + dec_str(n as int),
        KeyCode::Char(c) => seq![c],
        KeyCode::Null => "Null"@,
        KeyCode::Esc => "Escape"@,
        KeyCode::CapsLock => "CapsLock"@,
        KeyCode::ScrollLock => "ScrollLock"@,
        KeyCode::NumLock => "NumLock"@,
        KeyCode::PrintScreen => "PrintScreen"@,
        KeyCode::Pause => "Pause"@,
        KeyCode::Menu => "Menu"@,
        KeyCode::KeypadBegin => "KeypadBegin"@,
        KeyCode::Media => "Media"@,
        KeyCode::Modifier => "Modifier"@,
    }
}

/// Renders a key's symbolic name.
pub fn format_key_code(code: KeyCode) -> (r: String)
    ensures
        r@ == spec_key_name(code),
{
    match code {
        KeyCode::Backspace => String::from_str("Backspace"),
        KeyCode::Enter => String::from_str("Enter"),
        KeyCode::Left => String::from_str("Left"),
        KeyCode::Right => String::from_str("Right"),
        KeyCode::Up => String::from_str("Up"),
        KeyCode::Down => String::from_str("Down"),
        KeyCode::Home => String::from_str("Home"),
        KeyCode::End => String::from_str("End"),
        KeyCode::PageUp => String::from_str("PageUp"),
        KeyCode::PageDown => String::from_str("PageDown"),
        KeyCode::Tab => String::from_str("Tab"),
        KeyCode::BackTab => String::from_str("BackTab"),
        KeyCode::Delete => String::from_str("Delete"),
        KeyCode::Insert => String::from_str("Insert"),
        KeyCode::F(n) => {
            let mut s = String::from_str("F");
            let digits = u64_to_string(n as u64);
            s.append(digits.as_str());
            s
        },
        KeyCode::Char(c) => {
            let mut s = String::new();
            push_char(&mut s, c);
            proof {
                assert(Seq::<char>::empty().push(c) =~= seq![c]);
            }
            s
        },
        KeyCode::Null => String::from_str("Null"),
        KeyCode::Esc => String::from_str("Escape"),
        KeyCode::CapsLock => String::from_str("CapsLock"),
        KeyCode::ScrollLock => String::from_str("ScrollLock"),
        KeyCode::NumLock => String::from_str("NumLock"),
        KeyCode::PrintScreen => String::from_str("PrintScreen"),
        KeyCode::Pause => String::from_str("Pause"),
        KeyCode::Menu => String::from_str("Menu"),
        KeyCode::KeypadBegin => String::from_str("KeypadBegin"),
        KeyCode::Media => String::from_str("Media"),
        KeyCode::Modifier => String::from_str("Modifier"),
    }
}

/// The names of the held modifiers, in reporting order: Ctrl, Alt, Shift,
/// Super, Hyper, Meta.
pub open spec fn spec_modifier_list(m: Modifiers) -> Seq<HVal> {
    let s0 = Seq::<HVal>::empty();
    let s1 = if m.control {
        s0.push(HVal::Str("Ctrl"@))
    } else {
        s0
    };
    let s2 = if m.alt {
        s1.push(HVal::Str("Alt"@))
    } else {
        s1
    };
    let s3 = if m.shift {
        s2.push(HVal::Str("Shift"@))
    } else {
        s2
    };
    let s4 = if m.super_key {
        s3.push(HVal::Str("Super"@))
    } else {
        s3
    };
    let s5 = if m.hyper {
        s4.push(HVal::Str("Hyper"@))
    } else {
        s4
    };
    if m.meta {
        s5.push(HVal::Str("Meta"@))
    } else {
        s5
    }
}

/// Renders the held modifiers as a list of their names.
pub fn format_modifiers(m: Modifiers) -> (r: Vec<HostValue>)
    ensures
        hvals_of(r@) == spec_modifier_list(m),
{
    let mut out: Vec<HostValue> = Vec::new();
    if m.control {
        out.push(HostValue::Str(String::from_str("Ctrl")));
    }
    if m.alt {
        out.push(HostValue::Str(String::from_str("Alt")));
    }
    if m.shift {
        out.push(HostValue::Str(String::from_str("Shift")));
    }
    if m.super_key {
        out.push(HostValue::Str(String::from_str("Super")));
    }
    if m.hyper {
        out.push(HostValue::Str(String::from_str("Hyper")));
    }
    if m.meta {
        out.push(HostValue::Str(String::from_str("Meta")));
    }
    proof {
        lemma_hvals_of_index(out@);
        assert(hvals_of(out@) =~= spec_modifier_list(m));
    }
    out
}

/// The record for one event, per the fixed schema: a `type` tag, the
/// type-specific fields, and the caller-observed timestamp in epoch
/// milliseconds.
pub open spec fn spec_event_record(e: EventView, ts: i64) -> Seq<(Seq<char>, HVal)> {
    match e {
        EventView::Key { code, modifiers } => seq![
            ("type"@, HVal::Str("key"@)),
            ("key"@, HVal::Str(spec_key_name(code))),
            ("modifiers"@, HVal::List(spec_modifier_list(modifiers))),
            ("timestamp"@, HVal::Int(ts)),
        ],
        EventView::Mouse { x, y, button } => seq![
            ("type"@, HVal::Str("mouse"@)),
            ("x"@, HVal::Int(x as i64)),
            ("y"@, HVal::Int(y as i64)),
            ("button"@, HVal::Str(button)),
            ("timestamp"@, HVal::Int(ts)),
        ],
        EventView::Resize { width, height } => seq![
            ("type"@, HVal::Str("resize"@)),
            ("width"@, HVal::Int(width as i64)),
            ("height"@, HVal::Int(height as i64)),
            ("timestamp"@, HVal::Int(ts)),
        ],
        EventView::Paste { text } => seq![
            ("type"@, HVal::Str("paste"@)),
            ("text"@, HVal::Str(text)),
            ("timestamp"@, HVal::Int(ts)),
        ],
        EventView::Unknown => seq![
            ("type"@, HVal::Str("unknown"@)),
            ("timestamp"@, HVal::Int(ts)),
        ],
    }
}

/// Builds the host-consumable record for one event.
pub fn event_record(e: &InputEvent, timestamp_millis: i64) -> (r: Vec<(String, HostValue)>)
    ensures
        hfields_of(r@) == spec_event_record(e@, timestamp_millis),
{
    let mut out: Vec<(String, HostValue)> = Vec::new();
    match e {
        InputEvent::Key { code, modifiers } => {
            out.push((String::from_str("type"), HostValue::Str(String::from_str("key"))));
            out.push((String::from_str("key"), HostValue::Str(format_key_code(*code))));
            out.push(
                (String::from_str("modifiers"), HostValue::List(format_modifiers(*modifiers))),
            );
            out.push((String::from_str("timestamp"), HostValue::Int(timestamp_millis)));
        },
        InputEvent::Mouse { x, y, button } => {
            out.push((String::from_str("type"), HostValue::Str(String::from_str("mouse"))));
            out.push((String::from_str("x"), HostValue::Int(*x as i64)));
            out.push((String::from_str("y"), HostValue::Int(*y as i64)));
            out.push((String::from_str("button"), HostValue::Str(button.clone())));
            out.push((String::from_str("timestamp"), HostValue::Int(timestamp_millis)));
        },
        InputEvent::Resize { width, height } => {
            out.push((String::from_str("type"), HostValue::Str(String::from_str("resize"))));
            out.push((String::from_str("width"), HostValue::Int(*width as i64)));
            out.push((String::from_str("height"), HostValue::Int(*height as i64)));
            out.push((String::from_str("timestamp"), HostValue::Int(timestamp_millis)));
        },
        InputEvent::Paste { text } => {
            out.push((String::from_str("type"), HostValue::Str(String::from_str("paste"))));
            out.push((String::from_str("text"), HostValue::Str(text.clone())));
            out.push((String::from_str("timestamp"), HostValue::Int(timestamp_millis)));
        },
        InputEvent::Unknown => {
            out.push((String::from_str("type"), HostValue::Str(String::from_str("unknown"))));
            out.push((String::from_str("timestamp"), HostValue::Int(timestamp_millis)));
        },
    }
    proof {
        lemma_hfields_of_index(out@);
        assert(hfields_of(out@) =~= spec_event_record(e@, timestamp_millis));
    }
    out
}

} // verus!
