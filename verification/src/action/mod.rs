//! Named actions and key bindings. Every editing, scrollback and status
//! behavior is a named [`Action`]; a [`Keymap`] binds each to a primary and an
//! optional alternate key, with the defaults below and user overrides on top.
//! `Esc`, `Enter`, `Ctrl+C` and plain typing stay contextual in the event
//! loop and are not resolved here.

use vstd::prelude::*;
use crate::text::{chars_of, string_push};

verus! {

/// A key, as the terminal reports it.
#[derive(Debug, Clone, Copy, PartialEq, Eq, Structural)]
pub enum KeyCode {
    Backspace,
    Enter,
    Left,
    Right,
    Up,
    Down,
    Home,
    End,
    PageUp,
    PageDown,
    Tab,
    BackTab,
    Delete,
    Insert,
    /// A function key, `F1`, `F2`, ...
    F(u8),
    Char(char),
    Null,
    Esc,
    CapsLock,
    ScrollLock,
    NumLock,
    PrintScreen,
    Pause,
    Menu,
    KeypadBegin,
    /// A media or bare modifier key.
    Other,
}

/// The modifier flags of a key press.
#[derive(Debug, Clone, Copy, PartialEq, Eq, Structural)]
pub struct KeyModifiers {
    pub shift: bool,
    pub control: bool,
    pub alt: bool,
    pub super_key: bool,
    pub hyper: bool,
    pub meta: bool,
}

/// Modifiers with only the editing-relevant flags.
pub open spec fn mods(shift: bool, control: bool, alt: bool) -> KeyModifiers {
    KeyModifiers { shift, control, alt, super_key: false, hyper: false, meta: false }
}

/// `m` with only Shift, Control and Alt kept.
pub open spec fn mask_spec(m: KeyModifiers) -> KeyModifiers {
    mods(m.shift, m.control, m.alt)
}

impl KeyModifiers {
    /// No modifier.
    pub fn none() -> (m: Self)
        ensures
            m == mods(false, false, false),
    {
        KeyModifiers { shift: false, control: false, alt: false, super_key: false, hyper: false, meta: false }
    }

    /// Shift alone.
    pub fn shift() -> (m: Self)
        ensures
            m == mods(true, false, false),
    {
        KeyModifiers { shift: true, control: false, alt: false, super_key: false, hyper: false, meta: false }
    }

    /// Control alone.
    pub fn control() -> (m: Self)
        ensures
            m == mods(false, true, false),
    {
        KeyModifiers { shift: false, control: true, alt: false, super_key: false, hyper: false, meta: false }
    }

    /// Alt alone.
    pub fn alt() -> (m: Self)
        ensures
            m == mods(false, false, true),
    {
        KeyModifiers { shift: false, control: false, alt: true, super_key: false, hyper: false, meta: false }
    }

    /// Shift and Control.
    pub fn shift_control() -> (m: Self)
        ensures
            m == mods(true, true, false),
    {
        KeyModifiers { shift: true, control: true, alt: false, super_key: false, hyper: false, meta: false }
    }

    /// Control and Alt.
    pub fn control_alt() -> (m: Self)
        ensures
            m == mods(false, true, true),
    {
        KeyModifiers { shift: false, control: true, alt: true, super_key: false, hyper: false, meta: false }
    }
}

/// Keep only the modifier flags bindings care about (Shift, Control, Alt),
/// so incidental flags never defeat a match.
pub fn mask(m: KeyModifiers) -> (r: KeyModifiers)
    ensures
        r == mask_spec(m),
{
    KeyModifiers { shift: m.shift, control: m.control, alt: m.alt, super_key: false, hyper: false, meta: false }
}

/// A behavior identified by a stable name.
#[derive(Debug, Clone, Copy, PartialEq, Eq, Structural)]
pub enum Action {
    LineMoveStart,
    LineMoveEnd,
    WordMoveLeft,
    WordMoveRight,
    SelectCharLeft,
    SelectCharRight,
    SelectWordLeft,
    SelectWordRight,
    KillToLineStart,
    KillToLineEnd,
    DeleteWordBefore,
    /// Insert a newline in the input without submitting.
    InsertNewline,
    ScrollPageUp,
    ScrollPageDown,
    ScrollLineUp,
    ScrollLineDown,
    ScrollToTop,
    ScrollToBottom,
    /// Copy the bottom-most transcript line.
    CopyCurrentLine,
    /// Copy the bottom-most block's output.
    CopyBlockWithoutCommand,
    /// The contextual `Esc Esc` gesture: named, but not a chord.
    ClearStatusMessage,
    /// Reserved whole-buffer motion, unbound by default.
    MultilineMoveStartBuffer,
    /// Reserved whole-buffer motion, unbound by default.
    MultilineMoveEndBuffer,
    /// Toggle the Mult/LAAT input mode.
    ToggleMultLaat,
    /// Push the input buffer aside (or pop it back).
    PushInput,
}

/// Every action, in declaration order.
pub open spec fn all_actions() -> Seq<Action> {
    seq![
            Action::LineMoveStart,
            Action::LineMoveEnd,
            Action::WordMoveLeft,
            Action::WordMoveRight,
            Action::SelectCharLeft,
            Action::SelectCharRight,
            Action::SelectWordLeft,
            Action::SelectWordRight,
            Action::KillToLineStart,
            Action::KillToLineEnd,
            Action::DeleteWordBefore,
            Action::InsertNewline,
            Action::ScrollPageUp,
            Action::ScrollPageDown,
            Action::ScrollLineUp,
            Action::ScrollLineDown,
            Action::ScrollToTop,
            Action::ScrollToBottom,
            Action::CopyCurrentLine,
            Action::CopyBlockWithoutCommand,
            Action::ClearStatusMessage,
            Action::MultilineMoveStartBuffer,
            Action::MultilineMoveEndBuffer,
            Action::ToggleMultLaat,
            Action::PushInput,
    ]
}

/// A few characters of a name that tell the actions' names apart: its
/// length, its first and last characters, its third-last, and its eighth.
pub open spec fn name_fingerprint(s: Seq<char>) -> (nat, char, char, char, char) {
    (s.len(), s[0], s[s.len() - 1], s[s.len() - 3], s[7])
}

/// The fingerprint of each action's name.
pub open spec fn fingerprint_of(a: Action) -> (nat, char, char, char, char) {
    match a {
        Action::LineMoveStart => (15, 'l', 't', 'a', 'v'),
        Action::LineMoveEnd => (13, 'l', 'd', 'e', 'v'),
        Action::WordMoveLeft => (14, 'w', 't', 'e', 'v'),
        Action::WordMoveRight => (15, 'w', 't', 'g', 'v'),
        Action::SelectCharLeft => (16, 's', 't', 'e', 'c'),
        Action::SelectCharRight => (17, 's', 't', 'g', 'c'),
        Action::SelectWordLeft => (16, 's', 't', 'e', 'w'),
        Action::SelectWordRight => (17, 's', 't', 'g', 'w'),
        Action::KillToLineStart => (18, 'k', 't', 'a', '_'),
        Action::KillToLineEnd => (16, 'k', 'd', 'e', '_'),
        Action::DeleteWordBefore => (18, 'd', 'e', 'o', 'w'),
        Action::InsertNewline => (14, 'i', 'e', 'i', 'n'),
        Action::ScrollPageUp => (14, 's', 'p', '_', 'p'),
        Action::ScrollPageDown => (16, 's', 'n', 'o', 'p'),
        Action::ScrollLineUp => (14, 's', 'p', '_', 'l'),
        Action::ScrollLineDown => (16, 's', 'n', 'o', 'l'),
        Action::ScrollToTop => (13, 's', 'p', 't', 't'),
        Action::ScrollToBottom => (16, 's', 'm', 't', 't'),
        Action::CopyCurrentLine => (17, 'c', 'e', 'i', 'r'),
        Action::CopyBlockWithoutCommand => (26, 'c', 'd', 'a', 'o'),
        Action::ClearStatusMessage => (20, 'c', 'e', 'a', 't'),
        Action::MultilineMoveStartBuffer => (27, 'm', 'r', 'f', 'n'),
        Action::MultilineMoveEndBuffer => (25, 'm', 'r', 'f', 'n'),
        Action::ToggleMultLaat => (16, 't', 't', 'a', 'm'),
        Action::PushInput => (10, 'p', 't', 'p', 'p'),
    }
}

proof fn lemma_fingerprint(a: Action)
    ensures
        name_fingerprint(a.name_spec()) == fingerprint_of(a),
{
    match a {
        Action::LineMoveStart => {
            reveal_strlit("line_move_start");
        },
        Action::LineMoveEnd => {
            reveal_strlit("line_move_end");
        },
        Action::WordMoveLeft => {
            reveal_strlit("word_move_left");
        },
        Action::WordMoveRight => {
            reveal_strlit("word_move_right");
        },
        Action::SelectCharLeft => {
            reveal_strlit("select_char_left");
        },
        Action::SelectCharRight => {
            reveal_strlit("select_char_right");
        },
        Action::SelectWordLeft => {
            reveal_strlit("select_word_left");
        },
        Action::SelectWordRight => {
            reveal_strlit("select_word_right");
        },
        Action::KillToLineStart => {
            reveal_strlit("kill_to_line_start");
        },
        Action::KillToLineEnd => {
            reveal_strlit("kill_to_line_end");
        },
        Action::DeleteWordBefore => {
            reveal_strlit("delete_word_before");
        },
        Action::InsertNewline => {
            reveal_strlit("insert_newline");
        },
        Action::ScrollPageUp => {
            reveal_strlit("scroll_page_up");
        },
        Action::ScrollPageDown => {
            reveal_strlit("scroll_page_down");
        },
        Action::ScrollLineUp => {
            reveal_strlit("scroll_line_up");
        },
        Action::ScrollLineDown => {
            reveal_strlit("scroll_line_down");
        },
        Action::ScrollToTop => {
            reveal_strlit("scroll_to_top");
        },
        Action::ScrollToBottom => {
            reveal_strlit("scroll_to_bottom");
        },
        Action::CopyCurrentLine => {
            reveal_strlit("copy_current_line");
        },
        Action::CopyBlockWithoutCommand => {
            reveal_strlit("copy_block_without_command");
        },
        Action::ClearStatusMessage => {
            reveal_strlit("clear_status_message");
        },
        Action::MultilineMoveStartBuffer => {
            reveal_strlit("multiline_move_start_buffer");
        },
        Action::MultilineMoveEndBuffer => {
            reveal_strlit("multiline_move_end_buffer");
        },
        Action::ToggleMultLaat => {
            reveal_strlit("toggle_mult_laat");
        },
        Action::PushInput => {
            reveal_strlit("push_input");
        },
    }
}

/// No two actions share a name: an action's name names that action alone.
pub proof fn lemma_names_distinct(a: Action, b: Action)
    ensures
        a.name_spec() == b.name_spec() <==> a == b,
{
    lemma_fingerprint(a);
    lemma_fingerprint(b);
}

impl Action {
    /// The action's stable name.
    pub open spec fn name_spec(self) -> Seq<char> {
        match self {
            Action::LineMoveStart => "line_move_start"@,
            Action::LineMoveEnd => "line_move_end"@,
            Action::WordMoveLeft => "word_move_left"@,
            Action::WordMoveRight => "word_move_right"@,
            Action::SelectCharLeft => "select_char_left"@,
            Action::SelectCharRight => "select_char_right"@,
            Action::SelectWordLeft => "select_word_left"@,
            Action::SelectWordRight => "select_word_right"@,
            Action::KillToLineStart => "kill_to_line_start"@,
            Action::KillToLineEnd => "kill_to_line_end"@,
            Action::DeleteWordBefore => "delete_word_before"@,
            Action::InsertNewline => "insert_newline"@,
            Action::ScrollPageUp => "scroll_page_up"@,
            Action::ScrollPageDown => "scroll_page_down"@,
            Action::ScrollLineUp => "scroll_line_up"@,
            Action::ScrollLineDown => "scroll_line_down"@,
            Action::ScrollToTop => "scroll_to_top"@,
            Action::ScrollToBottom => "scroll_to_bottom"@,
            Action::CopyCurrentLine => "copy_current_line"@,
            Action::CopyBlockWithoutCommand => "copy_block_without_command"@,
            Action::ClearStatusMessage => "clear_status_message"@,
            Action::MultilineMoveStartBuffer => "multiline_move_start_buffer"@,
            Action::MultilineMoveEndBuffer => "multiline_move_end_buffer"@,
            Action::ToggleMultLaat => "toggle_mult_laat"@,
            Action::PushInput => "push_input"@,
        }
    }

    /// The action's stable name, shown by `/keys` and used in keymap config.
    pub fn name(self) -> (s: &'static str)
        ensures
            s@ == self.name_spec(),
    {
        match self {
            Action::LineMoveStart => "line_move_start",
            Action::LineMoveEnd => "line_move_end",
            Action::WordMoveLeft => "word_move_left",
            Action::WordMoveRight => "word_move_right",
            Action::SelectCharLeft => "select_char_left",
            Action::SelectCharRight => "select_char_right",
            Action::SelectWordLeft => "select_word_left",
            Action::SelectWordRight => "select_word_right",
            Action::KillToLineStart => "kill_to_line_start",
            Action::KillToLineEnd => "kill_to_line_end",
            Action::DeleteWordBefore => "delete_word_before",
            Action::InsertNewline => "insert_newline",
            Action::ScrollPageUp => "scroll_page_up",
            Action::ScrollPageDown => "scroll_page_down",
            Action::ScrollLineUp => "scroll_line_up",
            Action::ScrollLineDown => "scroll_line_down",
            Action::ScrollToTop => "scroll_to_top",
            Action::ScrollToBottom => "scroll_to_bottom",
            Action::CopyCurrentLine => "copy_current_line",
            Action::CopyBlockWithoutCommand => "copy_block_without_command",
            Action::ClearStatusMessage => "clear_status_message",
            Action::MultilineMoveStartBuffer => "multiline_move_start_buffer",
            Action::MultilineMoveEndBuffer => "multiline_move_end_buffer",
            Action::ToggleMultLaat => "toggle_mult_laat",
            Action::PushInput => "push_input",
        }
    }

    /// The action whose stable name is `name`, or `None` when no action has
    /// that name.
    pub fn from_name(name: &str) -> (r: Option<Action>)
        ensures
            r matches Some(a) ==> a.name_spec() == name@,
            r is None ==> forall|a: Action| #[trigger] a.name_spec() != name@,
            forall|a: Action| #[trigger] a.name_spec() == name@ <==> r == Some(a),
    {
        let all: [Action; 25] = [
            Action::LineMoveStart,
            Action::LineMoveEnd,
            Action::WordMoveLeft,
            Action::WordMoveRight,
            Action::SelectCharLeft,
            Action::SelectCharRight,
            Action::SelectWordLeft,
            Action::SelectWordRight,
            Action::KillToLineStart,
            Action::KillToLineEnd,
            Action::DeleteWordBefore,
            Action::InsertNewline,
            Action::ScrollPageUp,
            Action::ScrollPageDown,
            Action::ScrollLineUp,
            Action::ScrollLineDown,
            Action::ScrollToTop,
            Action::ScrollToBottom,
            Action::CopyCurrentLine,
            Action::CopyBlockWithoutCommand,
            Action::ClearStatusMessage,
            Action::MultilineMoveStartBuffer,
            Action::MultilineMoveEndBuffer,
            Action::ToggleMultLaat,
            Action::PushInput,
        ];
        assert(all@ =~= all_actions());
        let target = crate::text::string_from_str(name);
        let mut i: usize = 0;
        while i < 25
            invariant
                i <= 25,
                all@ == all_actions(),
                target@ == name@,
                forall|k: int| 0 <= k < i ==> #[trigger] all_actions()[k].name_spec() != name@,
            decreases 25 - i,
        {
            let a = all[i];
            let n = crate::text::string_from_str(a.name());
            if n == target {
                proof {
                    assert forall|b: Action| #[trigger] b.name_spec() == name@ <==> Some(a) == Some(b) by {
                        lemma_names_distinct(a, b);
                    }
                }
                return Some(a);
            }
            i = i + 1;
        }
        proof {
            assert forall|a: Action| #[trigger] a.name_spec() != name@ by {
                let k: int = match a {
                    Action::LineMoveStart => 0,
                    Action::LineMoveEnd => 1,
                    Action::WordMoveLeft => 2,
                    Action::WordMoveRight => 3,
                    Action::SelectCharLeft => 4,
                    Action::SelectCharRight => 5,
                    Action::SelectWordLeft => 6,
                    Action::SelectWordRight => 7,
                    Action::KillToLineStart => 8,
                    Action::KillToLineEnd => 9,
                    Action::DeleteWordBefore => 10,
                    Action::InsertNewline => 11,
                    Action::ScrollPageUp => 12,
                    Action::ScrollPageDown => 13,
                    Action::ScrollLineUp => 14,
                    Action::ScrollLineDown => 15,
                    Action::ScrollToTop => 16,
                    Action::ScrollToBottom => 17,
                    Action::CopyCurrentLine => 18,
                    Action::CopyBlockWithoutCommand => 19,
                    Action::ClearStatusMessage => 20,
                    Action::MultilineMoveStartBuffer => 21,
                    Action::MultilineMoveEndBuffer => 22,
                    Action::ToggleMultLaat => 23,
                    Action::PushInput => 24,
                };
                assert(all_actions()[k] == a);
            }
        }
        None
    }
}

/// A key chord: a key code plus the editing-relevant modifier flags.
#[derive(Debug, Clone, Copy, PartialEq, Eq, Structural)]
pub struct KeyChord {
    pub code: KeyCode,
    pub mods: KeyModifiers,
}

/// The default single-key bindings, `(code, modifiers, action)`, in order.
pub open spec fn default_bindings() -> Seq<(KeyCode, KeyModifiers, Action)> {
    seq![
        (KeyCode::Home, mods(false, false, false), Action::LineMoveStart),
        (KeyCode::End, mods(false, false, false), Action::LineMoveEnd),
        (KeyCode::Left, mods(false, true, false), Action::WordMoveLeft),
        (KeyCode::Right, mods(false, true, false), Action::WordMoveRight),
        (KeyCode::Left, mods(true, false, false), Action::SelectCharLeft),
        (KeyCode::Right, mods(true, false, false), Action::SelectCharRight),
        (KeyCode::Left, mods(true, true, false), Action::SelectWordLeft),
        (KeyCode::Right, mods(true, true, false), Action::SelectWordRight),
        (KeyCode::Char('u'), mods(false, true, false), Action::KillToLineStart),
        (KeyCode::Char('k'), mods(false, true, false), Action::KillToLineEnd),
        (KeyCode::Char('w'), mods(false, true, false), Action::DeleteWordBefore),
        (KeyCode::PageUp, mods(false, false, false), Action::ScrollPageUp),
        (KeyCode::PageDown, mods(false, false, false), Action::ScrollPageDown),
        (KeyCode::PageUp, mods(true, false, false), Action::ScrollLineUp),
        (KeyCode::PageDown, mods(true, false, false), Action::ScrollLineDown),
        (KeyCode::Home, mods(true, false, false), Action::ScrollToTop),
        (KeyCode::End, mods(true, false, false), Action::ScrollToBottom),
    ]
}

/// The default bindings as a vector.
fn binding_table() -> (v: Vec<(KeyCode, KeyModifiers, Action)>)
    ensures
        v@ == default_bindings(),
{
    let mut v: Vec<(KeyCode, KeyModifiers, Action)> = Vec::new();
    v.push((KeyCode::Home, KeyModifiers::none(), Action::LineMoveStart));
    v.push((KeyCode::End, KeyModifiers::none(), Action::LineMoveEnd));
    v.push((KeyCode::Left, KeyModifiers::control(), Action::WordMoveLeft));
    v.push((KeyCode::Right, KeyModifiers::control(), Action::WordMoveRight));
    v.push((KeyCode::Left, KeyModifiers::shift(), Action::SelectCharLeft));
    v.push((KeyCode::Right, KeyModifiers::shift(), Action::SelectCharRight));
    v.push((KeyCode::Left, KeyModifiers::shift_control(), Action::SelectWordLeft));
    v.push((KeyCode::Right, KeyModifiers::shift_control(), Action::SelectWordRight));
    v.push((KeyCode::Char('u'), KeyModifiers::control(), Action::KillToLineStart));
    v.push((KeyCode::Char('k'), KeyModifiers::control(), Action::KillToLineEnd));
    v.push((KeyCode::Char('w'), KeyModifiers::control(), Action::DeleteWordBefore));
    v.push((KeyCode::PageUp, KeyModifiers::none(), Action::ScrollPageUp));
    v.push((KeyCode::PageDown, KeyModifiers::none(), Action::ScrollPageDown));
    v.push((KeyCode::PageUp, KeyModifiers::shift(), Action::ScrollLineUp));
    v.push((KeyCode::PageDown, KeyModifiers::shift(), Action::ScrollLineDown));
    v.push((KeyCode::Home, KeyModifiers::shift(), Action::ScrollToTop));
    v.push((KeyCode::End, KeyModifiers::shift(), Action::ScrollToBottom));
    assert(v@ =~= default_bindings());
    v
}

/// Index of the first binding for `code` with modifiers `m`.
pub open spec fn first_binding(bs: Seq<(KeyCode, KeyModifiers, Action)>, code: KeyCode, m: KeyModifiers) -> Option<int>
    decreases bs.len(),
{
    if bs.len() == 0 {
        None
    } else if bs[0].0 == code && bs[0].1 == m {
        Some(0)
    } else {
        match first_binding(bs.drop_first(), code, m) {
            Some(i) => Some(i + 1),
            None => None,
        }
    }
}

/// The action a chord resolves to under the default bindings.
pub open spec fn resolve_spec(chord: KeyChord) -> Option<Action> {
    match first_binding(default_bindings(), chord.code, mask_spec(chord.mods)) {
        Some(i) => Some(default_bindings()[i].2),
        None => None,
    }
}

proof fn lemma_first_binding(bs: Seq<(KeyCode, KeyModifiers, Action)>, code: KeyCode, m: KeyModifiers)
    ensures
        first_binding(bs, code, m) matches Some(i) ==> 0 <= i < bs.len() && bs[i].0 == code
            && bs[i].1 == m && forall|k: int| 0 <= k < i ==> !(#[trigger] bs[k].0 == code && bs[k].1 == m),
        first_binding(bs, code, m) is None ==> forall|k: int|
            0 <= k < bs.len() ==> !(#[trigger] bs[k].0 == code && bs[k].1 == m),
    decreases bs.len(),
{
    if bs.len() > 0 && !(bs[0].0 == code && bs[0].1 == m) {
        let d = bs.drop_first();
        lemma_first_binding(d, code, m);
        assert forall|k: int| 0 < k < bs.len() implies bs[k] == #[trigger] d[k - 1] by {}
        if let Some(i) = first_binding(d, code, m) {
            assert forall|k: int| 0 <= k < i + 1 implies !(#[trigger] bs[k].0 == code && bs[k].1 == m) by {
                if k > 0 {
                    assert(bs[k] == d[k - 1]);
                }
            }
        } else {
            assert forall|k: int| 0 <= k < bs.len() implies !(#[trigger] bs[k].0 == code && bs[k].1 == m) by {
                if k > 0 {
                    assert(bs[k] == d[k - 1]);
                }
            }
        }
    }
}

/// Resolve a key chord to its default-bound action, or `None` when unbound.
pub fn resolve(chord: KeyChord) -> (r: Option<Action>)
    ensures
        r == resolve_spec(chord),
{
    let m = mask(chord.mods);
    let table = binding_table();
    let mut i: usize = 0;
    while i < table.len()
        invariant
            i <= table@.len(),
            table@ == default_bindings(),
            m == mask_spec(chord.mods),
            forall|k: int| 0 <= k < i ==> !(#[trigger] table@[k].0 == chord.code && table@[k].1 == m),
        decreases table.len() - i,
    {
        let (c, bm, a) = table[i];
        if c == chord.code && bm == m {
            proof {
                lemma_first_binding(default_bindings(), chord.code, m);
                match first_binding(default_bindings(), chord.code, m) {
                    Some(j) => {
                        if j < i {
                            assert(!(table@[j].0 == chord.code && table@[j].1 == m));
                        } else if j > i {
                            assert(table@[i as int].0 == chord.code && table@[i as int].1 == m);
                        }
                    },
                    None => {
                        assert(table@[i as int].0 == chord.code && table@[i as int].1 == m);
                    },
                }
            }
            return Some(a);
        }
        i = i + 1;
    }
    proof {
        lemma_first_binding(default_bindings(), chord.code, m);
        if let Some(j) = first_binding(default_bindings(), chord.code, m) {
            assert(!(table@[j].0 == chord.code && table@[j].1 == m));
        }
    }
    None
}

/// What `char::to_uppercase` makes of `c`, as a string.
pub uninterp spec fn upper_of(c: char) -> Seq<char>;

/// `c` in upper case (`char::to_uppercase`), which may be several chars.
/// ASCII lowercase letters map to their capitals and every other ASCII char
/// to itself.
#[verifier::external_body]
fn char_to_upper(c: char) -> (s: String)
    ensures
        s@ == upper_of(c),
        'a' <= c <= 'z' ==> s@ == seq![((c as u32) - 32) as char],
        (c as u32) < 128 && !('a' <= c <= 'z') ==> s@ == seq![c],
{
    c.to_uppercase().to_string()
}

/// The display name of a key.
pub open spec fn code_name_spec(code: KeyCode) -> Seq<char> {
    match code {
        KeyCode::Char(c) => upper_of(c),
        KeyCode::F(n) => "F("@ + crate::text::nat_decimal(n as nat) + ")"@,
        KeyCode::Backspace => "Backspace"@,
        KeyCode::Enter => "Enter"@,
        KeyCode::Left => "Left"@,
        KeyCode::Right => "Right"@,
        KeyCode::Up => "Up"@,
        KeyCode::Down => "Down"@,
        KeyCode::Home => "Home"@,
        KeyCode::End => "End"@,
        KeyCode::PageUp => "PageUp"@,
        KeyCode::PageDown => "PageDown"@,
        KeyCode::Tab => "Tab"@,
        KeyCode::BackTab => "BackTab"@,
        KeyCode::Delete => "Delete"@,
        KeyCode::Insert => "Insert"@,
        KeyCode::Null => "Null"@,
        KeyCode::Esc => "Esc"@,
        KeyCode::CapsLock => "CapsLock"@,
        KeyCode::ScrollLock => "ScrollLock"@,
        KeyCode::NumLock => "NumLock"@,
        KeyCode::PrintScreen => "PrintScreen"@,
        KeyCode::Pause => "Pause"@,
        KeyCode::Menu => "Menu"@,
        KeyCode::KeypadBegin => "KeypadBegin"@,
        KeyCode::Other => "Other"@,
    }
}

/// Append the display name of `code` to `s`.
fn push_code_name(s: &mut String, code: KeyCode)
    ensures
        final(s)@ == old(s)@ + code_name_spec(code),
{
    match code {
        KeyCode::Char(c) => {
            let u = char_to_upper(c);
            s.append(u.as_str());
        },
        KeyCode::F(n) => {
            s.append("F(");
            crate::text::push_decimal_u64(s, n as u64);
            s.append(")");
        },
        KeyCode::Backspace => {
            s.append("Backspace");
        },
        KeyCode::Enter => {
            s.append("Enter");
        },
        KeyCode::Left => {
            s.append("Left");
        },
        KeyCode::Right => {
            s.append("Right");
        },
        KeyCode::Up => {
            s.append("Up");
        },
        KeyCode::Down => {
            s.append("Down");
        },
        KeyCode::Home => {
            s.append("Home");
        },
        KeyCode::End => {
            s.append("End");
        },
        KeyCode::PageUp => {
            s.append("PageUp");
        },
        KeyCode::PageDown => {
            s.append("PageDown");
        },
        KeyCode::Tab => {
            s.append("Tab");
        },
        KeyCode::BackTab => {
            s.append("BackTab");
        },
        KeyCode::Delete => {
            s.append("Delete");
        },
        KeyCode::Insert => {
            s.append("Insert");
        },
        KeyCode::Null => {
            s.append("Null");
        },
        KeyCode::Esc => {
            s.append("Esc");
        },
        KeyCode::CapsLock => {
            s.append("CapsLock");
        },
        KeyCode::ScrollLock => {
            s.append("ScrollLock");
        },
        KeyCode::NumLock => {
            s.append("NumLock");
        },
        KeyCode::PrintScreen => {
            s.append("PrintScreen");
        },
        KeyCode::Pause => {
            s.append("Pause");
        },
        KeyCode::Menu => {
            s.append("Menu");
        },
        KeyCode::KeypadBegin => {
            s.append("KeypadBegin");
        },
        KeyCode::Other => {
            s.append("Other");
        },
    }
}

/// The display of a chord: `Ctrl+`, `Alt+`, `Shift+` for the flags set, then
/// the key's name, e.g. `Ctrl+Left`, `Shift+Home`.
pub open spec fn chord_display(ch: KeyChord) -> Seq<char> {
    (if ch.mods.control {
        "Ctrl+"@
    } else {
        Seq::<char>::empty()
    }) + (if ch.mods.alt {
        "Alt+"@
    } else {
        Seq::<char>::empty()
    }) + (if ch.mods.shift {
        "Shift+"@
    } else {
        Seq::<char>::empty()
    }) + code_name_spec(ch.code)
}

impl KeyChord {
    /// A chord with its modifiers masked to Shift, Control and Alt.
    pub fn new(code: KeyCode, mods: KeyModifiers) -> (c: Self)
        ensures
            c == (KeyChord { code, mods: mask_spec(mods) }),
    {
        KeyChord { code, mods: mask(mods) }
    }

    /// A human-readable rendering of the chord.
    pub fn display(self) -> (s: String)
        ensures
            s@ == chord_display(self),
    {
        let mut s = String::new();
        if self.mods.control {
            s.append("Ctrl+");
        }
        if self.mods.alt {
            s.append("Alt+");
        }
        if self.mods.shift {
            s.append("Shift+");
        }
        push_code_name(&mut s, self.code);
        assert(s@ =~= chord_display(self));
        s
    }
}

/// The `/keys` rows for the default bindings: each binding's action name and
/// chord, then the `Esc Esc` gesture row for `clear_status_message`.
pub open spec fn listing_spec() -> Seq<(Seq<char>, Seq<char>)> {
    default_bindings().map_values(
        |b: (KeyCode, KeyModifiers, Action)|
            (b.2.name_spec(), chord_display(KeyChord { code: b.0, mods: mask_spec(b.1) })),
    ).push((Action::ClearStatusMessage.name_spec(), "Esc Esc"@))
}

/// The views of `(String, String)` rows.
pub open spec fn rows_view(v: Seq<(String, String)>) -> Seq<(Seq<char>, Seq<char>)> {
    v.map_values(|r: (String, String)| (r.0@, r.1@))
}

/// The default key map as `(action name, key display)` rows for `/keys`.
pub fn listing() -> (out: Vec<(String, String)>)
    ensures
        rows_view(out@) == listing_spec(),
{
    let table = binding_table();
    let mut out: Vec<(String, String)> = Vec::new();
    let mut i: usize = 0;
    while i < table.len()
        invariant
            i <= table@.len(),
            table@ == default_bindings(),
            rows_view(out@) == default_bindings().subrange(0, i as int).map_values(
                |b: (KeyCode, KeyModifiers, Action)|
                    (b.2.name_spec(), chord_display(KeyChord { code: b.0, mods: mask_spec(b.1) })),
            ),
        decreases table.len() - i,
    {
        let (code, m, action) = table[i];
        let name = crate::text::string_from_str(action.name());
        let keys = KeyChord::new(code, m).display();
        let ghost before = out@;
        out.push((name, keys));
        proof {
            assert(rows_view(out@) =~= rows_view(before).push((name@, keys@)));
            assert(default_bindings().subrange(0, i + 1) =~= default_bindings().subrange(0, i as int).push(table@[i as int]));
            assert(default_bindings().subrange(0, i + 1).map_values(
                |b: (KeyCode, KeyModifiers, Action)|
                    (b.2.name_spec(), chord_display(KeyChord { code: b.0, mods: mask_spec(b.1) })),
            ) =~= default_bindings().subrange(0, i as int).map_values(
                |b: (KeyCode, KeyModifiers, Action)|
                    (b.2.name_spec(), chord_display(KeyChord { code: b.0, mods: mask_spec(b.1) })),
            ).push((name@, keys@)));
        }
        i = i + 1;
    }
    let name = crate::text::string_from_str(Action::ClearStatusMessage.name());
    let keys = crate::text::string_from_str("Esc Esc");
    let ghost before = out@;
    out.push((name, keys));
    proof {
        assert(rows_view(out@) =~= rows_view(before).push((name@, keys@)));
        assert(default_bindings().subrange(0, default_bindings().len() as int) =~= default_bindings());
    }
    out
}

/// The parsed target of a key string: a single chord, or the two-key
/// `Esc Esc` chord (the only multi-key sequence supported).
#[derive(Debug, Clone, Copy, PartialEq, Eq, Structural)]
pub enum KeySpec {
    /// A single key plus its modifier flags.
    Single(KeyChord),
    /// A two-key chord; only `Esc Esc` is valid.
    Chord(KeyChord, KeyChord),
}

/// Why a key string failed to parse.
#[derive(Debug, Clone, Copy, PartialEq, Eq, Structural)]
pub enum KeyParseReason {
    /// The trimmed input was empty.
    Empty,
    /// A modifier token was not one of `ctrl`, `alt`, `shift`.
    UnknownModifier,
    /// The key token was not a known named key or a single character.
    UnknownKey,
    /// A multi-key sequence other than `Esc Esc`.
    UnsupportedChord,
}

/// A key-string parse failure: the offending input and the reason.
#[derive(Debug, Clone, PartialEq, Eq)]
pub struct KeyParseError {
    pub input: String,
    pub reason: KeyParseReason,
}

/// The text of a parse failure's reason.
pub open spec fn reason_text(r: KeyParseReason) -> Seq<char> {
    match r {
        KeyParseReason::Empty => "empty key string"@,
        KeyParseReason::UnknownModifier => "unknown modifier (use ctrl/alt/shift)"@,
        KeyParseReason::UnknownKey => "unknown key name"@,
        KeyParseReason::UnsupportedChord => "unsupported chord (only `Esc Esc`)"@,
    }
}

impl KeyParseError {
    /// The diagnostic for this failure: the reason, then the input quoted.
    pub fn message(&self) -> (s: String)
        ensures
            s@ == reason_text(self.reason) + ": "@ + crate::config::debug_quoted(self.input@),
    {
        let mut s = String::new();
        match self.reason {
            KeyParseReason::Empty => s.append("empty key string"),
            KeyParseReason::UnknownModifier => s.append("unknown modifier (use ctrl/alt/shift)"),
            KeyParseReason::UnknownKey => s.append("unknown key name"),
            KeyParseReason::UnsupportedChord => s.append("unsupported chord (only `Esc Esc`)"),
        }
        s.append(": ");
        let q = crate::config::debug_quote(self.input.as_str());
        s.append(q.as_str());
        s
    }
}

/// What `str::to_lowercase` makes of `s`.
pub uninterp spec fn lower_of(s: Seq<char>) -> Seq<char>;

/// `c` lowered if it is an ASCII capital.
pub open spec fn ascii_lower(c: char) -> char {
    if 'A' <= c <= 'Z' {
        ((c as u32) + 32) as char
    } else {
        c
    }
}

/// `s` in lower case (`str::to_lowercase`). ASCII text is lowered char by
/// char, capitals to small letters and everything else unchanged.
#[verifier::external_body]
fn to_lower(s: &str) -> (r: String)
    ensures
        r@ == lower_of(s@),
        (forall|i: int| 0 <= i < s@.len() ==> (#[trigger] s@[i] as u32) < 128) ==> r@
            == s@.map_values(|c: char| ascii_lower(c)),
{
    s.to_lowercase()
}

/// Index of the first `x` in `s`.
pub open spec fn index_of_char(s: Seq<char>, x: char) -> Option<int>
    decreases s.len(),
{
    if s.len() == 0 {
        None
    } else if s[0] == x {
        Some(0)
    } else {
        match index_of_char(s.drop_first(), x) {
            Some(i) => Some(i + 1),
            None => None,
        }
    }
}

/// `index_of_char` finds the first occurrence of `x`, or reports that there is none.
pub proof fn lemma_index_of_char(s: Seq<char>, x: char)
    ensures
        index_of_char(s, x) matches Some(i) ==> 0 <= i < s.len() && s[i] == x && forall|k: int|
            0 <= k < i ==> #[trigger] s[k] != x,
        index_of_char(s, x) is None ==> forall|k: int| 0 <= k < s.len() ==> #[trigger] s[k] != x,
    decreases s.len(),
{
    if s.len() > 0 && s[0] != x {
        let d = s.drop_first();
        lemma_index_of_char(d, x);
        assert forall|k: int| 0 < k < s.len() implies s[k] == #[trigger] d[k - 1] by {}
        if let Some(i) = index_of_char(d, x) {
            assert forall|k: int| 0 <= k < i + 1 implies #[trigger] s[k] != x by {
                if k > 0 {
                    assert(s[k] == d[k - 1]);
                }
            }
        } else {
            assert forall|k: int| 0 <= k < s.len() implies #[trigger] s[k] != x by {
                if k > 0 {
                    assert(s[k] == d[k - 1]);
                }
            }
        }
    }
}

/// The pieces of `s` between the separators `sep` (`str::split`): always at
/// least one piece, possibly empty ones.
pub open spec fn split_on(s: Seq<char>, sep: char) -> Seq<Seq<char>>
    decreases s.len(),
{
    match index_of_char(s, sep) {
        None => seq![s],
        Some(i) => {
            proof {
                lemma_index_of_char(s, sep);
            }
            seq![s.subrange(0, i)] + split_on(s.subrange(i + 1, s.len() as int), sep)
        },
    }
}

/// The modifier flag a lowercased token names: Shift, Control or Alt.
pub open spec fn modifier_of(t: Seq<char>) -> Option<KeyModifiers> {
    if t == "ctrl"@ {
        Some(mods(false, true, false))
    } else if t == "alt"@ {
        Some(mods(false, false, true))
    } else if t == "shift"@ {
        Some(mods(true, false, false))
    } else {
        None
    }
}

/// The union of two modifier sets.
pub open spec fn union_mods(a: KeyModifiers, b: KeyModifiers) -> KeyModifiers {
    KeyModifiers {
        shift: a.shift || b.shift,
        control: a.control || b.control,
        alt: a.alt || b.alt,
        super_key: a.super_key || b.super_key,
        hyper: a.hyper || b.hyper,
        meta: a.meta || b.meta,
    }
}

/// `s` with its ASCII capitals lowered.
pub open spec fn ascii_lowered(s: Seq<char>) -> Seq<char> {
    s.map_values(|c: char| ascii_lower(c))
}

/// The keys that have a name of their own in key strings (rather than a
/// single character): arrows, Home/End, PageUp/PageDown, Enter, Esc, Tab,
/// Backspace, Delete and Insert.
pub open spec fn has_key_name(code: KeyCode) -> bool {
    ||| code is Left
    ||| code is Right
    ||| code is Up
    ||| code is Down
    ||| code is Home
    ||| code is End
    ||| code is PageUp
    ||| code is PageDown
    ||| code is Enter
    ||| code is Esc
    ||| code is Tab
    ||| code is Backspace
    ||| code is Delete
    ||| code is Insert
}

/// Every named key reads back as itself: the display name of the key (as
/// `/keys` shows it), lowered, is the token that names that key.
pub proof fn lemma_key_names_round_trip(code: KeyCode)
    requires
        has_key_name(code),
    ensures
        key_of(ascii_lowered(code_name_spec(code))) == Some(code),
{
    reveal_strlit("left");
    reveal_strlit("right");
    reveal_strlit("up");
    reveal_strlit("down");
    reveal_strlit("home");
    reveal_strlit("end");
    reveal_strlit("pageup");
    reveal_strlit("pagedown");
    reveal_strlit("enter");
    reveal_strlit("esc");
    reveal_strlit("tab");
    reveal_strlit("backspace");
    reveal_strlit("delete");
    reveal_strlit("insert");
    reveal_strlit("space");
    match code {
        KeyCode::Left => {
            reveal_strlit("Left");
            assert(code_name_spec(code) == "Left"@);
            assert(ascii_lowered(code_name_spec(code)) =~= "left"@);
        },
        KeyCode::Right => {
            reveal_strlit("Right");
            assert(code_name_spec(code) == "Right"@);
            assert(ascii_lowered(code_name_spec(code)) =~= "right"@);
        },
        KeyCode::Up => {
            reveal_strlit("Up");
            assert(code_name_spec(code) == "Up"@);
            assert(ascii_lowered(code_name_spec(code)) =~= "up"@);
        },
        KeyCode::Down => {
            reveal_strlit("Down");
            assert(code_name_spec(code) == "Down"@);
            assert(ascii_lowered(code_name_spec(code)) =~= "down"@);
            assert("down"@[0] != "left"@[0]);
        },
        KeyCode::Home => {
            reveal_strlit("Home");
            assert(code_name_spec(code) == "Home"@);
            assert(ascii_lowered(code_name_spec(code)) =~= "home"@);
            assert("home"@[0] != "left"@[0] && "home"@[0] != "down"@[0]);
        },
        KeyCode::End => {
            reveal_strlit("End");
            assert(code_name_spec(code) == "End"@);
            assert(ascii_lowered(code_name_spec(code)) =~= "end"@);
        },
        KeyCode::PageUp => {
            reveal_strlit("PageUp");
            assert(code_name_spec(code) == "PageUp"@);
            assert(ascii_lowered(code_name_spec(code)) =~= "pageup"@);
        },
        KeyCode::PageDown => {
            reveal_strlit("PageDown");
            assert(code_name_spec(code) == "PageDown"@);
            assert(ascii_lowered(code_name_spec(code)) =~= "pagedown"@);
        },
        KeyCode::Enter => {
            reveal_strlit("Enter");
            assert(code_name_spec(code) == "Enter"@);
            assert(ascii_lowered(code_name_spec(code)) =~= "enter"@);
            assert("enter"@[0] != "right"@[0]);
        },
        KeyCode::Esc => {
            reveal_strlit("Esc");
            assert(code_name_spec(code) == "Esc"@);
            assert(ascii_lowered(code_name_spec(code)) =~= "esc"@);
            assert("esc"@[1] != "end"@[1]);
        },
        KeyCode::Tab => {
            reveal_strlit("Tab");
            assert(code_name_spec(code) == "Tab"@);
            assert(ascii_lowered(code_name_spec(code)) =~= "tab"@);
            assert("tab"@[0] != "end"@[0] && "tab"@[0] != "esc"@[0]);
        },
        KeyCode::Backspace => {
            reveal_strlit("Backspace");
            assert(code_name_spec(code) == "Backspace"@);
            assert(ascii_lowered(code_name_spec(code)) =~= "backspace"@);
        },
        KeyCode::Delete => {
            reveal_strlit("Delete");
            assert(code_name_spec(code) == "Delete"@);
            assert(ascii_lowered(code_name_spec(code)) =~= "delete"@);
            assert("delete"@[0] != "pageup"@[0]);
        },
        KeyCode::Insert => {
            reveal_strlit("Insert");
            assert(code_name_spec(code) == "Insert"@);
            assert(ascii_lowered(code_name_spec(code)) =~= "insert"@);
            assert("insert"@[0] != "pageup"@[0] && "insert"@[0] != "delete"@[0]);
        },
        _ => {},
    }
}

/// `s` holds no `+`.
pub open spec fn plus_free(s: Seq<char>) -> bool {
    forall|i: int| 0 <= i < s.len() ==> #[trigger] s[i] != '+'
}

/// The pieces `ps`, each followed by a `+`.
pub open spec fn plus_joined(ps: Seq<Seq<char>>) -> Seq<char>
    decreases ps.len(),
{
    if ps.len() == 0 {
        seq![]
    } else {
        ps[0] + seq!['+'] + plus_joined(ps.drop_first())
    }
}

proof fn lemma_split_plus_joined(ps: Seq<Seq<char>>, last: Seq<char>)
    requires
        forall|i: int| 0 <= i < ps.len() ==> plus_free(#[trigger] ps[i]),
        plus_free(last),
    ensures
        split_on(plus_joined(ps) + last, '+') == ps.push(last),
    decreases ps.len(),
{
    let s = plus_joined(ps) + last;
    lemma_index_of_char(s, '+');
    if ps.len() == 0 {
        assert(s =~= last);
        if let Some(i) = index_of_char(s, '+') {
            assert(s[i] == last[i]);
        }
        assert(ps.push(last) =~= seq![last]);
    } else {
        let p = ps[0];
        let rest = ps.drop_first();
        assert forall|i: int| 0 <= i < rest.len() implies plus_free(#[trigger] rest[i]) by {
            assert(rest[i] == ps[i + 1]);
        }
        lemma_split_plus_joined(rest, last);
        let tail = plus_joined(rest) + last;
        assert(s =~= p + seq!['+'] + tail);
        assert(s[p.len() as int] == '+');
        assert forall|k: int| 0 <= k < p.len() implies #[trigger] s[k] != '+' by {
            assert(s[k] == p[k]);
        }
        match index_of_char(s, '+') {
            Some(i) => {
                if i < p.len() {
                    assert(s[i] == p[i]);
                }
                assert(i == p.len());
            },
            None => {
                assert(s[p.len() as int] != '+');
            },
        }
        assert(s.subrange(0, p.len() as int) =~= p);
        assert(s.subrange(p.len() as int + 1, s.len() as int) =~= tail);
        assert(ps.push(last) =~= seq![p] + rest.push(last));
    }
}

proof fn lemma_key_name_plus_free(code: KeyCode)
    requires
        has_key_name(code),
    ensures
        plus_free(ascii_lowered(code_name_spec(code))),
{
    match code {
        KeyCode::Left => {
            reveal_strlit("Left");
            assert(code_name_spec(code) == "Left"@);
        },
        KeyCode::Right => {
            reveal_strlit("Right");
            assert(code_name_spec(code) == "Right"@);
        },
        KeyCode::Up => {
            reveal_strlit("Up");
            assert(code_name_spec(code) == "Up"@);
        },
        KeyCode::Down => {
            reveal_strlit("Down");
            assert(code_name_spec(code) == "Down"@);
        },
        KeyCode::Home => {
            reveal_strlit("Home");
            assert(code_name_spec(code) == "Home"@);
        },
        KeyCode::End => {
            reveal_strlit("End");
            assert(code_name_spec(code) == "End"@);
        },
        KeyCode::PageUp => {
            reveal_strlit("PageUp");
            assert(code_name_spec(code) == "PageUp"@);
        },
        KeyCode::PageDown => {
            reveal_strlit("PageDown");
            assert(code_name_spec(code) == "PageDown"@);
        },
        KeyCode::Enter => {
            reveal_strlit("Enter");
            assert(code_name_spec(code) == "Enter"@);
        },
        KeyCode::Esc => {
            reveal_strlit("Esc");
            assert(code_name_spec(code) == "Esc"@);
        },
        KeyCode::Tab => {
            reveal_strlit("Tab");
            assert(code_name_spec(code) == "Tab"@);
        },
        KeyCode::Backspace => {
            reveal_strlit("Backspace");
            assert(code_name_spec(code) == "Backspace"@);
        },
        KeyCode::Delete => {
            reveal_strlit("Delete");
            assert(code_name_spec(code) == "Delete"@);
        },
        KeyCode::Insert => {
            reveal_strlit("Insert");
            assert(code_name_spec(code) == "Insert"@);
        },
        _ => {},
    }
}

/// The modifier tokens a chord's display starts with, in display order.
pub open spec fn modifier_tokens(m: KeyModifiers) -> Seq<Seq<char>> {
    (if m.control { seq!["ctrl"@] } else { seq![] }) + (if m.alt {
        seq!["alt"@]
    } else {
        seq![]
    }) + (if m.shift { seq!["shift"@] } else { seq![] })
}

/// A chord's display reads back as the chord: every chord on a named key
/// (with only the Shift, Control and Alt flags), shown as `/keys` shows it
/// (`Ctrl+Alt+Shift+End`, ...) and lowercased as key strings are, parses
/// to the same key and the same modifiers.
pub proof fn lemma_display_parses_back(c: KeyChord)
    requires
        has_key_name(c.code),
        c.mods == mask_spec(c.mods),
    ensures
        parse_lowered_spec(ascii_lowered(chord_display(c))) == Ok::<KeyChord, KeyParseReason>(c),
{
    reveal_strlit("Ctrl+");
    reveal_strlit("Alt+");
    reveal_strlit("Shift+");
    reveal_strlit("ctrl");
    reveal_strlit("alt");
    reveal_strlit("shift");
    let name = code_name_spec(c.code);
    let ln = ascii_lowered(name);
    lemma_key_names_round_trip(c.code);
    lemma_key_name_plus_free(c.code);
    let toks = modifier_tokens(c.mods);
    let pc: Seq<char> = if c.mods.control { "Ctrl+"@ } else { Seq::<char>::empty() };
    let pa: Seq<char> = if c.mods.alt { "Alt+"@ } else { Seq::<char>::empty() };
    let psh: Seq<char> = if c.mods.shift { "Shift+"@ } else { Seq::<char>::empty() };
    assert(chord_display(c) == pc + pa + psh + name);
    assert(ascii_lowered(chord_display(c)) =~= ascii_lowered(pc) + ascii_lowered(pa) + ascii_lowered(psh) + ln);
    // the lowered modifier prefix is the modifier tokens, each with its `+`
    let lc: Seq<char> = if c.mods.control { "ctrl"@ + seq!['+'] } else { Seq::<char>::empty() };
    let la: Seq<char> = if c.mods.alt { "alt"@ + seq!['+'] } else { Seq::<char>::empty() };
    let ls: Seq<char> = if c.mods.shift { "shift"@ + seq!['+'] } else { Seq::<char>::empty() };
    assert(ascii_lowered(pc) =~= lc);
    assert(ascii_lowered(pa) =~= la);
    assert(ascii_lowered(psh) =~= ls);
    reveal_with_fuel(plus_joined, 4);
    assert(plus_joined(toks) =~= lc + la + ls) by {
        if c.mods.control && c.mods.alt && c.mods.shift {
            assert(toks =~= seq!["ctrl"@, "alt"@, "shift"@]);
        } else if c.mods.control && c.mods.alt {
            assert(toks =~= seq!["ctrl"@, "alt"@]);
        } else if c.mods.control && c.mods.shift {
            assert(toks =~= seq!["ctrl"@, "shift"@]);
        } else if c.mods.alt && c.mods.shift {
            assert(toks =~= seq!["alt"@, "shift"@]);
        } else if c.mods.control {
            assert(toks =~= seq!["ctrl"@]);
        } else if c.mods.alt {
            assert(toks =~= seq!["alt"@]);
        } else if c.mods.shift {
            assert(toks =~= seq!["shift"@]);
        } else {
            assert(toks =~= Seq::<Seq<char>>::empty());
        }
    }
    assert forall|i: int| 0 <= i < toks.len() implies plus_free(#[trigger] toks[i]) by {}
    lemma_split_plus_joined(toks, ln);
    assert(ascii_lowered(chord_display(c)) =~= plus_joined(toks) + ln);
    let segs = split_on(ascii_lowered(chord_display(c)), '+');
    assert(segs.drop_last() =~= toks);
    assert(segs.last() == ln);
    reveal_with_fuel(mods_of, 4);
    assert(mods_of(toks) == Some(mods(c.mods.shift, c.mods.control, c.mods.alt))) by {
        if c.mods.control && c.mods.alt && c.mods.shift {
            assert(toks =~= seq!["ctrl"@, "alt"@, "shift"@]);
            assert(toks.drop_last() =~= seq!["ctrl"@, "alt"@]);
            assert(toks.drop_last().drop_last() =~= seq!["ctrl"@]);
            assert(toks.drop_last().drop_last().drop_last() =~= Seq::<Seq<char>>::empty());
        } else if c.mods.control && c.mods.alt {
            assert(toks =~= seq!["ctrl"@, "alt"@]);
            assert(toks.drop_last() =~= seq!["ctrl"@]);
            assert(toks.drop_last().drop_last() =~= Seq::<Seq<char>>::empty());
        } else if c.mods.control && c.mods.shift {
            assert(toks =~= seq!["ctrl"@, "shift"@]);
            assert(toks.drop_last() =~= seq!["ctrl"@]);
            assert(toks.drop_last().drop_last() =~= Seq::<Seq<char>>::empty());
        } else if c.mods.alt && c.mods.shift {
            assert(toks =~= seq!["alt"@, "shift"@]);
            assert(toks.drop_last() =~= seq!["alt"@]);
            assert(toks.drop_last().drop_last() =~= Seq::<Seq<char>>::empty());
        } else if c.mods.control {
            assert(toks =~= seq!["ctrl"@]);
            assert(toks.drop_last() =~= Seq::<Seq<char>>::empty());
        } else if c.mods.alt {
            assert(toks =~= seq!["alt"@]);
            assert(toks.drop_last() =~= Seq::<Seq<char>>::empty());
        } else if c.mods.shift {
            assert(toks =~= seq!["shift"@]);
            assert(toks.drop_last() =~= Seq::<Seq<char>>::empty());
        } else {
            assert(toks =~= Seq::<Seq<char>>::empty());
        }
    }
}

/// `c` is an ASCII letter or `+`.
pub open spec fn plain_char(c: char) -> bool {
    ('a' <= c <= 'z') || ('A' <= c <= 'Z') || c == '+'
}

/// Every char of `s` is an ASCII letter or `+`.
pub open spec fn all_plain(s: Seq<char>) -> bool
    decreases s.len(),
{
    s.len() == 0 || (plain_char(s[0]) && all_plain(s.drop_first()))
}

proof fn lemma_all_plain_index(s: Seq<char>)
    requires
        all_plain(s),
    ensures
        forall|i: int| 0 <= i < s.len() ==> plain_char(#[trigger] s[i]),
    decreases s.len(),
{
    if s.len() > 0 {
        let d = s.drop_first();
        lemma_all_plain_index(d);
        assert forall|i: int| 0 <= i < s.len() implies plain_char(#[trigger] s[i]) by {
            if i > 0 {
                assert(s[i] == d[i - 1]);
            }
        }
    }
}

proof fn lemma_key_name_plain(code: KeyCode)
    requires
        has_key_name(code),
    ensures
        code_name_spec(code).len() > 0,
        forall|i: int| 0 <= i < code_name_spec(code).len() ==> plain_char(#[trigger] code_name_spec(code)[i]),
{
    reveal_with_fuel(all_plain, 12);
    match code {
        KeyCode::Left => {
            reveal_strlit("Left");
            assert(code_name_spec(code) == "Left"@);
            assert(all_plain("Left"@));
        },
        KeyCode::Right => {
            reveal_strlit("Right");
            assert(code_name_spec(code) == "Right"@);
            assert(all_plain("Right"@));
        },
        KeyCode::Up => {
            reveal_strlit("Up");
            assert(code_name_spec(code) == "Up"@);
            assert(all_plain("Up"@));
        },
        KeyCode::Down => {
            reveal_strlit("Down");
            assert(code_name_spec(code) == "Down"@);
            assert(all_plain("Down"@));
        },
        KeyCode::Home => {
            reveal_strlit("Home");
            assert(code_name_spec(code) == "Home"@);
            assert(all_plain("Home"@));
        },
        KeyCode::End => {
            reveal_strlit("End");
            assert(code_name_spec(code) == "End"@);
            assert(all_plain("End"@));
        },
        KeyCode::PageUp => {
            reveal_strlit("PageUp");
            assert(code_name_spec(code) == "PageUp"@);
            assert(all_plain("PageUp"@));
        },
        KeyCode::PageDown => {
            reveal_strlit("PageDown");
            assert(code_name_spec(code) == "PageDown"@);
            assert(all_plain("PageDown"@));
        },
        KeyCode::Enter => {
            reveal_strlit("Enter");
            assert(code_name_spec(code) == "Enter"@);
            assert(all_plain("Enter"@));
        },
        KeyCode::Esc => {
            reveal_strlit("Esc");
            assert(code_name_spec(code) == "Esc"@);
            assert(all_plain("Esc"@));
        },
        KeyCode::Tab => {
            reveal_strlit("Tab");
            assert(code_name_spec(code) == "Tab"@);
            assert(all_plain("Tab"@));
        },
        KeyCode::Backspace => {
            reveal_strlit("Backspace");
            assert(code_name_spec(code) == "Backspace"@);
            assert(all_plain("Backspace"@));
        },
        KeyCode::Delete => {
            reveal_strlit("Delete");
            assert(code_name_spec(code) == "Delete"@);
            assert(all_plain("Delete"@));
        },
        KeyCode::Insert => {
            reveal_strlit("Insert");
            assert(code_name_spec(code) == "Insert"@);
            assert(all_plain("Insert"@));
        },
        _ => {},
    }
    lemma_all_plain_index(code_name_spec(code));
}

proof fn lemma_display_plain(c: KeyChord)
    requires
        has_key_name(c.code),
    ensures
        chord_display(c).len() > 0,
        forall|i: int| 0 <= i < chord_display(c).len() ==> plain_char(#[trigger] chord_display(c)[i]),
{
    reveal_strlit("Ctrl+");
    reveal_strlit("Alt+");
    reveal_strlit("Shift+");
    reveal_with_fuel(all_plain, 8);
    assert(all_plain("Ctrl+"@) && all_plain("Alt+"@) && all_plain("Shift+"@));
    lemma_all_plain_index("Ctrl+"@);
    lemma_all_plain_index("Alt+"@);
    lemma_all_plain_index("Shift+"@);
    lemma_key_name_plain(c.code);
    let pc: Seq<char> = if c.mods.control { "Ctrl+"@ } else { Seq::<char>::empty() };
    let pa: Seq<char> = if c.mods.alt { "Alt+"@ } else { Seq::<char>::empty() };
    let psh: Seq<char> = if c.mods.shift { "Shift+"@ } else { Seq::<char>::empty() };
    let name = code_name_spec(c.code);
    let d = chord_display(c);
    assert(d == pc + pa + psh + name);
    assert forall|i: int| 0 <= i < d.len() implies plain_char(#[trigger] d[i]) by {
        let k1 = pc.len() as int;
        let k2 = k1 + pa.len();
        let k3 = k2 + psh.len();
        if i < k1 {
            assert(d[i] == pc[i]);
        } else if i < k2 {
            assert(d[i] == pa[i - k1]);
        } else if i < k3 {
            assert(d[i] == psh[i - k2]);
        } else {
            assert(d[i] == name[i - k3]);
        }
    }
}

/// What a chord's display is as a key string: no surrounding or inner
/// whitespace (so it is one word), ASCII, and parsing it after lowercasing
/// gives the chord back.
proof fn lemma_display_shape(c: KeyChord)
    requires
        has_key_name(c.code),
        c.mods == mask_spec(c.mods),
    ensures
        ({
            let d = chord_display(c);
            &&& d.len() > 0
            &&& crate::text::trim(d) == d
            &&& words(d) == seq![d]
            &&& forall|i: int| 0 <= i < d.len() ==> (#[trigger] d[i] as u32) < 128
            &&& parse_lowered_spec(ascii_lowered(d)) == Ok::<KeyChord, KeyParseReason>(c)
        }),
{
    let d = chord_display(c);
    lemma_display_plain(c);
    lemma_display_parses_back(c);
    assert(!crate::text::is_space(d[0]));
    assert(!crate::text::is_space(d[d.len() - 1]));
    assert(crate::text::trim_start(d) == d);
    assert(crate::text::trim_end(d) == d);
    assert forall|m: int| 0 <= m < d.len() implies !crate::text::is_space(#[trigger] d[m]) by {
        assert(plain_char(d[m]));
    }
    lemma_leading_word(d, d.len() as int);
    assert(d.subrange(0, d.len() as int) =~= d);
    assert(d.subrange(d.len() as int, d.len() as int) =~= Seq::<char>::empty());
    assert(leading_word(d) == d);
    assert(words(Seq::<char>::empty()) =~= Seq::<Seq<char>>::empty());
    assert(words(d) == seq![d] + words(d.subrange(d.len() as int, d.len() as int)));
    assert(words(d) =~= seq![d]);
    assert forall|i: int| 0 <= i < d.len() implies (#[trigger] d[i] as u32) < 128 by {
        assert(plain_char(d[i]));
    }
}

/// The modifiers a run of modifier tokens names, or `None` if one is not a
/// modifier.
pub open spec fn mods_of(ts: Seq<Seq<char>>) -> Option<KeyModifiers>
    decreases ts.len(),
{
    if ts.len() == 0 {
        Some(mods(false, false, false))
    } else {
        match (mods_of(ts.drop_last()), modifier_of(ts.last())) {
            (Some(a), Some(b)) => Some(union_mods(a, b)),
            _ => None,
        }
    }
}

/// The key a lowercased token names: a fixed table of named keys, else the
/// token's one char.
pub open spec fn key_of(t: Seq<char>) -> Option<KeyCode> {
    if t == "left"@ {
        Some(KeyCode::Left)
    } else if t == "right"@ {
        Some(KeyCode::Right)
    } else if t == "up"@ {
        Some(KeyCode::Up)
    } else if t == "down"@ {
        Some(KeyCode::Down)
    } else if t == "home"@ {
        Some(KeyCode::Home)
    } else if t == "end"@ {
        Some(KeyCode::End)
    } else if t == "pageup"@ {
        Some(KeyCode::PageUp)
    } else if t == "pagedown"@ {
        Some(KeyCode::PageDown)
    } else if t == "enter"@ {
        Some(KeyCode::Enter)
    } else if t == "esc"@ {
        Some(KeyCode::Esc)
    } else if t == "tab"@ {
        Some(KeyCode::Tab)
    } else if t == "backspace"@ {
        Some(KeyCode::Backspace)
    } else if t == "delete"@ {
        Some(KeyCode::Delete)
    } else if t == "insert"@ {
        Some(KeyCode::Insert)
    } else if t == "space"@ {
        Some(KeyCode::Char(' '))
    } else if t.len() == 1 {
        Some(KeyCode::Char(t[0]))
    } else {
        None
    }
}

/// One `modifier+...+key` token parsed: lowercased, split on `+`, the last
/// piece the key and every earlier piece a modifier.
pub open spec fn parse_single_spec(token: Seq<char>) -> Result<KeyChord, KeyParseReason> {
    parse_lowered_spec(lower_of(token))
}

/// An already lowercased `modifier+...+key` token parsed: split on `+`, the
/// last piece the key and every earlier piece a modifier.
pub open spec fn parse_lowered_spec(l: Seq<char>) -> Result<KeyChord, KeyParseReason> {
    let segs = split_on(l, '+');
    match mods_of(segs.drop_last()) {
        None => Err(KeyParseReason::UnknownModifier),
        Some(m) => match key_of(segs.last()) {
            None => Err(KeyParseReason::UnknownKey),
            Some(code) => Ok(KeyChord { code, mods: mask_spec(m) }),
        },
    }
}

/// The leading run of non-whitespace chars of `t`.
pub open spec fn leading_word(t: Seq<char>) -> Seq<char>
    decreases t.len(),
{
    if t.len() == 0 || crate::text::is_space(t[0]) {
        seq![]
    } else {
        seq![t[0]] + leading_word(t.drop_first())
    }
}

/// The leading word runs up to the first whitespace character (or the end).
pub proof fn lemma_leading_word(t: Seq<char>, k: int)
    requires
        0 <= k <= t.len(),
        forall|m: int| 0 <= m < k ==> !crate::text::is_space(#[trigger] t[m]),
        k == t.len() || crate::text::is_space(t[k]),
    ensures
        leading_word(t) == t.subrange(0, k),
    decreases k,
{
    if k > 0 {
        let d = t.drop_first();
        assert forall|m: int| 0 <= m < k - 1 implies !crate::text::is_space(#[trigger] d[m]) by {
            assert(d[m] == t[m + 1]);
        }
        if k - 1 < d.len() {
            assert(d[k - 1] == t[k]);
        }
        lemma_leading_word(d, k - 1);
        assert(t.subrange(0, k) =~= seq![t[0]] + d.subrange(0, k - 1));
    } else {
        assert(t.subrange(0, 0) =~= Seq::<char>::empty());
    }
}

/// The whitespace-separated words of `t` (`str::split_whitespace`).
pub open spec fn words(t: Seq<char>) -> Seq<Seq<char>>
    decreases t.len(),
{
    if t.len() == 0 {
        seq![]
    } else if crate::text::is_space(t[0]) {
        words(t.drop_first())
    } else {
        let w = leading_word(t);
        proof {
            assert(w.len() >= 1) by {
                assert(w == seq![t[0]] + leading_word(t.drop_first()));
            }
            lemma_leading_word_len(t);
        }
        seq![w] + words(t.subrange(w.len() as int, t.len() as int))
    }
}

/// The leading word is no longer than the text.
pub proof fn lemma_leading_word_len(t: Seq<char>)
    ensures
        leading_word(t).len() <= t.len(),
    decreases t.len(),
{
    if t.len() > 0 && !crate::text::is_space(t[0]) {
        lemma_leading_word_len(t.drop_first());
    }
}

/// What [`KeySpec::parse`] makes of a key string: trimmed, split into
/// words; one word is a single chord, two must both be `Esc`.
pub open spec fn parse_spec(s: Seq<char>) -> Result<KeySpec, KeyParseReason> {
    let t = crate::text::trim(s);
    let ws = words(t);
    if t.len() == 0 {
        Err(KeyParseReason::Empty)
    } else if ws.len() == 1 {
        match parse_single_spec(ws[0]) {
            Ok(c) => Ok(KeySpec::Single(c)),
            Err(r) => Err(r),
        }
    } else if ws.len() == 2 {
        match (parse_single_spec(ws[0]), parse_single_spec(ws[1])) {
            (Err(r), _) => Err(r),
            (Ok(_), Err(r)) => Err(r),
            (Ok(a), Ok(b)) => if a == esc_chord() && b == esc_chord() {
                Ok(KeySpec::Chord(a, b))
            } else {
                Err(KeyParseReason::UnsupportedChord)
            },
        }
    } else {
        Err(KeyParseReason::UnsupportedChord)
    }
}

/// A bare `Esc`.
pub open spec fn esc_chord() -> KeyChord {
    KeyChord { code: KeyCode::Esc, mods: mods(false, false, false) }
}

/// Index, relative to `from`, of the first `x` in `s[from..]`.
fn find_char(s: &[char], from: usize, x: char) -> (r: Option<usize>)
    requires
        from <= s@.len(),
    ensures
        r matches Some(i) ==> index_of_char(s@.subrange(from as int, s@.len() as int), x) == Some(
            i as int,
        ) && from + i < s@.len(),
        r is None ==> index_of_char(s@.subrange(from as int, s@.len() as int), x) is None,
{
    let ghost t = s@.subrange(from as int, s@.len() as int);
    let mut i = from;
    while i < s.len()
        invariant
            from <= i <= s@.len(),
            t == s@.subrange(from as int, s@.len() as int),
            forall|k: int| from <= k < i ==> #[trigger] s@[k] != x,
        decreases s.len() - i,
    {
        if s[i] == x {
            proof {
                lemma_index_of_char(t, x);
                match index_of_char(t, x) {
                    Some(j) => {
                        assert(t[j] == s@[from + j]);
                        if j < i - from {
                            assert(s@[from + j] != x);
                        } else if j > i - from {
                            assert(t[i - from] == s@[i as int]);
                        }
                    },
                    None => {
                        assert(t[i - from] == s@[i as int]);
                    },
                }
            }
            return Some(i - from);
        }
        i = i + 1;
    }
    proof {
        lemma_index_of_char(t, x);
        if let Some(j) = index_of_char(t, x) {
            assert(t[j] == s@[from + j]);
        }
    }
    None
}

/// The views of a vector of char vectors.
pub open spec fn pieces_view(v: Seq<Vec<char>>) -> Seq<Seq<char>> {
    v.map_values(|p: Vec<char>| p@)
}

/// The pieces of `s` between `+` signs.
fn split_plus(s: &[char]) -> (pieces: Vec<Vec<char>>)
    ensures
        pieces_view(pieces@) == split_on(s@, '+'),
{
    split_lines_on(s, '+')
}

/// The pieces of `s` between the separators `sep` (`str::split`).
pub fn split_lines_on(s: &[char], sep: char) -> (pieces: Vec<Vec<char>>)
    ensures
        pieces_view(pieces@) == split_on(s@, sep),
{
    let mut pieces: Vec<Vec<char>> = Vec::new();
    let mut pos: usize = 0;
    let sl = s.len();
    proof {
        assert(s@.subrange(0, s@.len() as int) =~= s@);
        assert(pieces_view(pieces@) + split_on(s@, sep) =~= split_on(s@, sep));
    }
    loop
        invariant
            sl == s@.len(),
            pos <= s@.len(),
            split_on(s@, sep) == pieces_view(pieces@) + split_on(
                s@.subrange(pos as int, s@.len() as int),
                sep,
            ),
        decreases s@.len() - pos,
    {
        let ghost rest = s@.subrange(pos as int, s@.len() as int);
        match find_char(s, pos, sep) {
            None => {
                let last = crate::text::chars_vec_range(s, pos, s.len());
                let ghost before = pieces@;
                pieces.push(last);
                proof {
                    assert(split_on(rest, sep) == seq![rest]);
                    assert(pieces_view(pieces@) =~= pieces_view(before) + seq![rest]);
                }
                return pieces;
            },
            Some(i) => {
                let piece = crate::text::chars_vec_range(s, pos, pos + i);
                let ghost before = pieces@;
                pieces.push(piece);
                proof {
                    lemma_index_of_char(rest, sep);
                    assert(rest.subrange(0, i as int) =~= piece@);
                    assert(rest.subrange(i + 1, rest.len() as int) =~= s@.subrange(
                        pos + i + 1,
                        s@.len() as int,
                    ));
                    assert(pieces_view(pieces@) =~= pieces_view(before) + seq![piece@]);
                }
                pos = pos + i + 1;
            },
        }
    }
}

/// The modifier a lowercased token names.
fn modifier_named(t: &String) -> (r: Option<KeyModifiers>)
    ensures
        r == modifier_of(t@),
{
    if *t == crate::text::string_from_str("ctrl") {
        Some(KeyModifiers::control())
    } else if *t == crate::text::string_from_str("alt") {
        Some(KeyModifiers::alt())
    } else if *t == crate::text::string_from_str("shift") {
        Some(KeyModifiers::shift())
    } else {
        None
    }
}

/// The key a lowercased token names.
fn key_named(t: &String) -> (r: Option<KeyCode>)
    ensures
        r == key_of(t@),
{
    if *t == crate::text::string_from_str("left") {
        Some(KeyCode::Left)
    } else if *t == crate::text::string_from_str("right") {
        Some(KeyCode::Right)
    } else if *t == crate::text::string_from_str("up") {
        Some(KeyCode::Up)
    } else if *t == crate::text::string_from_str("down") {
        Some(KeyCode::Down)
    } else if *t == crate::text::string_from_str("home") {
        Some(KeyCode::Home)
    } else if *t == crate::text::string_from_str("end") {
        Some(KeyCode::End)
    } else if *t == crate::text::string_from_str("pageup") {
        Some(KeyCode::PageUp)
    } else if *t == crate::text::string_from_str("pagedown") {
        Some(KeyCode::PageDown)
    } else if *t == crate::text::string_from_str("enter") {
        Some(KeyCode::Enter)
    } else if *t == crate::text::string_from_str("esc") {
        Some(KeyCode::Esc)
    } else if *t == crate::text::string_from_str("tab") {
        Some(KeyCode::Tab)
    } else if *t == crate::text::string_from_str("backspace") {
        Some(KeyCode::Backspace)
    } else if *t == crate::text::string_from_str("delete") {
        Some(KeyCode::Delete)
    } else if *t == crate::text::string_from_str("insert") {
        Some(KeyCode::Insert)
    } else if *t == crate::text::string_from_str("space") {
        Some(KeyCode::Char(' '))
    } else if t.as_str().unicode_len() == 1 {
        Some(KeyCode::Char(t.as_str().get_char(0)))
    } else {
        None
    }
}

/// Parse one `modifier+...+key` token.
fn parse_single(token: &[char]) -> (r: Result<KeyChord, KeyParseReason>)
    ensures
        r == parse_single_spec(token@),
        (forall|i: int| 0 <= i < token@.len() ==> (#[trigger] token@[i] as u32) < 128) ==> r
            == parse_lowered_spec(ascii_lowered(token@)),
{
    let text = crate::text::string_of(token);
    let lower = to_lower(text.as_str());
    proof {
        if forall|i: int| 0 <= i < token@.len() ==> (#[trigger] token@[i] as u32) < 128 {
            assert(lower_of(token@) == ascii_lowered(token@));
        }
    }
    let lower_chars = chars_of(lower.as_str());
    let segs = split_plus(lower_chars.as_slice());
    let ghost sv = pieces_view(segs@);
    assert(sv == split_on(lower_of(token@), '+'));
    proof {
        lemma_split_nonempty(lower_of(token@), '+');
    }
    let n = segs.len();
    let mut m = KeyModifiers::none();
    let mut i: usize = 0;
    while i + 1 < n
        invariant
            n == segs@.len(),
            n >= 1,
            sv == pieces_view(segs@),
            sv == split_on(lower_of(token@), '+'),
            i + 1 <= n,
            mods_of(sv.subrange(0, i as int)) == Some(m),
            (forall|j: int| 0 <= j < token@.len() ==> (#[trigger] token@[j] as u32) < 128) ==> lower_of(token@)
                == ascii_lowered(token@),
        decreases n - i,
    {
        let seg = crate::text::string_of(segs[i].as_slice());
        assert(sv[i as int] == seg@);
        assert(sv.subrange(0, i + 1).drop_last() =~= sv.subrange(0, i as int));
        match modifier_named(&seg) {
            None => {
                proof {
                    assert(sv.subrange(0, i + 1).last() == sv[i as int]);
                    assert(mods_of(sv.subrange(0, i + 1)) is None);
                    assert(sv.drop_last().subrange(0, i + 1) =~= sv.subrange(0, i + 1));
                    lemma_mods_of_prefix_none(sv.drop_last(), i as int + 1);
                }
                return Err(KeyParseReason::UnknownModifier);
            },
            Some(b) => {
                m = KeyModifiers {
                    shift: m.shift || b.shift,
                    control: m.control || b.control,
                    alt: m.alt || b.alt,
                    super_key: m.super_key || b.super_key,
                    hyper: m.hyper || b.hyper,
                    meta: m.meta || b.meta,
                };
            },
        }
        i = i + 1;
    }
    assert(sv.subrange(0, i as int) =~= sv.drop_last());
    let key_seg = crate::text::string_of(segs[n - 1].as_slice());
    assert(sv[n - 1] == key_seg@);
    match key_named(&key_seg) {
        None => Err(KeyParseReason::UnknownKey),
        Some(code) => Ok(KeyChord::new(code, m)),
    }
}

/// Splitting always yields at least one piece.
pub proof fn lemma_split_nonempty(s: Seq<char>, sep: char)
    ensures
        split_on(s, sep).len() >= 1,
    decreases s.len(),
{
    if let Some(i) = index_of_char(s, sep) {
        lemma_index_of_char(s, sep);
        lemma_split_nonempty(s.subrange(i + 1, s.len() as int), sep);
    }
}

/// A run of tokens with a non-modifier among its first `k` has no modifiers.
proof fn lemma_mods_of_prefix_none(ts: Seq<Seq<char>>, k: int)
    requires
        0 < k <= ts.len(),
        mods_of(ts.subrange(0, k)) is None,
    ensures
        mods_of(ts) is None,
    decreases ts.len(),
{
    if ts.len() > k {
        assert(ts.drop_last().subrange(0, k) =~= ts.subrange(0, k));
        lemma_mods_of_prefix_none(ts.drop_last(), k);
    } else {
        assert(ts.subrange(0, k) =~= ts);
    }
}

/// The whitespace-separated words of `chars[from..to]`.
fn split_words(chars: &[char], from: usize, to: usize) -> (ws: Vec<Vec<char>>)
    requires
        from <= to <= chars@.len(),
    ensures
        pieces_view(ws@) == words(chars@.subrange(from as int, to as int)),
{
    let mut ws: Vec<Vec<char>> = Vec::new();
    let mut i = from;
    while i < to
        invariant
            from <= i <= to <= chars@.len(),
            words(chars@.subrange(from as int, to as int)) == pieces_view(ws@) + words(
                chars@.subrange(i as int, to as int),
            ),
        decreases to - i,
    {
        let ghost rest = chars@.subrange(i as int, to as int);
        if crate::text::char_is_whitespace(chars[i]) {
            assert(rest.drop_first() =~= chars@.subrange(i + 1, to as int));
            i = i + 1;
        } else {
            let mut j = i;
            while j < to && !crate::text::char_is_whitespace(chars[j])
                invariant
                    i <= j <= to <= chars@.len(),
                    forall|m: int| i <= m < j ==> !crate::text::is_space(#[trigger] chars@[m]),
                decreases to - j,
            {
                j = j + 1;
            }
            proof {
                assert forall|m: int| 0 <= m < j - i implies !crate::text::is_space(#[trigger] rest[m]) by {
                    assert(rest[m] == chars@[i + m]);
                }
                if j < to {
                    assert(rest[j - i] == chars@[j as int]);
                }
                lemma_leading_word(rest, j - i);
                assert(rest.subrange((j - i) as int, rest.len() as int) =~= chars@.subrange(
                    j as int,
                    to as int,
                ));
            }
            let w = crate::text::chars_vec_range(chars, i, j);
            let ghost before = ws@;
            ws.push(w);
            proof {
                assert(rest.subrange(0, j - i) =~= w@);
                assert(pieces_view(ws@) =~= pieces_view(before) + seq![w@]);
            }
            i = j;
        }
    }
    assert(chars@.subrange(to as int, to as int) =~= Seq::<char>::empty());
    assert(pieces_view(ws@) + Seq::<Seq<char>>::empty() =~= pieces_view(ws@));
    ws
}

impl KeySpec {
    /// Parse a human-written key string: case-insensitive, in any modifier
    /// order, with the short modifier names `ctrl`, `alt`, `shift`.
    pub fn parse(s: &str) -> (r: Result<KeySpec, KeyParseError>)
        ensures
            match parse_spec(s@) {
                Ok(k) => r == Ok::<KeySpec, KeyParseError>(k),
                Err(reason) => r matches Err(e) && e.reason == reason && e.input@ == s@,
            },
            forall|c: KeyChord|
                has_key_name(c.code) && c.mods == mask_spec(c.mods) && s@ == #[trigger] chord_display(c)
                    ==> r == Ok::<KeySpec, KeyParseError>(KeySpec::Single(c)),
    {
        let chars = chars_of(s);
        let n = chars.len();
        let start = crate::text::trim_start_len(chars.as_slice(), 0, n);
        let end = crate::text::trim_end_len(chars.as_slice(), start, n);
        proof {
            assert(chars@.subrange(0, n as int) =~= chars@);
            crate::text::lemma_trim_end_prefix(chars@.subrange(start as int, n as int));
            assert(crate::text::trim(s@) =~= chars@.subrange(start as int, end as int));
            assert forall|c: KeyChord|
                has_key_name(c.code) && c.mods == mask_spec(c.mods) && s@ == #[trigger] chord_display(c)
                implies crate::text::trim(s@) == s@ && s@.len() > 0 && words(s@) == seq![s@]
                && parse_lowered_spec(ascii_lowered(s@)) == Ok::<KeyChord, KeyParseReason>(c)
                && (forall|i: int| 0 <= i < s@.len() ==> (#[trigger] s@[i] as u32) < 128) by {
                lemma_display_shape(c);
            }
        }
        if start == end {
            return Err(KeyParseError { input: crate::text::string_from_str(s), reason: KeyParseReason::Empty });
        }
        let ws = split_words(chars.as_slice(), start, end);
        let ghost wv = pieces_view(ws@);
        if ws.len() == 1 {
            assert(wv[0] == ws@[0]@);
            let single = parse_single(ws[0].as_slice());
            proof {
                assert forall|c: KeyChord|
                    has_key_name(c.code) && c.mods == mask_spec(c.mods) && s@ == #[trigger] chord_display(c)
                    implies single == Ok::<KeyChord, KeyParseReason>(c) by {
                    assert(wv == seq![s@]);
                    assert(ws@[0]@ == s@);
                }
            }
            match single {
                Ok(c) => Ok(KeySpec::Single(c)),
                Err(reason) => Err(KeyParseError { input: crate::text::string_from_str(s), reason }),
            }
        } else if ws.len() == 2 {
            assert(wv[0] == ws@[0]@ && wv[1] == ws@[1]@);
            let first = match parse_single(ws[0].as_slice()) {
                Ok(c) => c,
                Err(reason) => {
                    return Err(KeyParseError { input: crate::text::string_from_str(s), reason });
                },
            };
            let second = match parse_single(ws[1].as_slice()) {
                Ok(c) => c,
                Err(reason) => {
                    return Err(KeyParseError { input: crate::text::string_from_str(s), reason });
                },
            };
            let esc = KeyChord::new(KeyCode::Esc, KeyModifiers::none());
            if first == esc && second == esc {
                Ok(KeySpec::Chord(first, second))
            } else {
                Err(KeyParseError {
                    input: crate::text::string_from_str(s),
                    reason: KeyParseReason::UnsupportedChord,
                })
            }
        } else {
            Err(KeyParseError {
                input: crate::text::string_from_str(s),
                reason: KeyParseReason::UnsupportedChord,
            })
        }
    }

    /// The rendering of this spec: the chord's display, or both chords'
    /// separated by a space.
    pub open spec fn display_spec(self) -> Seq<char> {
        match self {
            KeySpec::Single(c) => chord_display(c),
            KeySpec::Chord(a, b) => chord_display(a) + seq![' '] + chord_display(b),
        }
    }

    /// The canonical rendering of this spec.
    pub fn display(self) -> (s: String)
        ensures
            s@ == self.display_spec(),
    {
        match self {
            KeySpec::Single(c) => c.display(),
            KeySpec::Chord(a, b) => {
                let mut s = a.display();
                string_push(&mut s, ' ');
                let t = b.display();
                s.append(t.as_str());
                s
            },
        }
    }
}

/// An action's primary and optional alternate key. A binding with neither is
/// cleared (the action is disabled).
#[derive(Debug, Clone, Copy, PartialEq, Eq, Structural)]
pub struct Binding {
    pub primary: Option<KeySpec>,
    pub alternate: Option<KeySpec>,
}

impl Default for Binding {
    fn default() -> (b: Self)
        ensures
            b == (Binding { primary: None, alternate: None }),
    {
        Binding { primary: None, alternate: None }
    }
}

/// The binding `specs` describe: none cleared, one a primary, two or more a
/// primary and an alternate (the rest ignored).
pub open spec fn binding_of(specs: Seq<KeySpec>) -> Binding {
    if specs.len() == 0 {
        Binding { primary: None, alternate: None }
    } else if specs.len() == 1 {
        Binding { primary: Some(specs[0]), alternate: None }
    } else {
        Binding { primary: Some(specs[0]), alternate: Some(specs[1]) }
    }
}

impl Binding {
    /// A primary-only binding.
    pub fn single(spec: KeySpec) -> (b: Self)
        ensures
            b == (Binding { primary: Some(spec), alternate: None }),
    {
        Binding { primary: Some(spec), alternate: None }
    }

    /// A primary and alternate binding.
    pub fn pair(primary: KeySpec, alternate: KeySpec) -> (b: Self)
        ensures
            b == (Binding { primary: Some(primary), alternate: Some(alternate) }),
    {
        Binding { primary: Some(primary), alternate: Some(alternate) }
    }

    /// A cleared (disabled) binding.
    pub fn cleared() -> (b: Self)
        ensures
            b == (Binding { primary: None, alternate: None }),
    {
        Binding { primary: None, alternate: None }
    }

    /// The binding a list of parsed keys describes; past two keys, the first
    /// two are kept.
    pub fn from_specs(specs: &[KeySpec]) -> (b: Self)
        ensures
            b == binding_of(specs@),
    {
        if specs.len() == 0 {
            Self::cleared()
        } else if specs.len() == 1 {
            Self::single(specs[0])
        } else {
            Self::pair(specs[0], specs[1])
        }
    }
}

/// The single-chord spec for `code` with modifiers `m`.
pub open spec fn chord_spec(code: KeyCode, m: KeyModifiers) -> KeySpec {
    KeySpec::Single(KeyChord { code, mods: mask_spec(m) })
}

/// The zero-config key map: every default binding as a primary key, then
/// newline insertion on Shift+Enter (alternate Alt+Enter), the copy variants
/// on Ctrl+Y and Alt+Y, the Mult/LAAT toggle on Ctrl+1 and the input push on
/// Ctrl+Alt+Enter.
pub open spec fn default_keymap() -> Seq<(Action, Binding)> {
    default_bindings().map_values(
        |b: (KeyCode, KeyModifiers, Action)|
            (b.2, Binding { primary: Some(chord_spec(b.0, b.1)), alternate: None }),
    ) + seq![
        (
            Action::InsertNewline,
            Binding {
                primary: Some(chord_spec(KeyCode::Enter, mods(true, false, false))),
                alternate: Some(chord_spec(KeyCode::Enter, mods(false, false, true))),
            },
        ),
        (
            Action::CopyCurrentLine,
            Binding { primary: Some(chord_spec(KeyCode::Char('y'), mods(false, true, false))), alternate: None },
        ),
        (
            Action::CopyBlockWithoutCommand,
            Binding { primary: Some(chord_spec(KeyCode::Char('y'), mods(false, false, true))), alternate: None },
        ),
        (
            Action::ToggleMultLaat,
            Binding { primary: Some(chord_spec(KeyCode::Char('1'), mods(false, true, false))), alternate: None },
        ),
        (
            Action::PushInput,
            Binding { primary: Some(chord_spec(KeyCode::Enter, mods(false, true, true))), alternate: None },
        ),
    ]
}

/// `b` binds `k`, as its primary or its alternate.
pub open spec fn binds(b: Binding, k: KeySpec) -> bool {
    b.primary == Some(k) || b.alternate == Some(k)
}

/// The action the last binding of `k` in `bs` belongs to.
pub open spec fn resolve_in(bs: Seq<(Action, Binding)>, k: KeySpec) -> Option<Action>
    decreases bs.len(),
{
    if bs.len() == 0 {
        None
    } else if binds(bs.last().1, k) {
        Some(bs.last().0)
    } else {
        resolve_in(bs.drop_last(), k)
    }
}

/// `bs` without the entries for actions that `overrides` rebind.
pub open spec fn without_overridden(bs: Seq<(Action, Binding)>, overrides: Seq<(Action, Binding)>) -> Seq<(Action, Binding)>
    decreases bs.len(),
{
    if bs.len() == 0 {
        seq![]
    } else {
        let rest = without_overridden(bs.drop_last(), overrides);
        if exists|j: int| 0 <= j < overrides.len() && #[trigger] overrides[j].0 == bs.last().0 {
            rest
        } else {
            rest.push(bs.last())
        }
    }
}

/// The `/keys` rows of a binding list: each action's primary (and alternate
/// when present), or `(unbound)` when it has no primary.
pub open spec fn keymap_rows(bs: Seq<(Action, Binding)>) -> Seq<(Seq<char>, Seq<char>)>
    decreases bs.len(),
{
    if bs.len() == 0 {
        seq![]
    } else {
        let (a, b) = bs.last();
        keymap_rows(bs.drop_last()) + match b.primary {
            Some(p) => match b.alternate {
                Some(q) => seq![(a.name_spec(), p.display_spec()), (a.name_spec(), q.display_spec())],
                None => seq![(a.name_spec(), p.display_spec())],
            },
            None => seq![(a.name_spec(), "(unbound)"@)],
        }
    }
}

/// The keys of a binding list in order, each with its action.
pub open spec fn keyed(bs: Seq<(Action, Binding)>) -> Seq<(KeySpec, Action)>
    decreases bs.len(),
{
    if bs.len() == 0 {
        seq![]
    } else {
        let (a, b) = bs.last();
        keyed(bs.drop_last()) + (match b.primary {
            Some(p) => seq![(p, a)],
            None => seq![],
        }) + (match b.alternate {
            Some(q) => seq![(q, a)],
            None => seq![],
        })
    }
}

/// Index of the first entry for key `k` in `es`.
pub open spec fn first_keyed(es: Seq<(KeySpec, Action)>, k: KeySpec) -> Option<int>
    decreases es.len(),
{
    if es.len() == 0 {
        None
    } else {
        match first_keyed(es.drop_last(), k) {
            Some(i) => Some(i),
            None => if es.last().0 == k {
                Some(es.len() - 1)
            } else {
                None
            },
        }
    }
}

/// The same-key conflicts in `es`: each entry whose key an earlier entry of
/// a different action already holds, as `(key, earlier action, action)`.
pub open spec fn conflicts_in(es: Seq<(KeySpec, Action)>) -> Seq<(KeySpec, Action, Action)>
    decreases es.len(),
{
    if es.len() == 0 {
        seq![]
    } else {
        let e = es.last();
        let rest = conflicts_in(es.drop_last());
        match first_keyed(es.drop_last(), e.0) {
            Some(k) => if es.drop_last()[k].1 != e.1 {
                rest.push((e.0, es.drop_last()[k].1, e.1))
            } else {
                rest
            },
            None => rest,
        }
    }
}

/// The bindings in effect for one mode, in declaration order: defaults
/// first, then overrides, so that on a same-key conflict the last-declared
/// binding wins.
#[derive(Debug, Clone, PartialEq, Eq)]
pub struct Keymap {
    bindings: Vec<(Action, Binding)>,
}

impl Keymap {
    /// The `(action, binding)` entries, in declaration order.
    pub closed spec fn entries(&self) -> Seq<(Action, Binding)> {
        self.bindings@
    }

    /// The zero-config map.
    pub fn default_map() -> (k: Keymap)
        ensures
            k.entries() == default_keymap(),
    {
        let table = binding_table();
        let mut bindings: Vec<(Action, Binding)> = Vec::new();
        let mut i: usize = 0;
        while i < table.len()
            invariant
                i <= table@.len(),
                table@ == default_bindings(),
                bindings@ == default_bindings().subrange(0, i as int).map_values(
                    |b: (KeyCode, KeyModifiers, Action)|
                        (b.2, Binding { primary: Some(chord_spec(b.0, b.1)), alternate: None }),
                ),
            decreases table.len() - i,
        {
            let (code, m, action) = table[i];
            bindings.push((action, Binding::single(KeySpec::Single(KeyChord::new(code, m)))));
            proof {
                assert(default_bindings().subrange(0, i + 1) =~= default_bindings().subrange(0, i as int).push(table@[i as int]));
                assert(bindings@ =~= default_bindings().subrange(0, i + 1).map_values(
                    |b: (KeyCode, KeyModifiers, Action)|
                        (b.2, Binding { primary: Some(chord_spec(b.0, b.1)), alternate: None }),
                ));
            }
            i = i + 1;
        }
        proof {
            assert(default_bindings().subrange(0, default_bindings().len() as int) =~= default_bindings());
        }
        bindings.push((
            Action::InsertNewline,
            Binding::pair(
                KeySpec::Single(KeyChord::new(KeyCode::Enter, KeyModifiers::shift())),
                KeySpec::Single(KeyChord::new(KeyCode::Enter, KeyModifiers::alt())),
            ),
        ));
        bindings.push((
            Action::CopyCurrentLine,
            Binding::single(KeySpec::Single(KeyChord::new(KeyCode::Char('y'), KeyModifiers::control()))),
        ));
        bindings.push((
            Action::CopyBlockWithoutCommand,
            Binding::single(KeySpec::Single(KeyChord::new(KeyCode::Char('y'), KeyModifiers::alt()))),
        ));
        bindings.push((
            Action::ToggleMultLaat,
            Binding::single(KeySpec::Single(KeyChord::new(KeyCode::Char('1'), KeyModifiers::control()))),
        ));
        bindings.push((
            Action::PushInput,
            Binding::single(KeySpec::Single(KeyChord::new(KeyCode::Enter, KeyModifiers::control_alt()))),
        ));
        assert(bindings@ =~= default_keymap());
        Keymap { bindings }
    }

    /// Overlay overrides onto `base`: bind, rebind or unbind. Overridden
    /// actions are declared again, last, so a user binding wins a same-key
    /// conflict over a default.
    pub fn with_overrides(base: &Keymap, overrides: &[(Action, Binding)]) -> (k: Keymap)
        ensures
            k.entries() == without_overridden(base.entries(), overrides@) + overrides@,
    {
        let mut bindings: Vec<(Action, Binding)> = Vec::new();
        let mut i: usize = 0;
        while i < base.bindings.len()
            invariant
                i <= base.bindings@.len(),
                bindings@ == without_overridden(base.bindings@.subrange(0, i as int), overrides@),
            decreases base.bindings.len() - i,
        {
            let (a, b) = base.bindings[i];
            let ghost sub = base.bindings@.subrange(0, i + 1);
            assert(sub.drop_last() =~= base.bindings@.subrange(0, i as int));
            assert(sub.last() == (a, b));
            let mut overridden = false;
            let mut j: usize = 0;
            while j < overrides.len()
                invariant
                    j <= overrides@.len(),
                    overridden == exists|m: int| 0 <= m < j && #[trigger] overrides@[m].0 == a,
                decreases overrides.len() - j,
            {
                if overrides[j].0 == a {
                    overridden = true;
                }
                j = j + 1;
            }
            if !overridden {
                bindings.push((a, b));
            }
            i = i + 1;
        }
        assert(base.bindings@.subrange(0, base.bindings@.len() as int) =~= base.bindings@);
        let mut j: usize = 0;
        let ghost kept = bindings@;
        while j < overrides.len()
            invariant
                j <= overrides@.len(),
                bindings@ == kept + overrides@.subrange(0, j as int),
            decreases overrides.len() - j,
        {
            bindings.push(overrides[j]);
            j = j + 1;
            assert(bindings@ =~= kept + overrides@.subrange(0, j as int));
        }
        assert(overrides@.subrange(0, overrides@.len() as int) =~= overrides@);
        Keymap { bindings }
    }

    /// Resolve a key to its bound action, or `None` when unbound. Both an
    /// action's primary and alternate resolve to it; on a same-key conflict
    /// the last-declared binding wins.
    pub fn resolve(&self, spec: KeySpec) -> (r: Option<Action>)
        ensures
            r == resolve_in(self.entries(), spec),
    {
        let mut found: Option<Action> = None;
        let mut i: usize = 0;
        while i < self.bindings.len()
            invariant
                i <= self.bindings@.len(),
                found == resolve_in(self.bindings@.subrange(0, i as int), spec),
            decreases self.bindings.len() - i,
        {
            let (a, b) = self.bindings[i];
            let ghost sub = self.bindings@.subrange(0, i + 1);
            assert(sub.drop_last() =~= self.bindings@.subrange(0, i as int));
            if b.primary == Some(spec) || b.alternate == Some(spec) {
                found = Some(a);
            }
            i = i + 1;
        }
        assert(self.bindings@.subrange(0, self.bindings@.len() as int) =~= self.bindings@);
        found
    }

    /// `(action name, key display)` rows for `/keys`: every action's primary
    /// (and alternate when present), unbound actions marked, then the
    /// `Esc Esc` gesture row for `clear_status_message`.
    pub fn listing(&self) -> (out: Vec<(String, String)>)
        ensures
            rows_view(out@) == keymap_rows(self.entries()).push(
                (Action::ClearStatusMessage.name_spec(), "Esc Esc"@),
            ),
    {
        let mut out: Vec<(String, String)> = Vec::new();
        let mut i: usize = 0;
        while i < self.bindings.len()
            invariant
                i <= self.bindings@.len(),
                rows_view(out@) == keymap_rows(self.bindings@.subrange(0, i as int)),
            decreases self.bindings.len() - i,
        {
            let (a, b) = self.bindings[i];
            let ghost sub = self.bindings@.subrange(0, i + 1);
            assert(sub.drop_last() =~= self.bindings@.subrange(0, i as int));
            let ghost before = out@;
            match b.primary {
                Some(p) => {
                    out.push((crate::text::string_from_str(a.name()), p.display()));
                    if let Some(q) = b.alternate {
                        out.push((crate::text::string_from_str(a.name()), q.display()));
                    }
                },
                None => {
                    out.push((crate::text::string_from_str(a.name()), crate::text::string_from_str("(unbound)")));
                },
            }
            assert(rows_view(out@) =~= keymap_rows(sub));
            i = i + 1;
        }
        assert(self.bindings@.subrange(0, self.bindings@.len() as int) =~= self.bindings@);
        let ghost before = out@;
        out.push((crate::text::string_from_str(Action::ClearStatusMessage.name()), crate::text::string_from_str("Esc Esc")));
        assert(rows_view(out@) =~= rows_view(before).push((Action::ClearStatusMessage.name_spec(), "Esc Esc"@)));
        out
    }

    /// Every same-key collision between two distinct actions, as `(key,
    /// earlier action, later action)`; resolution keeps the later one. An
    /// action whose own primary and alternate coincide is no conflict.
    pub fn conflicts(&self) -> (out: Vec<(KeySpec, Action, Action)>)
        ensures
            out@ == conflicts_in(keyed(self.entries())),
    {
        let mut seen: Vec<(KeySpec, Action)> = Vec::new();
        let mut out: Vec<(KeySpec, Action, Action)> = Vec::new();
        let mut i: usize = 0;
        while i < self.bindings.len()
            invariant
                i <= self.bindings@.len(),
                seen@ == keyed(self.bindings@.subrange(0, i as int)),
                out@ == conflicts_in(seen@),
            decreases self.bindings.len() - i,
        {
            let (a, b) = self.bindings[i];
            let ghost sub = self.bindings@.subrange(0, i + 1);
            assert(sub.drop_last() =~= self.bindings@.subrange(0, i as int));
            if let Some(p) = b.primary {
                note_key(&mut seen, &mut out, p, a);
            }
            if let Some(q) = b.alternate {
                note_key(&mut seen, &mut out, q, a);
            }
            assert(seen@ =~= keyed(sub));
            i = i + 1;
        }
        assert(self.bindings@.subrange(0, self.bindings@.len() as int) =~= self.bindings@);
        out
    }
}

/// Record key `k` of action `a` after the keys in `seen`, noting a conflict
/// when the first earlier holder of `k` is another action.
fn note_key(seen: &mut Vec<(KeySpec, Action)>, out: &mut Vec<(KeySpec, Action, Action)>, k: KeySpec, a: Action)
    requires
        old(out)@ == conflicts_in(old(seen)@),
    ensures
        final(seen)@ == old(seen)@.push((k, a)),
        final(out)@ == conflicts_in(final(seen)@),
{
    let ghost s0 = seen@;
    let mut j: usize = 0;
    let mut first: Option<usize> = None;
    while j < seen.len()
        invariant
            j <= seen@.len(),
            seen@ == s0,
            first == match first_keyed(s0.subrange(0, j as int), k) {
                Some(i) => Some(i as usize),
                None => None::<usize>,
            },
            first matches Some(i) ==> i < j,
        decreases seen.len() - j,
    {
        let ghost sub = s0.subrange(0, j + 1);
        assert(sub.drop_last() =~= s0.subrange(0, j as int));
        if first.is_none() && seen[j].0 == k {
            first = Some(j);
        }
        proof {
            lemma_first_keyed_bound(s0.subrange(0, j as int), k);
        }
        j = j + 1;
    }
    assert(s0.subrange(0, s0.len() as int) =~= s0);
    proof {
        lemma_first_keyed_bound(s0, k);
    }
    seen.push((k, a));
    assert(seen@.drop_last() =~= s0);
    if let Some(i) = first {
        if seen[i].1 != a {
            out.push((k, seen[i].1, a));
        }
    }
}

proof fn lemma_first_keyed_bound(es: Seq<(KeySpec, Action)>, k: KeySpec)
    ensures
        first_keyed(es, k) matches Some(i) ==> 0 <= i < es.len(),
    decreases es.len(),
{
    if es.len() > 0 {
        lemma_first_keyed_bound(es.drop_last(), k);
    }
}

/// The default mode's name (matches the status bar's `norm` label).
pub const DEFAULT_MODE: &'static str = "norm";

/// The full multi-mode keymap: a default map and per-mode overlays.
#[derive(Debug, Clone, PartialEq, Eq)]
pub struct Keymaps {
    default: Keymap,
    modes: Vec<(String, Keymap)>,
}

/// Index of the first mode named `name` in `ms`.
pub open spec fn mode_index(ms: Seq<(String, Keymap)>, name: Seq<char>) -> Option<int>
    decreases ms.len(),
{
    if ms.len() == 0 {
        None
    } else {
        match mode_index(ms.drop_last(), name) {
            Some(i) => Some(i),
            None => if ms.last().0@ == name {
                Some(ms.len() - 1)
            } else {
                None
            },
        }
    }
}

/// No two per-mode maps share a name.
pub open spec fn mode_names_distinct(ms: Seq<(String, Keymap)>) -> bool {
    forall|i: int, j: int| 0 <= i < j < ms.len() ==> #[trigger] ms[i].0@ != #[trigger] ms[j].0@
}

impl Keymaps {
    /// Each mode has at most one map.
    pub open spec fn wf(&self) -> bool {
        mode_names_distinct(self.modes_spec())
    }

    /// The default map.
    pub closed spec fn default_spec(&self) -> Keymap {
        self.default
    }

    /// The per-mode maps, by name.
    pub closed spec fn modes_spec(&self) -> Seq<(String, Keymap)> {
        self.modes@
    }

    /// Construct from a default map and its per-mode overlays, one per mode
    /// name.
    pub fn new(default: Keymap, modes: Vec<(String, Keymap)>) -> (k: Self)
        requires
            mode_names_distinct(modes@),
        ensures
            k.wf(),
            k.default_spec() == default,
            k.modes_spec() == modes@,
    {
        Keymaps { default, modes }
    }

    /// The keymap for `mode`, or the default map when there is none for it.
    pub fn for_mode(&self, mode: &str) -> (k: &Keymap)
        ensures
            match mode_index(self.modes_spec(), mode@) {
                Some(i) => *k == self.modes_spec()[i].1,
                None => *k == self.default_spec(),
            },
    {
        let target = crate::text::string_from_str(mode);
        let mut i: usize = 0;
        while i < self.modes.len()
            invariant
                i <= self.modes@.len(),
                target@ == mode@,
                mode_index(self.modes@.subrange(0, i as int), mode@) is None,
            decreases self.modes.len() - i,
        {
            let ghost sub = self.modes@.subrange(0, i + 1);
            assert(sub.drop_last() =~= self.modes@.subrange(0, i as int));
            if self.modes[i].0 == target {
                proof {
                    lemma_mode_index_extend(self.modes@, i as int, mode@);
                }
                return &self.modes[i].1;
            }
            i = i + 1;
        }
        assert(self.modes@.subrange(0, self.modes@.len() as int) =~= self.modes@);
        &self.default
    }

    /// The default-mode keymap.
    pub fn default(&self) -> (k: &Keymap)
        ensures
            *k == self.default_spec(),
    {
        &self.default
    }
}

proof fn lemma_mode_index_extend(ms: Seq<(String, Keymap)>, i: int, name: Seq<char>)
    requires
        0 <= i < ms.len(),
        mode_index(ms.subrange(0, i), name) is None,
        ms[i].0@ == name,
    ensures
        mode_index(ms, name) == Some(i),
    decreases ms.len(),
{
    if ms.len() > i + 1 {
        assert(ms.drop_last().subrange(0, i) =~= ms.subrange(0, i));
        lemma_mode_index_extend(ms.drop_last(), i, name);
    } else {
        assert(ms.drop_last() =~= ms.subrange(0, i));
    }
}

} // verus!


verus! {

/// Resolving in a concatenation looks in the later part first.
pub proof fn lemma_resolve_concat(a: Seq<(Action, Binding)>, b: Seq<(Action, Binding)>, k: KeySpec)
    ensures
        resolve_in(a + b, k) == match resolve_in(b, k) {
            Some(x) => Some(x),
            None => resolve_in(a, k),
        },
    decreases b.len(),
{
    if b.len() == 0 {
        assert(a + b =~= a);
    } else {
        assert((a + b).drop_last() =~= a + b.drop_last());
        assert((a + b).last() == b.last());
        lemma_resolve_concat(a, b.drop_last(), k);
    }
}

/// A user binding wins: a key that some override binds resolves, after the
/// overlay, to the action of the last override binding it, whatever the
/// base map binds it to.
pub proof fn lemma_override_wins(base: Seq<(Action, Binding)>, overrides: Seq<(Action, Binding)>, k: KeySpec)
    requires
        resolve_in(overrides, k) is Some,
    ensures
        resolve_in(without_overridden(base, overrides) + overrides, k) == resolve_in(overrides, k),
{
    lemma_resolve_concat(without_overridden(base, overrides), overrides, k);
}

/// A key no override binds resolves, after the overlay, as it did in the
/// base map among the actions the overrides leave alone.
pub proof fn lemma_untouched_keys_keep_resolving(base: Seq<(Action, Binding)>, overrides: Seq<(Action, Binding)>, k: KeySpec)
    requires
        resolve_in(overrides, k) is None,
    ensures
        resolve_in(without_overridden(base, overrides) + overrides, k) == resolve_in(
            without_overridden(base, overrides),
            k,
        ),
{
    lemma_resolve_concat(without_overridden(base, overrides), overrides, k);
}

} // verus!

verus! {

/// A key press: its key and modifier flags.
#[derive(Debug, Clone, Copy, PartialEq, Eq, Structural)]
pub struct KeyEvent {
    pub code: KeyCode,
    pub modifiers: KeyModifiers,
}

impl KeyEvent {
    /// A key press of `code` with `modifiers`.
    pub fn new(code: KeyCode, modifiers: KeyModifiers) -> (e: Self)
        ensures
            e == (KeyEvent { code, modifiers }),
    {
        KeyEvent { code, modifiers }
    }
}

/// A mouse button.
#[derive(Debug, Clone, Copy, PartialEq, Eq, Structural)]
pub enum MouseButton {
    Left,
    Right,
    Middle,
}

/// What a mouse event reports.
#[derive(Debug, Clone, Copy, PartialEq, Eq, Structural)]
pub enum MouseEventKind {
    Down(MouseButton),
    Up(MouseButton),
    Drag(MouseButton),
    Moved,
    ScrollDown,
    ScrollUp,
    ScrollLeft,
    ScrollRight,
}

/// A mouse event at a zero-based cell.
#[derive(Debug, Clone, Copy, PartialEq, Eq, Structural)]
pub struct MouseEvent {
    pub kind: MouseEventKind,
    pub column: u16,
    pub row: u16,
    pub modifiers: KeyModifiers,
}

} // verus!
