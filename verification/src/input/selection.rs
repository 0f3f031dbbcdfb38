//! Input-pad selection: a character-anchored range within the input buffer,
//! the exclusive owner of *the* selection across the two pads, and the
//! meaning of an `Esc` press.

use vstd::prelude::*;
use crate::selection::coords::Cell;

verus! {

/// A character-anchored selection within the input buffer. `anchor` is the
/// fixed end; `caret` is the moving end and mirrors the pad's cursor.
#[derive(Debug, Clone, Copy, PartialEq, Eq, Structural)]
pub struct InputSelection {
    pub anchor: usize,
    pub caret: usize,
}

/// `(min, max)` of the two ends.
pub open spec fn sel_range(s: InputSelection) -> (usize, usize) {
    if s.anchor <= s.caret {
        (s.anchor, s.caret)
    } else {
        (s.caret, s.anchor)
    }
}

impl InputSelection {
    /// A zero-width selection anchored at `at`.
    pub fn new(at: usize) -> (s: Self)
        ensures
            s.anchor == at && s.caret == at,
    {
        InputSelection { anchor: at, caret: at }
    }

    /// The normalized `(min, max)` char range.
    pub fn range(&self) -> (r: (usize, usize))
        ensures
            r == sel_range(*self),
            r.0 <= r.1,
    {
        if self.anchor <= self.caret {
            (self.anchor, self.caret)
        } else {
            (self.caret, self.anchor)
        }
    }

    /// Whether the selection covers no characters.
    pub fn is_empty(&self) -> (b: bool)
        ensures
            b == (self.anchor == self.caret),
    {
        self.anchor == self.caret
    }
}

/// Which pad, if any, owns the selection. At most one pad holds a selection
/// at a time, by construction.
#[derive(Debug, Clone, Copy, PartialEq, Eq)]
pub enum ActiveSelection {
    /// Neither pad has a selection.
    Neither,
    /// The input pad owns the selection.
    Input(InputSelection),
    /// The transcript owns the selection (normalized content-cell range).
    Transcript(Cell, Cell),
}

impl ActiveSelection {
    /// Whether no pad holds a selection.
    pub fn is_none(&self) -> (b: bool)
        ensures
            b == (*self is Neither),
    {
        match self {
            ActiveSelection::Neither => true,
            _ => false,
        }
    }

    /// Whether some pad holds a selection.
    pub fn is_active(&self) -> (b: bool)
        ensures
            b == !(*self is Neither),
    {
        !self.is_none()
    }

    /// The input-pad selection, if the input pad owns it.
    pub fn input(&self) -> (r: Option<InputSelection>)
        ensures
            r == match *self {
                ActiveSelection::Input(s) => Some(s),
                _ => None,
            },
    {
        match self {
            ActiveSelection::Input(sel) => Some(*sel),
            _ => None,
        }
    }

    /// The transcript range, if the transcript owns it.
    pub fn transcript(&self) -> (r: Option<(Cell, Cell)>)
        ensures
            r == match *self {
                ActiveSelection::Transcript(a, b) => Some((a, b)),
                _ => None,
            },
    {
        match self {
            ActiveSelection::Transcript(a, b) => Some((*a, *b)),
            _ => None,
        }
    }
}

/// What a single `Esc` press does.
#[derive(Debug, Clone, Copy, PartialEq, Eq, Structural)]
pub enum EscAction {
    /// A selection was active: cancel it (first `Esc`).
    CancelSelection,
    /// No selection: clear the caret's current line (first `Esc`).
    ClearCurrentLine,
    /// Second consecutive `Esc` on a multi-line buffer: clear it all.
    ClearWholeBuffer,
    /// Second consecutive `Esc` with nothing left to clear.
    Noop,
}

/// The effect of an `Esc` press. `esc_pending` means the previous key was
/// also `Esc` (the double-Esc gesture, tracked by keypress, not by time).
pub fn esc_action(esc_pending: bool, has_selection: bool, multiline: bool) -> (a: EscAction)
    ensures
        a == if esc_pending {
            if multiline {
                EscAction::ClearWholeBuffer
            } else {
                EscAction::Noop
            }
        } else if has_selection {
            EscAction::CancelSelection
        } else {
            EscAction::ClearCurrentLine
        },
{
    if esc_pending {
        if multiline {
            EscAction::ClearWholeBuffer
        } else {
            EscAction::Noop
        }
    } else if has_selection {
        EscAction::CancelSelection
    } else {
        EscAction::ClearCurrentLine
    }
}

} // verus!
