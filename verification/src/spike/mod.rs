//! The pieces of the terminal-grid evaluation harness that carry logic:
//! mode-driven input routing, the highlight column span of a selected row,
//! and the harness's clipboard choice.

pub mod selection;

use vstd::prelude::*;
use crate::modes::ModeEvent;
use crate::selection::coords::Cell;

verus! {

/// Which clipboard path the harness copies through.
#[derive(Debug, Clone, Copy, PartialEq, Eq, Structural)]
pub enum Clipboard {
    /// Terminal-mediated OSC 52.
    Osc52,
    /// The local OS clipboard.
    Arboard,
}

/// Harness options: the shell to wrap and the clipboard path.
#[derive(Debug)]
pub struct Args {
    pub shell: String,
    pub clipboard: Clipboard,
}

/// The options used by the keyboard copy path, which has no per-press
/// choice: an empty shell and OSC 52.
pub fn osc_args() -> (a: Args)
    ensures
        a.shell@ == Seq::<char>::empty(),
        a.clipboard == Clipboard::Osc52,
{
    Args { shell: String::new(), clipboard: Clipboard::Osc52 }
}

/// Live routing state, updated from the child's output stream.
#[derive(Debug, Default)]
pub struct Routing {
    pub alt_screen: bool,
    pub child_mouse: bool,
}

/// The `(alt_screen, child_mouse)` state after the events, applied in order.
pub open spec fn routing_after(start: (bool, bool), events: Seq<ModeEvent>) -> (bool, bool)
    decreases events.len(),
{
    if events.len() == 0 {
        start
    } else {
        let r = routing_after(start, events.drop_last());
        match events.last() {
            ModeEvent::AltScreenEnter => (true, r.1),
            ModeEvent::AltScreenExit => (false, r.1),
            ModeEvent::MouseEnable(_) => (r.0, true),
            ModeEvent::MouseDisable(_) => (r.0, false),
        }
    }
}

impl Routing {
    /// Apply the observed mode transitions in order.
    pub fn apply(&mut self, events: &[ModeEvent])
        ensures
            (final(self).alt_screen, final(self).child_mouse) == routing_after(
                (old(self).alt_screen, old(self).child_mouse),
                events@,
            ),
    {
        let mut i: usize = 0;
        while i < events.len()
            invariant
                i <= events@.len(),
                (self.alt_screen, self.child_mouse) == routing_after(
                    (old(self).alt_screen, old(self).child_mouse),
                    events@.subrange(0, i as int),
                ),
            decreases events.len() - i,
        {
            match events[i] {
                ModeEvent::AltScreenEnter => self.alt_screen = true,
                ModeEvent::AltScreenExit => self.alt_screen = false,
                ModeEvent::MouseEnable(_) => self.child_mouse = true,
                ModeEvent::MouseDisable(_) => self.child_mouse = false,
            }
            assert(events@.subrange(0, i + 1).drop_last() =~= events@.subrange(0, i as int));
            i = i + 1;
        }
        assert(events@.subrange(0, i as int) =~= events@);
    }

    /// Whether the child owns the screen or the mouse, so the harness
    /// forwards everything instead of selecting and scrolling itself.
    pub fn override_active(&self) -> (b: bool)
        ensures
            b == (self.alt_screen || self.child_mouse),
    {
        self.alt_screen || self.child_mouse
    }
}

/// The column span to highlight on `content_row` for the normalized
/// selection `a..=b`, clamped to the last column.
pub fn row_col_span(a: Cell, b: Cell, content_row: usize, width: u16) -> (r: (u16, u16))
    ensures
        ({
            let last: u16 = if width >= 1 { (width - 1) as u16 } else { 0 };
            let start: u16 = if content_row == a.0 { a.1 as u16 } else { 0 };
            let end: u16 = if content_row == b.0 { b.1 as u16 } else { last };
            r == (if start <= last { start } else { last }, if end <= last { end } else { last })
        }),
{
    let last: u16 = if width >= 1 { width - 1 } else { 0 };
    let start: u16 = if content_row == a.0 { a.1 as u16 } else { 0 };
    let end: u16 = if content_row == b.0 { b.1 as u16 } else { last };
    (if start <= last { start } else { last }, if end <= last { end } else { last })
}

} // verus!
