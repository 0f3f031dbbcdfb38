//! The input pad and kapollo's own input history, the editing modes, and
//! the routing of submitted lines.

pub mod editing;
pub mod pad;
pub mod router;
pub mod selection;

pub use pad::InputPad;
pub use selection::InputSelection;

use vstd::prelude::*;

verus! {

broadcast use vstd::std_specs::btree::group_btree_axioms;

/// The editing mode of the input buffer, shown in the status bar's
/// four-column mode field.
#[derive(Debug, Clone, Copy, PartialEq, Eq, Default, Structural)]
pub enum InputMode {
    /// Single-line editing; Up/Down recall history.
    #[default]
    Norm,
    /// Multi-line editing; Up/Down move the caret, with chat-style recall at
    /// the buffer's edges.
    Mult,
    /// Line-at-a-time: `Mult` plus a stepping highlight gated on exit codes.
    Laat,
}

impl InputMode {
    /// The status-bar label: `norm`, `Mult` or `1T`.
    pub fn label(self) -> (s: &'static str)
        ensures
            s@ == match self {
                InputMode::Norm => "norm"@,
                InputMode::Mult => "Mult"@,
                InputMode::Laat => "1T"@,
            },
    {
        match self {
            InputMode::Norm => "norm",
            InputMode::Mult => "Mult",
            InputMode::Laat => "1T",
        }
    }

    /// The `ToggleMultLaat` transition: `Norm → Mult` always; `Mult ↔ Laat`
    /// only for a multi-line buffer; a single-line `Mult` stays `Mult`.
    pub fn toggled_mult_laat(self, multiline: bool) -> (m: InputMode)
        ensures
            m == match self {
                InputMode::Norm => InputMode::Mult,
                InputMode::Mult => if multiline {
                    InputMode::Laat
                } else {
                    InputMode::Mult
                },
                InputMode::Laat => InputMode::Mult,
            },
    {
        match self {
            InputMode::Norm => InputMode::Mult,
            InputMode::Mult => if multiline {
                InputMode::Laat
            } else {
                InputMode::Mult
            },
            InputMode::Laat => InputMode::Mult,
        }
    }
}

/// What applying an exit code to the pending line did.
#[derive(Debug, Clone, Copy, PartialEq, Eq, Structural)]
pub enum LaatOutcome {
    /// Exit 0 or no code: the highlight advanced past the line.
    Advance,
    /// Non-zero exit: the line is flagged as a probable failure.
    Flag,
}

/// The line-at-a-time stepping state: the highlighted line, the lines
/// flagged as probable failures, and the line awaiting completion.
#[derive(Debug, Clone, Default, PartialEq, Eq)]
pub struct LaatState {
    /// The highlighted buffer line (0-based).
    pub highlight: usize,
    /// Lines flagged as probable failures.
    pub failed_lines: std::collections::BTreeSet<usize>,
    /// The line last submitted, awaiting its end boundary.
    pub pending: Option<usize>,
}

impl LaatState {
    /// Highlight on line 0, no flags, nothing pending.
    pub fn new() -> (s: Self)
        ensures
            s.highlight == 0,
            s.failed_lines@ == Set::<usize>::empty(),
            s.pending is None,
    {
        LaatState { highlight: 0, failed_lines: std::collections::BTreeSet::new(), pending: None }
    }

    /// Record that `line` was submitted and awaits completion.
    pub fn submit_line(&mut self, line: usize)
        ensures
            *final(self) == (LaatState { pending: Some(line), ..*old(self) }),
    {
        self.pending = Some(line);
    }

    /// Apply an end boundary's exit code to the pending line: exit 0, or no
    /// reported code, advances the highlight past the line and clears its
    /// flag; a non-zero exit flags the line and holds the highlight on it.
    /// `None` when nothing was pending.
    pub fn apply_exit_code(&mut self, exit: Option<i32>) -> (r: Option<LaatOutcome>)
        requires
            old(self).pending matches Some(l) ==> l < usize::MAX,
        ensures
            match old(self).pending {
                None => r is None && final(self).highlight == old(self).highlight
                    && final(self).failed_lines@ == old(self).failed_lines@
                    && final(self).pending is None,
                Some(line) => final(self).pending is None && if exit == Some(0i32)
                    || exit is None {
                    r == Some(LaatOutcome::Advance) && final(self).highlight == line + 1
                        && final(self).failed_lines@ == old(self).failed_lines@.remove(line)
                } else {
                    r == Some(LaatOutcome::Flag) && final(self).highlight == line
                        && final(self).failed_lines@ == old(self).failed_lines@.insert(line)
                },
            },
    {
        let line = match self.pending {
            Some(l) => l,
            None => return None,
        };
        self.pending = None;
        let ok = match exit {
            Some(c) => c == 0,
            None => true,
        };
        if ok {
            self.failed_lines.remove(&line);
            self.highlight = line + 1;
            Some(LaatOutcome::Advance)
        } else {
            self.failed_lines.insert(line);
            self.highlight = line;
            Some(LaatOutcome::Flag)
        }
    }

    /// Whether `line` is flagged as a probable failure.
    pub fn is_failed(&self, line: usize) -> (b: bool)
        ensures
            b == self.failed_lines@.contains(line),
    {
        self.failed_lines.contains(&line)
    }
}

/// A one-item snapshot of the composing input, saved by a push and restored
/// on the next submit: buffer, caret, mode, stashed draft and stepping state.
#[derive(Debug, Clone, PartialEq, Eq)]
pub struct InputSnapshot {
    pub buffer: String,
    pub cursor: usize,
    pub mode: InputMode,
    pub stash: Option<String>,
    pub laat: Option<LaatState>,
}

/// The pad a snapshot of `(buffer, cursor)` restores to.
pub open spec fn restored(buffer: Seq<char>, cursor: nat) -> (Seq<char>, nat, Option<
    InputSelection,
>) {
    (buffer, if cursor <= buffer.len() { cursor } else { buffer.len() }, None)
}

impl InputSnapshot {
    /// Capture the composing input.
    pub fn capture(
        input: &InputPad,
        mode: InputMode,
        stash: Option<String>,
        laat: Option<LaatState>,
    ) -> (s: Self)
        requires
            input.wf(),
        ensures
            s.buffer@ == input@.0,
            s.cursor == input@.1,
            s.mode == mode,
            s.stash == stash,
            s.laat == laat,
    {
        InputSnapshot {
            buffer: crate::text::string_from_str(input.as_str()),
            cursor: input.cursor(),
            mode,
            stash,
            laat,
        }
    }

    /// Put the snapshot's buffer and caret back into `input`, returning the
    /// saved mode, stash and stepping state for the caller to reinstate.
    pub fn restore(self, input: &mut InputPad) -> (r: (InputMode, Option<String>, Option<LaatState>))
        requires
            self.buffer@.len() < usize::MAX,
        ensures
            final(input).wf(),
            final(input)@ == restored(self.buffer@, self.cursor as nat),
            r == (self.mode, self.stash, self.laat),
    {
        input.restore(self.buffer.as_str(), self.cursor);
        (self.mode, self.stash, self.laat)
    }
}

/// Restoring a snapshot of a consistent pad gives back its buffer and caret
/// exactly (only the selection is dropped).
pub proof fn lemma_snapshot_round_trip(pad: (Seq<char>, nat, Option<InputSelection>))
    requires
        pad.1 <= pad.0.len(),
    ensures
        restored(pad.0, pad.1) == (pad.0, pad.1, None::<InputSelection>),
{
}

/// kapollo's own history of submitted inputs, separate from the shell's.
#[derive(Debug, Default)]
pub struct InputHistory {
    entries: Vec<String>,
    /// Recall position; `None` means at the live draft.
    cursor: Option<usize>,
    /// The live draft stashed when edge recall began.
    stash: Option<String>,
}

impl View for InputHistory {
    /// `(entries, recall position, stash)`.
    type V = (Seq<Seq<char>>, Option<nat>, Option<Seq<char>>);

    closed spec fn view(&self) -> (Seq<Seq<char>>, Option<nat>, Option<Seq<char>>) {
        (
            self.entries.deep_view(),
            match self.cursor {
                Some(i) => Some(i as nat),
                None => None,
            },
            match self.stash {
                Some(s) => Some(s@),
                None => None,
            },
        )
    }
}

/// The recall position after stepping older from `cursor`.
pub open spec fn older_pos(len: nat, cursor: Option<nat>) -> nat {
    match cursor {
        None => (len - 1) as nat,
        Some(i) => if i == 0 { 0 } else { (i - 1) as nat },
    }
}

/// A history's view: `(entries, recall position, stash)`.
pub type HistoryView = (Seq<Seq<char>>, Option<nat>, Option<Seq<char>>);

/// A consistent history: the recall position names an entry, and every
/// entry and the stash are shorter than the address space.
pub open spec fn history_wf(h: HistoryView) -> bool {
    &&& h.1 matches Some(i) ==> i < h.0.len()
    &&& forall|i: int| 0 <= i < h.0.len() ==> #[trigger] h.0[i].len() < usize::MAX
    &&& h.2 matches Some(d) ==> d.len() < usize::MAX
}

/// Stepping older: `None` on an empty history; otherwise the entry at the
/// new (older) position.
pub open spec fn recall_older_spec(h: HistoryView) -> (HistoryView, Option<Seq<char>>) {
    if h.0.len() == 0 {
        (h, None)
    } else {
        let p = older_pos(h.0.len(), h.1);
        ((h.0, Some(p), h.2), Some(h.0[p as int]))
    }
}

/// Stepping newer: `None` when not recalling; past the newest entry, back to
/// the live draft with `past` as the result.
pub open spec fn recall_newer_spec(h: HistoryView, past: Seq<char>, clear_stash: bool) -> (
    HistoryView,
    Option<Seq<char>>,
) {
    match h.1 {
        None => (h, None),
        Some(i) => if i + 1 < h.0.len() {
            ((h.0, Some(i + 1), h.2), Some(h.0[i + 1int]))
        } else {
            ((h.0, None, if clear_stash { None } else { h.2 }), Some(past))
        },
    }
}

/// Edge recall older: stash the draft when starting from the live draft,
/// then step older.
pub open spec fn edge_older_spec(h: HistoryView, draft: Seq<char>) -> (HistoryView, Option<
    Seq<char>,
>) {
    if h.0.len() == 0 {
        (h, None)
    } else {
        recall_older_spec((h.0, h.1, if h.1 is None { Some(draft) } else { h.2 }))
    }
}

/// Edge recall newer: step newer; past the newest entry, hand back the
/// stashed draft (empty when none) and clear the stash.
pub open spec fn edge_newer_spec(h: HistoryView) -> (HistoryView, Option<Seq<char>>) {
    recall_newer_spec(
        h,
        match h.2 {
            Some(d) => d,
            None => Seq::<char>::empty(),
        },
        true,
    )
}

impl InputHistory {
    /// The recall position, when recalling, names an entry, and every entry
    /// and the stash fit in the address space.
    pub open spec fn wf(&self) -> bool {
        history_wf(self@)
    }

    /// An empty history.
    pub fn new() -> (h: Self)
        ensures
            h.wf(),
            h@ == (Seq::<Seq<char>>::empty(), None::<nat>, None::<Seq<char>>),
    {
        let h = InputHistory { entries: Vec::new(), cursor: None, stash: None };
        assert(h.entries.deep_view() =~= Seq::<Seq<char>>::empty());
        h
    }

    /// Append a submitted input (empty inputs are not recorded) and return
    /// to the live draft.
    pub fn push(&mut self, entry: &str)
        requires
            old(self).wf(),
            entry@.len() < usize::MAX,
        ensures
            final(self).wf(),
            final(self)@ == (if entry@.len() == 0 {
                old(self)@.0
            } else {
                old(self)@.0.push(entry@)
            }, None::<nat>, old(self)@.2),
    {
        if entry.unicode_len() > 0 {
            let e = crate::text::string_from_str(entry);
            self.entries.push(e);
            assert(self.entries.deep_view() =~= old(self).entries.deep_view().push(entry@));
        }
        self.cursor = None;
    }

    /// Recall the previous (older) entry, staying on the oldest; `None` when
    /// the history is empty.
    pub fn recall_older(&mut self) -> (r: Option<&str>)
        requires
            old(self).wf(),
        ensures
            final(self).wf(),
            (final(self)@, crate::text::opt_str_view(r)) == recall_older_spec(old(self)@),
    {
        if self.entries.len() == 0 {
            return None;
        }
        let next = match self.cursor {
            None => self.entries.len() - 1,
            Some(i) => if i == 0 { 0 } else { i - 1 },
        };
        self.cursor = Some(next);
        proof {
            assert(self.entries.deep_view().len() == self.entries@.len());
            assert(self@.0 == old(self)@.0);
            assert(self@.2 == old(self)@.2);
            assert(history_wf(self@));
        }
        Some(self.entries[next].as_str())
    }

    /// Recall the next (newer) entry; past the newest, return to an empty
    /// draft (`Some("")`); `None` when not recalling.
    pub fn recall_newer(&mut self) -> (r: Option<&str>)
        requires
            old(self).wf(),
        ensures
            final(self).wf(),
            (final(self)@, crate::text::opt_str_view(r)) == recall_newer_spec(
                old(self)@,
                Seq::<char>::empty(),
                false,
            ),
    {
        match self.cursor {
            None => None,
            Some(i) => if i < self.entries.len() - 1 {
                self.cursor = Some(i + 1);
                Some(self.entries[i + 1].as_str())
            } else {
                self.cursor = None;
                proof {
                    reveal_strlit("");
                }
                Some("")
            },
        }
    }

    /// Chat-style edge recall: from the live draft, stash `draft` and recall
    /// the newest entry; further calls walk older entries without
    /// re-stashing. `None` when the history is empty.
    pub fn edge_recall_older(&mut self, draft: &str) -> (r: Option<&str>)
        requires
            old(self).wf(),
            draft@.len() < usize::MAX,
        ensures
            final(self).wf(),
            (final(self)@, crate::text::opt_str_view(r)) == edge_older_spec(old(self)@, draft@),
    {
        if self.entries.len() == 0 {
            return None;
        }
        if self.cursor.is_none() {
            self.stash = Some(crate::text::string_from_str(draft));
        }
        proof {
            assert(self.entries.deep_view().len() == self.entries@.len());
            assert(self@.0 == old(self)@.0);
            assert(self@.1 == old(self)@.1);
            assert(history_wf(self@));
        }
        self.recall_older()
    }

    /// Chat-style edge restore: walk newer entries; stepping past the newest
    /// gives back the stashed draft exactly (empty when none) and returns to
    /// the live draft. `None` when not recalling.
    pub fn edge_recall_newer(&mut self) -> (r: Option<String>)
        requires
            old(self).wf(),
        ensures
            final(self).wf(),
            (final(self)@, match r {
                Some(x) => Some(x@),
                None => None,
            }) == edge_newer_spec(old(self)@),
    {
        match self.cursor {
            None => None,
            Some(i) => if i < self.entries.len() - 1 {
                self.cursor = Some(i + 1);
                Some(crate::text::string_from_str(self.entries[i + 1].as_str()))
            } else {
                self.cursor = None;
                let s = self.stash.take();
                match s {
                    Some(d) => Some(d),
                    None => {
                        let e = String::new();
                        Some(e)
                    },
                }
            },
        }
    }

    /// The stashed draft, if any.
    pub fn stash(&self) -> (r: Option<&str>)
        ensures
            match self@.2 {
                Some(d) => r matches Some(x) && x@ == d,
                None => r is None,
            },
    {
        match &self.stash {
            Some(s) => Some(s.as_str()),
            None => None,
        }
    }

    /// Replace the stashed draft.
    pub fn set_stash(&mut self, stash: Option<String>)
        requires
            old(self).wf(),
            stash matches Some(d) ==> d@.len() < usize::MAX,
        ensures
            final(self).wf(),
            final(self)@ == (old(self)@.0, old(self)@.1, match stash {
                Some(s) => Some(s@),
                None => None,
            }),
    {
        self.stash = stash;
    }
}

/// From the live draft, one edge step older followed by one edge step newer
/// gives back the draft exactly and returns to the live draft with no stash.
pub proof fn lemma_edge_recall_round_trip(h: HistoryView, draft: Seq<char>)
    requires
        h.1 is None,
        h.0.len() > 0,
    ensures
        edge_newer_spec(edge_older_spec(h, draft).0) == ((h.0, None::<nat>, None::<Seq<char>>), Some(
            draft,
        )),
{
}

/// Stepping older never leaves the recall position past the newest entry,
/// and from the oldest entry it stays on the oldest.
pub proof fn lemma_recall_older_clamps(h: HistoryView)
    requires
        h.0.len() > 0,
        h.1 matches Some(i) ==> i < h.0.len(),
    ensures
        recall_older_spec(h).0.1 matches Some(p) && p < h.0.len(),
        h.1 == Some(0nat) ==> recall_older_spec(h).0.1 == Some(0nat),
{
}

} // verus!
