//! The application core: the interactive state of a kapollo session and the
//! decisions that each key press, mouse event and burst of shell output lead
//! to. The event loop, which owns the terminal, the wrapped shell and the
//! emulated screen, performs the [`Effect`]s these decisions return and
//! reports back what became of them.

use vstd::prelude::*;
use crate::action::{
    mask_spec, mods, resolve_in, Action, KeyChord, KeyCode, KeyEvent, KeySpec, Keymaps,
};
use crate::clipboard::{base64_len, osc52_spec, CopyMethod};
use crate::config::{Caps, Config};
use crate::input::editing::clamp;
use crate::input::pad::{count_nl, edit_spec, row_col, offset_from, PadEdit, PadView};
use crate::input::selection::sel_range;
use crate::input::restored;
use crate::input::{
    edge_newer_spec, edge_older_spec, history_wf, recall_newer_spec, recall_older_spec,
    HistoryView, InputHistory, InputMode, InputPad, InputSnapshot, LaatState,
};
use crate::input::selection::InputSelection;
use crate::output::{fold_state, marks, trace_ok, Boundary, OutputProcessor, ProcessorEvent};
use crate::output::parser::{events_view, EventView};
use crate::output::sentinel::scan_spec;
use crate::session::store::{sealed_at_row, started_at_row};
use crate::pty::BoundaryMode;
use crate::selection::coords::Cell;
use crate::selection::{ordered, SelState, SelectionController, Trigger};
use crate::text::{lemma_trim_end_prefix, trim_end};
use crate::session::{
    enforce_transcript_caps, index_of_id, lemma_index_of_id, lemma_index_of_id_unique,
    lemma_transcript_caps, min_nat, page_step, sat_add, Block, BlockId, BlockStore,
    StableRowIndex, Transcript,
};
use crate::session::store::keep_newest;
use crate::slash::{command_named, is_first_token, Dispatch, SlashCommand};
use crate::slash::builtins::{help_spec, unknown_spec};
use crate::input::router::{route_spec, Routed};
use crate::input::pad::{insert_at, line_text_from, normalize_newlines, strip_blank_tail};
use crate::action::{keymap_rows, mode_index, rows_view, Keymap, DEFAULT_MODE};
use crate::text::trim;
use crate::session::block::{lossy_utf8, with_command};
use crate::session::store::index_covering;

verus! {

/// How many bytes of shell output one drain pass takes before the event loop
/// goes back to the keyboard.
pub const MAX_DRAIN_BYTES: usize = 262144;

/// How many chunks of shell output one drain pass takes before the event
/// loop goes back to the keyboard.
pub const MAX_DRAIN_CHUNKS: usize = 64;

/// Whether a drain pass that took `bytes` bytes in `chunks` chunks has used
/// up its budget, so that keys (`Ctrl-C` among them) are served promptly
/// during a flood of output.
pub fn drain_budget_spent(bytes: usize, chunks: usize) -> (b: bool)
    ensures
        b == (bytes >= MAX_DRAIN_BYTES || chunks >= MAX_DRAIN_CHUNKS),
{
    bytes >= MAX_DRAIN_BYTES || chunks >= MAX_DRAIN_CHUNKS
}

/// Work the event loop carries out for the core.
#[derive(Debug, PartialEq, Eq)]
pub enum Effect {
    /// Write these bytes to the wrapped shell's input.
    WriteInput(Vec<u8>),
    /// Run this command line in the wrapped shell.
    SendCommand(String),
    /// Interrupt the shell's running command.
    SendInterrupt,
    /// Write this OSC 52 sequence to the host terminal; report a failure
    /// with [`App::copy_failed`].
    EmitToTerminal(String),
    /// Place this text on the local clipboard; report a failure with
    /// [`App::copy_failed`].
    CopyLocal(String),
    /// Copy the transcript text between these content cells: extract it from
    /// the screen and hand it to [`App::copy_text`].
    CopyCells(Cell, Cell),
    /// Copy the newest non-blank visible transcript line: hand it (or `None`
    /// when every visible line is blank) to [`App::copy_line`].
    CopyLastVisibleLine,
    /// Paint a block echoing `command` and showing `output` into the
    /// transcript pane, as if a command had printed it.
    PaintSynthetic { command: String, output: String },
    /// Clear the emulated screen and its scrollback.
    ClearGrid,
    /// Re-read the configuration file and hand the outcome to
    /// [`App::finish_reload`].
    ReloadConfig,
}

/// Why a copy that the core asked for did not happen.
#[derive(Debug, Clone, Copy, PartialEq, Eq, Structural)]
pub enum CopyFailure {
    /// The OSC 52 sequence could not be written to the terminal.
    TerminalWrite,
    /// The local clipboard could not be reached.
    NoClipboard,
}

/// The interactive state of a session, less the terminal, the wrapped shell
/// and the emulated screen.
pub struct App {
    pub config: Config,
    /// The effective key bindings.
    pub keymaps: Keymaps,
    pub transcript: Transcript,
    pub input: InputPad,
    /// Exit code of the last finished command.
    pub last_exit: Option<i32>,
    /// The input editing mode.
    pub mode: InputMode,
    /// Line-at-a-time stepping state, present exactly while `mode` is `Laat`.
    pub laat: Option<LaatState>,
    /// Working directory shown on the status rule, followed from OSC 7.
    pub cwd: String,
    pub history: InputHistory,
    /// The transcript's mouse selection.
    pub selection: SelectionController,
    /// A transient notice for the status rule.
    pub notice: Option<String>,
    /// The previous key was `Esc`, so a second `Esc` completes the gesture.
    pub esc_pending: bool,
    pub processor: OutputProcessor,
    pub current_block: Option<BlockId>,
    /// The retained block store behind block-aware copy.
    pub store: BlockStore,
    pub current_store_block: Option<BlockId>,
    /// A full-screen program owns the screen: keys go to it.
    pub passthrough: bool,
    /// The one-item stack of pushed input.
    pub pushed: Option<InputSnapshot>,
    pub should_quit: bool,
}

/// Whether `p`'s selection covers at least one character.
pub open spec fn pad_has_selection(p: PadView) -> bool {
    p.2 matches Some(s) && s.anchor != s.caret
}

/// The number of lines in buffer `s`.
pub open spec fn line_count_of(s: Seq<char>) -> nat {
    count_nl(s) + 1
}

/// The mode after an edit left the buffer with `lines` lines: a `Norm`
/// buffer that grows past one line enters `Mult`, a `Mult` buffer back to
/// one line returns to `Norm`; `Laat` stays.
pub open spec fn reconciled(mode: InputMode, lines: nat) -> InputMode {
    match mode {
        InputMode::Norm => if lines > 1 {
            InputMode::Mult
        } else {
            InputMode::Norm
        },
        InputMode::Mult => if lines <= 1 {
            InputMode::Norm
        } else {
            InputMode::Mult
        },
        InputMode::Laat => InputMode::Laat,
    }
}

/// A pending stepping line can be stepped past.
pub open spec fn laat_pending_fits(l: Option<LaatState>) -> bool {
    l matches Some(s) ==> (s.pending matches Some(p) ==> p < usize::MAX)
}

/// Whether a snapshot can be restored into a consistent state.
pub open spec fn snapshot_wf(s: InputSnapshot) -> bool {
    &&& s.buffer@.len() < usize::MAX
    &&& (s.mode == InputMode::Laat) == s.laat is Some
    &&& laat_pending_fits(s.laat)
    &&& s.stash matches Some(d) ==> d@.len() < usize::MAX
}

/// The mathematical view of an [`Effect`].
pub ghost enum EffectView {
    WriteInput(Seq<u8>),
    SendCommand(Seq<char>),
    SendInterrupt,
    EmitToTerminal(Seq<char>),
    CopyLocal(Seq<char>),
    CopyCells(Cell, Cell),
    CopyLastVisibleLine,
    PaintSynthetic(Seq<char>, Seq<char>),
    ClearGrid,
    ReloadConfig,
}

impl View for Effect {
    type V = EffectView;

    open spec fn view(&self) -> EffectView {
        match self {
            Effect::WriteInput(b) => EffectView::WriteInput(b@),
            Effect::SendCommand(c) => EffectView::SendCommand(c@),
            Effect::SendInterrupt => EffectView::SendInterrupt,
            Effect::EmitToTerminal(f) => EffectView::EmitToTerminal(f@),
            Effect::CopyLocal(t) => EffectView::CopyLocal(t@),
            Effect::CopyCells(a, b) => EffectView::CopyCells(*a, *b),
            Effect::CopyLastVisibleLine => EffectView::CopyLastVisibleLine,
            Effect::PaintSynthetic { command, output } => EffectView::PaintSynthetic(command@, output@),
            Effect::ClearGrid => EffectView::ClearGrid,
            Effect::ReloadConfig => EffectView::ReloadConfig,
        }
    }
}

/// The views of a sequence of effects.
pub open spec fn effects_view(s: Seq<Effect>) -> Seq<EffectView> {
    s.map_values(|e: Effect| e@)
}

/// How the text `t` is copied: `Ok(effect)` with the effect to carry out,
/// or `Err(notice)` with the notice explaining why it cannot be.
pub open spec fn copy_plan(t: Seq<char>, osc52: bool, local: bool) -> Result<EffectView, Seq<char>> {
    if osc52 {
        if base64_len(vstd::utf8::encode_utf8(t).len()) <= usize::MAX {
            Ok(EffectView::EmitToTerminal(osc52_spec(vstd::utf8::encode_utf8(t))))
        } else {
            Err("copy failed: selection too large"@)
        }
    } else if local {
        Ok(EffectView::CopyLocal(t))
    } else {
        Err("copy failed: no clipboard available"@)
    }
}

/// A notice carrying `t`.
pub open spec fn notice_is(n: Option<String>, t: Seq<char>) -> bool {
    n matches Some(m) && m@ == t
}

impl App {
    /// The parts of the state hold together: the pad, history, transcript,
    /// store and processor are consistent, stepping state exists exactly in
    /// `Laat`, and a pushed snapshot can be restored.
    pub open spec fn wf(&self) -> bool {
        &&& self.input.wf()
        &&& self.history.wf()
        &&& self.transcript.wf()
        &&& self.store.wf()
        &&& self.processor.wf()
        &&& (self.mode == InputMode::Laat) == self.laat is Some
        &&& laat_pending_fits(self.laat)
        &&& self.pushed matches Some(sn) ==> snapshot_wf(sn)
    }

    /// A fresh session with `config` and `keymaps`: empty input in `Norm`,
    /// empty history, transcript and store bounded by `config`'s caps, and a
    /// processor for the shell's
    /// boundary `mode` (with `nonce` for sentinel mode).
    pub fn new(config: Config, keymaps: Keymaps, cwd: String, mode: BoundaryMode, nonce: &str) -> (app: App)
        ensures
            app.wf(),
            app.config == config,
            app.keymaps == keymaps,
            app.cwd == cwd,
            app.input@ == (Seq::<char>::empty(), 0nat, None::<InputSelection>),
            app.mode == InputMode::Norm,
            app.last_exit is None,
            app.notice is None,
            app.selection@.0 == SelState::Idle,
            app.transcript.blocks_seq() == Seq::<crate::session::Block>::empty(),
            app.transcript.scroll_spec() == 0,
            app.store.blocks_seq() == Seq::<crate::session::Block>::empty(),
            app.history@ == (Seq::<Seq<char>>::empty(), None::<nat>, None::<Seq<char>>),
            !app.esc_pending,
            app.pushed is None,
            !app.passthrough,
            !app.should_quit,
            app.current_block is None,
            app.current_store_block is None,
            app.processor.mode_spec() == mode,
            app.processor.capturing_spec() == (mode == BoundaryMode::Sentinel),
            !app.processor.alt_screen_spec(),
            app.transcript.caps_spec() == config.caps,
            app.transcript.next_id_spec() == 1,
            app.store.cap_spec() == config.caps.transcript_blocks as usize,
            app.store.per_block_bytes_spec() == config.caps.per_block_bytes,
            app.store.per_block_lines_spec() == config.caps.per_block_lines,
            app.store.next_id_spec() == 1,
    {
        let caps = crate::config::Caps {
            per_block_bytes: config.caps.per_block_bytes,
            per_block_lines: config.caps.per_block_lines,
            transcript_bytes: config.caps.transcript_bytes,
            transcript_blocks: config.caps.transcript_blocks,
        };
        let store = BlockStore::new(&config.caps);
        App {
            transcript: Transcript::new(caps),
            store,
            config,
            keymaps,
            input: InputPad::new(),
            last_exit: None,
            mode: InputMode::Norm,
            laat: None,
            cwd,
            history: InputHistory::new(),
            selection: SelectionController::new(),
            notice: None,
            esc_pending: false,
            processor: OutputProcessor::for_mode(mode, nonce),
            current_block: None,
            current_store_block: None,
            passthrough: false,
            pushed: None,
            should_quit: false,
        }
    }

    /// Whether keys and pastes go to a full-screen program.
    pub fn is_passthrough(&self) -> (b: bool)
        ensures
            b == self.passthrough,
    {
        self.passthrough
    }

    /// Whether the session is to end.
    pub fn should_quit(&self) -> (b: bool)
        ensures
            b == self.should_quit,
    {
        self.should_quit
    }

    /// Queue the copy of `text` onto `effects`, as the clipboard settings
    /// direct; returns whether a copy was queued. An empty text is no copy;
    /// when no way to copy is open, the notice says why.
    fn deliver_copy(&mut self, text: String, effects: &mut Vec<Effect>) -> (ok: bool)
        ensures
            text@.len() == 0 ==> !ok && *final(self) == *old(self) && final(effects)@ == old(effects)@,
            text@.len() > 0 ==> match copy_plan(
                text@,
                old(self).config.clipboard.osc52,
                old(self).config.clipboard.local_fallback,
            ) {
                Ok(e) => ok && *final(self) == *old(self) && effects_view(final(effects)@)
                    == effects_view(old(effects)@).push(e),
                Err(n) => !ok && final(effects)@ == old(effects)@ && notice_is(final(self).notice, n)
                    && *final(self) == (App { notice: final(self).notice, ..*old(self) }),
            },
    {
        if text.unicode_len() == 0 {
            return false;
        }
        let osc52 = self.config.clipboard.osc52;
        let n = text.as_str().as_bytes().len();
        let b64: u128 = (n as u128 + 2) / 3 * 4;
        if osc52 && b64 > usize::MAX as u128 {
            proof {
                reveal_strlit("copy failed: selection too large");
            }
            self.notice = Some(crate::text::string_from_str("copy failed: selection too large"));
            return false;
        }
        match crate::clipboard::copy(text.as_str(), osc52, self.config.clipboard.local_fallback) {
            Ok(CopyMethod::Osc52(frame)) => {
                effects.push(Effect::EmitToTerminal(frame));
                true
            },
            Ok(CopyMethod::Local) => {
                effects.push(Effect::CopyLocal(text));
                true
            },
            Err(_) => {
                proof {
                    reveal_strlit("copy failed: no clipboard available");
                }
                self.notice = Some(crate::text::string_from_str("copy failed: no clipboard available"));
                false
            },
        }
    }

    /// The event loop could not carry out a queued copy: say so on the
    /// status rule.
    pub fn copy_failed(&mut self, why: CopyFailure)
        ensures
            notice_is(
                final(self).notice,
                match why {
                    CopyFailure::TerminalWrite => "copy failed: could not write to terminal"@,
                    CopyFailure::NoClipboard => "copy failed: no clipboard available"@,
                },
            ),
            *final(self) == (App { notice: final(self).notice, ..*old(self) }),
    {
        proof {
            reveal_strlit("copy failed: could not write to terminal");
            reveal_strlit("copy failed: no clipboard available");
        }
        let msg = match why {
            CopyFailure::TerminalWrite => "copy failed: could not write to terminal",
            CopyFailure::NoClipboard => "copy failed: no clipboard available",
        };
        self.notice = Some(crate::text::string_from_str(msg));
    }
}

/// Where a key press goes.
#[derive(Debug, Clone, Copy, PartialEq, Eq, Structural)]
pub enum KeyRoute {
    /// `Ctrl-C`: copy a selection, else interrupt the running command.
    CopyOrInterrupt,
    /// `Esc`: the contextual cancel / clear gesture.
    Esc,
    /// `Enter` without Shift or Alt: submit.
    Submit,
    /// An edit of the input pad.
    Edit(PadEdit),
    /// `Up`: history recall or caret motion, by mode.
    Up,
    /// `Down`: history recall or caret motion, by mode.
    Down,
    /// A key the keymap binds to an action.
    Bound(Action),
    /// Nothing to do.
    Ignore,
}

/// The action the default keymap of `keymaps` binds `key` to.
pub open spec fn bound_action(keymaps: Keymaps, key: KeyEvent) -> Option<Action> {
    resolve_in(
        keymaps.default_spec().entries(),
        KeySpec::Single(KeyChord { code: key.code, mods: mask_spec(key.modifiers) }),
    )
}

/// Where `key` goes, given the action `bound` that the keymap binds it to.
/// `Ctrl-C`, `Esc`, plain `Enter`, `Backspace`, plain Left/Right and
/// Up/Down are fixed; everything else goes through the keymap, and an
/// unbound character without Control or Alt is typed.
pub open spec fn key_route_spec(key: KeyEvent, bound: Option<Action>) -> KeyRoute {
    let m = key.modifiers;
    let plain = m == mods(false, false, false);
    let fallthrough = match bound {
        Some(a) => KeyRoute::Bound(a),
        None => match key.code {
            KeyCode::Char(c) => if !m.control && !m.alt {
                KeyRoute::Edit(PadEdit::InsertChar(c))
            } else {
                KeyRoute::Ignore
            },
            _ => KeyRoute::Ignore,
        },
    };
    match key.code {
        KeyCode::Char(c) => if c == 'c' && m == mods(false, true, false) {
            KeyRoute::CopyOrInterrupt
        } else {
            fallthrough
        },
        KeyCode::Esc => KeyRoute::Esc,
        KeyCode::Enter => if !m.shift && !m.alt {
            KeyRoute::Submit
        } else {
            fallthrough
        },
        KeyCode::Backspace => KeyRoute::Edit(PadEdit::Backspace),
        KeyCode::Left => if plain {
            KeyRoute::Edit(PadEdit::MoveLeft)
        } else {
            fallthrough
        },
        KeyCode::Right => if plain {
            KeyRoute::Edit(PadEdit::MoveRight)
        } else {
            fallthrough
        },
        KeyCode::Up => KeyRoute::Up,
        KeyCode::Down => KeyRoute::Down,
        _ => fallthrough,
    }
}

/// Whether edit `e` is followed by reconciling the mode with the buffer's
/// line count.
pub open spec fn reconciles(e: PadEdit) -> bool {
    match e {
        PadEdit::Backspace | PadEdit::KillToLineStart | PadEdit::KillToLineEnd
        | PadEdit::DeleteWordBefore | PadEdit::InsertNewline => true,
        _ => false,
    }
}

/// `o` after the pad edit `e`: the pad edited and, for a reconciling
/// edit, the mode reconciled with the new line count.
pub open spec fn edit_post(o: App, n: App, e: PadEdit) -> bool {
    &&& n.input@ == edit_spec(o.input@, e)
    &&& n == (App {
        input: n.input,
        mode: if reconciles(e) {
            reconciled(o.mode, line_count_of(n.input@.0))
        } else {
            o.mode
        },
        ..o
    })
}

/// The pad holding `t` with the caret at its end.
pub open spec fn pad_holding(t: Seq<char>) -> PadView {
    (t, t.len(), None)
}

/// The pad after a recall result `r`: the recalled text, or unchanged.
pub open spec fn recalled_pad(p: PadView, r: Option<Seq<char>>) -> PadView {
    match r {
        Some(t) => pad_holding(t),
        None => p,
    }
}

/// The caret moved up a line (kept on the first line).
pub open spec fn caret_up(p: PadView) -> PadView {
    let (row, col) = row_col(p.0, p.1 as int);
    (p.0, if row == 0 {
        p.1
    } else {
        offset_from(p.0, 0, (row - 1) as nat, col) as nat
    }, None)
}

/// The caret moved down a line (kept on the last line).
pub open spec fn caret_down(p: PadView) -> PadView {
    let (row, col) = row_col(p.0, p.1 as int);
    (p.0, if row + 1 >= count_nl(p.0) + 1 {
        p.1
    } else {
        offset_from(p.0, 0, (row + 1) as nat, col) as nat
    }, None)
}

/// Stepping state with its highlight moved to the caret's line of `p`.
pub open spec fn laat_synced(l: Option<LaatState>, p: PadView) -> Option<LaatState> {
    match l {
        Some(s) => Some(LaatState { highlight: row_col(p.0, p.1 as int).0 as usize, ..s }),
        None => None,
    }
}

/// `Up`: in `Norm`, recall the previous history entry; in `Mult`/`Laat`,
/// move the caret up, or on the first line recall with the draft stashed;
/// the stepping highlight follows the caret.
pub open spec fn up_post(o: App, n: App) -> bool {
    if o.mode == InputMode::Norm {
        let (h, r) = recall_older_spec(o.history@);
        &&& n.history@ == h
        &&& n.input@ == recalled_pad(o.input@, r)
        &&& n == (App { history: n.history, input: n.input, ..o })
    } else {
        let first = row_col(o.input@.0, o.input@.1 as int).0 == 0;
        let (h, p) = if first {
            let (h, r) = edge_older_spec(o.history@, o.input@.0);
            (h, recalled_pad(o.input@, r))
        } else {
            (o.history@, caret_up(o.input@))
        };
        &&& n.history@ == h
        &&& n.input@ == p
        &&& n == (App { history: n.history, input: n.input, laat: laat_synced(o.laat, p), ..o })
    }
}

/// `Down`: in `Norm`, recall the next entry (past the newest, an empty
/// draft); in `Mult`/`Laat`, move the caret down, or on the last line
/// step newer and restore the stashed draft past the newest.
pub open spec fn down_post(o: App, n: App) -> bool {
    if o.mode == InputMode::Norm {
        let (h, r) = recall_newer_spec(o.history@, Seq::<char>::empty(), false);
        &&& n.history@ == h
        &&& n.input@ == recalled_pad(o.input@, r)
        &&& n == (App { history: n.history, input: n.input, ..o })
    } else {
        let (row, _col) = row_col(o.input@.0, o.input@.1 as int);
        let last = row + 1 >= count_nl(o.input@.0) + 1;
        let (h, p) = if last {
            let (h, r) = edge_newer_spec(o.history@);
            (h, recalled_pad(o.input@, r))
        } else {
            (o.history@, caret_down(o.input@))
        };
        &&& n.history@ == h
        &&& n.input@ == p
        &&& n == (App { history: n.history, input: n.input, laat: laat_synced(o.laat, p), ..o })
    }
}

/// `Esc`: a second consecutive `Esc` clears the notice and, on a
/// multi-line buffer, the whole buffer (back to `Norm`); a first `Esc`
/// cancels a selection in either pad, else clears the caret's line. Each
/// `Esc` flips the pending flag.
pub open spec fn esc_post(o: App, n: App) -> bool {
    let was = o.esc_pending;
    let has_sel = o.selection@.0 != SelState::Idle || pad_has_selection(o.input@);
    let multi = line_count_of(o.input@.0) > 1;
    &&& n.esc_pending == !was
    &&& n.notice == if was { None::<String> } else { o.notice }
    &&& if was {
        if multi {
            &&& n.input@ == (Seq::<char>::empty(), 0nat, None::<InputSelection>)
            &&& n == (App {
                input: n.input,
                mode: InputMode::Norm,
                laat: None,
                notice: n.notice,
                esc_pending: n.esc_pending,
                ..o
            })
        } else {
            n == (App { notice: n.notice, esc_pending: n.esc_pending, ..o })
        }
    } else if has_sel {
        &&& n.selection@ == (SelState::Idle, o.selection@.1, o.selection@.2)
        &&& n.input@ == (o.input@.0, o.input@.1, None::<InputSelection>)
        &&& n == (App { selection: n.selection, input: n.input, esc_pending: n.esc_pending, ..o })
    } else {
        &&& n.input@ == edit_spec(o.input@, PadEdit::ClearCurrentLine)
        &&& n == (App { input: n.input, esc_pending: n.esc_pending, ..o })
    }
}

/// The text of `p`'s selection (for a non-empty one).
pub open spec fn selected_text_of(p: PadView) -> Seq<char> {
    match p.2 {
        Some(s) => p.0.subrange(
            clamp(sel_range(s).0 as int, p.0.len() as int),
            clamp(sel_range(s).1 as int, p.0.len() as int),
        ),
        None => Seq::<char>::empty(),
    }
}

/// Copying `t` with `o`'s clipboard settings, announcing success with
/// `done`: the effects queued and the notice left.
pub open spec fn copy_post(o: App, t: Seq<char>, done: Seq<char>, n_notice: Option<String>, effs: Seq<EffectView>) -> bool {
    if t.len() == 0 {
        effs.len() == 0 && n_notice == o.notice
    } else {
        match copy_plan(t, o.config.clipboard.osc52, o.config.clipboard.local_fallback) {
            Ok(e) => effs == seq![e] && notice_is(n_notice, done),
            Err(m) => effs.len() == 0 && notice_is(n_notice, m),
        }
    }
}

/// `Ctrl-C`: an input-pad selection is copied (and cleared); else an active
/// transcript selection is copied (and cleared); else the running command
/// is interrupted. A copy never shadows the interrupt.
pub open spec fn copy_key_post(o: App, n: App, effs: Seq<EffectView>) -> bool {
    if pad_has_selection(o.input@) {
        &&& n.input@ == (o.input@.0, o.input@.1, None::<InputSelection>)
        &&& copy_post(o, selected_text_of(o.input@), "copied selection"@, n.notice, effs)
        &&& n == (App { input: n.input, notice: n.notice, ..o })
    } else if o.selection@.0 == SelState::Active {
        let (a, b) = ordered(o.selection@.1, o.selection@.2);
        &&& effs == seq![EffectView::CopyCells(a, b)]
        &&& n.selection@ == (SelState::Idle, o.selection@.1, o.selection@.2)
        &&& n == (App { selection: n.selection, ..o })
    } else {
        &&& effs == seq![EffectView::SendInterrupt]
        &&& n.selection@ == o.selection@
        &&& n == (App { selection: n.selection, ..o })
    }
}

impl App {
    /// Where `key` goes.
    pub fn route_key(&self, key: KeyEvent) -> (r: KeyRoute)
        ensures
            r == key_route_spec(key, bound_action(self.keymaps, key)),
    {
        let m = key.modifiers;
        let plain = !m.shift && !m.control && !m.alt && !m.super_key && !m.hyper && !m.meta;
        match key.code {
            KeyCode::Char(c) => {
                if c == 'c' && !m.shift && m.control && !m.alt && !m.super_key && !m.hyper && !m.meta {
                    return KeyRoute::CopyOrInterrupt;
                }
            },
            KeyCode::Esc => return KeyRoute::Esc,
            KeyCode::Enter => {
                if !m.shift && !m.alt {
                    return KeyRoute::Submit;
                }
            },
            KeyCode::Backspace => return KeyRoute::Edit(PadEdit::Backspace),
            KeyCode::Left => {
                if plain {
                    return KeyRoute::Edit(PadEdit::MoveLeft);
                }
            },
            KeyCode::Right => {
                if plain {
                    return KeyRoute::Edit(PadEdit::MoveRight);
                }
            },
            KeyCode::Up => return KeyRoute::Up,
            KeyCode::Down => return KeyRoute::Down,
            _ => {},
        }
        let chord = KeyChord::new(key.code, m);
        match self.keymaps.default().resolve(KeySpec::Single(chord)) {
            Some(a) => KeyRoute::Bound(a),
            None => match key.code {
                KeyCode::Char(c) => if !m.control && !m.alt {
                    KeyRoute::Edit(PadEdit::InsertChar(c))
                } else {
                    KeyRoute::Ignore
                },
                _ => KeyRoute::Ignore,
            },
        }
    }

    /// Apply a pad edit, reconciling the mode after edits that can change
    /// the line count.
    fn edit(&mut self, e: PadEdit)
        requires
            old(self).wf(),
        ensures
            final(self).wf(),
            edit_post(*old(self), *final(self), e),
    {
        self.input.apply_edit(e);
        match e {
            PadEdit::Backspace | PadEdit::KillToLineStart | PadEdit::KillToLineEnd
            | PadEdit::DeleteWordBefore | PadEdit::InsertNewline => {
                self.reconcile_mode_after_edit();
            },
            _ => {},
        }
    }

    /// Reconcile the mode with the buffer's line count: `Norm` past one line
    /// enters `Mult`, `Mult` back to one line returns to `Norm`.
    fn reconcile_mode_after_edit(&mut self)
        requires
            old(self).wf(),
        ensures
            final(self).wf(),
            *final(self) == (App { mode: reconciled(old(self).mode, line_count_of(old(self).input@.0)), ..*old(self) }),
    {
        let lines = self.input.line_count();
        match self.mode {
            InputMode::Norm => {
                if lines > 1 {
                    self.mode = InputMode::Mult;
                }
            },
            InputMode::Mult => {
                if lines <= 1 {
                    self.mode = InputMode::Norm;
                }
            },
            InputMode::Laat => {},
        }
    }

    /// Replace the pad's contents with `t`, caret at the end.
    fn set_contents_str(&mut self, t: &str)
        requires
            old(self).wf(),
            t@.len() < usize::MAX,
        ensures
            final(self).wf(),
            final(self).input@ == pad_holding(t@),
            *final(self) == (App { input: final(self).input, ..*old(self) }),
    {
        self.input.set_contents(t);
    }

    /// Move the stepping highlight to the caret's line.
    fn sync_laat_highlight(&mut self)
        requires
            old(self).wf(),
        ensures
            final(self).wf(),
            *final(self) == (App { laat: laat_synced(old(self).laat, old(self).input@), ..*old(self) }),
    {
        let (row, _col) = self.input.cursor_row_col();
        match self.laat.as_mut() {
            Some(l) => {
                l.highlight = row;
            },
            None => {},
        }
    }

    /// `Up`, by mode.
    fn on_up(&mut self)
        requires
            old(self).wf(),
        ensures
            final(self).wf(),
            up_post(*old(self), *final(self)),
    {
        match self.mode {
            InputMode::Norm => {
                let r = self.history.recall_older();
                match r {
                    Some(t) => {
                        let text = crate::text::string_from_str(t);
                        proof {
                            lemma_recalled_fits(old(self).history@, text@);
                        }
                        self.set_contents_str(text.as_str());
                    },
                    None => {},
                }
            },
            InputMode::Mult | InputMode::Laat => {
                if self.input.caret_on_first_line() {
                    let draft = crate::text::string_from_str(self.input.as_str());
                    let r = self.history.edge_recall_older(draft.as_str());
                    match r {
                        Some(t) => {
                            let text = crate::text::string_from_str(t);
                            self.set_contents_str(text.as_str());
                        },
                        None => {},
                    }
                } else {
                    self.input.caret_line_up();
                }
                self.sync_laat_highlight();
            },
        }
    }
}

/// Stepping state as freshly started: highlight on line 0, nothing flagged
/// or pending.
pub open spec fn fresh_laat(l: LaatState) -> bool {
    l.highlight == 0 && l.failed_lines@ == Set::<usize>::empty() && l.pending is None
}

/// The stepping state after switching from `o` to mode `m`: entering `Laat`
/// starts it fresh, staying in `Laat` keeps it, any other mode drops it.
pub open spec fn laat_after_switch(o: App, n: App, m: InputMode) -> bool {
    match m {
        InputMode::Laat => if o.mode != InputMode::Laat {
            n.laat matches Some(l) && fresh_laat(l)
        } else {
            n.laat == o.laat
        },
        _ => n.laat is None,
    }
}

impl App {
    /// Switch the mode, managing the stepping state.
    fn set_mode(&mut self, m: InputMode)
        requires
            old(self).wf(),
        ensures
            final(self).wf(),
            laat_after_switch(*old(self), *final(self), m),
            *final(self) == (App { mode: m, laat: final(self).laat, ..*old(self) }),
    {
        match m {
            InputMode::Laat => {
                if self.mode != InputMode::Laat {
                    self.laat = Some(LaatState::new());
                }
            },
            _ => {
                self.laat = None;
            },
        }
        self.mode = m;
    }

    /// `Down`, by mode.
    fn on_down(&mut self)
        requires
            old(self).wf(),
        ensures
            final(self).wf(),
            down_post(*old(self), *final(self)),
    {
        match self.mode {
            InputMode::Norm => {
                let r = self.history.recall_newer();
                match r {
                    Some(t) => {
                        let text = crate::text::string_from_str(t);
                        proof {
                            lemma_recalled_fits(old(self).history@, text@);
                        }
                        self.set_contents_str(text.as_str());
                    },
                    None => {},
                }
            },
            InputMode::Mult | InputMode::Laat => {
                if self.input.caret_on_last_line() {
                    let r = self.history.edge_recall_newer();
                    match r {
                        Some(text) => {
                            proof {
                                lemma_recalled_fits(old(self).history@, text@);
                            }
                            self.set_contents_str(text.as_str());
                        },
                        None => {},
                    }
                } else {
                    self.input.caret_line_down();
                }
                self.sync_laat_highlight();
            },
        }
    }

    /// `Esc`, by context.
    fn on_esc(&mut self)
        requires
            old(self).wf(),
        ensures
            final(self).wf(),
            esc_post(*old(self), *final(self)),
    {
        let was = self.esc_pending;
        if was {
            self.notice = None;
        }
        let has_sel = self.selection.range().is_some() || self.input.has_selection();
        let multi = self.input.line_count() > 1;
        match crate::input::selection::esc_action(was, has_sel, multi) {
            crate::input::selection::EscAction::CancelSelection => {
                self.selection.cancel();
                self.input.cancel_selection();
            },
            crate::input::selection::EscAction::ClearCurrentLine => {
                self.input.apply_edit(PadEdit::ClearCurrentLine);
            },
            crate::input::selection::EscAction::ClearWholeBuffer => {
                self.input.clear();
                self.set_mode(InputMode::Norm);
            },
            crate::input::selection::EscAction::Noop => {},
        }
        self.esc_pending = !was;
    }

    /// `Ctrl-C`: copy a selection (input pad first), else interrupt.
    fn on_copy_key(&mut self) -> (effects: Vec<Effect>)
        requires
            old(self).wf(),
        ensures
            final(self).wf(),
            copy_key_post(*old(self), *final(self), effects_view(effects@)),
    {
        let mut effects: Vec<Effect> = Vec::new();
        assert(effects_view(effects@) =~= Seq::<EffectView>::empty());
        if self.input.has_selection() {
            match self.input.selected_text() {
                Some(text) => {
                    proof {
                        assert(text@ == selected_text_of(old(self).input@));
                        assert(Seq::<EffectView>::empty().push(EffectView::SendInterrupt) =~= seq![EffectView::SendInterrupt]);
                    }
                    if self.deliver_copy(text, &mut effects) {
                        proof {
                            reveal_strlit("copied selection");
                        }
                        self.notice = Some(crate::text::string_from_str("copied selection"));
                    }
                },
                None => {},
            }
            self.input.cancel_selection();
            proof {
                if effects@.len() == 1 {
                    assert(effects_view(effects@) =~= seq![effects@[0]@]);
                }
            }
            effects
        } else {
            match self.selection.ctrl_c() {
                crate::selection::Trigger::Copy(a, b) => {
                    effects.push(Effect::CopyCells(a, b));
                },
                crate::selection::Trigger::Sigint => {
                    effects.push(Effect::SendInterrupt);
                },
                crate::selection::Trigger::ContextMenu => {},
            }
            proof {
                if effects@.len() == 1 {
                    assert(effects_view(effects@) =~= seq![effects@[0]@]);
                }
            }
            effects
        }
    }
}

/// `n`'s transcript is `o`'s scrolled to `off`, all else unchanged.
pub open spec fn scrolled_post(o: App, n: App, off: nat) -> bool {
    &&& n.transcript.scroll_spec() == off
    &&& n.transcript.blocks_seq() == o.transcript.blocks_seq()
    &&& n.transcript.caps_spec() == o.transcript.caps_spec()
    &&& n.transcript.viewport_spec() == o.transcript.viewport_spec()
    &&& n.transcript.max_scroll_spec() == o.transcript.max_scroll_spec()
    &&& n.transcript.next_id_spec() == o.transcript.next_id_spec()
    &&& n == (App { transcript: n.transcript, ..o })
}

/// The mode `ToggleMultLaat` switches to.
pub open spec fn toggled_spec(mode: InputMode, multiline: bool) -> InputMode {
    match mode {
        InputMode::Norm => InputMode::Mult,
        InputMode::Mult => if multiline {
            InputMode::Laat
        } else {
            InputMode::Mult
        },
        InputMode::Laat => InputMode::Mult,
    }
}

/// `n` is `o` switched to mode `m`.
pub open spec fn switched_post(o: App, n: App, m: InputMode) -> bool {
    laat_after_switch(o, n, m) && n == (App { mode: m, laat: n.laat, ..o })
}

/// The last row of the newest retained block that covers any rows.
pub open spec fn last_output_row(bs: Seq<Block>) -> Option<StableRowIndex>
    decreases bs.len(),
{
    if bs.len() == 0 {
        None
    } else if bs.last().row_range.start < bs.last().row_range.end {
        Some((bs.last().row_range.end - 1) as isize)
    } else {
        last_output_row(bs.drop_last())
    }
}

/// The text of the block covering `row`: its output, or its command line
/// and output.
pub open spec fn block_text_at(bs: Seq<Block>, row: StableRowIndex, with_cmd: bool) -> Option<Seq<char>> {
    match index_covering(bs, row) {
        Some(i) => match index_of_id(bs, bs[i].id) {
            Some(j) => Some(
                if with_cmd {
                    with_command(bs[j].command@, bs[j].output@.0)
                } else {
                    lossy_utf8(bs[j].output@.0)
                },
            ),
            None => None,
        },
        None => None,
    }
}

/// Copying the block covering `row`, with or without its command line.
pub open spec fn copy_block_post(o: App, n: App, row: StableRowIndex, with_cmd: bool, effs: Seq<EffectView>) -> bool {
    &&& match block_text_at(o.store.blocks_seq(), row, with_cmd) {
        Some(t) => copy_post(
            o,
            t,
            if with_cmd { "copied block (with command)"@ } else { "copied block output"@ },
            n.notice,
            effs,
        ),
        None => effs.len() == 0 && notice_is(n.notice, "copy failed: block unavailable"@),
    }
    &&& n == (App { notice: n.notice, ..o })
}

/// The view of optional stepping state: highlight, flagged lines, pending
/// line.
pub open spec fn laat_view(l: Option<LaatState>) -> Option<(usize, Set<usize>, Option<usize>)> {
    match l {
        Some(s) => Some((s.highlight, s.failed_lines@, s.pending)),
        None => None,
    }
}

/// A copy of optional stepping state.
fn copy_laat(l: &Option<LaatState>) -> (r: Option<LaatState>)
    ensures
        laat_view(r) == laat_view(*l),
{
    match l {
        Some(s) => Some(LaatState { highlight: s.highlight, failed_lines: s.failed_lines.clone(), pending: s.pending }),
        None => None,
    }
}

/// Pushing the composing input: with the slot free, the buffer, caret,
/// mode, stash and stepping state are saved and the pad starts empty in
/// `Norm`; with the slot taken, nothing happens.
pub open spec fn push_post(o: App, n: App) -> bool {
    if o.pushed is Some {
        n == o
    } else {
        &&& n.pushed matches Some(sn) && sn.buffer@ == o.input@.0 && sn.cursor == o.input@.1
            && sn.mode == o.mode && laat_view(sn.laat) == laat_view(o.laat) && match sn.stash {
            Some(d) => Some(d@),
            None => None,
        } == o.history@.2
        &&& n.input@ == (Seq::<char>::empty(), 0nat, None::<InputSelection>)
        &&& n.history@ == (o.history@.0, o.history@.1, None::<Seq<char>>)
        &&& n == (App {
            pushed: n.pushed,
            input: n.input,
            history: n.history,
            mode: InputMode::Norm,
            laat: None,
            ..o
        })
    }
}

/// The pad edit an action stands for, and whether it also cancels the
/// transcript selection (so at most one pad is ever selected).
pub open spec fn action_edit(a: Action) -> Option<(PadEdit, bool)> {
    match a {
        Action::LineMoveStart => Some((PadEdit::LineMoveStart, false)),
        Action::LineMoveEnd => Some((PadEdit::LineMoveEnd, false)),
        Action::WordMoveLeft => Some((PadEdit::WordMoveLeft, false)),
        Action::WordMoveRight => Some((PadEdit::WordMoveRight, false)),
        Action::SelectCharLeft => Some((PadEdit::SelectCharLeft, true)),
        Action::SelectCharRight => Some((PadEdit::SelectCharRight, true)),
        Action::SelectWordLeft => Some((PadEdit::SelectWordLeft, true)),
        Action::SelectWordRight => Some((PadEdit::SelectWordRight, true)),
        Action::KillToLineStart => Some((PadEdit::KillToLineStart, false)),
        Action::KillToLineEnd => Some((PadEdit::KillToLineEnd, false)),
        Action::DeleteWordBefore => Some((PadEdit::DeleteWordBefore, false)),
        Action::InsertNewline => Some((PadEdit::InsertNewline, false)),
        _ => None,
    }
}

/// Carrying out a bound action.
pub open spec fn dispatch_post(o: App, n: App, a: Action, effs: Seq<EffectView>) -> bool {
    match action_edit(a) {
        Some((e, true)) => {
            &&& effs.len() == 0
            &&& n.selection@ == (SelState::Idle, o.selection@.1, o.selection@.2)
            &&& n.input@ == edit_spec(o.input@, e)
            &&& n == (App { input: n.input, selection: n.selection, ..o })
        },
        Some((e, false)) => effs.len() == 0 && edit_post(o, n, e),
        None => match a {
            Action::ScrollPageUp => effs.len() == 0 && scrolled_post(
                o,
                n,
                min_nat(
                    sat_add(
                        o.transcript.scroll_spec(),
                        page_step(o.transcript.viewport_spec(), o.config.scroll.context_lines as nat),
                    ),
                    o.transcript.max_scroll_spec(),
                ),
            ),
            Action::ScrollPageDown => effs.len() == 0 && scrolled_post(
                o,
                n,
                if o.transcript.scroll_spec() >= page_step(
                    o.transcript.viewport_spec(),
                    o.config.scroll.context_lines as nat,
                ) {
                    (o.transcript.scroll_spec() - page_step(
                        o.transcript.viewport_spec(),
                        o.config.scroll.context_lines as nat,
                    )) as nat
                } else {
                    0
                },
            ),
            Action::ScrollLineUp => effs.len() == 0 && scrolled_post(
                o,
                n,
                sat_add(o.transcript.scroll_spec(), 1),
            ),
            Action::ScrollLineDown => effs.len() == 0 && scrolled_post(
                o,
                n,
                if o.transcript.scroll_spec() >= 1 {
                    (o.transcript.scroll_spec() - 1) as nat
                } else {
                    0
                },
            ),
            Action::ScrollToTop => effs.len() == 0 && scrolled_post(o, n, o.transcript.max_scroll_spec()),
            Action::ScrollToBottom => effs.len() == 0 && scrolled_post(o, n, 0),
            Action::CopyCurrentLine => effs == seq![EffectView::CopyLastVisibleLine] && n == o,
            Action::CopyBlockWithoutCommand => match last_output_row(o.store.blocks_seq()) {
                Some(row) => copy_block_post(o, n, row, false, effs),
                None => effs.len() == 0 && notice_is(n.notice, "copy failed: no block output"@)
                    && n == (App { notice: n.notice, ..o }),
            },
            Action::ToggleMultLaat => effs.len() == 0 && switched_post(
                o,
                n,
                toggled_spec(o.mode, line_count_of(o.input@.0) > 1),
            ),
            Action::PushInput => effs.len() == 0 && push_post(o, n),
            _ => effs.len() == 0 && n == o,
        },
    }
}

impl App {
    /// Copy the block covering `row`, with or without its command line.
    fn copy_block(&mut self, row: StableRowIndex, with_cmd: bool, effects: &mut Vec<Effect>)
        requires
            old(self).wf(),
            old(effects)@.len() == 0,
        ensures
            final(self).wf(),
            copy_block_post(*old(self), *final(self), row, with_cmd, effects_view(final(effects)@)),
    {
        proof {
            assert(effects_view(effects@) =~= Seq::<EffectView>::empty());
            reveal_strlit("copied block (with command)");
            reveal_strlit("copied block output");
            reveal_strlit("copy failed: block unavailable");
        }
        let text = match self.store.block_at_row(row) {
            Some(id) => if with_cmd {
                self.store.text_with_command(id)
            } else {
                self.store.text(id)
            },
            None => None,
        };
        match text {
            Some(t) => {
                if self.deliver_copy(t, effects) {
                    let msg = if with_cmd {
                        "copied block (with command)"
                    } else {
                        "copied block output"
                    };
                    self.notice = Some(crate::text::string_from_str(msg));
                }
                proof {
                    if effects@.len() == 1 {
                        assert(effects_view(effects@) =~= seq![effects@[0]@]);
                    }
                }
            },
            None => {
                self.notice = Some(crate::text::string_from_str("copy failed: block unavailable"));
            },
        }
    }

    /// Copy the output of the block covering stable `row`, with its command
    /// line.
    pub fn copy_block_with_command(&mut self, row: StableRowIndex) -> (effects: Vec<Effect>)
        requires
            old(self).wf(),
        ensures
            final(self).wf(),
            copy_block_post(*old(self), *final(self), row, true, effects_view(effects@)),
    {
        let mut effects: Vec<Effect> = Vec::new();
        self.copy_block(row, true, &mut effects);
        effects
    }

    /// Copy the output of the block covering stable `row`, without its
    /// command line.
    pub fn copy_block_without_command(&mut self, row: StableRowIndex) -> (effects: Vec<Effect>)
        requires
            old(self).wf(),
        ensures
            final(self).wf(),
            copy_block_post(*old(self), *final(self), row, false, effects_view(effects@)),
    {
        let mut effects: Vec<Effect> = Vec::new();
        self.copy_block(row, false, &mut effects);
        effects
    }

    /// The last row of the newest block that covers any rows.
    fn last_output_row(&self) -> (r: Option<StableRowIndex>)
        ensures
            r == last_output_row(self.store.blocks_seq()),
    {
        let blocks = self.store.iter();
        let mut i = blocks.len();
        assert(self.store.blocks_seq().subrange(0, i as int) =~= self.store.blocks_seq());
        while i > 0
            invariant
                i <= blocks@.len() == self.store.blocks_seq().len(),
                forall|k: int| 0 <= k < blocks@.len() ==> *#[trigger] blocks@[k] == self.store.blocks_seq()[k],
                last_output_row(self.store.blocks_seq()) == last_output_row(
                    self.store.blocks_seq().subrange(0, i as int),
                ),
            decreases i,
        {
            let b = blocks[i - 1];
            let ghost sub = self.store.blocks_seq().subrange(0, i as int);
            assert(sub.last() == *b);
            assert(sub.drop_last() =~= self.store.blocks_seq().subrange(0, i - 1));
            if b.row_range.start < b.row_range.end {
                return Some(b.row_range.end - 1);
            }
            i = i - 1;
        }
        None
    }

    /// Push the composing input onto the one-item stack.
    fn push_input(&mut self)
        requires
            old(self).wf(),
        ensures
            final(self).wf(),
            push_post(*old(self), *final(self)),
    {
        if self.pushed.is_some() {
            return;
        }
        let stash = match self.history.stash() {
            Some(d) => Some(crate::text::string_from_str(d)),
            None => None,
        };
        proof {
            self.input.lemma_wf_bounds();
        }
        let snapshot = InputSnapshot::capture(&self.input, self.mode, stash, copy_laat(&self.laat));
        self.pushed = Some(snapshot);
        self.input.clear();
        self.history.set_stash(None);
        self.set_mode(InputMode::Norm);
    }

    /// Carry out a bound action.
    fn dispatch_action(&mut self, action: Action) -> (effects: Vec<Effect>)
        requires
            old(self).wf(),
        ensures
            final(self).wf(),
            dispatch_post(*old(self), *final(self), action, effects_view(effects@)),
    {
        let mut effects: Vec<Effect> = Vec::new();
        proof {
            assert(effects_view(effects@) =~= Seq::<EffectView>::empty());
        }
        match action {
            Action::LineMoveStart => self.edit(PadEdit::LineMoveStart),
            Action::LineMoveEnd => self.edit(PadEdit::LineMoveEnd),
            Action::WordMoveLeft => self.edit(PadEdit::WordMoveLeft),
            Action::WordMoveRight => self.edit(PadEdit::WordMoveRight),
            Action::SelectCharLeft => {
                self.selection.cancel();
                self.input.apply_edit(PadEdit::SelectCharLeft);
            },
            Action::SelectCharRight => {
                self.selection.cancel();
                self.input.apply_edit(PadEdit::SelectCharRight);
            },
            Action::SelectWordLeft => {
                self.selection.cancel();
                self.input.apply_edit(PadEdit::SelectWordLeft);
            },
            Action::SelectWordRight => {
                self.selection.cancel();
                self.input.apply_edit(PadEdit::SelectWordRight);
            },
            Action::KillToLineStart => self.edit(PadEdit::KillToLineStart),
            Action::KillToLineEnd => self.edit(PadEdit::KillToLineEnd),
            Action::DeleteWordBefore => self.edit(PadEdit::DeleteWordBefore),
            Action::InsertNewline => self.edit(PadEdit::InsertNewline),
            Action::ScrollPageUp => self.transcript.scroll_page_up(self.config.scroll.context_lines),
            Action::ScrollPageDown => self.transcript.scroll_page_down(self.config.scroll.context_lines),
            Action::ScrollLineUp => self.transcript.scroll_up(1),
            Action::ScrollLineDown => self.transcript.scroll_down(1),
            Action::ScrollToTop => self.transcript.scroll_to_top(),
            Action::ScrollToBottom => self.transcript.scroll_to_bottom(),
            Action::CopyCurrentLine => {
                effects.push(Effect::CopyLastVisibleLine);
                proof {
                    assert(effects_view(effects@) =~= seq![EffectView::CopyLastVisibleLine]);
                }
            },
            Action::CopyBlockWithoutCommand => {
                match self.last_output_row() {
                    Some(row) => self.copy_block(row, false, &mut effects),
                    None => {
                        proof {
                            reveal_strlit("copy failed: no block output");
                        }
                        self.notice = Some(crate::text::string_from_str("copy failed: no block output"));
                    },
                }
            },
            Action::ClearStatusMessage | Action::MultilineMoveStartBuffer
            | Action::MultilineMoveEndBuffer => {},
            Action::ToggleMultLaat => {
                let multiline = self.input.line_count() > 1;
                let m = self.mode.toggled_mult_laat(multiline);
                self.set_mode(m);
            },
            Action::PushInput => self.push_input(),
        }
        effects
    }
}

/// `nt` is `ot` with a fresh block for `label` begun (and the oldest
/// blocks evicted past the caps).
pub open spec fn transcript_began(ot: Transcript, nt: Transcript, label: Seq<char>) -> bool {
    let id = ot.next_id_spec();
    let caps = ot.caps_spec();
    &&& nt.next_id_spec() == id + 1
    &&& exists|b: Block|
        #![trigger b.is_fresh(id, label, caps.per_block_bytes as nat, caps.per_block_lines as nat)]
        b.is_fresh(id, label, caps.per_block_bytes as nat, caps.per_block_lines as nat)
            && nt.blocks_seq() == enforce_transcript_caps(ot.blocks_seq().push(b), caps)
}

/// `ns` is `os` with a fresh block for `label`, run in `cwd`, begun (and the
/// oldest evicted past the cap).
pub open spec fn store_began(os: BlockStore, ns: BlockStore, label: Seq<char>, cwd: String) -> bool {
    let id = os.next_id_spec();
    &&& ns.next_id_spec() == id + 1
    &&& exists|b: Block|
        #![trigger b.is_fresh(id, label, os.per_block_bytes_spec(), os.per_block_lines_spec())]
        b.is_fresh(id, label, os.per_block_bytes_spec(), os.per_block_lines_spec())
            && ns.blocks_seq() == keep_newest(
            os.blocks_seq().push(Block { cwd: Some(cwd), ..b }),
            os.cap_spec(),
        )
    &&& ns.cap_spec() == os.cap_spec()
    &&& ns.per_block_bytes_spec() == os.per_block_bytes_spec()
    &&& ns.per_block_lines_spec() == os.per_block_lines_spec()
}

/// `ns` is `bs` with block `id` given `out` as output and closed with exit
/// code 0 (when `id` is still there).
pub open spec fn recorded_in(bs: Seq<Block>, ns: Seq<Block>, id: BlockId, out: Seq<u8>) -> bool {
    match index_of_id(bs, id) {
        Some(i) => {
            &&& ns.len() == bs.len()
            &&& forall|k: int| 0 <= k < bs.len() && k != i ==> #[trigger] ns[k] == bs[k]
            &&& exists|b2: Block| #[trigger] bs[i].output_pushed(&b2, out) && b2.closed_as(&ns[i], Some(0i32))
        },
        None => ns == bs,
    }
}

/// `nt` is `ot` with a closed block echoing `command` and holding `output`
/// recorded (while block ids last).
pub open spec fn synthetic_recorded(ot: Transcript, nt: Transcript, command: Seq<char>, output: Seq<char>) -> bool {
    if ot.next_id_spec() < u64::MAX {
        let id = ot.next_id_spec();
        let caps = ot.caps_spec();
        &&& nt.next_id_spec() == id + 1
        &&& exists|b: Block|
            #![trigger b.is_fresh(id, command, caps.per_block_bytes as nat, caps.per_block_lines as nat)]
            b.is_fresh(id, command, caps.per_block_bytes as nat, caps.per_block_lines as nat)
                && recorded_in(
                enforce_transcript_caps(ot.blocks_seq().push(b), caps),
                nt.blocks_seq(),
                id,
                vstd::utf8::encode_utf8(output),
            )
    } else {
        nt.blocks_seq() == ot.blocks_seq() && nt.next_id_spec() == ot.next_id_spec()
    }
}

/// The transcript's blocks are as they were.
pub open spec fn blocks_kept(o: App, n: App) -> bool {
    n.transcript.blocks_seq() == o.transcript.blocks_seq() && n.transcript.next_id_spec()
        == o.transcript.next_id_spec()
}

/// The store, the running blocks and the processor are as they were.
pub open spec fn shell_state_kept(o: App, n: App) -> bool {
    &&& n.store == o.store
    &&& n.current_block == o.current_block
    &&& n.current_store_block == o.current_store_block
    &&& n.processor == o.processor
}

/// A synthetic block echoing `command` with `output` was painted and
/// recorded.
pub open spec fn painted(o: App, n: App, command: Seq<char>, output: Seq<char>, effs: Seq<EffectView>) -> bool {
    effs == seq![EffectView::PaintSynthetic(command, output)] && synthetic_recorded(
        o.transcript,
        n.transcript,
        command,
        output,
    )
}

/// `s` padded with spaces on the right to `w` chars.
pub open spec fn pad_right(s: Seq<char>, w: nat) -> Seq<char> {
    if s.len() >= w {
        s
    } else {
        s + Seq::new((w - s.len()) as nat, |_i: int| ' ')
    }
}

/// The `/keys` lines: keys padded to 14 columns, then the action name.
pub open spec fn key_lines(rows: Seq<(Seq<char>, Seq<char>)>) -> Seq<char>
    decreases rows.len(),
{
    if rows.len() == 0 {
        Seq::<char>::empty()
    } else {
        key_lines(rows.drop_last()) + "  "@ + pad_right(rows.last().1, 14) + "  "@ + rows.last().0
            + "\n"@
    }
}

/// The keymap of the default mode.
pub open spec fn norm_keymap(k: Keymaps) -> Keymap {
    match mode_index(k.modes_spec(), DEFAULT_MODE@) {
        Some(i) => k.modes_spec()[i].1,
        None => k.default_spec(),
    }
}

/// The `/keys` body for keymap `km`.
pub open spec fn keys_text(km: Keymap) -> Seq<char> {
    "Active key bindings:\n\n"@ + key_lines(
        keymap_rows(km.entries()).push((Action::ClearStatusMessage.name_spec(), "Esc Esc"@)),
    )
}

/// What the slash command `cmd` leaves behind, and its effects.
pub open spec fn slash_outcome(o: App, n: App, cmd: Seq<char>, effs: Seq<EffectView>) -> bool {
    let l = o.config.leader_char;
    &&& shell_state_kept(o, n)
    &&& match command_named(trim(cmd)) {
        Some(SlashCommand::Help) => painted(o, n, seq![l] + "help"@, help_spec(l), effs)
            && n.config == o.config && n.should_quit == o.should_quit,
        Some(SlashCommand::Clear) => effs == seq![EffectView::ClearGrid]
            && n.transcript.blocks_seq() == Seq::<Block>::empty()
            && n.transcript.next_id_spec() == o.transcript.next_id_spec() && n.config == o.config
            && n.should_quit == o.should_quit,
        Some(SlashCommand::Quit) => effs.len() == 0 && blocks_kept(o, n) && n.config == o.config
            && n.should_quit,
        Some(SlashCommand::Status) => n.config == (Config {
            status: crate::config::Status { enabled: !o.config.status.enabled },
            ..o.config
        }) && painted(
            o,
            n,
            seq![l] + "status"@,
            if !o.config.status.enabled {
                "Status bar enabled.\n"@
            } else {
                "Status bar disabled.\n"@
            },
            effs,
        ) && n.should_quit == o.should_quit,
        Some(SlashCommand::Keys) => painted(o, n, seq![l] + "keys"@, keys_text(norm_keymap(o.keymaps)), effs)
            && n.config == o.config && n.should_quit == o.should_quit,
        Some(SlashCommand::ReloadConfig) => effs == seq![EffectView::ReloadConfig] && blocks_kept(o, n)
            && n.config == o.config && n.should_quit == o.should_quit,
        None => n.config == o.config && n.should_quit == o.should_quit && exists|t: Seq<char>|
            #![trigger is_first_token(t, trim(cmd))]
            is_first_token(t, trim(cmd)) && painted(o, n, seq![l] + t, unknown_spec(t, l), effs),
    }
}

/// Running `command` in the shell under the block title `label`: blocks
/// begun in the transcript and the store, capture armed, the command sent.
pub open spec fn started_post(o: App, n: App, label: Seq<char>, command: Seq<char>, effs: Seq<EffectView>) -> bool {
    &&& effs == seq![EffectView::SendCommand(command)]
    &&& if o.transcript.next_id_spec() < u64::MAX && o.store.next_id_spec() < u64::MAX {
        &&& transcript_began(o.transcript, n.transcript, label)
        &&& store_began(o.store, n.store, label, o.cwd)
        &&& n.current_block == Some(o.transcript.next_id_spec())
        &&& n.current_store_block == Some(o.store.next_id_spec())
        &&& n.processor.wf()
        &&& n.processor.capturing_spec() == (o.processor.mode_spec() == BoundaryMode::Sentinel)
        &&& n.processor.mode_spec() == o.processor.mode_spec()
        &&& n.processor.alt_screen_spec() == o.processor.alt_screen_spec()
        &&& n.processor.sentinel_spec() == o.processor.sentinel_spec()
    } else {
        blocks_kept(o, n) && shell_state_kept(o, n)
    }
}

/// What a line for the shell leaves behind: an empty line just advances the
/// prompt; anything else runs as a command in a new block.
pub open spec fn shell_outcome(o: App, n: App, lit: Seq<char>, effs: Seq<EffectView>) -> bool {
    &&& n.config == o.config
    &&& n.should_quit == o.should_quit
    &&& if lit.len() == 0 {
        effs == seq![EffectView::WriteInput(seq![10u8])] && blocks_kept(o, n) && shell_state_kept(o, n)
    } else {
        started_post(o, n, lit, lit, effs)
    }
}

/// Running a submitted `line`: it joins the history (when not empty), the
/// transcript returns to the newest output, the selection clears, and the
/// line goes where its leader routes it.
pub open spec fn routed_post(o: App, n: App, line: Seq<char>, effs: Seq<EffectView>) -> bool {
    let (slash, text) = route_spec(line, o.config.leader_char);
    &&& n.history@.0 == if line.len() == 0 {
        o.history@.0
    } else {
        o.history@.0.push(line)
    }
    &&& n.history@.1 is None
    &&& n.selection@ == (SelState::Idle, o.selection@.1, o.selection@.2)
    &&& n.transcript.scroll_spec() == 0
    &&& n.transcript.caps_spec() == o.transcript.caps_spec()
    &&& n.transcript.viewport_spec() == o.transcript.viewport_spec()
    &&& n.transcript.max_scroll_spec() == o.transcript.max_scroll_spec()
    &&& n.last_exit == o.last_exit
    &&& n.cwd == o.cwd
    &&& n.keymaps == o.keymaps
    &&& n.esc_pending == o.esc_pending
    &&& n.passthrough == o.passthrough
    &&& if slash {
        slash_outcome(o, n, text, effs)
    } else {
        shell_outcome(o, n, text, effs)
    }
}

/// A block pushed with an id above every other is the one its id finds
/// after the caps are applied.
proof fn lemma_pushed_block_found(bs: Seq<Block>, b: Block, caps: Caps)
    requires
        forall|k: int| 0 <= k < bs.len() ==> #[trigger] bs[k].id < b.id,
    ensures
        index_of_id(enforce_transcript_caps(bs.push(b), caps), b.id) matches Some(i)
            ==> enforce_transcript_caps(bs.push(b), caps)[i] == b,
{
    let all = bs.push(b);
    lemma_transcript_caps(all, caps);
    let r = enforce_transcript_caps(all, caps);
    lemma_index_of_id(r, b.id);
    if let Some(i) = index_of_id(r, b.id) {
        let k = all.len() - r.len() + i;
        assert(r[i] == all[k]);
        if k < bs.len() {
            assert(all[k] == bs[k]);
        }
    }
}

/// Replacing the block that id `id` finds by one with the same id keeps
/// `id` finding it.
proof fn lemma_index_kept(bs: Seq<Block>, i: int, b: Block)
    requires
        index_of_id(bs, b.id) == Some(i),
    ensures
        index_of_id(bs.update(i, b), b.id) == Some(i),
{
    lemma_index_of_id(bs, b.id);
    let u = bs.update(i, b);
    assert forall|k: int| 0 <= k < i implies #[trigger] u[k].id != b.id by {
        assert(u[k] == bs[k]);
    }
    lemma_index_of_id_unique(u, b.id, i);
}

impl App {
    /// Paint and record a block echoing `command` with `output`, as if a
    /// command had printed it.
    fn synthetic_block(&mut self, command: String, output: String) -> (effects: Vec<Effect>)
        requires
            old(self).wf(),
        ensures
            final(self).wf(),
            painted(*old(self), *final(self), command@, output@, effects_view(effects@)),
            final(self).transcript.scroll_spec() == old(self).transcript.scroll_spec(),
            final(self).transcript.caps_spec() == old(self).transcript.caps_spec(),
            final(self).transcript.viewport_spec() == old(self).transcript.viewport_spec(),
            final(self).transcript.max_scroll_spec() == old(self).transcript.max_scroll_spec(),
            *final(self) == (App { transcript: final(self).transcript, ..*old(self) }),
    {
        let mut effects: Vec<Effect> = Vec::new();
        effects.push(
            Effect::PaintSynthetic {
                command: crate::text::string_from_str(command.as_str()),
                output: crate::text::string_from_str(output.as_str()),
            },
        );
        proof {
            assert(effects_view(effects@) =~= seq![EffectView::PaintSynthetic(command@, output@)]);
        }
        if !self.transcript.can_begin() {
            return effects;
        }
        let ghost t0 = self.transcript;
        let ghost cmd = command@;
        proof {
            t0.lemma_ids_below_next();
        }
        let id = self.transcript.begin_block(command);
        let ghost t1 = self.transcript;
        let ghost caps = t0.caps_spec();
        let ghost fresh = choose|b: Block|
            #![trigger b.is_fresh(id, cmd, caps.per_block_bytes as nat, caps.per_block_lines as nat)]
            b.is_fresh(id, cmd, caps.per_block_bytes as nat, caps.per_block_lines as nat)
                && t1.blocks_seq() == enforce_transcript_caps(t0.blocks_seq().push(b), caps);
        proof {
            lemma_pushed_block_found(t0.blocks_seq(), fresh, caps);
        }
        let bytes = output.as_str().as_bytes();
        let ghost blen = bytes@.len();
        assert(blen == bytes.len());
        match self.transcript.block_mut(id) {
            Some(b) => {
                proof {
                    lemma_index_of_id(t1.blocks_seq(), id);
                    assert(fresh.id == id);
                    assert(*b == fresh);
                    assert(b.output@.0.len() == 0);
                }
                b.push_output(bytes);
            },
            None => {},
        }
        let ghost t2 = self.transcript;
        proof {
            match index_of_id(t1.blocks_seq(), id) {
                Some(i) => {
                    lemma_index_of_id(t1.blocks_seq(), id);
                    lemma_index_kept(t1.blocks_seq(), i, t2.blocks_seq()[i]);
                    crate::session::lemma_replace_block(&t1, &t2, i);
                },
                None => {},
            }
        }
        self.transcript.close_block(id, Some(0));
        proof {
            let out = vstd::utf8::encode_utf8(output@);
            assert(recorded_in(t1.blocks_seq(), self.transcript.blocks_seq(), id, out)) by {
                match index_of_id(t1.blocks_seq(), id) {
                    Some(i) => {
                        let b2 = t2.blocks_seq()[i];
                        assert(t1.blocks_seq()[i].output_pushed(&b2, out));
                        assert forall|k: int| 0 <= k < t1.blocks_seq().len() && k != i implies
                            #[trigger] self.transcript.blocks_seq()[k] == t1.blocks_seq()[k] by {
                            assert(t2.blocks_seq()[k] == t1.blocks_seq()[k]);
                        }
                    },
                    None => {},
                }
            }
        }
        effects
    }

    /// The `/keys` body: every binding of the default mode.
    fn keys_body(&self) -> (s: String)
        ensures
            s@ == keys_text(norm_keymap(self.keymaps)),
    {
        let rows = self.keymaps.for_mode(DEFAULT_MODE).listing();
        let ghost rv = rows_view(rows@);
        let mut s = String::new();
        proof {
            reveal_strlit("Active key bindings:\n\n");
            reveal_strlit("  ");
            reveal_strlit("\n");
        }
        s.append("Active key bindings:\n\n");
        let mut i: usize = 0;
        while i < rows.len()
            invariant
                i <= rows@.len(),
                rv == rows_view(rows@),
                rv.len() == rows@.len(),
                s@ == "Active key bindings:\n\n"@ + key_lines(rv.subrange(0, i as int)),
            decreases rows.len() - i,
        {
            let name = &rows[i].0;
            let keys = &rows[i].1;
            assert(rv[i as int] == (name@, keys@));
            let ghost before = s@;
            s.append("  ");
            s.append(keys.as_str());
            let n = keys.unicode_len();
            let mut k = n;
            while k < 14
                invariant
                    n == keys@.len(),
                    n <= k <= 14 || (k == n && n >= 14),
                    s@ == before + "  "@ + keys@ + Seq::new((k - n) as nat, |_j: int| ' '),
                decreases 14 - k,
            {
                crate::text::string_push(&mut s, ' ');
                k = k + 1;
                assert(s@ =~= before + "  "@ + keys@ + Seq::new((k - n) as nat, |_j: int| ' '));
            }
            proof {
                if n >= 14 {
                    assert(Seq::new((k - n) as nat, |_j: int| ' ') =~= Seq::<char>::empty());
                    assert(pad_right(keys@, 14) == keys@);
                } else {
                    assert(k == 14);
                }
                assert(s@ =~= before + "  "@ + pad_right(keys@, 14));
            }
            s.append("  ");
            s.append(name.as_str());
            s.append("\n");
            proof {
                let sub = rv.subrange(0, i + 1);
                assert(sub.drop_last() =~= rv.subrange(0, i as int));
                assert(sub.last() == (name@, keys@));
                assert(s@ =~= "Active key bindings:\n\n"@ + key_lines(sub));
            }
            i = i + 1;
        }
        proof {
            assert(rv.subrange(0, rv.len() as int) =~= rv);
        }
        s
    }

    /// The leader followed by `name`.
    fn led(&self, name: &str) -> (s: String)
        ensures
            s@ == seq![self.config.leader_char] + name@,
    {
        let mut s = String::new();
        crate::text::string_push(&mut s, self.config.leader_char);
        s.append(name);
        proof {
            assert(s@ =~= seq![self.config.leader_char] + name@);
        }
        s
    }

    /// Carry out the slash command `command` (leader stripped).
    fn run_slash(&mut self, command: &str) -> (effects: Vec<Effect>)
        requires
            old(self).wf(),
        ensures
            final(self).wf(),
            slash_outcome(*old(self), *final(self), command@, effects_view(effects@)),
            final(self).transcript.scroll_spec() == if command_named(trim(command@)) == Some(SlashCommand::Clear) {
                0
            } else {
                old(self).transcript.scroll_spec()
            },
            final(self).transcript.caps_spec() == old(self).transcript.caps_spec(),
            final(self).transcript.viewport_spec() == old(self).transcript.viewport_spec(),
            final(self).transcript.max_scroll_spec() == old(self).transcript.max_scroll_spec(),
            *final(self) == (App {
                transcript: final(self).transcript,
                config: final(self).config,
                should_quit: final(self).should_quit,
                ..*old(self)
            }),
    {
        let leader = self.config.leader_char;
        proof {
            reveal_strlit("help");
            reveal_strlit("status");
            reveal_strlit("keys");
            reveal_strlit("Status bar enabled.\n");
            reveal_strlit("Status bar disabled.\n");
        }
        match crate::slash::dispatch(command) {
            Dispatch::Command(SlashCommand::Help) => {
                let text = crate::slash::builtins::help_text(leader);
                let title = self.led("help");
                self.synthetic_block(title, text)
            },
            Dispatch::Command(SlashCommand::Clear) => {
                self.transcript.clear();
                let mut effects: Vec<Effect> = Vec::new();
                effects.push(Effect::ClearGrid);
                proof {
                    assert(effects_view(effects@) =~= seq![EffectView::ClearGrid]);
                }
                effects
            },
            Dispatch::Command(SlashCommand::Quit) => {
                self.should_quit = true;
                let effects: Vec<Effect> = Vec::new();
                effects
            },
            Dispatch::Command(SlashCommand::Status) => {
                self.config.status.enabled = !self.config.status.enabled;
                let body = if self.config.status.enabled {
                    "Status bar enabled.\n"
                } else {
                    "Status bar disabled.\n"
                };
                let title = self.led("status");
                self.synthetic_block(title, crate::text::string_from_str(body))
            },
            Dispatch::Command(SlashCommand::Keys) => {
                let text = self.keys_body();
                let title = self.led("keys");
                self.synthetic_block(title, text)
            },
            Dispatch::Command(SlashCommand::ReloadConfig) => {
                let mut effects: Vec<Effect> = Vec::new();
                effects.push(Effect::ReloadConfig);
                proof {
                    assert(effects_view(effects@) =~= seq![EffectView::ReloadConfig]);
                }
                effects
            },
            Dispatch::Unknown(name) => {
                let text = crate::slash::builtins::unknown_text(name.as_str(), leader);
                let title = self.led(name.as_str());
                self.synthetic_block(title, text)
            },
        }
    }

    /// Run `command` in the shell under the block title `label`.
    fn run_shell_labeled(&mut self, label: String, command: String) -> (effects: Vec<Effect>)
        requires
            old(self).wf(),
        ensures
            final(self).wf(),
            started_post(*old(self), *final(self), label@, command@, effects_view(effects@)),
            final(self).transcript.scroll_spec() == old(self).transcript.scroll_spec(),
            final(self).transcript.caps_spec() == old(self).transcript.caps_spec(),
            final(self).transcript.viewport_spec() == old(self).transcript.viewport_spec(),
            final(self).transcript.max_scroll_spec() == old(self).transcript.max_scroll_spec(),
            *final(self) == (App {
                transcript: final(self).transcript,
                store: final(self).store,
                current_block: final(self).current_block,
                current_store_block: final(self).current_store_block,
                processor: final(self).processor,
                ..*old(self)
            }),
    {
        if self.transcript.can_begin() && self.store.can_begin() {
            let store_label = crate::text::string_from_str(label.as_str());
            let id = self.transcript.begin_block(label);
            self.current_block = Some(id);
            let cwd = self.cwd.clone();
            let sid = self.store.begin(store_label, Some(cwd));
            self.current_store_block = Some(sid);
            self.processor.begin_command();
        }
        let mut effects: Vec<Effect> = Vec::new();
        effects.push(Effect::SendCommand(command));
        proof {
            assert(effects_view(effects@) =~= seq![EffectView::SendCommand(command@)]);
        }
        effects
    }

    /// Send a line to the shell: an empty line just advances the prompt.
    fn run_shell(&mut self, line: String) -> (effects: Vec<Effect>)
        requires
            old(self).wf(),
        ensures
            final(self).wf(),
            shell_outcome(*old(self), *final(self), line@, effects_view(effects@)),
            final(self).transcript.scroll_spec() == old(self).transcript.scroll_spec(),
            final(self).transcript.caps_spec() == old(self).transcript.caps_spec(),
            final(self).transcript.viewport_spec() == old(self).transcript.viewport_spec(),
            final(self).transcript.max_scroll_spec() == old(self).transcript.max_scroll_spec(),
            *final(self) == (App {
                transcript: final(self).transcript,
                store: final(self).store,
                current_block: final(self).current_block,
                current_store_block: final(self).current_store_block,
                processor: final(self).processor,
                ..*old(self)
            }),
    {
        if line.unicode_len() == 0 {
            let mut effects: Vec<Effect> = Vec::new();
            let mut nl: Vec<u8> = Vec::new();
            nl.push(10u8);
            assert(nl@ =~= seq![10u8]);
            effects.push(Effect::WriteInput(nl));
            proof {
                assert(effects_view(effects@) =~= seq![EffectView::WriteInput(seq![10u8])]);
            }
            return effects;
        }
        let label = crate::text::string_from_str(line.as_str());
        self.run_shell_labeled(label, line)
    }

    /// Run a submitted line: record it, return the transcript to the newest
    /// output, clear the selection, and route it.
    fn run_submission(&mut self, line: String) -> (effects: Vec<Effect>)
        requires
            old(self).wf(),
            line@.len() < usize::MAX,
        ensures
            final(self).wf(),
            routed_post(*old(self), *final(self), line@, effects_view(effects@)),
            final(self).input == old(self).input,
            final(self).mode == old(self).mode,
            final(self).laat == old(self).laat,
            final(self).notice == old(self).notice,
            final(self).pushed == old(self).pushed,
            final(self).history@.2 == old(self).history@.2,
    {
        self.history.push(line.as_str());
        self.transcript.set_scroll_offset(0);
        self.selection.on_command_submit();
        match crate::input::router::route(line.as_str(), self.config.leader_char) {
            Routed::Slash(cmd) => self.run_slash(cmd.as_str()),
            Routed::Shell(lit) => self.run_shell(lit),
        }
    }
}

/// The view of an optional stashed draft.
pub open spec fn stash_view(s: Option<String>) -> Option<Seq<char>> {
    match s {
        Some(d) => Some(d@),
        None => None,
    }
}

/// Whether a submit sends the input pad's selection: it does when the
/// selection spans lines, in any mode.
pub open spec fn sends_selection(o: App) -> bool {
    pad_has_selection(o.input@) && selected_text_of(o.input@).contains('\n')
}

/// The line a submit sends: a multi-line selection; in `Laat` the
/// highlighted line; otherwise the whole buffer without trailing blank
/// lines.
pub open spec fn submitted_line(o: App) -> Seq<char> {
    if sends_selection(o) {
        selected_text_of(o.input@)
    } else if o.mode == InputMode::Laat {
        line_text_from(o.input@.0, 0, o.laat.unwrap().highlight as nat)
    } else {
        strip_blank_tail(o.input@.0)
    }
}

/// The pad, mode and stepping state a submit leaves (before a pushed
/// snapshot comes back): a sent selection is dropped and the buffer kept;
/// `Laat` keeps the buffer and marks the line pending; otherwise the pad
/// empties and `Mult` returns to `Norm`.
pub open spec fn submit_step(o: App) -> (PadView, InputMode, Option<(usize, Set<usize>, Option<usize>)>) {
    if sends_selection(o) {
        ((o.input@.0, o.input@.1, None), o.mode, laat_view(o.laat))
    } else if o.mode == InputMode::Laat {
        let l = o.laat.unwrap();
        (o.input@, o.mode, if l.highlight < usize::MAX {
            Some((l.highlight, l.failed_lines@, Some(l.highlight)))
        } else {
            laat_view(o.laat)
        })
    } else {
        (
            (Seq::<char>::empty(), 0nat, None),
            if o.mode == InputMode::Mult {
                InputMode::Norm
            } else {
                o.mode
            },
            laat_view(o.laat),
        )
    }
}

/// Submitting: the notice clears, the line is sent and routed, and a pushed
/// snapshot, if any, comes back in place of what the submit left.
pub open spec fn submit_post(o: App, n: App, effs: Seq<EffectView>) -> bool {
    let (p1, m1, l1) = submit_step(o);
    &&& routed_post(o, n, submitted_line(o), effs)
    &&& n.notice is None
    &&& n.pushed is None
    &&& match o.pushed {
        Some(sn) => n.input@ == restored(sn.buffer@, sn.cursor as nat) && n.mode == sn.mode
            && n.laat == sn.laat && n.history@.2 == stash_view(sn.stash),
        None => n.input@ == p1 && n.mode == m1 && laat_view(n.laat) == l1 && n.history@.2
            == o.history@.2,
    }
}

/// A key press: every key but `Esc` ends the `Esc Esc` gesture, then the
/// key does what its route says.
pub open spec fn key_post(o: App, n: App, key: KeyEvent, effs: Seq<EffectView>) -> bool {
    let o1 = App { esc_pending: false, ..o };
    match key_route_spec(key, bound_action(o.keymaps, key)) {
        KeyRoute::Esc => effs.len() == 0 && esc_post(o, n),
        KeyRoute::CopyOrInterrupt => copy_key_post(o1, n, effs),
        KeyRoute::Submit => submit_post(o1, n, effs),
        KeyRoute::Edit(e) => effs.len() == 0 && edit_post(o1, n, e),
        KeyRoute::Up => effs.len() == 0 && up_post(o1, n),
        KeyRoute::Down => effs.len() == 0 && down_post(o1, n),
        KeyRoute::Bound(a) => dispatch_post(o1, n, a, effs),
        KeyRoute::Ignore => effs.len() == 0 && n == o1,
    }
}

/// Whether `s` holds a newline.
fn has_newline(s: &str) -> (b: bool)
    ensures
        b == s@.contains('\n'),
{
    let n = s.unicode_len();
    let mut i: usize = 0;
    while i < n
        invariant
            i <= n == s@.len(),
            forall|k: int| 0 <= k < i ==> s@[k] != '\n',
        decreases n - i,
    {
        if s.get_char(i) == '\n' {
            assert(s@[i as int] == '\n');
            return true;
        }
        i = i + 1;
    }
    false
}

impl App {
    /// Restore a pushed snapshot, if any, and free the slot.
    fn pop_input(&mut self)
        requires
            old(self).wf(),
        ensures
            final(self).wf(),
            match old(self).pushed {
                Some(sn) => {
                    &&& final(self).input@ == restored(sn.buffer@, sn.cursor as nat)
                    &&& final(self).history@ == (old(self).history@.0, old(self).history@.1, stash_view(sn.stash))
                    &&& *final(self) == (App {
                        input: final(self).input,
                        history: final(self).history,
                        mode: sn.mode,
                        laat: sn.laat,
                        pushed: None,
                        ..*old(self)
                    })
                },
                None => *final(self) == *old(self),
            },
    {
        let taken = self.pushed.take();
        match taken {
            Some(snapshot) => {
                let (mode, stash, laat) = snapshot.restore(&mut self.input);
                self.history.set_stash(stash);
                self.mode = mode;
                self.laat = laat;
            },
            None => {},
        }
    }

    /// Submit: send the line the mode calls for, then restore any pushed
    /// input.
    fn submit(&mut self) -> (effects: Vec<Effect>)
        requires
            old(self).wf(),
        ensures
            final(self).wf(),
            submit_post(*old(self), *final(self), effects_view(effects@)),
    {
        self.notice = None;
        proof {
            self.input.lemma_wf_bounds();
        }
        let sel = self.input.selected_text();
        let multi_sel = match &sel {
            Some(t) => has_newline(t.as_str()),
            None => false,
        };
        let effects;
        if multi_sel {
            let text = sel.unwrap();
            self.input.cancel_selection();
            effects = self.run_submission(text);
        } else if self.mode == InputMode::Laat {
            let row = match &self.laat {
                Some(l) => l.highlight,
                None => 0,
            };
            let line = self.input.line_text(row);
            if row < usize::MAX {
                match self.laat.as_mut() {
                    Some(l) => l.submit_line(row),
                    None => {},
                }
            }
            effects = self.run_submission(line);
        } else {
            let line = self.input.take_submit();
            effects = self.run_submission(line);
            if self.mode == InputMode::Mult {
                self.set_mode(InputMode::Norm);
            }
        }
        self.pop_input();
        effects
    }

    /// Handle a key press while kapollo owns the keyboard.
    pub fn on_key(&mut self, key: KeyEvent) -> (effects: Vec<Effect>)
        requires
            old(self).wf(),
        ensures
            final(self).wf(),
            key_post(*old(self), *final(self), key, effects_view(effects@)),
    {
        let route = self.route_key(key);
        match route {
            KeyRoute::Esc => {},
            _ => {
                self.esc_pending = false;
            },
        }
        match route {
            KeyRoute::Esc => {
                self.on_esc();
                Vec::new()
            },
            KeyRoute::CopyOrInterrupt => self.on_copy_key(),
            KeyRoute::Submit => self.submit(),
            KeyRoute::Edit(e) => {
                self.edit(e);
                Vec::new()
            },
            KeyRoute::Up => {
                self.on_up();
                Vec::new()
            },
            KeyRoute::Down => {
                self.on_down();
                Vec::new()
            },
            KeyRoute::Bound(a) => self.dispatch_action(a),
            KeyRoute::Ignore => Vec::new(),
        }
    }
}

/// The view of stepping state: highlight, flagged lines, pending line.
pub type LaatView = (usize, Set<usize>, Option<usize>);

/// Gating the stepping state (and the caret) on one finished command's exit
/// code: success or no code advances past the pending line and puts the
/// caret at the start of the next; failure flags the line and holds.
pub open spec fn gate_step(st: (Option<LaatView>, PadView), code: Option<i32>) -> (Option<LaatView>, PadView) {
    match st.0 {
        Some((_h, f, Some(line))) => if code == Some(0i32) || code is None {
            (
                Some(((line + 1) as usize, f.remove(line), None)),
                (st.1.0, offset_from(st.1.0, 0, (line + 1) as nat, 0) as nat, None),
            )
        } else {
            (Some((line, f.insert(line), None)), st.1)
        },
        _ => st,
    }
}

/// Gating on every command end among `bs`, in order.
pub open spec fn gated(st: (Option<LaatView>, PadView), bs: Seq<Boundary>) -> (Option<LaatView>, PadView)
    decreases bs.len(),
{
    if bs.len() == 0 {
        st
    } else {
        let s1 = gated(st, bs.drop_last());
        match bs.last() {
            Boundary::CommandEnd { exit_code } => gate_step(s1, exit_code),
            _ => s1,
        }
    }
}

/// The exit code of the last command end among `bs`, or `init`.
pub open spec fn exit_after(bs: Seq<Boundary>, init: Option<i32>) -> Option<i32>
    decreases bs.len(),
{
    if bs.len() == 0 {
        init
    } else {
        match bs.last() {
            Boundary::CommandEnd { exit_code } => exit_code,
            _ => exit_after(bs.drop_last(), init),
        }
    }
}

/// The directory of the last OSC 7 report among `bs`, or `init`.
pub open spec fn cwd_after(bs: Seq<Boundary>, init: String) -> String
    decreases bs.len(),
{
    if bs.len() == 0 {
        init
    } else {
        match bs.last() {
            Boundary::Cwd(p) => p,
            _ => cwd_after(bs.drop_last(), init),
        }
    }
}

/// Whether an output-start mark is among `bs`.
pub open spec fn output_started_in(bs: Seq<Boundary>) -> bool
    decreases bs.len(),
{
    bs.len() > 0 && (output_started_in(bs.drop_last()) || bs.last() == Boundary::OutputStart)
}

/// The exit code of the last command end among `bs`, if any ended.
pub open spec fn ended_in(bs: Seq<Boundary>) -> Option<Option<i32>>
    decreases bs.len(),
{
    if bs.len() == 0 {
        None
    } else {
        match bs.last() {
            Boundary::CommandEnd { exit_code } => Some(exit_code),
            _ => ended_in(bs.drop_last()),
        }
    }
}

/// Store blocks `ns` are `bs` with block `id` (when there) changed by `step`.
pub open spec fn store_block_changed(bs: Seq<Block>, ns: Seq<Block>, id: BlockId, step: spec_fn(Block, Block) -> bool) -> bool {
    match index_of_id(bs, id) {
        Some(i) => {
            &&& ns.len() == bs.len()
            &&& forall|k: int| 0 <= k < bs.len() && k != i ==> #[trigger] ns[k] == bs[k]
            &&& step(bs[i], ns[i])
        },
        None => ns == bs,
    }
}

/// The store steps of a drain pass, through the intermediate blocks `b1`
/// and `b2`: on an output start the running block is anchored at `row`; on
/// a command end the transcript block's captured output is copied in (when
/// it fits) and the block is sealed with the exit code at `row`.
pub open spec fn store_chain(
    bs: Seq<Block>,
    b1: Seq<Block>,
    b2: Seq<Block>,
    ns: Seq<Block>,
    sid: Option<BlockId>,
    started: bool,
    ended: Option<Option<i32>>,
    captured: Option<Seq<u8>>,
    row: StableRowIndex,
) -> bool {
    &&& match (started, sid) {
        (true, Some(id)) => store_block_changed(bs, b1, id, |b: Block, a: Block| started_at_row(b, a, row)),
        _ => b1 == bs,
    }
    &&& match (ended, sid) {
        (Some(code), Some(id)) => {
            &&& match captured {
                Some(data) => store_block_changed(
                    b1,
                    b2,
                    id,
                    |b: Block, a: Block|
                        if b.output@.0.len() + data.len() <= usize::MAX {
                            b.output_pushed(&a, data)
                        } else {
                            a == b
                        },
                ),
                None => b2 == b1,
            }
            &&& store_block_changed(b2, ns, id, |b: Block, a: Block| sealed_at_row(b, a, code, row))
        },
        _ => ns == b1,
    }
}

/// The store after a drain pass, as [`store_chain`] describes it.
pub open spec fn store_updated(
    bs: Seq<Block>,
    ns: Seq<Block>,
    sid: Option<BlockId>,
    started: bool,
    ended: Option<Option<i32>>,
    captured: Option<Seq<u8>>,
    row: StableRowIndex,
) -> bool {
    exists|b1: Seq<Block>, b2: Seq<Block>|
        #[trigger] store_chain(bs, b1, b2, ns, sid, started, ended, captured, row)
}

/// The output captured in transcript block `tx` of `bs`, if it is there.
pub open spec fn captured_in(bs: Seq<Block>, tx: Option<BlockId>) -> Option<Seq<u8>> {
    match tx {
        Some(id) => match index_of_id(bs, id) {
            Some(i) => Some(bs[i].output@.0),
            None => None,
        },
        None => None,
    }
}

/// The scroll offset after a drain pass that grew the scrollback from
/// `before` to `now` rows: a scrolled-back view moves up with the growth so
/// the visible window stays put (clamped to the top); the live bottom keeps
/// following the newest output.
pub open spec fn followed(off: nat, before: nat, now: nat) -> nat {
    if off > 0 && now > before {
        min_nat(sat_add(off, (now - before) as nat), now)
    } else {
        off
    }
}

/// A burst of shell output, parsed into `events`, with the emulated cursor
/// now on stable row `row`: capture into the transcript, then exit codes,
/// directory reports and stepping gates, then the store.
pub open spec fn output_post(o: App, n: App, events: Seq<EventView>, row: StableRowIndex) -> bool {
    let bs = marks(events);
    let st0 = (o.processor.capturing_spec(), o.processor.alt_screen_spec(), o.current_block);
    let ended = ended_in(bs);
    &&& (n.processor.capturing_spec(), n.processor.alt_screen_spec(), n.current_block) == fold_state(st0, events)
    &&& n.processor.mode_spec() == o.processor.mode_spec()
    &&& n.processor.sentinel_spec() == o.processor.sentinel_spec()
    &&& exists|trace: Seq<Seq<Block>>|
        {
            &&& trace.len() == events.len() + 1
            &&& trace[0] == o.transcript.blocks_seq()
            &&& trace.last() == n.transcript.blocks_seq()
            &&& #[trigger] trace_ok(trace, st0, events, events.len() as int)
        }
    &&& n.transcript.caps_spec() == o.transcript.caps_spec()
    &&& n.transcript.next_id_spec() == o.transcript.next_id_spec()
    &&& n.transcript.scroll_spec() == o.transcript.scroll_spec()
    &&& n.transcript.viewport_spec() == o.transcript.viewport_spec()
    &&& n.transcript.max_scroll_spec() == o.transcript.max_scroll_spec()
    &&& n.last_exit == exit_after(bs, o.last_exit)
    &&& n.cwd == cwd_after(bs, o.cwd)
    &&& (laat_view(n.laat), n.input@) == gated((laat_view(o.laat), o.input@), bs)
    &&& store_updated(
        o.store.blocks_seq(),
        n.store.blocks_seq(),
        o.current_store_block,
        output_started_in(bs),
        ended,
        captured_in(n.transcript.blocks_seq(), o.current_block),
        row,
    )
    &&& n.store.cap_spec() == o.store.cap_spec()
    &&& n.store.next_id_spec() == o.store.next_id_spec()
    &&& n.current_store_block == if ended is Some {
        None
    } else {
        o.current_store_block
    }
    &&& n == (App {
        processor: n.processor,
        current_block: n.current_block,
        transcript: n.transcript,
        last_exit: n.last_exit,
        cwd: n.cwd,
        laat: n.laat,
        input: n.input,
        store: n.store,
        current_store_block: n.current_store_block,
        ..o
    })
}

impl App {
    /// Gate the stepping state on a finished command's exit code.
    fn apply_laat_gating(&mut self, code: Option<i32>)
        requires
            old(self).wf(),
        ensures
            final(self).wf(),
            (laat_view(final(self).laat), final(self).input@) == gate_step(
                (laat_view(old(self).laat), old(self).input@),
                code,
            ),
            *final(self) == (App { laat: final(self).laat, input: final(self).input, ..*old(self) }),
    {
        let outcome = match self.laat.as_mut() {
            Some(l) => l.apply_exit_code(code),
            None => None,
        };
        match outcome {
            Some(crate::input::LaatOutcome::Advance) => {
                let row = match &self.laat {
                    Some(l) => l.highlight,
                    None => 0,
                };
                self.input.set_caret_line_start(row);
            },
            _ => {},
        }
    }

    /// Reflect a drain pass's marks into the store.
    fn update_store(
        &mut self,
        started: bool,
        ended: Option<Option<i32>>,
        tx: Option<BlockId>,
        row: StableRowIndex,
    )
        requires
            old(self).wf(),
        ensures
            final(self).wf(),
            store_updated(
                old(self).store.blocks_seq(),
                final(self).store.blocks_seq(),
                old(self).current_store_block,
                started,
                ended,
                captured_in(old(self).transcript.blocks_seq(), tx),
                row,
            ),
            final(self).store.cap_spec() == old(self).store.cap_spec(),
            final(self).store.next_id_spec() == old(self).store.next_id_spec(),
            final(self).current_store_block == if ended is Some {
                None
            } else {
                old(self).current_store_block
            },
            *final(self) == (App {
                store: final(self).store,
                current_store_block: final(self).current_store_block,
                ..*old(self)
            }),
    {
        let ghost b0 = self.store.blocks_seq();
        if started {
            match self.current_store_block {
                Some(sid) => self.store.set_start_row(sid, row),
                None => {},
            }
        }
        let ghost b1 = self.store.blocks_seq();
        let ghost mut b2 = b1;
        match ended {
            Some(code) => {
                match self.current_store_block {
                    Some(sid) => {
                        self.current_store_block = None;
                        let captured = match tx {
                            Some(id) => match self.transcript.block(id) {
                                Some(b) => Some(b.output.to_vec()),
                                None => None,
                            },
                            None => None,
                        };
                        match captured {
                            Some(data) => {
                                let fits = match self.store.get(sid) {
                                    Some(sb) => (sb.output.byte_len() as u128) + (data.len() as u128)
                                        <= usize::MAX as u128,
                                    None => false,
                                };
                                if fits {
                                    self.store.push_output(sid, data.as_slice());
                                }
                                proof {
                                    b2 = self.store.blocks_seq();
                                    lemma_index_of_id(b1, sid);
                                }
                            },
                            None => {},
                        }
                        self.store.seal(sid, code, row);
                    },
                    None => {},
                }
            },
            None => {},
        }
        proof {
            assert(store_chain(
                b0,
                b1,
                b2,
                self.store.blocks_seq(),
                old(self).current_store_block,
                started,
                ended,
                captured_in(old(self).transcript.blocks_seq(), tx),
                row,
            ));
        }
    }

    /// Take in a burst of shell output, parsed into `events`, once the
    /// emulated screen has shown it with its cursor on stable row `row`.
    pub fn on_output(&mut self, events: Vec<ProcessorEvent>, row: StableRowIndex)
        requires
            old(self).wf(),
        ensures
            final(self).wf(),
            output_post(*old(self), *final(self), events_view(events@), row),
    {
        let ghost ev = events_view(events@);
        let tx_before = self.current_block;
        let bounds = self.processor.apply(events, &mut self.transcript, &mut self.current_block);
        let ghost mid = *self;
        let mut started = false;
        let mut ended: Option<Option<i32>> = None;
        let mut i: usize = 0;
        while i < bounds.len()
            invariant
                self.wf(),
                i <= bounds@.len(),
                bounds@ == marks(ev),
                started == output_started_in(bounds@.subrange(0, i as int)),
                ended == ended_in(bounds@.subrange(0, i as int)),
                self.last_exit == exit_after(bounds@.subrange(0, i as int), mid.last_exit),
                self.cwd == cwd_after(bounds@.subrange(0, i as int), mid.cwd),
                (laat_view(self.laat), self.input@) == gated(
                    (laat_view(mid.laat), mid.input@),
                    bounds@.subrange(0, i as int),
                ),
                *self == (App {
                    last_exit: self.last_exit,
                    cwd: self.cwd,
                    laat: self.laat,
                    input: self.input,
                    ..mid
                }),
            decreases bounds.len() - i,
        {
            let ghost sub = bounds@.subrange(0, i + 1);
            assert(sub.drop_last() =~= bounds@.subrange(0, i as int));
            match &bounds[i] {
                Boundary::CommandEnd { exit_code } => {
                    self.last_exit = *exit_code;
                    ended = Some(*exit_code);
                    self.apply_laat_gating(*exit_code);
                },
                Boundary::Cwd(path) => {
                    self.cwd = path.clone();
                },
                Boundary::OutputStart => {
                    started = true;
                },
                _ => {},
            }
            i = i + 1;
        }
        proof {
            assert(bounds@.subrange(0, bounds@.len() as int) =~= bounds@);
        }
        self.update_store(started, ended, tx_before, row);
    }

    /// After a drain pass: whether a full-screen program now owns the
    /// screen, and the scrollback growth from `max_before` to `max_now`
    /// rows, which a scrolled-back view follows.
    pub fn after_drain(&mut self, alt_screen: bool, max_before: usize, max_now: usize)
        requires
            old(self).wf(),
        ensures
            final(self).wf(),
            final(self).passthrough == alt_screen,
            final(self).transcript.scroll_spec() == followed(
                old(self).transcript.scroll_spec(),
                max_before as nat,
                max_now as nat,
            ),
            final(self).transcript.blocks_seq() == old(self).transcript.blocks_seq(),
            final(self).transcript.caps_spec() == old(self).transcript.caps_spec(),
            final(self).transcript.viewport_spec() == old(self).transcript.viewport_spec(),
            final(self).transcript.max_scroll_spec() == old(self).transcript.max_scroll_spec(),
            final(self).transcript.next_id_spec() == old(self).transcript.next_id_spec(),
            *final(self) == (App { passthrough: alt_screen, transcript: final(self).transcript, ..*old(self) }),
    {
        self.passthrough = alt_screen;
        let offset = self.transcript.scroll_offset();
        if offset > 0 {
            let grew = max_now.saturating_sub(max_before);
            if grew > 0 {
                let up = offset.saturating_add(grew);
                let clamped = if up < max_now { up } else { max_now };
                self.transcript.set_scroll_offset(clamped);
            }
        }
    }

    /// The wrapped shell exited (with `code`, when it reported one): the
    /// session ends.
    pub fn on_shell_exit(&mut self, code: Option<i32>)
        ensures
            final(self).should_quit,
            final(self).last_exit == match code {
                Some(c) => Some(c),
                None => old(self).last_exit,
            },
            *final(self) == (App { should_quit: true, last_exit: final(self).last_exit, ..*old(self) }),
    {
        if let Some(c) = code {
            self.last_exit = Some(c);
        }
        self.should_quit = true;
    }
}

/// What reading the configuration again came to.
pub enum ReloadOutcome {
    /// There is no configuration file to read.
    NoFile,
    /// The file at `path` was read into `config`.
    Loaded { config: Config, path: String },
    /// Reading the file failed with this message.
    Failed(String),
}

/// Finishing a reload: on success the new configuration takes effect (the
/// running shell's setting is kept); either way a block reports the outcome.
pub open spec fn reload_post(o: App, n: App, outcome: ReloadOutcome, effs: Seq<EffectView>) -> bool {
    let title = seq![o.config.leader_char] + "reload-config"@;
    &&& n.transcript.scroll_spec() == o.transcript.scroll_spec()
    &&& match outcome {
        ReloadOutcome::NoFile => painted(
            o,
            n,
            title,
            "No configuration file to reload; running on defaults.\n"@,
            effs,
        ) && n == (App { transcript: n.transcript, ..o }),
        ReloadOutcome::Loaded { config, path } => painted(
            o,
            n,
            title,
            "Configuration reloaded from "@ + path@ + ".\n"@,
            effs,
        ) && n == (App {
            transcript: n.transcript,
            config: Config { shell: o.config.shell, ..config },
            ..o
        }),
        ReloadOutcome::Failed(e) => painted(
            o,
            n,
            title,
            "Reload failed: "@ + e@ + "\nKeeping the previous configuration.\n"@,
            effs,
        ) && n == (App { transcript: n.transcript, ..o }),
    }
}

/// The content cell under screen cell (`row`, `col`) of a pane whose top
/// line is stable row `top`.
pub open spec fn cell_at_spec(top: StableRowIndex, row: u16, col: u16) -> Cell {
    (((if top < 0 { 0 } else { top }) as usize + row) as usize, col as usize)
}

/// The content cell under screen cell (`row`, `col`) of a pane whose top
/// line is stable row `top`.
pub fn cell_at(top: StableRowIndex, row: u16, col: u16) -> (c: Cell)
    ensures
        c == cell_at_spec(top, row, col),
{
    let t: usize = if top < 0 { 0 } else { top as usize };
    (crate::selection::coords::screen_to_content(t, row as usize), col as usize)
}

/// `off` clamped to the scrollback.
pub open spec fn clamped_to(off: nat, max_scroll: nat) -> nat {
    min_nat(off, max_scroll)
}

impl App {
    /// A paste: a full-screen program gets the text as typed; otherwise it
    /// goes into the input pad (line endings as `\n`) without submitting.
    pub fn on_paste(&mut self, text: &str) -> (effects: Vec<Effect>)
        requires
            old(self).wf(),
        ensures
            final(self).wf(),
            old(self).passthrough ==> effects_view(effects@) == seq![
                EffectView::WriteInput(vstd::utf8::encode_utf8(text@)),
            ] && *final(self) == *old(self),
            !old(self).passthrough ==> effects@.len() == 0 && final(self).input@ == if old(
                self,
            ).input@.0.len() + text@.len() + 1 < usize::MAX {
                (
                    insert_at(old(self).input@.0, old(self).input@.1 as int, normalize_newlines(text@)),
                    old(self).input@.1 + normalize_newlines(text@).len(),
                    None::<InputSelection>,
                )
            } else {
                old(self).input@
            } && *final(self) == (App { input: final(self).input, ..*old(self) }),
    {
        let mut effects: Vec<Effect> = Vec::new();
        if self.passthrough {
            let bytes = text.as_bytes();
            let mut v: Vec<u8> = Vec::new();
            let mut i: usize = 0;
            while i < bytes.len()
                invariant
                    i <= bytes@.len(),
                    v@ == bytes@.subrange(0, i as int),
                decreases bytes.len() - i,
            {
                v.push(bytes[i]);
                i = i + 1;
                assert(v@ =~= bytes@.subrange(0, i as int));
            }
            assert(v@ =~= bytes@);
            effects.push(Effect::WriteInput(v));
            assert(effects_view(effects@) =~= seq![EffectView::WriteInput(vstd::utf8::encode_utf8(text@))]);
            return effects;
        }
        proof {
            self.input.lemma_wf_bounds();
        }
        let n = text.unicode_len();
        let len = self.input.as_str().unicode_len();
        if n < usize::MAX - 1 - len {
            self.input.insert_paste(text);
        }
        effects
    }

    /// Copy `text`, extracted from the transcript cells of a copy request.
    pub fn copy_text(&mut self, text: String) -> (effects: Vec<Effect>)
        requires
            old(self).wf(),
        ensures
            final(self).wf(),
            text@.len() == 0 ==> effects@.len() == 0 && *final(self) == *old(self),
            text@.len() > 0 ==> match copy_plan(
                text@,
                old(self).config.clipboard.osc52,
                old(self).config.clipboard.local_fallback,
            ) {
                Ok(e) => effects_view(effects@) == seq![e] && final(self).notice is None,
                Err(m) => effects@.len() == 0 && notice_is(final(self).notice, m),
            },
            *final(self) == (App { notice: final(self).notice, ..*old(self) }),
    {
        let mut effects: Vec<Effect> = Vec::new();
        assert(effects_view(effects@) =~= Seq::<EffectView>::empty());
        if self.deliver_copy(text, &mut effects) {
            self.notice = None;
        }
        proof {
            if effects@.len() == 1 {
                assert(effects_view(effects@) =~= seq![effects@[0]@]);
            }
        }
        effects
    }

    /// Copy one transcript line, `row`, the text of the viewport row asked for
    /// (`None` when that row is outside the viewport, which copies nothing),
    /// without its trailing whitespace.
    pub fn copy_current_line(&mut self, row: Option<String>) -> (effects: Vec<Effect>)
        requires
            old(self).wf(),
        ensures
            final(self).wf(),
            match row {
                Some(t) => copy_post(*old(self), trim_end(t@), "copied line"@, final(self).notice, effects_view(effects@)),
                None => effects@.len() == 0 && *final(self) == *old(self),
            },
            *final(self) == (App { notice: final(self).notice, ..*old(self) }),
    {
        let mut effects: Vec<Effect> = Vec::new();
        assert(effects_view(effects@) =~= Seq::<EffectView>::empty());
        proof {
            reveal_strlit("copied line");
        }
        if let Some(t) = row {
            let chars = crate::text::chars_of(t.as_str());
            let end = crate::text::trim_end_len(chars.as_slice(), 0, chars.len());
            let trimmed = crate::text::string_from_chars(chars.as_slice(), 0, end);
            proof {
                assert(chars@.subrange(0, chars@.len() as int) =~= t@);
                lemma_trim_end_prefix(t@);
                assert(trimmed@ =~= trim_end(t@));
            }
            if self.deliver_copy(trimmed, &mut effects) {
                self.notice = Some(crate::text::string_from_str("copied line"));
            }
            proof {
                if effects@.len() == 1 {
                    assert(effects_view(effects@) =~= seq![effects@[0]@]);
                }
            }
        }
        effects
    }

    /// Copy the newest non-blank visible line, `line` (or `None` when every
    /// visible line is blank), without its trailing whitespace.
    pub fn copy_line(&mut self, line: Option<String>) -> (effects: Vec<Effect>)
        requires
            old(self).wf(),
        ensures
            final(self).wf(),
            match line {
                Some(t) => copy_post(*old(self), trim_end(t@), "copied line"@, final(self).notice, effects_view(effects@)),
                None => effects@.len() == 0 && notice_is(final(self).notice, "copy failed: no visible line"@),
            },
            *final(self) == (App { notice: final(self).notice, ..*old(self) }),
    {
        match line {
            Some(t) => self.copy_current_line(Some(t)),
            None => {
                proof {
                    reveal_strlit("copy failed: no visible line");
                }
                self.notice = Some(crate::text::string_from_str("copy failed: no visible line"));
                Vec::new()
            },
        }
    }

    /// Finish a configuration reload with its `outcome`.
    pub fn finish_reload(&mut self, outcome: ReloadOutcome) -> (effects: Vec<Effect>)
        requires
            old(self).wf(),
        ensures
            final(self).wf(),
            reload_post(*old(self), *final(self), outcome, effects_view(effects@)),
    {
        let title = self.led("reload-config");
        proof {
            reveal_strlit("reload-config");
            reveal_strlit("No configuration file to reload; running on defaults.\n");
            reveal_strlit("Configuration reloaded from ");
            reveal_strlit(".\n");
            reveal_strlit("Reload failed: ");
            reveal_strlit("\nKeeping the previous configuration.\n");
        }
        match outcome {
            ReloadOutcome::NoFile => {
                let body = crate::text::string_from_str("No configuration file to reload; running on defaults.\n");
                self.synthetic_block(title, body)
            },
            ReloadOutcome::Loaded { config, path } => {
                let mut body = crate::text::string_from_str("Configuration reloaded from ");
                body.append(path.as_str());
                body.append(".\n");
                let mut cfg = config;
                let shell = self.config.shell.take();
                cfg.shell = shell;
                self.config = cfg;
                self.synthetic_block(title, body)
            },
            ReloadOutcome::Failed(e) => {
                let mut body = crate::text::string_from_str("Reload failed: ");
                body.append(e.as_str());
                body.append("\nKeeping the previous configuration.\n");
                self.synthetic_block(title, body)
            },
        }
    }

    /// A left press on the transcript at `cell`: any input-pad selection
    /// clears (one pad holds a selection at a time) and a drag begins, or an
    /// active selection is dropped.
    pub fn on_left_press(&mut self, cell: Cell)
        requires
            old(self).wf(),
        ensures
            final(self).wf(),
            final(self).input@ == (old(self).input@.0, old(self).input@.1, None::<InputSelection>),
            old(self).selection@.0 == SelState::Active ==> final(self).selection@ == (
                SelState::Idle,
                old(self).selection@.1,
                old(self).selection@.2,
            ),
            old(self).selection@.0 != SelState::Active ==> final(self).selection@ == (
                SelState::Dragging,
                cell,
                cell,
            ),
            *final(self) == (App { input: final(self).input, selection: final(self).selection, ..*old(self) }),
    {
        self.input.cancel_selection();
        let _ = self.selection.left_press(cell, false);
    }

    /// A drag at screen `row` of a pane `height` rows high over
    /// `max_scroll` rows of scrollback: past the top or bottom edge the view
    /// scrolls a line so the selection can extend beyond it. Returns the
    /// row, kept inside the pane, whose cell the drag reaches (to hand to
    /// [`App::on_drag_to`] under the new scroll position).
    pub fn on_drag(&mut self, row: u16, height: usize, max_scroll: usize) -> (y: u16)
        requires
            old(self).wf(),
        ensures
            final(self).wf(),
            final(self).transcript.scroll_spec() == if row == 0 {
                clamped_to(sat_add(old(self).transcript.scroll_spec(), 1), max_scroll as nat)
            } else if row >= if height >= 1 { height - 1 } else { 0 } {
                clamped_to(
                    if old(self).transcript.scroll_spec() >= 1 {
                        (old(self).transcript.scroll_spec() - 1) as nat
                    } else {
                        0
                    },
                    max_scroll as nat,
                )
            } else {
                old(self).transcript.scroll_spec()
            },
            y == if row < (if height >= 1 { height - 1 } else { 0 }) {
                row as int
            } else {
                if height >= 1 { height - 1 } else { 0 }
            },
            final(self).transcript.blocks_seq() == old(self).transcript.blocks_seq(),
            final(self).transcript.caps_spec() == old(self).transcript.caps_spec(),
            final(self).transcript.viewport_spec() == old(self).transcript.viewport_spec(),
            final(self).transcript.max_scroll_spec() == old(self).transcript.max_scroll_spec(),
            final(self).transcript.next_id_spec() == old(self).transcript.next_id_spec(),
            *final(self) == (App { transcript: final(self).transcript, ..*old(self) }),
    {
        let off = self.transcript.scroll_offset();
        let last = height.saturating_sub(1);
        if row == 0 {
            let up = off.saturating_add(1);
            self.transcript.set_scroll_offset(if up < max_scroll { up } else { max_scroll });
        } else if row as usize >= last {
            let down = off.saturating_sub(1);
            self.transcript.set_scroll_offset(if down < max_scroll { down } else { max_scroll });
        }
        if (row as usize) < last {
            row
        } else {
            last as u16
        }
    }

    /// Extend a drag to `cell`.
    pub fn on_drag_to(&mut self, cell: Cell)
        ensures
            final(self).selection@ == if old(self).selection@.0 == SelState::Dragging {
                (SelState::Dragging, old(self).selection@.1, cell)
            } else {
                old(self).selection@
            },
            *final(self) == (App { selection: final(self).selection, ..*old(self) }),
    {
        self.selection.drag_to(cell);
    }

    /// Releasing the left button turns a drag into an active selection.
    pub fn on_left_release(&mut self)
        ensures
            final(self).selection@ == if old(self).selection@.0 == SelState::Dragging {
                (SelState::Active, old(self).selection@.1, old(self).selection@.2)
            } else {
                old(self).selection@
            },
            *final(self) == (App { selection: final(self).selection, ..*old(self) }),
    {
        self.selection.release();
    }

    /// A right press at `cell`: with an active selection, copy it; with
    /// none, copy the block under the pointer with its command line.
    pub fn on_right_press(&mut self, cell: Cell) -> (effects: Vec<Effect>)
        requires
            old(self).wf(),
        ensures
            final(self).wf(),
            old(self).selection@.0 == SelState::Active ==> ({
                let (a, b) = ordered(old(self).selection@.1, old(self).selection@.2);
                &&& effects_view(effects@) == seq![EffectView::CopyCells(a, b)]
                &&& final(self).selection@ == (SelState::Idle, old(self).selection@.1, old(self).selection@.2)
                &&& *final(self) == (App { selection: final(self).selection, ..*old(self) })
            }),
            old(self).selection@.0 != SelState::Active ==> ({
                let o1 = App { selection: final(self).selection, ..*old(self) };
                &&& final(self).selection@ == old(self).selection@
                &&& copy_block_post(o1, *final(self), cell.0 as isize, true, effects_view(effects@))
            }),
    {
        match self.selection.right_press() {
            Trigger::Copy(a, b) => {
                let mut effects: Vec<Effect> = Vec::new();
                effects.push(Effect::CopyCells(a, b));
                assert(effects_view(effects@) =~= seq![EffectView::CopyCells(a, b)]);
                effects
            },
            _ => {
                let mut effects: Vec<Effect> = Vec::new();
                self.copy_block(cell.0 as isize, true, &mut effects);
                effects
            },
        }
    }

    /// The mouse wheel: scroll `wheel_lines` (at least one) toward older
    /// output (`up`) or newer, within `max_scroll` rows of scrollback.
    pub fn on_wheel(&mut self, up: bool, max_scroll: usize)
        requires
            old(self).wf(),
        ensures
            final(self).wf(),
            ({
                let w: nat = if old(self).config.scroll.wheel_lines > 0 {
                    old(self).config.scroll.wheel_lines as nat
                } else {
                    1
                };
                let off = old(self).transcript.scroll_spec();
                final(self).transcript.scroll_spec() == clamped_to(
                    if up {
                        sat_add(off, w)
                    } else if off >= w {
                        (off - w) as nat
                    } else {
                        0
                    },
                    max_scroll as nat,
                )
            }),
            final(self).transcript.blocks_seq() == old(self).transcript.blocks_seq(),
            final(self).transcript.caps_spec() == old(self).transcript.caps_spec(),
            final(self).transcript.viewport_spec() == old(self).transcript.viewport_spec(),
            final(self).transcript.max_scroll_spec() == old(self).transcript.max_scroll_spec(),
            final(self).transcript.next_id_spec() == old(self).transcript.next_id_spec(),
            *final(self) == (App { transcript: final(self).transcript, ..*old(self) }),
    {
        let w: usize = if self.config.scroll.wheel_lines > 0 {
            self.config.scroll.wheel_lines as usize
        } else {
            1
        };
        let off = self.transcript.scroll_offset();
        let target = if up {
            off.saturating_add(w)
        } else {
            off.saturating_sub(w)
        };
        self.transcript.set_scroll_offset(if target < max_scroll { target } else { max_scroll });
    }

    /// In sentinel mode, the events `bytes` of shell output complete (output
    /// spans and command ends; a marker line with no exit field ends the
    /// command with no exit code). In OSC 133 mode, no events: the
    /// escape-stream parser produces them.
    pub fn scan_sentinel(&mut self, bytes: &[u8]) -> (r: Vec<ProcessorEvent>)
        requires
            old(self).wf(),
        ensures
            final(self).wf(),
            final(self).processor.mode_spec() == old(self).processor.mode_spec(),
            final(self).processor.capturing_spec() == old(self).processor.capturing_spec(),
            final(self).processor.alt_screen_spec() == old(self).processor.alt_screen_spec(),
            *final(self) == (App { processor: final(self).processor, ..*old(self) }),
            match old(self).processor.sentinel_spec() {
                Some(sc) => {
                    let res = scan_spec(sc.pending_spec() + bytes@, sc.nonce_spec());
                    &&& events_view(r@) == res.0
                    &&& final(self).processor.sentinel_spec() matches Some(t) && t.pending_spec() == res.1
                        && t.nonce_spec() == sc.nonce_spec()
                },
                None => r@.len() == 0 && final(self).processor.sentinel_spec() is None,
            },
    {
        let mut out: Vec<ProcessorEvent> = Vec::new();
        let ghost before = self.processor;
        self.processor.scan_sentinel(bytes, &mut out);
        proof {
            assert(events_view(Seq::<ProcessorEvent>::empty()) =~= Seq::<EventView>::empty());
            match before.sentinel_spec() {
                Some(sc) => {
                    let res = scan_spec(sc.pending_spec() + bytes@, sc.nonce_spec());
                    assert(events_view(out@) =~= res.0);
                },
                None => {},
            }
        }
        out
    }

    /// The rows of a `height`-row terminal left to the transcript pane (and
    /// so to the emulated screen and the shell's PTY): all of them while a
    /// full-screen program owns the screen; otherwise what the input pad, the
    /// status bar (when shown) and the rule (when enabled) leave, and at
    /// least one.
    pub fn pane_rows(&self, height: u16) -> (rows: u16)
        requires
            self.wf(),
        ensures
            rows == ({
                let chrome: int = if self.passthrough {
                    0
                } else {
                    crate::ui::pad_height_spec(count_nl(self.input@.0) + 1) as int
                        + (if self.config.status.enabled && height >= crate::ui::status::MIN_ROWS_FOR_BAR { 1int } else { 0 })
                        + (if self.config.divider.enabled { 1int } else { 0 })
                };
                if height as int - chrome >= 1 {
                    (height as int - chrome) as u16
                } else {
                    1u16
                }
            }),
    {
        let chrome: u16 = if self.passthrough {
            0
        } else {
            let pad = crate::ui::input_pad_height(&self.input);
            let status: u16 = if crate::ui::status::is_visible(self.config.status.enabled, height) {
                1
            } else {
                0
            };
            let divider: u16 = if self.config.divider.enabled {
                1
            } else {
                0
            };
            pad + status + divider
        };
        let rows = height.saturating_sub(chrome);
        if rows >= 1 {
            rows
        } else {
            1
        }
    }

    /// Whether boundaries come from OSC 133 marks (parsed from the escape
    /// stream) rather than from the sentinel scan.
    pub fn uses_osc133(&self) -> (b: bool)
        ensures
            b == (self.processor.mode_spec() == BoundaryMode::Osc133),
    {
        match self.processor.mode() {
            BoundaryMode::Osc133 => true,
            BoundaryMode::Sentinel => false,
        }
    }
}

/// Pushing the composing input and then submitting (the ad-hoc command)
/// brings back exactly what was pushed: buffer, caret, mode, stepping state
/// and stashed draft; the slot is free again.
pub proof fn lemma_push_then_submit_restores(o: App, m: App, n: App, effs: Seq<EffectView>)
    requires
        o.wf(),
        o.pushed is None,
        push_post(o, m),
        submit_post(m, n, effs),
    ensures
        n.input@ == (o.input@.0, o.input@.1, None::<InputSelection>),
        n.mode == o.mode,
        laat_view(n.laat) == laat_view(o.laat),
        n.history@.2 == o.history@.2,
        n.pushed is None,
{
    o.input.lemma_wf_bounds();
}

/// Plain `Enter` in `Norm`, with no multi-line selection and nothing
/// pushed, submits the whole buffer (less trailing blank lines), records it
/// in the history and leaves an empty pad.
pub proof fn lemma_enter_submits_whole_buffer(o: App, n: App, effs: Seq<EffectView>)
    requires
        key_post(o, n, KeyEvent { code: KeyCode::Enter, modifiers: mods(false, false, false) }, effs),
        o.mode == InputMode::Norm,
        !sends_selection(o),
        o.pushed is None,
    ensures
        submitted_line(App { esc_pending: false, ..o }) == strip_blank_tail(o.input@.0),
        n.input@ == (Seq::<char>::empty(), 0nat, None::<InputSelection>),
        n.mode == InputMode::Norm,
        n.history@.0 == if strip_blank_tail(o.input@.0).len() == 0 {
            o.history@.0
        } else {
            o.history@.0.push(strip_blank_tail(o.input@.0))
        },
        n.notice is None,
{
}

/// After a non-empty line is submitted from `Norm`, `Up` recalls exactly
/// that line.
pub proof fn lemma_submit_then_up_recalls(o: App, m: App, n: App, e1: Seq<EffectView>, e2: Seq<EffectView>)
    requires
        key_post(o, m, KeyEvent { code: KeyCode::Enter, modifiers: mods(false, false, false) }, e1),
        key_post(m, n, KeyEvent { code: KeyCode::Up, modifiers: mods(false, false, false) }, e2),
        o.mode == InputMode::Norm,
        !sends_selection(o),
        o.pushed is None,
        strip_blank_tail(o.input@.0).len() > 0,
    ensures
        n.input@.0 == strip_blank_tail(o.input@.0),
        e2.len() == 0,
{
    lemma_enter_submits_whole_buffer(o, m, e1);
}

/// Two `Esc` presses in a row, starting with no gesture pending, always
/// clear the status notice and end the gesture.
pub proof fn lemma_double_esc_clears_notice(o: App, m: App, n: App)
    requires
        !o.esc_pending,
        esc_post(o, m),
        esc_post(m, n),
    ensures
        n.notice is None,
        !n.esc_pending,
{
}

/// Any key but `Esc` ends the `Esc Esc` gesture.
pub proof fn lemma_other_keys_end_gesture(o: App, n: App, key: KeyEvent, effs: Seq<EffectView>)
    requires
        key_post(o, n, key, effs),
        key.code != KeyCode::Esc,
    ensures
        !n.esc_pending,
{
}

/// `Ctrl-C` with nothing selected in either pad interrupts the running
/// command and does nothing else: a copy never shadows the interrupt.
pub proof fn lemma_ctrl_c_interrupts(o: App, n: App, effs: Seq<EffectView>)
    requires
        key_post(
            o,
            n,
            KeyEvent { code: KeyCode::Char('c'), modifiers: mods(false, true, false) },
            effs,
        ),
        !pad_has_selection(o.input@),
        o.selection@.0 != SelState::Active,
    ensures
        effs == seq![EffectView::SendInterrupt],
        n.input == o.input,
        n.transcript == o.transcript,
        n.store == o.store,
{
}

/// Text that history recall hands back fits in the address space.
proof fn lemma_recalled_fits(h: HistoryView, t: Seq<char>)
    requires
        history_wf(h),
        recall_older_spec(h).1 == Some(t) || recall_newer_spec(h, Seq::<char>::empty(), false).1
            == Some(t) || edge_newer_spec(h).1 == Some(t),
    ensures
        t.len() < usize::MAX,
{
}

} // verus!
