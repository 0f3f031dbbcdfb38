//! Configuration model. kapollo runs entirely on defaults when no config file
//! is present; a parsed file only overrides the keys it names. Out-of-range
//! caps are clamped.

use vstd::prelude::*;
use std::path::PathBuf;
use std::str::FromStr;
use ratatui::style::Color as Rc;

verus! {

#[verifier::external_type_specification]
#[verifier::external_body]
pub struct ExIoError(std::io::Error);

#[verifier::external_type_specification]
#[verifier::external_body]
pub struct ExPathBuf(PathBuf);

/// Hard maximum for the per-block byte cap (64 MiB); larger values are clamped.
pub const PER_BLOCK_BYTES_HARD_MAX: u64 = 67108864;

pub const DEFAULT_LEADER_CHAR: char = '/';
pub const DEFAULT_PROMPT_CHAR: char = 'λ';
pub const DEFAULT_PER_BLOCK_BYTES: u64 = 1048576;
pub const DEFAULT_PER_BLOCK_LINES: u64 = 50000;
pub const DEFAULT_TRANSCRIPT_BYTES: u64 = 134217728;
pub const DEFAULT_TRANSCRIPT_BLOCKS: u64 = 1000;
pub const DEFAULT_MOUSE_ENABLED: bool = true;
pub const DEFAULT_COPY_ON_SELECT: bool = false;
pub const DEFAULT_CLIPBOARD_OSC52: bool = true;
pub const DEFAULT_CLIPBOARD_LOCAL_FALLBACK: bool = true;
pub const DEFAULT_WHEEL_LINES: u16 = 3;
pub const DEFAULT_SCROLLBACK_LINES: u64 = 10000;
pub const DEFAULT_STATUS_ENABLED: bool = true;
pub const DEFAULT_CONTEXT_LINES: u16 = 3;
pub const DEFAULT_DIVIDER_ENABLED: bool = true;

/// A terminal color: the sixteen named ANSI colors, the terminal's default,
/// a 24-bit RGB value or an indexed (256-color palette) entry.
#[derive(Debug, Clone, Copy, PartialEq, Eq, Structural)]
pub enum Color {
    Reset,
    Black,
    Red,
    Green,
    Yellow,
    Blue,
    Magenta,
    Cyan,
    Gray,
    DarkGray,
    LightRed,
    LightGreen,
    LightYellow,
    LightBlue,
    LightMagenta,
    LightCyan,
    White,
    Rgb(u8, u8, u8),
    Indexed(u8),
}

/// The color `ratatui::style::Color::from_str` reads from `s`.
pub uninterp spec fn parsed_color(s: Seq<char>) -> Option<Color>;

/// Parse a color name, `#rrggbb` or palette index
/// (`ratatui::style::Color::from_str`), as the same variant of [`Color`].
#[verifier::external_body]
fn parse_color(s: &str) -> (r: Option<Color>)
    ensures
        r == parsed_color(s@),
{
    Some(match Rc::from_str(s).ok()? {
        Rc::Reset => Color::Reset, Rc::Black => Color::Black, Rc::Red => Color::Red,
        Rc::Green => Color::Green, Rc::Yellow => Color::Yellow, Rc::Blue => Color::Blue,
        Rc::Magenta => Color::Magenta, Rc::Cyan => Color::Cyan, Rc::Gray => Color::Gray,
        Rc::DarkGray => Color::DarkGray, Rc::LightRed => Color::LightRed,
        Rc::LightGreen => Color::LightGreen, Rc::LightYellow => Color::LightYellow,
        Rc::LightBlue => Color::LightBlue, Rc::LightMagenta => Color::LightMagenta,
        Rc::LightCyan => Color::LightCyan, Rc::White => Color::White,
        Rc::Rgb(r, g, b) => Color::Rgb(r, g, b), Rc::Indexed(i) => Color::Indexed(i),
    })
}

/// The default prompt color.
pub const DEFAULT_PROMPT_COLOR: Color = Color::Red;

/// Mouse capture / selection behavior.
#[derive(Debug, Clone, PartialEq, Eq, Structural)]
pub struct Mouse {
    /// Whether kapollo captures the mouse for selection.
    pub enabled: bool,
    /// Copy the selection to the clipboard automatically on release.
    pub copy_on_select: bool,
}

/// Clipboard copy path and fallback order.
#[derive(Debug, Clone, PartialEq, Eq, Structural)]
pub struct Clipboard {
    /// Use terminal-mediated OSC 52 copy; tried first.
    pub osc52: bool,
    /// Fall back to the local OS clipboard.
    pub local_fallback: bool,
}

/// Scroll / scrollback behavior.
#[derive(Debug, Clone, PartialEq, Eq, Structural)]
pub struct Scroll {
    /// Lines advanced per mouse-wheel notch.
    pub wheel_lines: u16,
    /// Number of scrollback lines the grid retains.
    pub scrollback_lines: u64,
    /// Lines of overlap kept when paging through scrollback.
    pub context_lines: u16,
}

/// Fixed status bar behavior.
#[derive(Debug, Clone, PartialEq, Eq, Structural)]
pub struct Status {
    /// Whether the status bar below the input pad is shown.
    pub enabled: bool,
}

/// The cosmetic dividing rule between the output and input pads.
#[derive(Debug, Clone, PartialEq, Eq, Structural)]
pub struct Divider {
    /// Whether the dividing rule above the input pad is shown.
    pub enabled: bool,
}

/// Output retention caps (ring-buffer semantics; `0` disables a cap).
#[derive(Debug, Clone, PartialEq, Eq, Structural)]
pub struct Caps {
    pub per_block_bytes: u64,
    pub per_block_lines: u64,
    pub transcript_bytes: u64,
    pub transcript_blocks: u64,
}

impl Default for Mouse {
    fn default() -> (r: Self)
        ensures
            r == (Mouse { enabled: DEFAULT_MOUSE_ENABLED, copy_on_select: DEFAULT_COPY_ON_SELECT }),
    {
        Mouse { enabled: DEFAULT_MOUSE_ENABLED, copy_on_select: DEFAULT_COPY_ON_SELECT }
    }
}

impl Default for Clipboard {
    fn default() -> (r: Self)
        ensures
            r == (Clipboard {
                osc52: DEFAULT_CLIPBOARD_OSC52,
                local_fallback: DEFAULT_CLIPBOARD_LOCAL_FALLBACK,
            }),
    {
        Clipboard { osc52: DEFAULT_CLIPBOARD_OSC52, local_fallback: DEFAULT_CLIPBOARD_LOCAL_FALLBACK }
    }
}

impl Default for Scroll {
    fn default() -> (r: Self)
        ensures
            r == (Scroll {
                wheel_lines: DEFAULT_WHEEL_LINES,
                scrollback_lines: DEFAULT_SCROLLBACK_LINES,
                context_lines: DEFAULT_CONTEXT_LINES,
            }),
    {
        Scroll {
            wheel_lines: DEFAULT_WHEEL_LINES,
            scrollback_lines: DEFAULT_SCROLLBACK_LINES,
            context_lines: DEFAULT_CONTEXT_LINES,
        }
    }
}

impl Default for Status {
    fn default() -> (r: Self)
        ensures
            r == (Status { enabled: DEFAULT_STATUS_ENABLED }),
    {
        Status { enabled: DEFAULT_STATUS_ENABLED }
    }
}

impl Default for Divider {
    fn default() -> (r: Self)
        ensures
            r == (Divider { enabled: DEFAULT_DIVIDER_ENABLED }),
    {
        Divider { enabled: DEFAULT_DIVIDER_ENABLED }
    }
}

impl Default for Caps {
    fn default() -> (r: Self)
        ensures
            r == (Caps {
                per_block_bytes: DEFAULT_PER_BLOCK_BYTES,
                per_block_lines: DEFAULT_PER_BLOCK_LINES,
                transcript_bytes: DEFAULT_TRANSCRIPT_BYTES,
                transcript_blocks: DEFAULT_TRANSCRIPT_BLOCKS,
            }),
    {
        Caps {
            per_block_bytes: DEFAULT_PER_BLOCK_BYTES,
            per_block_lines: DEFAULT_PER_BLOCK_LINES,
            transcript_bytes: DEFAULT_TRANSCRIPT_BYTES,
            transcript_blocks: DEFAULT_TRANSCRIPT_BLOCKS,
        }
    }
}

/// Effective kapollo configuration.
#[derive(Debug, Clone, PartialEq, Eq)]
pub struct Config {
    /// Shell to wrap; `None` falls back to `$SHELL` at spawn time.
    pub shell: Option<String>,
    /// Leader character that begins a slash command.
    pub leader_char: char,
    /// Prompt character echoed before each command.
    pub prompt_char: char,
    /// Color of the prompt character when color is enabled.
    pub prompt_color: Color,
    /// Output retention caps.
    pub caps: Caps,
    /// Mouse capture / selection behavior.
    pub mouse: Mouse,
    /// Clipboard copy path and fallback order.
    pub clipboard: Clipboard,
    /// Scroll / scrollback behavior.
    pub scroll: Scroll,
    /// Fixed status bar behavior.
    pub status: Status,
    /// Dividing rule between the output and input pads.
    pub divider: Divider,
}

impl Config {
    /// The all-defaults configuration.
    pub open spec fn default_spec(c: Config) -> bool {
        &&& c.shell is None
        &&& c.leader_char == DEFAULT_LEADER_CHAR
        &&& c.prompt_char == DEFAULT_PROMPT_CHAR
        &&& c.prompt_color == DEFAULT_PROMPT_COLOR
        &&& c.caps == Caps {
            per_block_bytes: DEFAULT_PER_BLOCK_BYTES,
            per_block_lines: DEFAULT_PER_BLOCK_LINES,
            transcript_bytes: DEFAULT_TRANSCRIPT_BYTES,
            transcript_blocks: DEFAULT_TRANSCRIPT_BLOCKS,
        }
        &&& c.mouse == Mouse { enabled: DEFAULT_MOUSE_ENABLED, copy_on_select: DEFAULT_COPY_ON_SELECT }
        &&& c.clipboard == Clipboard {
            osc52: DEFAULT_CLIPBOARD_OSC52,
            local_fallback: DEFAULT_CLIPBOARD_LOCAL_FALLBACK,
        }
        &&& c.scroll == Scroll {
            wheel_lines: DEFAULT_WHEEL_LINES,
            scrollback_lines: DEFAULT_SCROLLBACK_LINES,
            context_lines: DEFAULT_CONTEXT_LINES,
        }
        &&& c.status == Status { enabled: DEFAULT_STATUS_ENABLED }
        &&& c.divider == Divider { enabled: DEFAULT_DIVIDER_ENABLED }
    }
}

impl Default for Config {
    fn default() -> (c: Self)
        ensures
            Config::default_spec(c),
    {
        Config {
            shell: None,
            leader_char: DEFAULT_LEADER_CHAR,
            prompt_char: DEFAULT_PROMPT_CHAR,
            prompt_color: DEFAULT_PROMPT_COLOR,
            caps: Caps::default(),
            mouse: Mouse::default(),
            clipboard: Clipboard::default(),
            scroll: Scroll::default(),
            status: Status::default(),
            divider: Divider::default(),
        }
    }
}

/// Errors that can occur while loading or validating configuration.
#[derive(Debug)]
pub enum ConfigError {
    /// The config file exists but could not be read.
    Read { path: PathBuf, source: std::io::Error },
    /// The config file is not valid TOML.
    Parse { path: PathBuf, message: String },
    /// A config value was valid TOML but not a valid setting.
    Value(String),
}

/// The `[caps]` table as written in the file.
#[derive(Debug, Default, Clone)]
pub struct RawCaps {
    pub per_block_bytes: Option<u64>,
    pub per_block_lines: Option<u64>,
    pub transcript_bytes: Option<u64>,
    pub transcript_blocks: Option<u64>,
}

/// The `[mouse]` table as written in the file.
#[derive(Debug, Default, Clone)]
pub struct RawMouse {
    pub enabled: Option<bool>,
    pub copy_on_select: Option<bool>,
}

/// The `[clipboard]` table as written in the file.
#[derive(Debug, Default, Clone)]
pub struct RawClipboard {
    pub osc52: Option<bool>,
    pub local_fallback: Option<bool>,
}

/// The `[scroll]` table as written in the file.
#[derive(Debug, Default, Clone)]
pub struct RawScroll {
    pub wheel_lines: Option<u16>,
    pub scrollback_lines: Option<u64>,
    pub context_lines: Option<u16>,
}

/// The `[status]` table as written in the file.
#[derive(Debug, Default, Clone)]
pub struct RawStatus {
    pub enabled: Option<bool>,
}

/// The `[divider]` table as written in the file.
#[derive(Debug, Default, Clone)]
pub struct RawDivider {
    pub enabled: Option<bool>,
}

/// The configuration file as written: every key optional.
#[derive(Debug, Default)]
pub struct RawConfig {
    pub shell: Option<String>,
    pub leader_char: Option<String>,
    pub prompt_char: Option<String>,
    pub prompt_color: Option<String>,
    pub caps: Option<RawCaps>,
    pub mouse: Option<RawMouse>,
    pub clipboard: Option<RawClipboard>,
    pub scroll: Option<RawScroll>,
    pub status: Option<RawStatus>,
    pub divider: Option<RawDivider>,
}

/// `o`'s value, or `d` when it is absent.
pub open spec fn or_default<T>(o: Option<T>, d: T) -> T {
    match o {
        Some(v) => v,
        None => d,
    }
}

/// The char a string holds when it holds exactly one.
pub open spec fn single_char(s: Seq<char>) -> Option<char> {
    if s.len() == 1 {
        Some(s[0])
    } else {
        None
    }
}

/// What `{:?}` prints for a string (`<str as Debug>::fmt`).
pub uninterp spec fn debug_quoted(s: Seq<char>) -> Seq<char>;

/// `s` is printable ASCII with no quote or backslash, so `{:?}` only wraps
/// it in double quotes.
pub open spec fn plain_ascii(s: Seq<char>) -> bool {
    forall|i: int| 0 <= i < s.len() ==> ' ' <= #[trigger] s[i] <= '~' && s[i] != '"' && s[i] != '\\'
}

/// `s` written with `{:?}`: in double quotes, with quotes, backslashes and
/// non-printable chars escaped (`<str as Debug>::fmt`).
#[verifier::external_body]
pub(crate) fn debug_quote(s: &str) -> (r: String)
    ensures
        r@ == debug_quoted(s@),
        plain_ascii(s@) ==> r@ == seq!['"'] + s@ + seq!['"'],
{
    format!("{s:?}")
}

/// The effective caps from the `[caps]` table: absent keys take their
/// default, and the per-block byte cap is clamped to its hard maximum.
pub open spec fn caps_of(raw: Option<RawCaps>) -> Caps {
    let rc = or_default(raw, RawCaps {
        per_block_bytes: None,
        per_block_lines: None,
        transcript_bytes: None,
        transcript_blocks: None,
    });
    let pbb = or_default(rc.per_block_bytes, DEFAULT_PER_BLOCK_BYTES);
    Caps {
        per_block_bytes: if pbb > PER_BLOCK_BYTES_HARD_MAX {
            PER_BLOCK_BYTES_HARD_MAX
        } else {
            pbb
        },
        per_block_lines: or_default(rc.per_block_lines, DEFAULT_PER_BLOCK_LINES),
        transcript_bytes: or_default(rc.transcript_bytes, DEFAULT_TRANSCRIPT_BYTES),
        transcript_blocks: or_default(rc.transcript_blocks, DEFAULT_TRANSCRIPT_BLOCKS),
    }
}

/// The effective mouse settings from the `[mouse]` table.
pub open spec fn mouse_of(raw: Option<RawMouse>) -> Mouse {
    let rm = or_default(raw, RawMouse { enabled: None, copy_on_select: None });
    Mouse {
        enabled: or_default(rm.enabled, DEFAULT_MOUSE_ENABLED),
        copy_on_select: or_default(rm.copy_on_select, DEFAULT_COPY_ON_SELECT),
    }
}

/// The effective clipboard settings from the `[clipboard]` table.
pub open spec fn clipboard_of(raw: Option<RawClipboard>) -> Clipboard {
    let rc = or_default(raw, RawClipboard { osc52: None, local_fallback: None });
    Clipboard {
        osc52: or_default(rc.osc52, DEFAULT_CLIPBOARD_OSC52),
        local_fallback: or_default(rc.local_fallback, DEFAULT_CLIPBOARD_LOCAL_FALLBACK),
    }
}

/// The effective scroll settings from the `[scroll]` table.
pub open spec fn scroll_of(raw: Option<RawScroll>) -> Scroll {
    let rs = or_default(raw, RawScroll { wheel_lines: None, scrollback_lines: None, context_lines: None });
    Scroll {
        wheel_lines: or_default(rs.wheel_lines, DEFAULT_WHEEL_LINES),
        scrollback_lines: or_default(rs.scrollback_lines, DEFAULT_SCROLLBACK_LINES),
        context_lines: or_default(rs.context_lines, DEFAULT_CONTEXT_LINES),
    }
}

/// The effective prompt color: a recognized color name, else the default.
pub open spec fn prompt_color_of(raw: Option<String>) -> Color {
    match raw {
        Some(s) => or_default(parsed_color(s@), DEFAULT_PROMPT_COLOR),
        None => DEFAULT_PROMPT_COLOR,
    }
}

/// The configuration a raw file describes, or the message of the value
/// error it holds.
pub open spec fn config_of(raw: RawConfig) -> Result<Config, Seq<char>> {
    let leader = match raw.leader_char {
        Some(s) => single_char(s@),
        None => Some(DEFAULT_LEADER_CHAR),
    };
    let prompt = match raw.prompt_char {
        Some(s) => single_char(s@),
        None => Some(DEFAULT_PROMPT_CHAR),
    };
    if leader is None {
        Err("leader_char must be exactly one character, got "@ + debug_quoted(
            raw.leader_char.unwrap()@,
        ))
    } else if prompt is None {
        Err("prompt_char must be exactly one character, got "@ + debug_quoted(
            raw.prompt_char.unwrap()@,
        ))
    } else {
        Ok(Config {
            shell: raw.shell,
            leader_char: leader.unwrap(),
            prompt_char: prompt.unwrap(),
            prompt_color: prompt_color_of(raw.prompt_color),
            caps: caps_of(raw.caps),
            mouse: mouse_of(raw.mouse),
            clipboard: clipboard_of(raw.clipboard),
            scroll: scroll_of(raw.scroll),
            status: Status {
                enabled: or_default(or_default(raw.status, RawStatus { enabled: None }).enabled, DEFAULT_STATUS_ENABLED),
            },
            divider: Divider {
                enabled: or_default(or_default(raw.divider, RawDivider { enabled: None }).enabled, DEFAULT_DIVIDER_ENABLED),
            },
        })
    }
}

fn resolve_caps(raw: Option<RawCaps>) -> (c: Caps)
    ensures
        c == caps_of(raw),
{
    let rc = match raw {
        Some(c) => c,
        None => RawCaps {
            per_block_bytes: None,
            per_block_lines: None,
            transcript_bytes: None,
            transcript_blocks: None,
        },
    };
    let pbb = match rc.per_block_bytes {
        Some(v) => v,
        None => DEFAULT_PER_BLOCK_BYTES,
    };
    Caps {
        per_block_bytes: if pbb > PER_BLOCK_BYTES_HARD_MAX {
            PER_BLOCK_BYTES_HARD_MAX
        } else {
            pbb
        },
        per_block_lines: match rc.per_block_lines {
            Some(v) => v,
            None => DEFAULT_PER_BLOCK_LINES,
        },
        transcript_bytes: match rc.transcript_bytes {
            Some(v) => v,
            None => DEFAULT_TRANSCRIPT_BYTES,
        },
        transcript_blocks: match rc.transcript_blocks {
            Some(v) => v,
            None => DEFAULT_TRANSCRIPT_BLOCKS,
        },
    }
}

fn resolve_mouse(raw: Option<RawMouse>) -> (m: Mouse)
    ensures
        m == mouse_of(raw),
{
    let rm = match raw {
        Some(m) => m,
        None => RawMouse { enabled: None, copy_on_select: None },
    };
    Mouse {
        enabled: match rm.enabled {
            Some(v) => v,
            None => DEFAULT_MOUSE_ENABLED,
        },
        copy_on_select: match rm.copy_on_select {
            Some(v) => v,
            None => DEFAULT_COPY_ON_SELECT,
        },
    }
}

fn resolve_clipboard(raw: Option<RawClipboard>) -> (c: Clipboard)
    ensures
        c == clipboard_of(raw),
{
    let rc = match raw {
        Some(c) => c,
        None => RawClipboard { osc52: None, local_fallback: None },
    };
    Clipboard {
        osc52: match rc.osc52 {
            Some(v) => v,
            None => DEFAULT_CLIPBOARD_OSC52,
        },
        local_fallback: match rc.local_fallback {
            Some(v) => v,
            None => DEFAULT_CLIPBOARD_LOCAL_FALLBACK,
        },
    }
}

fn resolve_scroll(raw: Option<RawScroll>) -> (s: Scroll)
    ensures
        s == scroll_of(raw),
{
    let rs = match raw {
        Some(s) => s,
        None => RawScroll { wheel_lines: None, scrollback_lines: None, context_lines: None },
    };
    Scroll {
        wheel_lines: match rs.wheel_lines {
            Some(v) => v,
            None => DEFAULT_WHEEL_LINES,
        },
        scrollback_lines: match rs.scrollback_lines {
            Some(v) => v,
            None => DEFAULT_SCROLLBACK_LINES,
        },
        context_lines: match rs.context_lines {
            Some(v) => v,
            None => DEFAULT_CONTEXT_LINES,
        },
    }
}

fn resolve_prompt_color(raw: &Option<String>) -> (c: Color)
    ensures
        c == prompt_color_of(*raw),
{
    match raw {
        Some(s) => match parse_color(s.as_str()) {
            Some(c) => c,
            None => DEFAULT_PROMPT_COLOR,
        },
        None => DEFAULT_PROMPT_COLOR,
    }
}

/// The message for a setting `s` that is not exactly one character.
fn one_char_error(prefix: &str, s: &str) -> (m: String)
    ensures
        m@ == prefix@ + debug_quoted(s@),
{
    let mut msg = String::new();
    msg.append(prefix);
    msg.append(debug_quote(s).as_str());
    msg
}

/// The one char of `s`, if it holds exactly one.
fn only_char(s: &str) -> (r: Option<char>)
    ensures
        r == single_char(s@),
{
    if s.unicode_len() == 1 {
        Some(s.get_char(0))
    } else {
        None
    }
}

/// A setting the file gives that loading adjusts, worth a warning.
#[derive(Debug, Clone, PartialEq, Eq)]
pub enum ConfigNotice {
    /// `prompt_color` names no color; the default is used.
    UnknownPromptColor(String),
    /// `per_block_bytes` is over [`PER_BLOCK_BYTES_HARD_MAX`]; it is clamped.
    PerBlockBytesClamped(u64),
}

/// What a notice says, over plain values.
pub enum NoticeView {
    UnknownPromptColor(Seq<char>),
    PerBlockBytesClamped(u64),
}

/// The view of a notice.
pub open spec fn notice_view(n: ConfigNotice) -> NoticeView {
    match n {
        ConfigNotice::UnknownPromptColor(s) => NoticeView::UnknownPromptColor(s@),
        ConfigNotice::PerBlockBytesClamped(v) => NoticeView::PerBlockBytesClamped(v),
    }
}

/// The views of notices.
pub open spec fn notices_view(ns: Seq<ConfigNotice>) -> Seq<NoticeView> {
    ns.map_values(|n: ConfigNotice| notice_view(n))
}

/// The per-block byte cap the file asks for (the default when absent).
pub open spec fn requested_per_block_bytes(raw: Option<RawCaps>) -> u64 {
    or_default(
        or_default(raw, RawCaps {
            per_block_bytes: None,
            per_block_lines: None,
            transcript_bytes: None,
            transcript_blocks: None,
        }).per_block_bytes,
        DEFAULT_PER_BLOCK_BYTES,
    )
}

/// The warnings resolving `raw` gives, in order: an unrecognized prompt
/// color, then a per-block byte cap over the hard maximum; none when the
/// file holds a value error (loading stops before either is looked at).
pub open spec fn notices_of(raw: RawConfig) -> Seq<NoticeView> {
    if config_of(raw) is Err {
        seq![]
    } else {
        (match raw.prompt_color {
            Some(s) => if parsed_color(s@) is None {
                seq![NoticeView::UnknownPromptColor(s@)]
            } else {
                seq![]
            },
            None => seq![],
        }) + (if requested_per_block_bytes(raw.caps) > PER_BLOCK_BYTES_HARD_MAX {
            seq![NoticeView::PerBlockBytesClamped(requested_per_block_bytes(raw.caps))]
        } else {
            seq![]
        })
    }
}

impl RawConfig {
    /// The warnings resolving these settings gives (see [`notices_of`]).
    pub fn notices(&self) -> (r: Vec<ConfigNotice>)
        ensures
            notices_view(r@) == notices_of(*self),
    {
        let mut out: Vec<ConfigNotice> = Vec::new();
        let leader_ok = match &self.leader_char {
            Some(s) => only_char(s.as_str()).is_some(),
            None => true,
        };
        let prompt_ok = match &self.prompt_char {
            Some(s) => only_char(s.as_str()).is_some(),
            None => true,
        };
        if !(leader_ok && prompt_ok) {
            assert(notices_view(out@) =~= Seq::<NoticeView>::empty());
            return out;
        }
        let ghost color_part: Seq<NoticeView> = if self.prompt_color is Some && parsed_color(
            self.prompt_color->0@,
        ) is None {
            seq![NoticeView::UnknownPromptColor(self.prompt_color->0@)]
        } else {
            seq![]
        };
        match &self.prompt_color {
            Some(s) => {
                if parse_color(s.as_str()).is_none() {
                    out.push(ConfigNotice::UnknownPromptColor(crate::text::string_from_str(s.as_str())));
                }
            },
            None => {},
        }
        assert(notices_view(out@) =~= color_part);
        let requested: u64 = match &self.caps {
            Some(c) => match c.per_block_bytes {
                Some(v) => v,
                None => DEFAULT_PER_BLOCK_BYTES,
            },
            None => DEFAULT_PER_BLOCK_BYTES,
        };
        let ghost before = out@;
        if requested > PER_BLOCK_BYTES_HARD_MAX {
            out.push(ConfigNotice::PerBlockBytesClamped(requested));
            assert(notices_view(out@) =~= notices_view(before).push(NoticeView::PerBlockBytesClamped(requested)));
        }
        assert(notices_view(out@) =~= notices_of(*self));
        out
    }

    /// Resolve the file's settings over the defaults: absent keys take their
    /// default, an unknown prompt color falls back to the default, and an
    /// over-large per-block byte cap is clamped. A leader or prompt char that
    /// is not exactly one character is a value error.
    pub fn into_config(self) -> (r: Result<Config, ConfigError>)
        ensures
            match config_of(self) {
                Ok(c) => r == Ok::<Config, ConfigError>(c),
                Err(m) => r matches Err(ConfigError::Value(msg)) && msg@ == m,
            },
    {
        let ghost raw = self;
        let leader_char = match &self.leader_char {
            Some(s) => match only_char(s.as_str()) {
                Some(c) => c,
                None => {
                    return Err(
                        ConfigError::Value(
                            one_char_error("leader_char must be exactly one character, got ", s.as_str()),
                        ),
                    );
                },
            },
            None => DEFAULT_LEADER_CHAR,
        };
        let prompt_char = match &self.prompt_char {
            Some(s) => match only_char(s.as_str()) {
                Some(c) => c,
                None => {
                    return Err(
                        ConfigError::Value(
                            one_char_error("prompt_char must be exactly one character, got ", s.as_str()),
                        ),
                    );
                },
            },
            None => DEFAULT_PROMPT_CHAR,
        };
        let prompt_color = resolve_prompt_color(&self.prompt_color);
        let caps = resolve_caps(self.caps);
        let mouse = resolve_mouse(self.mouse);
        let clipboard = resolve_clipboard(self.clipboard);
        let scroll = resolve_scroll(self.scroll);
        let status = Status {
            enabled: match self.status {
                Some(RawStatus { enabled: Some(v) }) => v,
                _ => DEFAULT_STATUS_ENABLED,
            },
        };
        let divider = Divider {
            enabled: match self.divider {
                Some(RawDivider { enabled: Some(v) }) => v,
                _ => DEFAULT_DIVIDER_ENABLED,
            },
        };
        let c = Config {
            shell: self.shell,
            leader_char,
            prompt_char,
            prompt_color,
            caps,
            mouse,
            clipboard,
            scroll,
            status,
            divider,
        };
        assert(config_of(raw) == Ok::<Config, Seq<char>>(c));
        Ok(c)
    }
}

/// A table of the configuration file.
#[derive(Debug, Clone, Copy, PartialEq, Eq, Structural)]
pub enum ConfigSection {
    Top,
    Caps,
    Mouse,
    Clipboard,
    Scroll,
    Status,
    Divider,
}

/// The keys each table of the configuration file knows.
pub open spec fn known_keys(section: ConfigSection) -> Seq<Seq<char>> {
    match section {
        ConfigSection::Top => seq![
            "shell"@,
            "leader_char"@,
            "prompt_char"@,
            "prompt_color"@,
            "caps"@,
            "mouse"@,
            "clipboard"@,
            "scroll"@,
            "status"@,
            "divider"@,
        ],
        ConfigSection::Caps => seq![
            "per_block_bytes"@,
            "per_block_lines"@,
            "transcript_bytes"@,
            "transcript_blocks"@,
        ],
        ConfigSection::Mouse => seq!["enabled"@, "copy_on_select"@],
        ConfigSection::Clipboard => seq!["osc52"@, "local_fallback"@],
        ConfigSection::Scroll => seq!["wheel_lines"@, "scrollback_lines"@, "context_lines"@],
        ConfigSection::Status => seq!["enabled"@],
        ConfigSection::Divider => seq!["enabled"@],
    }
}

/// The keys of `keys` that table `section` does not know, in order, each
/// with its table.
pub open spec fn unknown_in(section: ConfigSection, keys: Seq<Seq<char>>) -> Seq<(ConfigSection, Seq<char>)>
    decreases keys.len(),
{
    if keys.len() == 0 {
        seq![]
    } else {
        unknown_in(section, keys.drop_last()) + if known_keys(section).contains(keys.last()) {
            seq![]
        } else {
            seq![(section, keys.last())]
        }
    }
}

/// The unknown keys of an optional table.
pub open spec fn unknown_in_table(section: ConfigSection, keys: Option<Seq<Seq<char>>>) -> Seq<(ConfigSection, Seq<char>)> {
    match keys {
        Some(ks) => unknown_in(section, ks),
        None => seq![],
    }
}

/// The views of a list of keys.
pub open spec fn keys_view(v: Seq<String>) -> Seq<Seq<char>> {
    v.map_values(|k: String| k@)
}

/// The views of an optional list of keys.
pub open spec fn opt_keys_view(v: Option<&[String]>) -> Option<Seq<Seq<char>>> {
    match v {
        Some(ks) => Some(keys_view(ks@)),
        None => None,
    }
}

/// The views of unknown-key reports.
pub open spec fn reports_view(v: Seq<(ConfigSection, String)>) -> Seq<(ConfigSection, Seq<char>)> {
    v.map_values(|r: (ConfigSection, String)| (r.0, r.1@))
}

/// Append to `out` the keys of `keys` that table `section` does not know.
fn push_unknown(section: ConfigSection, keys: &[String], out: &mut Vec<(ConfigSection, String)>)
    ensures
        reports_view(final(out)@) == reports_view(old(out)@) + unknown_in(section, keys_view(keys@)),
{
    let mut i: usize = 0;
    assert(keys_view(keys@).subrange(0, 0) =~= Seq::<Seq<char>>::empty());
    assert(reports_view(out@) =~= reports_view(old(out)@) + unknown_in(section, keys_view(keys@).subrange(0, 0)));
    while i < keys.len()
        invariant
            i <= keys@.len(),
            reports_view(out@) == reports_view(old(out)@) + unknown_in(
                section,
                keys_view(keys@).subrange(0, i as int),
            ),
        decreases keys.len() - i,
    {
        let ghost sub = keys_view(keys@).subrange(0, i + 1);
        assert(sub.drop_last() =~= keys_view(keys@).subrange(0, i as int));
        assert(sub.last() == keys@[i as int]@);
        let ghost before = out@;
        if !is_known_key(section, keys[i].as_str()) {
            out.push((section, crate::text::string_from_str(keys[i].as_str())));
            assert(reports_view(out@) =~= reports_view(before).push((section, keys@[i as int]@)));
        }
        i = i + 1;
        assert(reports_view(out@) =~= reports_view(old(out)@) + unknown_in(
            section,
            keys_view(keys@).subrange(0, i as int),
        ));
    }
    assert(keys_view(keys@).subrange(0, keys@.len() as int) =~= keys_view(keys@));
}

/// The keys of a configuration file that kapollo does not know and ignores
/// (each reported with a warning when the file is loaded): first those of
/// the top-level table, then those of the `caps`, `mouse`, `clipboard`,
/// `scroll`, `status` and `divider` tables, where the file has them.
pub fn unknown_keys(
    top: &[String],
    caps: Option<&[String]>,
    mouse: Option<&[String]>,
    clipboard: Option<&[String]>,
    scroll: Option<&[String]>,
    status: Option<&[String]>,
    divider: Option<&[String]>,
) -> (r: Vec<(ConfigSection, String)>)
    ensures
        reports_view(r@) == unknown_in(ConfigSection::Top, keys_view(top@))
            + unknown_in_table(ConfigSection::Caps, opt_keys_view(caps))
            + unknown_in_table(ConfigSection::Mouse, opt_keys_view(mouse))
            + unknown_in_table(ConfigSection::Clipboard, opt_keys_view(clipboard))
            + unknown_in_table(ConfigSection::Scroll, opt_keys_view(scroll))
            + unknown_in_table(ConfigSection::Status, opt_keys_view(status))
            + unknown_in_table(ConfigSection::Divider, opt_keys_view(divider)),
{
    let mut out: Vec<(ConfigSection, String)> = Vec::new();
    assert(reports_view(out@) =~= Seq::<(ConfigSection, Seq<char>)>::empty());
    push_unknown(ConfigSection::Top, top, &mut out);
    let ghost r0 = reports_view(out@);
    match caps {
        Some(ks) => push_unknown(ConfigSection::Caps, ks, &mut out),
        None => {},
    }
    let ghost r1 = reports_view(out@);
    match mouse {
        Some(ks) => push_unknown(ConfigSection::Mouse, ks, &mut out),
        None => {},
    }
    let ghost r2 = reports_view(out@);
    match clipboard {
        Some(ks) => push_unknown(ConfigSection::Clipboard, ks, &mut out),
        None => {},
    }
    let ghost r3 = reports_view(out@);
    match scroll {
        Some(ks) => push_unknown(ConfigSection::Scroll, ks, &mut out),
        None => {},
    }
    let ghost r4 = reports_view(out@);
    match status {
        Some(ks) => push_unknown(ConfigSection::Status, ks, &mut out),
        None => {},
    }
    let ghost r5 = reports_view(out@);
    match divider {
        Some(ks) => push_unknown(ConfigSection::Divider, ks, &mut out),
        None => {},
    }
    proof {
        assert(r1 =~= r0 + unknown_in_table(ConfigSection::Caps, opt_keys_view(caps)));
        assert(r2 =~= r1 + unknown_in_table(ConfigSection::Mouse, opt_keys_view(mouse)));
        assert(r3 =~= r2 + unknown_in_table(ConfigSection::Clipboard, opt_keys_view(clipboard)));
        assert(r4 =~= r3 + unknown_in_table(ConfigSection::Scroll, opt_keys_view(scroll)));
        assert(r5 =~= r4 + unknown_in_table(ConfigSection::Status, opt_keys_view(status)));
        assert(reports_view(out@) =~= r5 + unknown_in_table(ConfigSection::Divider, opt_keys_view(divider)));
    }
    out
}

/// Whether `key` is one of `names`.
fn key_in(key: &String, names: &[&str]) -> (b: bool)
    ensures
        b == exists|i: int| 0 <= i < names@.len() && #[trigger] names@[i]@ == key@,
{
    let mut i: usize = 0;
    while i < names.len()
        invariant
            i <= names@.len(),
            forall|k: int| 0 <= k < i ==> #[trigger] names@[k]@ != key@,
        decreases names.len() - i,
    {
        let name = crate::text::string_from_str(names[i]);
        if name == *key {
            return true;
        }
        i = i + 1;
    }
    false
}

/// Whether `key` is a key the given table knows; any other key is ignored
/// (with a warning) when the file is loaded.
pub fn is_known_key(section: ConfigSection, key: &str) -> (b: bool)
    ensures
        b == known_keys(section).contains(key@),
{
    let k = crate::text::string_from_str(key);
    let names: &[&str] = match section {
        ConfigSection::Top => &[
            "shell",
            "leader_char",
            "prompt_char",
            "prompt_color",
            "caps",
            "mouse",
            "clipboard",
            "scroll",
            "status",
            "divider",
        ],
        ConfigSection::Caps => &["per_block_bytes", "per_block_lines", "transcript_bytes", "transcript_blocks"],
        ConfigSection::Mouse => &["enabled", "copy_on_select"],
        ConfigSection::Clipboard => &["osc52", "local_fallback"],
        ConfigSection::Scroll => &["wheel_lines", "scrollback_lines", "context_lines"],
        ConfigSection::Status => &["enabled"],
        ConfigSection::Divider => &["enabled"],
    };
    let r = key_in(&k, names);
    proof {
        let ks = known_keys(section);
        assert(ks.len() == names@.len());
        assert forall|i: int| 0 <= i < ks.len() implies #[trigger] ks[i] == names@[i]@ by {}
        if r {
            let i = choose|i: int| 0 <= i < names@.len() && #[trigger] names@[i]@ == key@;
            assert(ks[i] == key@);
        } else {
            if ks.contains(key@) {
                let i = choose|i: int| 0 <= i < ks.len() && ks[i] == key@;
                assert(names@[i]@ == key@);
            }
        }
    }
    r
}

/// The nested table a top-level key opens, if it is one.
pub fn section_named(name: &str) -> (s: Option<ConfigSection>)
    ensures
        s == (if name@ == "caps"@ {
            Some(ConfigSection::Caps)
        } else if name@ == "mouse"@ {
            Some(ConfigSection::Mouse)
        } else if name@ == "clipboard"@ {
            Some(ConfigSection::Clipboard)
        } else if name@ == "scroll"@ {
            Some(ConfigSection::Scroll)
        } else if name@ == "status"@ {
            Some(ConfigSection::Status)
        } else if name@ == "divider"@ {
            Some(ConfigSection::Divider)
        } else {
            None
        }),
{
    let n = crate::text::string_from_str(name);
    if n == crate::text::string_from_str("caps") {
        Some(ConfigSection::Caps)
    } else if n == crate::text::string_from_str("mouse") {
        Some(ConfigSection::Mouse)
    } else if n == crate::text::string_from_str("clipboard") {
        Some(ConfigSection::Clipboard)
    } else if n == crate::text::string_from_str("scroll") {
        Some(ConfigSection::Scroll)
    } else if n == crate::text::string_from_str("status") {
        Some(ConfigSection::Status)
    } else if n == crate::text::string_from_str("divider") {
        Some(ConfigSection::Divider)
    } else {
        None
    }
}

/// Each key of a configuration file's top-level table, with the keys of its
/// value when that value is itself a table.
pub type KeyLists = Vec<(String, Option<Vec<String>>)>;

/// The view of one top-level entry: its key, and its table's keys.
pub open spec fn key_entry_view(e: (String, Option<Vec<String>>)) -> (Seq<char>, Option<Seq<Seq<char>>>) {
    (
        e.0@,
        match e.1 {
            Some(ks) => Some(keys_view(ks@)),
            None => None,
        },
    )
}

/// The view of the top-level entries.
pub open spec fn key_lists_view(v: Seq<(String, Option<Vec<String>>)>) -> Seq<(Seq<char>, Option<Seq<Seq<char>>>)> {
    v.map_values(|e: (String, Option<Vec<String>>)| key_entry_view(e))
}

/// The view of a key-list parse: the entries, or the error message.
pub open spec fn key_lists_result_view(r: Result<KeyLists, String>) -> Result<Seq<(Seq<char>, Option<Seq<Seq<char>>>)>, Seq<char>> {
    match r {
        Ok(k) => Ok(key_lists_view(k@)),
        Err(m) => Err(m@),
    }
}

/// What parsing `text` as a `toml::Table` (`toml::from_str`) gives: each
/// top-level key, in the table's order, with the keys of its value when that
/// value is a table; or the parse error's message.
pub uninterp spec fn toml_key_lists(text: Seq<char>) -> Result<Seq<(Seq<char>, Option<Seq<Seq<char>>>)>, Seq<char>>;

/// Parse `text` as a `toml::Table` (`toml::from_str`) and hand out each
/// top-level key with the keys of its value when that value is a table
/// (`Value::as_table`), or the error's message (`Display`).
#[verifier::external_body]
fn parse_key_lists(text: &str) -> (r: Result<KeyLists, String>)
    ensures
        key_lists_result_view(r) == toml_key_lists(text@),
{
    let table: toml::Table = toml::from_str(text).map_err(|e: toml::de::Error| e.to_string())?;
    Ok(table.iter().map(|(k, v)| (k.clone(), v.as_table().map(|t| t.keys().cloned().collect()))).collect())
}

/// The top-level keys of the entries.
pub open spec fn entry_names(entries: Seq<(Seq<char>, Option<Seq<Seq<char>>>)>) -> Seq<Seq<char>> {
    entries.map_values(|e: (Seq<char>, Option<Seq<Seq<char>>>)| e.0)
}

/// The keys of top-level table `name`: those of the first entry with that
/// key, when its value is a table.
pub open spec fn table_keys(entries: Seq<(Seq<char>, Option<Seq<Seq<char>>>)>, name: Seq<char>) -> Option<Seq<Seq<char>>>
    decreases entries.len(),
{
    if entries.len() == 0 {
        None
    } else if entries[0].0 == name {
        entries[0].1
    } else {
        table_keys(entries.drop_first(), name)
    }
}

/// The unknown keys of a file with these top-level entries: first those of
/// the top-level table, then those of the `caps`, `mouse`, `clipboard`,
/// `scroll`, `status` and `divider` tables, where the file has them.
pub open spec fn unknown_of_lists(entries: Seq<(Seq<char>, Option<Seq<Seq<char>>>)>) -> Seq<(ConfigSection, Seq<char>)> {
    unknown_in(ConfigSection::Top, entry_names(entries))
        + unknown_in_table(ConfigSection::Caps, table_keys(entries, "caps"@))
        + unknown_in_table(ConfigSection::Mouse, table_keys(entries, "mouse"@))
        + unknown_in_table(ConfigSection::Clipboard, table_keys(entries, "clipboard"@))
        + unknown_in_table(ConfigSection::Scroll, table_keys(entries, "scroll"@))
        + unknown_in_table(ConfigSection::Status, table_keys(entries, "status"@))
        + unknown_in_table(ConfigSection::Divider, table_keys(entries, "divider"@))
}

/// What loading a file comes to, from its key lists `keys` (or their parse
/// error) and its settings `raw` (or their parse error): a key-list error is
/// a parse error with nothing reported; otherwise the unknown keys are
/// reported, a settings error is a parse error, and the settings resolve as
/// [`RawConfig::into_config`] resolves them.
pub open spec fn config_parts_post(
    keys: Result<Seq<(Seq<char>, Option<Seq<Seq<char>>>)>, Seq<char>>,
    raw: Result<RawConfig, String>,
    path: PathBuf,
    r: (Result<Config, ConfigError>, Vec<(ConfigSection, String)>),
) -> bool {
    match keys {
        Err(m) => r.1@.len() == 0 && (r.0 matches Err(ConfigError::Parse { path: p, message: msg }) && p == path
            && msg@ == m),
        Ok(entries) => {
            &&& reports_view(r.1@) == unknown_of_lists(entries)
            &&& match raw {
                Err(m) => r.0 matches Err(ConfigError::Parse { path: p, message: msg }) && p == path
                    && msg@ == m@,
                Ok(rc) => match config_of(rc) {
                    Ok(c) => r.0 == Ok::<Config, ConfigError>(c),
                    Err(m) => r.0 matches Err(ConfigError::Value(msg)) && msg@ == m,
                },
            }
        },
    }
}

/// The keys of top-level table `name` among `entries`.
fn find_table<'a>(entries: &'a KeyLists, name: &str) -> (r: Option<&'a [String]>)
    ensures
        opt_keys_view(r) == table_keys(key_lists_view(entries@), name@),
{
    let ghost s = key_lists_view(entries@);
    let n = crate::text::string_from_str(name);
    let mut i: usize = 0;
    assert(s.subrange(0, s.len() as int) =~= s);
    while i < entries.len()
        invariant
            i <= entries@.len() == s.len(),
            s == key_lists_view(entries@),
            n@ == name@,
            table_keys(s, name@) == table_keys(s.subrange(i as int, s.len() as int), name@),
        decreases entries.len() - i,
    {
        let ghost t = s.subrange(i as int, s.len() as int);
        assert(t[0] == key_entry_view(entries@[i as int]));
        assert(t.drop_first() =~= s.subrange(i + 1, s.len() as int));
        if entries[i].0 == n {
            return match &entries[i].1 {
                Some(ks) => Some(ks.as_slice()),
                None => None,
            };
        }
        i = i + 1;
    }
    None
}

/// The top-level keys among `entries`.
fn top_keys(entries: &KeyLists) -> (r: Vec<String>)
    ensures
        keys_view(r@) == entry_names(key_lists_view(entries@)),
{
    let mut out: Vec<String> = Vec::new();
    let mut i: usize = 0;
    while i < entries.len()
        invariant
            i <= entries@.len(),
            keys_view(out@) == entry_names(key_lists_view(entries@)).subrange(0, i as int),
        decreases entries.len() - i,
    {
        let k = crate::text::string_from_str(entries[i].0.as_str());
        let ghost before = out@;
        out.push(k);
        proof {
            let kv = key_lists_view(entries@);
            assert(kv[i as int] == key_entry_view(entries@[i as int]));
            assert(entry_names(kv)[i as int] == kv[i as int].0);
            assert(keys_view(out@) =~= keys_view(before).push(k@));
            assert(entry_names(kv).subrange(0, i + 1) =~= entry_names(kv).subrange(0, i as int).push(
                entry_names(kv)[i as int],
            ));
        }
        i = i + 1;
        assert(keys_view(out@) =~= entry_names(key_lists_view(entries@)).subrange(0, i as int));
    }
    assert(entry_names(key_lists_view(entries@)).subrange(0, i as int) =~= entry_names(
        key_lists_view(entries@),
    ));
    out
}

/// Resolve a configuration file from its parsed parts, `keys` (the key lists
/// of its tables, or their parse error) and `raw` (its settings, or their
/// parse error), read from `path`: the effective configuration or the error,
/// and the unknown keys to warn about.
pub fn config_from_parts(keys: Result<KeyLists, String>, raw: Result<RawConfig, String>, path: PathBuf) -> (r: (
    Result<Config, ConfigError>,
    Vec<(ConfigSection, String)>,
))
    ensures
        config_parts_post(key_lists_result_view(keys), raw, path, r),
{
    let entries = match keys {
        Ok(k) => k,
        Err(m) => {
            let none: Vec<(ConfigSection, String)> = Vec::new();
            return (Err(ConfigError::Parse { path, message: m }), none);
        },
    };
    let top = top_keys(&entries);
    let unknown = unknown_keys(
        top.as_slice(),
        find_table(&entries, "caps"),
        find_table(&entries, "mouse"),
        find_table(&entries, "clipboard"),
        find_table(&entries, "scroll"),
        find_table(&entries, "status"),
        find_table(&entries, "divider"),
    );
    match raw {
        Err(m) => (Err(ConfigError::Parse { path, message: m }), unknown),
        Ok(rc) => (rc.into_config(), unknown),
    }
}

impl Config {
    /// Load configuration text `text`, read from `path`, whose settings parse
    /// as `raw` (or fail to, with that message): its tables' keys are read
    /// from the TOML, then the outcome is as [`config_from_parts`] says.
    pub fn from_toml(text: &str, raw: Result<RawConfig, String>, path: PathBuf) -> (r: (
        Result<Config, ConfigError>,
        Vec<(ConfigSection, String)>,
    ))
        ensures
            config_parts_post(toml_key_lists(text@), raw, path, r),
    {
        let keys = parse_key_lists(text);
        config_from_parts(keys, raw, path)
    }
}

} // verus!
