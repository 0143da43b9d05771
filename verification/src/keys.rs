//! What a key press does: where it is routed (quit, the help overlay, a
//! prompt, normal navigation), which command a key means in normal mode,
//! with the two-key sequences `]h` `[h` `zc` `zo` `zx`, and how a prompt
//! (search, path filter, note) edits its text.

use vstd::prelude::*;
use crate::app::{drop_last_word, drop_last_word_spec, Decision, InputMode};
use crate::keymap::{KeyCode, KeyPress};
use crate::text::{str_chars, string_from_chars};

verus! {

/// Where a key press goes.
#[derive(Debug, Clone, Copy, PartialEq, Eq, Structural)]
pub enum KeyRoute {
    /// Ctrl+C: quit, whatever the mode.
    Quit,
    /// The help overlay is up and the key dismisses it.
    CloseHelp,
    /// The help overlay is up and swallows the key.
    Swallow,
    /// The key edits the open prompt of this mode.
    Prompt(InputMode),
    /// Normal navigation.
    Normal,
}

/// The routing of a key: Ctrl+C quits in every mode; with the help overlay
/// up, `?`, Esc, `q`, Enter and Space close it and every other key is
/// swallowed; otherwise an open prompt takes the key, else normal mode.
pub open spec fn route_spec(key: KeyPress, show_help: bool, mode: InputMode) -> KeyRoute {
    if key.ctrl && key.code == KeyCode::Char('c') {
        KeyRoute::Quit
    } else if show_help {
        match key.code {
            KeyCode::Char('?') | KeyCode::Esc | KeyCode::Char('q') | KeyCode::Enter | KeyCode::Char(
                ' ',
            ) => KeyRoute::CloseHelp,
            _ => KeyRoute::Swallow,
        }
    } else {
        match mode {
            InputMode::Normal => KeyRoute::Normal,
            _ => KeyRoute::Prompt(mode),
        }
    }
}

/// Route a key press.
pub fn route_key(key: KeyPress, show_help: bool, mode: InputMode) -> (r: KeyRoute)
    ensures
        r == route_spec(key, show_help, mode),
{
    if key.ctrl {
        if let KeyCode::Char(c) = key.code {
            if c == 'c' {
                return KeyRoute::Quit;
            }
        }
    }
    if show_help {
        return match key.code {
            KeyCode::Char(c) => if c == '?' || c == 'q' || c == ' ' {
                KeyRoute::CloseHelp
            } else {
                KeyRoute::Swallow
            },
            KeyCode::Esc | KeyCode::Enter => KeyRoute::CloseHelp,
            _ => KeyRoute::Swallow,
        };
    }
    match mode {
        InputMode::Normal => KeyRoute::Normal,
        _ => KeyRoute::Prompt(mode),
    }
}

/// A cursor move of normal mode.
#[derive(Debug, Clone, Copy, PartialEq, Eq, Structural)]
pub enum Step {
    Down,
    Up,
    HalfDown,
    HalfUp,
    PageDown,
    PageUp,
}

/// A command of normal mode.
#[derive(Debug, Clone, Copy, PartialEq, Eq, Structural)]
pub enum NormalCommand {
    /// Move the cursor.
    Move(Step),
    /// Top / bottom of the stream.
    Top,
    Bottom,
    /// Clear an active search, else quit.
    QuitOrClearSearch,
    /// Next / previous file, or the `n`th (1-based).
    NextFile,
    PrevFile,
    NthFile(usize),
    /// Arm the first key of a two-key sequence.
    Arm(char),
    NextHunk,
    PrevHunk,
    FoldCurrent,
    UnfoldCurrent,
    ToggleCollapse,
    NextNote,
    PrevNote,
    ToggleHighlight,
    ToggleLineNumbers,
    ToggleWordDiff,
    ToggleIgnoreWs,
    ToggleRail,
    CycleLayout,
    CycleThemeMode,
    CyclePalette,
    BeginSearch,
    BeginFilter,
    BeginNote,
    OpenEditor,
    NextMatch,
    PrevMatch,
    ToggleHelp,
    /// Rule on the current hunk (select mode only).
    Decide(Decision),
    /// The key does nothing.
    Nothing,
}

/// The second key of an armed sequence, when it completes one.
pub open spec fn sequence_spec(prefix: char, code: KeyCode) -> Option<NormalCommand> {
    if prefix == ']' && code == KeyCode::Char('h') {
        Some(NormalCommand::NextHunk)
    } else if prefix == '[' && code == KeyCode::Char('h') {
        Some(NormalCommand::PrevHunk)
    } else if prefix == 'z' && code == KeyCode::Char('c') {
        Some(NormalCommand::FoldCurrent)
    } else if prefix == 'z' && code == KeyCode::Char('o') {
        Some(NormalCommand::UnfoldCurrent)
    } else if prefix == 'z' && code == KeyCode::Char('x') {
        Some(NormalCommand::ToggleCollapse)
    } else {
        None
    }
}

/// The command of a single key in normal mode (modifiers aside).
pub open spec fn key_command_spec(code: KeyCode, select_mode: bool) -> NormalCommand {
    match code {
        KeyCode::Esc => NormalCommand::QuitOrClearSearch,
        KeyCode::Down => NormalCommand::Move(Step::Down),
        KeyCode::Up => NormalCommand::Move(Step::Up),
        KeyCode::PageDown => NormalCommand::Move(Step::HalfDown),
        KeyCode::PageUp => NormalCommand::Move(Step::HalfUp),
        KeyCode::Home => NormalCommand::Top,
        KeyCode::End => NormalCommand::Bottom,
        KeyCode::Tab | KeyCode::Right => NormalCommand::NextFile,
        KeyCode::BackTab | KeyCode::Left => NormalCommand::PrevFile,
        KeyCode::Char(c) => char_command_spec(c, select_mode),
        _ => NormalCommand::Nothing,
    }
}

/// The command of a character key in normal mode.
pub open spec fn char_command_spec(c: char, select_mode: bool) -> NormalCommand {
    if c == 'q' {
        NormalCommand::QuitOrClearSearch
    } else if c == 'j' {
        NormalCommand::Move(Step::Down)
    } else if c == 'k' {
        NormalCommand::Move(Step::Up)
    } else if c == 'J' {
        NormalCommand::Move(Step::HalfDown)
    } else if c == 'K' {
        NormalCommand::Move(Step::HalfUp)
    } else if c == 'g' {
        NormalCommand::Top
    } else if c == 'G' {
        NormalCommand::Bottom
    } else if c == 'l' {
        NormalCommand::NextFile
    } else if c == 'h' {
        NormalCommand::PrevFile
    } else if '1' <= c && c <= '9' {
        NormalCommand::NthFile((c as u32 - '0' as u32) as usize)
    } else if c == ']' || c == '[' || c == 'z' {
        NormalCommand::Arm(c)
    } else if c == ' ' {
        NormalCommand::NextHunk
    } else if c == '}' {
        NormalCommand::NextNote
    } else if c == '{' {
        NormalCommand::PrevNote
    } else if c == 'H' {
        NormalCommand::ToggleHighlight
    } else if c == '#' {
        NormalCommand::ToggleLineNumbers
    } else if c == 'w' {
        NormalCommand::ToggleWordDiff
    } else if c == 'W' {
        NormalCommand::ToggleIgnoreWs
    } else if c == 'b' {
        NormalCommand::ToggleRail
    } else if c == 'L' {
        NormalCommand::CycleLayout
    } else if c == 't' {
        NormalCommand::CycleThemeMode
    } else if c == 'T' {
        NormalCommand::CyclePalette
    } else if c == '/' {
        NormalCommand::BeginSearch
    } else if c == 'f' {
        NormalCommand::BeginFilter
    } else if c == 'c' {
        NormalCommand::BeginNote
    } else if c == 'o' {
        NormalCommand::OpenEditor
    } else if c == 'n' {
        NormalCommand::NextMatch
    } else if c == 'N' {
        NormalCommand::PrevMatch
    } else if c == '?' {
        NormalCommand::ToggleHelp
    } else if c == 'a' && select_mode {
        NormalCommand::Decide(Decision::Accept)
    } else if c == 'r' && select_mode {
        NormalCommand::Decide(Decision::Reject)
    } else if c == 'u' && select_mode {
        NormalCommand::Decide(Decision::Undecided)
    } else {
        NormalCommand::Nothing
    }
}

/// The page keys held with Ctrl: `d`/`u` half a page, `f`/`b` a page.
pub open spec fn ctrl_step(key: KeyPress) -> Option<Step> {
    if key.ctrl && key.code == KeyCode::Char('d') {
        Some(Step::HalfDown)
    } else if key.ctrl && key.code == KeyCode::Char('u') {
        Some(Step::HalfUp)
    } else if key.ctrl && key.code == KeyCode::Char('f') {
        Some(Step::PageDown)
    } else if key.ctrl && key.code == KeyCode::Char('b') {
        Some(Step::PageUp)
    } else {
        None
    }
}

/// A key of normal mode: the command, and the sequence prefix armed
/// afterwards. Ctrl+d/u/f/b page and leave an armed prefix in place; an
/// armed prefix is otherwise consumed, completing its sequence when the key
/// is a valid second key, and else the key acts on its own.
pub open spec fn normal_key_spec(key: KeyPress, pending: Option<char>, select_mode: bool) -> (
    NormalCommand,
    Option<char>,
) {
    match ctrl_step(key) {
        Some(s) => (NormalCommand::Move(s), pending),
        None => {
            let completed = match pending {
                Some(p) => sequence_spec(p, key.code),
                None => None,
            };
            match completed {
                Some(cmd) => (cmd, None),
                None => {
                    let cmd = key_command_spec(key.code, select_mode);
                    (cmd, match cmd {
                        NormalCommand::Arm(c) => Some(c),
                        _ => None,
                    })
                },
            }
        },
    }
}

fn char_command(c: char, select_mode: bool) -> (r: NormalCommand)
    ensures
        r == char_command_spec(c, select_mode),
{
    if c == 'q' {
        NormalCommand::QuitOrClearSearch
    } else if c == 'j' {
        NormalCommand::Move(Step::Down)
    } else if c == 'k' {
        NormalCommand::Move(Step::Up)
    } else if c == 'J' {
        NormalCommand::Move(Step::HalfDown)
    } else if c == 'K' {
        NormalCommand::Move(Step::HalfUp)
    } else if c == 'g' {
        NormalCommand::Top
    } else if c == 'G' {
        NormalCommand::Bottom
    } else if c == 'l' {
        NormalCommand::NextFile
    } else if c == 'h' {
        NormalCommand::PrevFile
    } else if '1' <= c && c <= '9' {
        NormalCommand::NthFile((c as u32 - '0' as u32) as usize)
    } else if c == ']' || c == '[' || c == 'z' {
        NormalCommand::Arm(c)
    } else if c == ' ' {
        NormalCommand::NextHunk
    } else if c == '}' {
        NormalCommand::NextNote
    } else if c == '{' {
        NormalCommand::PrevNote
    } else if c == 'H' {
        NormalCommand::ToggleHighlight
    } else if c == '#' {
        NormalCommand::ToggleLineNumbers
    } else if c == 'w' {
        NormalCommand::ToggleWordDiff
    } else if c == 'W' {
        NormalCommand::ToggleIgnoreWs
    } else if c == 'b' {
        NormalCommand::ToggleRail
    } else if c == 'L' {
        NormalCommand::CycleLayout
    } else if c == 't' {
        NormalCommand::CycleThemeMode
    } else if c == 'T' {
        NormalCommand::CyclePalette
    } else if c == '/' {
        NormalCommand::BeginSearch
    } else if c == 'f' {
        NormalCommand::BeginFilter
    } else if c == 'c' {
        NormalCommand::BeginNote
    } else if c == 'o' {
        NormalCommand::OpenEditor
    } else if c == 'n' {
        NormalCommand::NextMatch
    } else if c == 'N' {
        NormalCommand::PrevMatch
    } else if c == '?' {
        NormalCommand::ToggleHelp
    } else if c == 'a' && select_mode {
        NormalCommand::Decide(Decision::Accept)
    } else if c == 'r' && select_mode {
        NormalCommand::Decide(Decision::Reject)
    } else if c == 'u' && select_mode {
        NormalCommand::Decide(Decision::Undecided)
    } else {
        NormalCommand::Nothing
    }
}

fn key_command(code: KeyCode, select_mode: bool) -> (r: NormalCommand)
    ensures
        r == key_command_spec(code, select_mode),
{
    match code {
        KeyCode::Esc => NormalCommand::QuitOrClearSearch,
        KeyCode::Down => NormalCommand::Move(Step::Down),
        KeyCode::Up => NormalCommand::Move(Step::Up),
        KeyCode::PageDown => NormalCommand::Move(Step::HalfDown),
        KeyCode::PageUp => NormalCommand::Move(Step::HalfUp),
        KeyCode::Home => NormalCommand::Top,
        KeyCode::End => NormalCommand::Bottom,
        KeyCode::Tab | KeyCode::Right => NormalCommand::NextFile,
        KeyCode::BackTab | KeyCode::Left => NormalCommand::PrevFile,
        KeyCode::Char(c) => char_command(c, select_mode),
        _ => NormalCommand::Nothing,
    }
}

/// Decide what a key does in normal mode, given the armed sequence prefix
/// (if any) and whether select mode is on; also the prefix armed after it.
pub fn normal_key(key: KeyPress, pending: Option<char>, select_mode: bool) -> (r: (
    NormalCommand,
    Option<char>,
))
    ensures
        r == normal_key_spec(key, pending, select_mode),
{
    if key.ctrl {
        if let KeyCode::Char(c) = key.code {
            if c == 'd' {
                return (NormalCommand::Move(Step::HalfDown), pending);
            } else if c == 'u' {
                return (NormalCommand::Move(Step::HalfUp), pending);
            } else if c == 'f' {
                return (NormalCommand::Move(Step::PageDown), pending);
            } else if c == 'b' {
                return (NormalCommand::Move(Step::PageUp), pending);
            }
        }
    }
    if let Some(p) = pending {
        if let KeyCode::Char(c) = key.code {
            if p == ']' && c == 'h' {
                return (NormalCommand::NextHunk, None);
            } else if p == '[' && c == 'h' {
                return (NormalCommand::PrevHunk, None);
            } else if p == 'z' && c == 'c' {
                return (NormalCommand::FoldCurrent, None);
            } else if p == 'z' && c == 'o' {
                return (NormalCommand::UnfoldCurrent, None);
            } else if p == 'z' && c == 'x' {
                return (NormalCommand::ToggleCollapse, None);
            }
        }
    }
    let cmd = key_command(key.code, select_mode);
    let next = match cmd {
        NormalCommand::Arm(c) => Some(c),
        _ => None,
    };
    (cmd, next)
}

/// After any key of normal mode a sequence prefix is armed exactly when
/// the key is `]`, `[` or `z`, except that Ctrl+d/u/f/b leave the armed
/// prefix as it was.
pub proof fn law_prefix_arms_only_on_prefix_keys(key: KeyPress, pending: Option<char>, select_mode: bool)
    ensures
        normal_key_spec(key, pending, select_mode).1 == (if ctrl_step(key) is Some {
            pending
        } else {
            match key.code {
                KeyCode::Char(c) => if c == ']' || c == '[' || c == 'z' {
                    Some(c)
                } else {
                    None
                },
                _ => None,
            }
        }),
{
}

/// The rows a cursor move covers in a viewport `viewport_height` rows high:
/// a page is the viewport's height (at least one row), a half page half of
/// that, rounded down.
pub fn step_delta(step: Step, viewport_height: usize) -> (d: i64)
    requires
        viewport_height <= i64::MAX,
    ensures
        ({
            let full: int = if viewport_height >= 1 { viewport_height as int } else { 1 };
            d == match step {
                Step::Down => 1,
                Step::Up => -1,
                Step::HalfDown => full / 2,
                Step::HalfUp => -(full / 2),
                Step::PageDown => full,
                Step::PageUp => -full,
            }
        }),
{
    let full: usize = if viewport_height >= 1 { viewport_height } else { 1 };
    let half: usize = full / 2;
    match step {
        Step::Down => 1,
        Step::Up => -1,
        Step::HalfDown => half as i64,
        Step::HalfUp => -(half as i64),
        Step::PageDown => full as i64,
        Step::PageUp => -(full as i64),
    }
}

/// What a key did to a prompt's text.
#[derive(Debug, Clone, Copy, PartialEq, Eq, Structural)]
pub enum PromptEdit {
    /// Enter: the text is submitted (unchanged).
    Submit,
    /// Esc: the prompt is abandoned and its text cleared.
    Cancel,
    /// The text was edited.
    Edited,
    /// The key does nothing here.
    Ignored,
}

/// A prompt key: Ctrl+U clears the text, Ctrl+W drops its last word, Enter
/// submits, Esc cancels (clearing the text), Backspace drops the last
/// character, and any other character is typed in; other keys are ignored.
pub open spec fn prompt_spec(text: Seq<char>, key: KeyPress) -> (PromptEdit, Seq<char>) {
    if key.ctrl && key.code == KeyCode::Char('u') {
        (PromptEdit::Edited, Seq::empty())
    } else if key.ctrl && key.code == KeyCode::Char('w') {
        (PromptEdit::Edited, drop_last_word_spec(text))
    } else {
        match key.code {
            KeyCode::Enter => (PromptEdit::Submit, text),
            KeyCode::Esc => (PromptEdit::Cancel, Seq::empty()),
            KeyCode::Backspace => (PromptEdit::Edited, if text.len() > 0 {
                text.drop_last()
            } else {
                text
            }),
            KeyCode::Char(c) => (PromptEdit::Edited, text.push(c)),
            _ => (PromptEdit::Ignored, text),
        }
    }
}

/// Apply a key to a prompt's text (the search query, the path filter or
/// a note draft).
pub fn edit_prompt(text: &mut String, key: KeyPress) -> (r: PromptEdit)
    ensures
        (r, final(text)@) == prompt_spec(old(text)@, key),
{
    if key.ctrl {
        if let KeyCode::Char(c) = key.code {
            if c == 'u' {
                *text = String::new();
                return PromptEdit::Edited;
            } else if c == 'w' {
                drop_last_word(text);
                return PromptEdit::Edited;
            }
        }
    }
    match key.code {
        KeyCode::Enter => PromptEdit::Submit,
        KeyCode::Esc => {
            *text = String::new();
            PromptEdit::Cancel
        },
        KeyCode::Backspace => {
            let mut cs = str_chars(text.as_str());
            if cs.len() > 0 {
                cs.pop();
                *text = string_from_chars(cs.as_slice());
            }
            PromptEdit::Edited
        },
        KeyCode::Char(c) => {
            text.push(c);
            PromptEdit::Edited
        },
        _ => PromptEdit::Ignored,
    }
}


/// A screen rectangle (terminal cells).
#[derive(Debug, Clone, Copy, PartialEq, Eq, Structural)]
pub struct Area {
    pub x: u16,
    pub y: u16,
    pub width: u16,
    pub height: u16,
}

/// Whether the cell `(x, y)` lies in the area (its left and top edges
/// included, its right and bottom edges excluded).
pub open spec fn in_area(x: u16, y: u16, r: Area) -> bool {
    x >= r.x && x < r.x + r.width && y >= r.y && y < r.y + r.height
}

/// A mouse event, as far as the review reacts to it.
#[derive(Debug, Clone, Copy, PartialEq, Eq, Structural)]
pub enum MouseInput {
    /// Wheel down / up, with Shift held or not.
    WheelDown { shift: bool },
    WheelUp { shift: bool },
    /// A left click on a cell.
    LeftClick { column: u16, row: u16 },
    /// Anything else (other buttons, drags, moves).
    Other,
}

/// What a mouse event does.
#[derive(Debug, Clone, Copy, PartialEq, Eq, Structural)]
pub enum MouseAction {
    /// Scroll the view by one row, or by half a page with Shift.
    Scroll { down: bool, half_page: bool },
    /// Select this file (from the rail) and scroll to its start.
    SelectFile(usize),
    /// Put the review cursor on this stream row.
    SetCursor(usize),
    Nothing,
}

/// The mouse rules: the wheel scrolls (Shift: half a page); a click on a
/// rail row selects the file shown there (a click on the rail below its
/// last file does nothing); a click in the stream puts the cursor on the
/// clicked row, counted from the top row on screen and kept within the
/// stream; other events do nothing.
pub open spec fn mouse_spec(
    ev: MouseInput,
    rail: Option<Area>,
    visible: Seq<usize>,
    stream: Option<Area>,
    scroll_y: usize,
    virtual_len: usize,
) -> MouseAction {
    match ev {
        MouseInput::WheelDown { shift } => MouseAction::Scroll { down: true, half_page: shift },
        MouseInput::WheelUp { shift } => MouseAction::Scroll { down: false, half_page: shift },
        MouseInput::LeftClick { column, row } => {
            if rail is Some && in_area(column, row, rail->0) {
                let idx = (row - rail->0.y) as int;
                if idx < visible.len() {
                    MouseAction::SelectFile(visible[idx])
                } else {
                    MouseAction::Nothing
                }
            } else if stream is Some && in_area(column, row, stream->0) {
                let target = scroll_y + (row - stream->0.y);
                let last: int = if virtual_len >= 1 { virtual_len - 1 } else { 0 };
                let capped: int = if target > usize::MAX { usize::MAX as int } else { target };
                MouseAction::SetCursor((if capped < last { capped } else { last }) as usize)
            } else {
                MouseAction::Nothing
            }
        },
        MouseInput::Other => MouseAction::Nothing,
    }
}

fn point_in_area(x: u16, y: u16, r: Area) -> (b: bool)
    ensures
        b == in_area(x, y, r),
{
    let right = r.x as u32 + r.width as u32;
    let bottom = r.y as u32 + r.height as u32;
    x >= r.x && (x as u32) < right && y >= r.y && (y as u32) < bottom
}

/// Decide what a mouse event does. `rail` is the rail's list area when the
/// rail is shown, `visible` the files it lists, `stream` the stream's
/// content area, `scroll_y` the top row on screen.
pub fn mouse_action(
    ev: MouseInput,
    rail: Option<Area>,
    visible: &Vec<usize>,
    stream: Option<Area>,
    scroll_y: usize,
    virtual_len: usize,
) -> (a: MouseAction)
    ensures
        a == mouse_spec(ev, rail, visible@, stream, scroll_y, virtual_len),
{
    match ev {
        MouseInput::WheelDown { shift } => MouseAction::Scroll { down: true, half_page: shift },
        MouseInput::WheelUp { shift } => MouseAction::Scroll { down: false, half_page: shift },
        MouseInput::LeftClick { column, row } => {
            if let Some(r) = rail {
                if point_in_area(column, row, r) {
                    let idx = (row - r.y) as usize;
                    if idx < visible.len() {
                        return MouseAction::SelectFile(visible[idx]);
                    }
                    return MouseAction::Nothing;
                }
            }
            if let Some(r) = stream {
                if point_in_area(column, row, r) {
                    let off = (row - r.y) as usize;
                    let target = if scroll_y <= usize::MAX - off { scroll_y + off } else { usize::MAX };
                    let last = if virtual_len >= 1 { virtual_len - 1 } else { 0 };
                    return MouseAction::SetCursor(if target < last { target } else { last });
                }
            }
            MouseAction::Nothing
        },
        MouseInput::Other => MouseAction::Nothing,
    }
}

/// A key pressed without Control.
pub open spec fn plain(code: KeyCode) -> KeyPress {
    KeyPress { code, ctrl: false }
}

/// What a plain key does in normal mode.
pub open spec fn plain_command(code: KeyCode, pending: Option<char>, select_mode: bool) -> NormalCommand {
    normal_key_spec(plain(code), pending, select_mode).0
}

/// The key table of normal mode, for every armed prefix and either select
/// mode: `j`/`k` and the arrows move one row down/up, `J`/`K` and the page
/// keys half a page, `g`/Home go to the top and `G`/End to the bottom, `q`
/// and Esc quit (or clear the search), `l`/Tab/→ and `h`/Shift-Tab/← change
/// file (`h` only when no `[` is armed), `1`–`9` pick a file, `]` `[` `z`
/// arm a sequence, space is the next hunk, `}` `{` the notes, and the
/// letters toggle, cycle and open what the help overlay says. `a` `r` `u`
/// decide only in select mode. No two of these keys share a command except
/// where the table pairs them.
pub proof fn law_normal_key_table(pending: Option<char>, select_mode: bool)
    ensures
        plain_command(KeyCode::Char('j'), pending, select_mode) == NormalCommand::Move(Step::Down),
        plain_command(KeyCode::Down, pending, select_mode) == NormalCommand::Move(Step::Down),
        plain_command(KeyCode::Char('k'), pending, select_mode) == NormalCommand::Move(Step::Up),
        plain_command(KeyCode::Up, pending, select_mode) == NormalCommand::Move(Step::Up),
        plain_command(KeyCode::Char('J'), pending, select_mode) == NormalCommand::Move(Step::HalfDown),
        plain_command(KeyCode::PageDown, pending, select_mode) == NormalCommand::Move(Step::HalfDown),
        plain_command(KeyCode::Char('K'), pending, select_mode) == NormalCommand::Move(Step::HalfUp),
        plain_command(KeyCode::PageUp, pending, select_mode) == NormalCommand::Move(Step::HalfUp),
        plain_command(KeyCode::Char('g'), pending, select_mode) == NormalCommand::Top,
        plain_command(KeyCode::Home, pending, select_mode) == NormalCommand::Top,
        plain_command(KeyCode::Char('G'), pending, select_mode) == NormalCommand::Bottom,
        plain_command(KeyCode::End, pending, select_mode) == NormalCommand::Bottom,
        plain_command(KeyCode::Char('g'), pending, select_mode) != plain_command(
            KeyCode::Char('G'),
            pending,
            select_mode,
        ),
        plain_command(KeyCode::Char('q'), pending, select_mode) == NormalCommand::QuitOrClearSearch,
        plain_command(KeyCode::Esc, pending, select_mode) == NormalCommand::QuitOrClearSearch,
        plain_command(KeyCode::Char('l'), pending, select_mode) == NormalCommand::NextFile,
        plain_command(KeyCode::Tab, pending, select_mode) == NormalCommand::NextFile,
        plain_command(KeyCode::Right, pending, select_mode) == NormalCommand::NextFile,
        plain_command(KeyCode::BackTab, pending, select_mode) == NormalCommand::PrevFile,
        plain_command(KeyCode::Left, pending, select_mode) == NormalCommand::PrevFile,
        pending != Some('[') && pending != Some(']') ==> plain_command(KeyCode::Char('h'), pending, select_mode)
            == NormalCommand::PrevFile,
        plain_command(KeyCode::Char('1'), pending, select_mode) == NormalCommand::NthFile(1),
        plain_command(KeyCode::Char('5'), pending, select_mode) == NormalCommand::NthFile(5),
        plain_command(KeyCode::Char('9'), pending, select_mode) == NormalCommand::NthFile(9),
        plain_command(KeyCode::Char('0'), pending, select_mode) == NormalCommand::Nothing,
        plain_command(KeyCode::Char(']'), pending, select_mode) == NormalCommand::Arm(']'),
        plain_command(KeyCode::Char('['), pending, select_mode) == NormalCommand::Arm('['),
        plain_command(KeyCode::Char('z'), pending, select_mode) == NormalCommand::Arm('z'),
        plain_command(KeyCode::Char(' '), pending, select_mode) == NormalCommand::NextHunk,
        plain_command(KeyCode::Char('}'), pending, select_mode) == NormalCommand::NextNote,
        plain_command(KeyCode::Char('{'), pending, select_mode) == NormalCommand::PrevNote,
        plain_command(KeyCode::Char('H'), pending, select_mode) == NormalCommand::ToggleHighlight,
        plain_command(KeyCode::Char('#'), pending, select_mode) == NormalCommand::ToggleLineNumbers,
        plain_command(KeyCode::Char('w'), pending, select_mode) == NormalCommand::ToggleWordDiff,
        plain_command(KeyCode::Char('W'), pending, select_mode) == NormalCommand::ToggleIgnoreWs,
        plain_command(KeyCode::Char('b'), pending, select_mode) == NormalCommand::ToggleRail,
        plain_command(KeyCode::Char('L'), pending, select_mode) == NormalCommand::CycleLayout,
        plain_command(KeyCode::Char('t'), pending, select_mode) == NormalCommand::CycleThemeMode,
        plain_command(KeyCode::Char('T'), pending, select_mode) == NormalCommand::CyclePalette,
        plain_command(KeyCode::Char('/'), pending, select_mode) == NormalCommand::BeginSearch,
        plain_command(KeyCode::Char('f'), pending, select_mode) == NormalCommand::BeginFilter,
        pending != Some('z') ==> plain_command(KeyCode::Char('c'), pending, select_mode)
            == NormalCommand::BeginNote,
        pending != Some('z') ==> plain_command(KeyCode::Char('o'), pending, select_mode)
            == NormalCommand::OpenEditor,
        plain_command(KeyCode::Char('n'), pending, select_mode) == NormalCommand::NextMatch,
        plain_command(KeyCode::Char('N'), pending, select_mode) == NormalCommand::PrevMatch,
        plain_command(KeyCode::Char('?'), pending, select_mode) == NormalCommand::ToggleHelp,
        plain_command(KeyCode::Char('a'), pending, select_mode) == (if select_mode {
            NormalCommand::Decide(Decision::Accept)
        } else {
            NormalCommand::Nothing
        }),
        plain_command(KeyCode::Char('r'), pending, select_mode) == (if select_mode {
            NormalCommand::Decide(Decision::Reject)
        } else {
            NormalCommand::Nothing
        }),
        plain_command(KeyCode::Char('u'), pending, select_mode) == (if select_mode {
            NormalCommand::Decide(Decision::Undecided)
        } else {
            NormalCommand::Nothing
        }),
        plain_command(KeyCode::Enter, pending, select_mode) == NormalCommand::Nothing,
{
}

/// The two-key sequences, whatever the select mode: `]h` / `[h` jump to the
/// next / previous hunk, `zc` / `zo` fold / unfold the file, `zx` toggles
/// the context collapse; each consumes the armed prefix. A prefix followed
/// by any other plain key is dropped and the key acts on its own.
pub proof fn law_normal_key_sequences(code: KeyCode, select_mode: bool)
    ensures
        normal_key_spec(plain(KeyCode::Char('h')), Some(']'), select_mode) == (NormalCommand::NextHunk, None::<char>),
        normal_key_spec(plain(KeyCode::Char('h')), Some('['), select_mode) == (NormalCommand::PrevHunk, None::<char>),
        normal_key_spec(plain(KeyCode::Char('c')), Some('z'), select_mode) == (NormalCommand::FoldCurrent, None::<char>),
        normal_key_spec(plain(KeyCode::Char('o')), Some('z'), select_mode) == (NormalCommand::UnfoldCurrent, None::<char>),
        normal_key_spec(plain(KeyCode::Char('x')), Some('z'), select_mode) == (NormalCommand::ToggleCollapse, None::<char>),
        code != KeyCode::Char('h') ==> normal_key_spec(plain(code), Some(']'), select_mode)
            == normal_key_spec(plain(code), None, select_mode),
        code != KeyCode::Char('c') && code != KeyCode::Char('o') && code != KeyCode::Char('x')
            ==> normal_key_spec(plain(code), Some('z'), select_mode) == normal_key_spec(plain(code), None, select_mode),
{
}

/// Ctrl paging, whatever is armed: Ctrl+d / Ctrl+u move half a page down /
/// up, Ctrl+f / Ctrl+b a page, and the armed prefix stays armed.
pub proof fn law_ctrl_paging(pending: Option<char>, select_mode: bool)
    ensures
        normal_key_spec(KeyPress { code: KeyCode::Char('d'), ctrl: true }, pending, select_mode)
            == (NormalCommand::Move(Step::HalfDown), pending),
        normal_key_spec(KeyPress { code: KeyCode::Char('u'), ctrl: true }, pending, select_mode)
            == (NormalCommand::Move(Step::HalfUp), pending),
        normal_key_spec(KeyPress { code: KeyCode::Char('f'), ctrl: true }, pending, select_mode)
            == (NormalCommand::Move(Step::PageDown), pending),
        normal_key_spec(KeyPress { code: KeyCode::Char('b'), ctrl: true }, pending, select_mode)
            == (NormalCommand::Move(Step::PageUp), pending),
{
}

} // verus!
