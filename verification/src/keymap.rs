//! Remappable keybindings (`[keybindings]` in config.toml).
//!
//! Every interactive command is a named [`Action`]. The default keymap
//! reproduces the built-in keys exactly; a `[keybindings]` table overrides
//! the keys of any action (a list, a single string, or `false` to unbind).
//!
//! Key specs: single chars (`"q"`, case-sensitive), named keys (`"esc"`,
//! `"pageup"`, …, case-insensitive), `"ctrl-<char>"`, and two-key sequences
//! (`"]h"`, `"zc"`) whose first key arms a pending prefix.
//!
//! Claims are exclusive: when two actions claim the same key the first
//! claim wins and a warning names the loser. Unknown action names and
//! malformed specs warn and are ignored — a bad config never bricks the
//! default keys.

use vstd::prelude::*;
use crate::text::{
    decimal, has_prefix, owned, str_chars, str_eq, str_to_lowercase, str_trim,
    lemma_sorted_lex_unique, sort_strings, sorted_lex, string_from_chars, string_views, strings_contain, trim_seq,
    u64_to_string, unicode_lowercase,
};

verus! {

/// One named interactive command.
#[derive(Debug, Clone, Copy, PartialEq, Eq, Hash, Structural)]
pub enum Action {
    Quit,
    Cancel,
    CursorDown,
    CursorUp,
    HalfPageDown,
    HalfPageUp,
    PageForward,
    PageBackward,
    GotoTop,
    GotoBottom,
    NextFile,
    PrevFile,
    NextHunk,
    PrevHunk,
    NextNote,
    PrevNote,
    FoldFile,
    UnfoldFile,
    ToggleContextCollapse,
    ToggleHighlight,
    ToggleLineNumbers,
    ToggleWordDiff,
    ToggleIgnoreWhitespace,
    ToggleWrap,
    ToggleRail,
    CycleLayout,
    CycleThemeMode,
    CyclePalette,
    Search,
    FilterPaths,
    ComposeNote,
    OpenEditor,
    NextMatch,
    PrevMatch,
    Help,
    AcceptHunk,
    RejectHunk,
    UndecideHunk,
}

/// The stable snake_case identifier of an action (config.toml surface).
pub open spec fn action_name(a: Action) -> Seq<char> {
    match a {
        Action::Quit => "quit"@,
        Action::Cancel => "cancel"@,
        Action::CursorDown => "cursor_down"@,
        Action::CursorUp => "cursor_up"@,
        Action::HalfPageDown => "half_page_down"@,
        Action::HalfPageUp => "half_page_up"@,
        Action::PageForward => "page_forward"@,
        Action::PageBackward => "page_backward"@,
        Action::GotoTop => "goto_top"@,
        Action::GotoBottom => "goto_bottom"@,
        Action::NextFile => "next_file"@,
        Action::PrevFile => "prev_file"@,
        Action::NextHunk => "next_hunk"@,
        Action::PrevHunk => "prev_hunk"@,
        Action::NextNote => "next_note"@,
        Action::PrevNote => "prev_note"@,
        Action::FoldFile => "fold_file"@,
        Action::UnfoldFile => "unfold_file"@,
        Action::ToggleContextCollapse => "toggle_context_collapse"@,
        Action::ToggleHighlight => "toggle_highlight"@,
        Action::ToggleLineNumbers => "toggle_line_numbers"@,
        Action::ToggleWordDiff => "toggle_word_diff"@,
        Action::ToggleIgnoreWhitespace => "toggle_ignore_whitespace"@,
        Action::ToggleWrap => "toggle_wrap"@,
        Action::ToggleRail => "toggle_rail"@,
        Action::CycleLayout => "cycle_layout"@,
        Action::CycleThemeMode => "cycle_theme_mode"@,
        Action::CyclePalette => "cycle_palette"@,
        Action::Search => "search"@,
        Action::FilterPaths => "filter_paths"@,
        Action::ComposeNote => "compose_note"@,
        Action::OpenEditor => "open_editor"@,
        Action::NextMatch => "next_match"@,
        Action::PrevMatch => "prev_match"@,
        Action::Help => "help"@,
        Action::AcceptHunk => "accept_hunk"@,
        Action::RejectHunk => "reject_hunk"@,
        Action::UndecideHunk => "undecide_hunk"@,
    }
}

/// The one-line help-overlay description of an action.
pub open spec fn action_description(a: Action) -> Seq<char> {
    match a {
        Action::Quit => "quit (clears an active search first)"@,
        Action::Cancel => "clear the active search / pending key sequence"@,
        Action::CursorDown => "cursor down one row"@,
        Action::CursorUp => "cursor up one row"@,
        Action::HalfPageDown => "cursor half a page down"@,
        Action::HalfPageUp => "cursor half a page up"@,
        Action::PageForward => "cursor a full page down"@,
        Action::PageBackward => "cursor a full page up"@,
        Action::GotoTop => "cursor to the first row"@,
        Action::GotoBottom => "cursor to the last row"@,
        Action::NextFile => "next file"@,
        Action::PrevFile => "previous file"@,
        Action::NextHunk => "next hunk (wraps across files)"@,
        Action::PrevHunk => "previous hunk"@,
        Action::NextNote => "next annotated (💬) row"@,
        Action::PrevNote => "previous annotated (💬) row"@,
        Action::FoldFile => "fold the current file"@,
        Action::UnfoldFile => "unfold the current file"@,
        Action::ToggleContextCollapse => "toggle context collapsing"@,
        Action::ToggleHighlight => "toggle syntax highlighting"@,
        Action::ToggleLineNumbers => "toggle the line-number gutter"@,
        Action::ToggleWordDiff => "toggle word-level diff emphasis"@,
        Action::ToggleIgnoreWhitespace => "toggle ignore-whitespace view"@,
        Action::ToggleWrap => "toggle line wrapping"@,
        Action::ToggleRail => "toggle the file rail"@,
        Action::CycleLayout => "cycle layout (unified → split → stack)"@,
        Action::CycleThemeMode => "cycle theme mode (dark/light/auto)"@,
        Action::CyclePalette => "cycle theme palette family"@,
        Action::Search => "search in the diff stream"@,
        Action::FilterPaths => "filter files by path"@,
        Action::ComposeNote => "compose a note on the cursor row"@,
        Action::OpenEditor => "open the focused line in $EDITOR"@,
        Action::NextMatch => "next search match"@,
        Action::PrevMatch => "previous search match"@,
        Action::Help => "toggle this help overlay"@,
        Action::AcceptHunk => "accept the current hunk, then jump to the next (--select)"@,
        Action::RejectHunk => "reject the current hunk, then jump to the next (--select)"@,
        Action::UndecideHunk => "mark the current hunk undecided, then jump to the next (--select)"@,
    }
}

/// The built-in key specs of an action, in help order.
pub open spec fn default_specs_spec(a: Action) -> Seq<Seq<char>> {
    match a {
        Action::Quit => seq!["q"@],
        Action::Cancel => seq!["esc"@],
        Action::CursorDown => seq!["j"@, "down"@],
        Action::CursorUp => seq!["k"@, "up"@],
        Action::HalfPageDown => seq!["J"@, "pagedown"@, "ctrl-d"@],
        Action::HalfPageUp => seq!["K"@, "pageup"@, "ctrl-u"@],
        Action::PageForward => seq!["ctrl-f"@],
        Action::PageBackward => seq!["ctrl-b"@],
        Action::GotoTop => seq!["g"@, "home"@],
        Action::GotoBottom => seq!["G"@, "end"@],
        Action::NextFile => seq!["tab"@, "l"@, "right"@],
        Action::PrevFile => seq!["backtab"@, "h"@, "left"@],
        Action::NextHunk => seq!["]h"@, "space"@],
        Action::PrevHunk => seq!["[h"@],
        Action::NextNote => seq!["}"@],
        Action::PrevNote => seq!["{"@],
        Action::FoldFile => seq!["zc"@],
        Action::UnfoldFile => seq!["zo"@],
        Action::ToggleContextCollapse => seq!["zx"@],
        Action::ToggleHighlight => seq!["H"@],
        Action::ToggleLineNumbers => seq!["#"@],
        Action::ToggleWordDiff => seq!["w"@],
        Action::ToggleIgnoreWhitespace => seq!["W"@],
        Action::ToggleWrap => seq!["zw"@],
        Action::ToggleRail => seq!["b"@],
        Action::CycleLayout => seq!["L"@],
        Action::CycleThemeMode => seq!["t"@],
        Action::CyclePalette => seq!["T"@],
        Action::Search => seq!["/"@],
        Action::FilterPaths => seq!["f"@],
        Action::ComposeNote => seq!["c"@],
        Action::OpenEditor => seq!["o"@],
        Action::NextMatch => seq!["n"@],
        Action::PrevMatch => seq!["N"@],
        Action::Help => seq!["?"@],
        Action::AcceptHunk => seq!["a"@],
        Action::RejectHunk => seq!["r"@],
        Action::UndecideHunk => seq!["u"@],
    }
}

/// Every action, in help-overlay order.
pub open spec fn all_actions_spec() -> Seq<Action> {
    seq![
        Action::CursorDown,
        Action::CursorUp,
        Action::HalfPageDown,
        Action::HalfPageUp,
        Action::PageForward,
        Action::PageBackward,
        Action::GotoTop,
        Action::GotoBottom,
        Action::NextFile,
        Action::PrevFile,
        Action::NextHunk,
        Action::PrevHunk,
        Action::NextNote,
        Action::PrevNote,
        Action::FoldFile,
        Action::UnfoldFile,
        Action::ToggleContextCollapse,
        Action::ToggleHighlight,
        Action::ToggleLineNumbers,
        Action::ToggleWordDiff,
        Action::ToggleIgnoreWhitespace,
        Action::ToggleWrap,
        Action::ToggleRail,
        Action::CycleLayout,
        Action::CycleThemeMode,
        Action::CyclePalette,
        Action::Search,
        Action::FilterPaths,
        Action::ComposeNote,
        Action::OpenEditor,
        Action::NextMatch,
        Action::PrevMatch,
        Action::Help,
        Action::Quit,
        Action::Cancel,
        Action::AcceptHunk,
        Action::RejectHunk,
        Action::UndecideHunk,
    ]
}

pub open spec fn str_views(v: Seq<&str>) -> Seq<Seq<char>> {
    v.map_values(|s: &str| s@)
}

/// Every action, in help-overlay order.
pub fn all_actions() -> (r: Vec<Action>)
    ensures
        r@ == all_actions_spec(),
{
    let r = vec![
        Action::CursorDown,
        Action::CursorUp,
        Action::HalfPageDown,
        Action::HalfPageUp,
        Action::PageForward,
        Action::PageBackward,
        Action::GotoTop,
        Action::GotoBottom,
        Action::NextFile,
        Action::PrevFile,
        Action::NextHunk,
        Action::PrevHunk,
        Action::NextNote,
        Action::PrevNote,
        Action::FoldFile,
        Action::UnfoldFile,
        Action::ToggleContextCollapse,
        Action::ToggleHighlight,
        Action::ToggleLineNumbers,
        Action::ToggleWordDiff,
        Action::ToggleIgnoreWhitespace,
        Action::ToggleWrap,
        Action::ToggleRail,
        Action::CycleLayout,
        Action::CycleThemeMode,
        Action::CyclePalette,
        Action::Search,
        Action::FilterPaths,
        Action::ComposeNote,
        Action::OpenEditor,
        Action::NextMatch,
        Action::PrevMatch,
        Action::Help,
        Action::Quit,
        Action::Cancel,
        Action::AcceptHunk,
        Action::RejectHunk,
        Action::UndecideHunk,
    ];
    proof {
        assert(r@ =~= all_actions_spec());
    }
    r
}

impl Action {
    /// Stable snake_case identifier used in config.toml and `keybindings`
    /// warnings. Never renamed — it is user-facing config surface.
    pub fn name(self) -> (s: &'static str)
        ensures
            s@ == action_name(self),
    {
        match self {
            Action::Quit => "quit",
            Action::Cancel => "cancel",
            Action::CursorDown => "cursor_down",
            Action::CursorUp => "cursor_up",
            Action::HalfPageDown => "half_page_down",
            Action::HalfPageUp => "half_page_up",
            Action::PageForward => "page_forward",
            Action::PageBackward => "page_backward",
            Action::GotoTop => "goto_top",
            Action::GotoBottom => "goto_bottom",
            Action::NextFile => "next_file",
            Action::PrevFile => "prev_file",
            Action::NextHunk => "next_hunk",
            Action::PrevHunk => "prev_hunk",
            Action::NextNote => "next_note",
            Action::PrevNote => "prev_note",
            Action::FoldFile => "fold_file",
            Action::UnfoldFile => "unfold_file",
            Action::ToggleContextCollapse => "toggle_context_collapse",
            Action::ToggleHighlight => "toggle_highlight",
            Action::ToggleLineNumbers => "toggle_line_numbers",
            Action::ToggleWordDiff => "toggle_word_diff",
            Action::ToggleIgnoreWhitespace => "toggle_ignore_whitespace",
            Action::ToggleWrap => "toggle_wrap",
            Action::ToggleRail => "toggle_rail",
            Action::CycleLayout => "cycle_layout",
            Action::CycleThemeMode => "cycle_theme_mode",
            Action::CyclePalette => "cycle_palette",
            Action::Search => "search",
            Action::FilterPaths => "filter_paths",
            Action::ComposeNote => "compose_note",
            Action::OpenEditor => "open_editor",
            Action::NextMatch => "next_match",
            Action::PrevMatch => "prev_match",
            Action::Help => "help",
            Action::AcceptHunk => "accept_hunk",
            Action::RejectHunk => "reject_hunk",
            Action::UndecideHunk => "undecide_hunk",
        }
    }

    /// One-line description for the help overlay.
    pub fn describe(self) -> (s: &'static str)
        ensures
            s@ == action_description(self),
    {
        match self {
            Action::Quit => "quit (clears an active search first)",
            Action::Cancel => "clear the active search / pending key sequence",
            Action::CursorDown => "cursor down one row",
            Action::CursorUp => "cursor up one row",
            Action::HalfPageDown => "cursor half a page down",
            Action::HalfPageUp => "cursor half a page up",
            Action::PageForward => "cursor a full page down",
            Action::PageBackward => "cursor a full page up",
            Action::GotoTop => "cursor to the first row",
            Action::GotoBottom => "cursor to the last row",
            Action::NextFile => "next file",
            Action::PrevFile => "previous file",
            Action::NextHunk => "next hunk (wraps across files)",
            Action::PrevHunk => "previous hunk",
            Action::NextNote => "next annotated (💬) row",
            Action::PrevNote => "previous annotated (💬) row",
            Action::FoldFile => "fold the current file",
            Action::UnfoldFile => "unfold the current file",
            Action::ToggleContextCollapse => "toggle context collapsing",
            Action::ToggleHighlight => "toggle syntax highlighting",
            Action::ToggleLineNumbers => "toggle the line-number gutter",
            Action::ToggleWordDiff => "toggle word-level diff emphasis",
            Action::ToggleIgnoreWhitespace => "toggle ignore-whitespace view",
            Action::ToggleWrap => "toggle line wrapping",
            Action::ToggleRail => "toggle the file rail",
            Action::CycleLayout => "cycle layout (unified → split → stack)",
            Action::CycleThemeMode => "cycle theme mode (dark/light/auto)",
            Action::CyclePalette => "cycle theme palette family",
            Action::Search => "search in the diff stream",
            Action::FilterPaths => "filter files by path",
            Action::ComposeNote => "compose a note on the cursor row",
            Action::OpenEditor => "open the focused line in $EDITOR",
            Action::NextMatch => "next search match",
            Action::PrevMatch => "previous search match",
            Action::Help => "toggle this help overlay",
            Action::AcceptHunk => "accept the current hunk, then jump to the next (--select)",
            Action::RejectHunk => "reject the current hunk, then jump to the next (--select)",
            Action::UndecideHunk => {
                "mark the current hunk undecided, then jump to the next (--select)"
            },
        }
    }

    /// The default key specs, exactly the pre-config built-ins.
    pub fn default_specs(self) -> (r: Vec<&'static str>)
        ensures
            str_views(r@) == default_specs_spec(self),
    {
        let r = match self {
            Action::Quit => vec!["q"],
            Action::Cancel => vec!["esc"],
            Action::CursorDown => vec!["j", "down"],
            Action::CursorUp => vec!["k", "up"],
            Action::HalfPageDown => vec!["J", "pagedown", "ctrl-d"],
            Action::HalfPageUp => vec!["K", "pageup", "ctrl-u"],
            Action::PageForward => vec!["ctrl-f"],
            Action::PageBackward => vec!["ctrl-b"],
            Action::GotoTop => vec!["g", "home"],
            Action::GotoBottom => vec!["G", "end"],
            Action::NextFile => vec!["tab", "l", "right"],
            Action::PrevFile => vec!["backtab", "h", "left"],
            Action::NextHunk => vec!["]h", "space"],
            Action::PrevHunk => vec!["[h"],
            Action::NextNote => vec!["}"],
            Action::PrevNote => vec!["{"],
            Action::FoldFile => vec!["zc"],
            Action::UnfoldFile => vec!["zo"],
            Action::ToggleContextCollapse => vec!["zx"],
            Action::ToggleHighlight => vec!["H"],
            Action::ToggleLineNumbers => vec!["#"],
            Action::ToggleWordDiff => vec!["w"],
            Action::ToggleIgnoreWhitespace => vec!["W"],
            Action::ToggleWrap => vec!["zw"],
            Action::ToggleRail => vec!["b"],
            Action::CycleLayout => vec!["L"],
            Action::CycleThemeMode => vec!["t"],
            Action::CyclePalette => vec!["T"],
            Action::Search => vec!["/"],
            Action::FilterPaths => vec!["f"],
            Action::ComposeNote => vec!["c"],
            Action::OpenEditor => vec!["o"],
            Action::NextMatch => vec!["n"],
            Action::PrevMatch => vec!["N"],
            Action::Help => vec!["?"],
            Action::AcceptHunk => vec!["a"],
            Action::RejectHunk => vec!["r"],
            Action::UndecideHunk => vec!["u"],
        };
        proof {
            assert(str_views(r@) =~= default_specs_spec(self));
        }
        r
    }
}

} // verus!

verus! {

/// A key, as far as keybindings can name it. `Other` stands for the keys no
/// spec names (media keys, modifiers, …).
#[derive(Debug, Clone, Copy, PartialEq, Eq, Hash, Structural)]
pub enum KeyCode {
    Char(char),
    F(u8),
    Esc,
    Enter,
    Tab,
    BackTab,
    Up,
    Down,
    Left,
    Right,
    Home,
    End,
    PageUp,
    PageDown,
    Backspace,
    Delete,
    Insert,
    Other,
}

/// A resolved key spec: an optional sequence prefix plus the final key.
/// Sequences are exactly two keys (`]h`, `zc`).
#[derive(Debug, Clone, Copy, PartialEq, Eq, Hash, Structural)]
pub struct KeySpec {
    pub prefix: Option<char>,
    pub ctrl: bool,
    pub code: KeyCode,
}

/// One key press: the key and whether Control was held.
#[derive(Debug, Clone, Copy, PartialEq, Eq, Hash, Structural)]
pub struct KeyPress {
    pub code: KeyCode,
    pub ctrl: bool,
}

/// The key a lower-cased name denotes, if it is one of the named keys.
pub open spec fn named_key(l: Seq<char>) -> Option<KeyCode> {
    if l == "esc"@ {
        Some(KeyCode::Esc)
    } else if l == "enter"@ || l == "return"@ {
        Some(KeyCode::Enter)
    } else if l == "space"@ || l == "spacebar"@ {
        Some(KeyCode::Char(' '))
    } else if l == "tab"@ {
        Some(KeyCode::Tab)
    } else if l == "backtab"@ || l == "shift-tab"@ || l == "btab"@ {
        Some(KeyCode::BackTab)
    } else if l == "up"@ {
        Some(KeyCode::Up)
    } else if l == "down"@ {
        Some(KeyCode::Down)
    } else if l == "left"@ {
        Some(KeyCode::Left)
    } else if l == "right"@ {
        Some(KeyCode::Right)
    } else if l == "home"@ {
        Some(KeyCode::Home)
    } else if l == "end"@ {
        Some(KeyCode::End)
    } else if l == "pageup"@ || l == "pgup"@ {
        Some(KeyCode::PageUp)
    } else if l == "pagedown"@ || l == "pgdn"@ || l == "pgdown"@ {
        Some(KeyCode::PageDown)
    } else if l == "backspace"@ {
        Some(KeyCode::Backspace)
    } else if l == "delete"@ || l == "del"@ {
        Some(KeyCode::Delete)
    } else if l == "insert"@ || l == "ins"@ {
        Some(KeyCode::Insert)
    } else if l == "f1"@ {
        Some(KeyCode::F(1))
    } else if l == "f2"@ {
        Some(KeyCode::F(2))
    } else if l == "f3"@ {
        Some(KeyCode::F(3))
    } else if l == "f4"@ {
        Some(KeyCode::F(4))
    } else if l == "f5"@ {
        Some(KeyCode::F(5))
    } else if l == "f6"@ {
        Some(KeyCode::F(6))
    } else if l == "f7"@ {
        Some(KeyCode::F(7))
    } else if l == "f8"@ {
        Some(KeyCode::F(8))
    } else if l == "f9"@ {
        Some(KeyCode::F(9))
    } else if l == "f10"@ {
        Some(KeyCode::F(10))
    } else if l == "f11"@ {
        Some(KeyCode::F(11))
    } else if l == "f12"@ {
        Some(KeyCode::F(12))
    } else {
        None
    }
}

/// A single key: a named key (matched case-insensitively) or a lone
/// character (which keeps its case: `q` and `Q` differ).
pub open spec fn parse_key_spec(s: Seq<char>) -> Option<KeyCode> {
    match named_key(unicode_lowercase(s)) {
        Some(k) => Some(k),
        None => if s.len() == 1 {
            Some(KeyCode::Char(s[0]))
        } else {
            None
        },
    }
}

/// What a key spec string resolves to. Resolution order: `ctrl-<char>`
/// (matched on the lower-cased spec, so the char is lower-cased too), a
/// named key or single char, then a two-key sequence (a prefix char plus a
/// single key). Surrounding whitespace is ignored.
pub open spec fn key_spec_of(spec: Seq<char>) -> Option<KeySpec> {
    let t = trim_seq(spec);
    let lower = unicode_lowercase(t);
    if t.len() == 0 {
        None
    } else if has_prefix(lower, "ctrl-"@) {
        let rest = lower.skip(5);
        if rest.len() == 1 {
            Some(KeySpec { prefix: None, ctrl: true, code: KeyCode::Char(rest[0]) })
        } else {
            None
        }
    } else {
        match parse_key_spec(t) {
            Some(code) => Some(KeySpec { prefix: None, ctrl: false, code }),
            None => match parse_key_spec(t.skip(1)) {
                Some(code) => Some(KeySpec { prefix: Some(t[0]), ctrl: false, code }),
                None => None,
            },
        }
    }
}

fn named_key_of(l: &str) -> (r: Option<KeyCode>)
    ensures
        r == named_key(l@),
{
    if str_eq(l, "esc") {
        Some(KeyCode::Esc)
    } else if str_eq(l, "enter") || str_eq(l, "return") {
        Some(KeyCode::Enter)
    } else if str_eq(l, "space") || str_eq(l, "spacebar") {
        Some(KeyCode::Char(' '))
    } else if str_eq(l, "tab") {
        Some(KeyCode::Tab)
    } else if str_eq(l, "backtab") || str_eq(l, "shift-tab") || str_eq(l, "btab") {
        Some(KeyCode::BackTab)
    } else if str_eq(l, "up") {
        Some(KeyCode::Up)
    } else if str_eq(l, "down") {
        Some(KeyCode::Down)
    } else if str_eq(l, "left") {
        Some(KeyCode::Left)
    } else if str_eq(l, "right") {
        Some(KeyCode::Right)
    } else if str_eq(l, "home") {
        Some(KeyCode::Home)
    } else if str_eq(l, "end") {
        Some(KeyCode::End)
    } else if str_eq(l, "pageup") || str_eq(l, "pgup") {
        Some(KeyCode::PageUp)
    } else if str_eq(l, "pagedown") || str_eq(l, "pgdn") || str_eq(l, "pgdown") {
        Some(KeyCode::PageDown)
    } else if str_eq(l, "backspace") {
        Some(KeyCode::Backspace)
    } else if str_eq(l, "delete") || str_eq(l, "del") {
        Some(KeyCode::Delete)
    } else if str_eq(l, "insert") || str_eq(l, "ins") {
        Some(KeyCode::Insert)
    } else if str_eq(l, "f1") {
        Some(KeyCode::F(1))
    } else if str_eq(l, "f2") {
        Some(KeyCode::F(2))
    } else if str_eq(l, "f3") {
        Some(KeyCode::F(3))
    } else if str_eq(l, "f4") {
        Some(KeyCode::F(4))
    } else if str_eq(l, "f5") {
        Some(KeyCode::F(5))
    } else if str_eq(l, "f6") {
        Some(KeyCode::F(6))
    } else if str_eq(l, "f7") {
        Some(KeyCode::F(7))
    } else if str_eq(l, "f8") {
        Some(KeyCode::F(8))
    } else if str_eq(l, "f9") {
        Some(KeyCode::F(9))
    } else if str_eq(l, "f10") {
        Some(KeyCode::F(10))
    } else if str_eq(l, "f11") {
        Some(KeyCode::F(11))
    } else if str_eq(l, "f12") {
        Some(KeyCode::F(12))
    } else {
        None
    }
}

/// Resolve a single key: a named key (case-insensitive) or a lone char.
pub fn parse_named_key(s: &str) -> (r: Option<KeyCode>)
    ensures
        r == parse_key_spec(s@),
{
    let lower = str_to_lowercase(s);
    match named_key_of(lower.as_str()) {
        Some(k) => Some(k),
        None => {
            let chars = str_chars(s);
            if chars.len() == 1 {
                Some(KeyCode::Char(chars[0]))
            } else {
                None
            }
        },
    }
}

impl KeySpec {
    /// Parse a spec like `"q"`, `"ctrl-d"`, `"pageup"`, or `"]h"` (a two-key
    /// sequence). Resolution order: `ctrl-<char>`, named key or single char,
    /// then two-key sequence.
    pub fn parse(spec: &str) -> (r: Option<KeySpec>)
        ensures
            r == key_spec_of(spec@),
    {
        let t = str_trim(spec);
        let tc = str_chars(t);
        if tc.len() == 0 {
            return None;
        }
        let lower = str_to_lowercase(t);
        let lc = str_chars(lower.as_str());
        proof {
            reveal_strlit("ctrl-");
        }
        if lc.len() >= 5 && lc[0] == 'c' && lc[1] == 't' && lc[2] == 'r' && lc[3] == 'l'
            && lc[4] == '-' {
            proof {
                assert(lc@.subrange(0, 5) =~= "ctrl-"@);
            }
            if lc.len() == 6 {
                return Some(KeySpec { prefix: None, ctrl: true, code: KeyCode::Char(lc[5]) });
            }
            return None;
        }
        proof {
            if has_prefix(lc@, "ctrl-"@) {
                assert(lc@.subrange(0, 5)[0] == lc@[0]);
                assert(lc@.subrange(0, 5)[1] == lc@[1]);
                assert(lc@.subrange(0, 5)[2] == lc@[2]);
                assert(lc@.subrange(0, 5)[3] == lc@[3]);
                assert(lc@.subrange(0, 5)[4] == lc@[4]);
            }
        }
        if let Some(code) = parse_named_key(t) {
            return Some(KeySpec { prefix: None, ctrl: false, code });
        }
        let first = tc[0];
        let mut rest: Vec<char> = Vec::new();
        let mut i: usize = 1;
        while i < tc.len()
            invariant
                1 <= i <= tc.len(),
                rest@ == tc@.subrange(1, i as int),
            decreases tc.len() - i,
        {
            rest.push(tc[i]);
            proof {
                assert(rest@ =~= tc@.subrange(1, i + 1));
            }
            i = i + 1;
        }
        proof {
            assert(rest@ =~= t@.skip(1));
        }
        let rest_str = string_from_chars(rest.as_slice());
        match parse_named_key(rest_str.as_str()) {
            Some(code) => Some(KeySpec { prefix: Some(first), ctrl: false, code }),
            None => None,
        }
    }
}

} // verus!

verus! {

/// The human-readable name of a key (help overlay, conflict warnings).
pub open spec fn key_display(code: KeyCode, ctrl: bool) -> Seq<char> {
    match code {
        KeyCode::Char(c) => if c == ' ' && !ctrl {
            "SPC"@
        } else if ctrl {
            "ctrl-"@ + seq![c]
        } else {
            seq![c]
        },
        KeyCode::Esc => "esc"@,
        KeyCode::Enter => "enter"@,
        KeyCode::Tab => "tab"@,
        KeyCode::BackTab => "backtab"@,
        KeyCode::Backspace => "backspace"@,
        KeyCode::Delete => "delete"@,
        KeyCode::Insert => "insert"@,
        KeyCode::Left => "left"@,
        KeyCode::Right => "right"@,
        KeyCode::Up => "up"@,
        KeyCode::Down => "down"@,
        KeyCode::Home => "home"@,
        KeyCode::End => "end"@,
        KeyCode::PageUp => "pageup"@,
        KeyCode::PageDown => "pagedown"@,
        KeyCode::F(n) => "f"@ + decimal(n as nat),
        KeyCode::Other => "…"@,
    }
}

/// The human-readable form of a key spec: the prefix char, if any, then
/// the key.
pub open spec fn display_spec(k: KeySpec) -> Seq<char> {
    match k.prefix {
        Some(p) => seq![p] + key_display(k.code, k.ctrl),
        None => key_display(k.code, k.ctrl),
    }
}

fn key_display_string(code: KeyCode, ctrl: bool) -> (s: String)
    ensures
        s@ == key_display(code, ctrl),
{
    match code {
        KeyCode::Char(c) => {
            if c == ' ' && !ctrl {
                owned("SPC")
            } else if ctrl {
                let mut out = owned("ctrl-");
                out.push(c);
                out
            } else {
                let mut out = String::new();
                out.push(c);
                proof {
                    assert(out@ =~= seq![c]);
                }
                out
            }
        },
        KeyCode::Esc => owned("esc"),
        KeyCode::Enter => owned("enter"),
        KeyCode::Tab => owned("tab"),
        KeyCode::BackTab => owned("backtab"),
        KeyCode::Backspace => owned("backspace"),
        KeyCode::Delete => owned("delete"),
        KeyCode::Insert => owned("insert"),
        KeyCode::Left => owned("left"),
        KeyCode::Right => owned("right"),
        KeyCode::Up => owned("up"),
        KeyCode::Down => owned("down"),
        KeyCode::Home => owned("home"),
        KeyCode::End => owned("end"),
        KeyCode::PageUp => owned("pageup"),
        KeyCode::PageDown => owned("pagedown"),
        KeyCode::F(n) => {
            let mut out = owned("f");
            let d = u64_to_string(n as u64);
            out.append(d.as_str());
            out
        },
        KeyCode::Other => owned("…"),
    }
}

impl KeySpec {
    /// Human-readable form for the help overlay / conflict warnings.
    pub fn display(&self) -> (s: String)
        ensures
            s@ == display_spec(*self),
    {
        let key = key_display_string(self.code, self.ctrl);
        match self.prefix {
            Some(p) => {
                let mut out = String::new();
                out.push(p);
                out.append(key.as_str());
                proof {
                    assert(out@ =~= seq![p] + key@);
                }
                out
            },
            None => key,
        }
    }
}

} // verus!

verus! {

/// The map a list of (key, action) bindings describes.
pub open spec fn pairs_map(v: Seq<(KeySpec, Action)>) -> Map<KeySpec, Action>
    decreases v.len(),
{
    if v.len() == 0 {
        Map::empty()
    } else {
        pairs_map(v.drop_last()).insert(v.last().0, v.last().1)
    }
}

/// No key is bound twice.
pub open spec fn unique_keys(v: Seq<(KeySpec, Action)>) -> bool {
    forall|i: int, j: int| 0 <= i < j < v.len() ==> v[i].0 != v[j].0
}

/// The bindings left after dropping every key bound to `a`.
pub open spec fn without_action(m: Map<KeySpec, Action>, a: Action) -> Map<KeySpec, Action> {
    Map::new(|k: KeySpec| m.contains_key(k) && m[k] != a, |k: KeySpec| m[k])
}

/// The bindings of a list except those of `a`, in order.
pub open spec fn filter_action(v: Seq<(KeySpec, Action)>, a: Action) -> Seq<(KeySpec, Action)>
    decreases v.len(),
{
    if v.len() == 0 {
        Seq::empty()
    } else if v.last().1 == a {
        filter_action(v.drop_last(), a)
    } else {
        filter_action(v.drop_last(), a).push(v.last())
    }
}

proof fn lemma_pairs_map_keys(v: Seq<(KeySpec, Action)>, k: KeySpec)
    ensures
        pairs_map(v).contains_key(k) <==> exists|i: int| 0 <= i < v.len() && v[i].0 == k,
    decreases v.len(),
{
    if v.len() > 0 {
        lemma_pairs_map_keys(v.drop_last(), k);
        if pairs_map(v.drop_last()).contains_key(k) {
            let i = choose|i: int| 0 <= i < v.drop_last().len() && v.drop_last()[i].0 == k;
            assert(v[i].0 == k);
        }
        if exists|i: int| 0 <= i < v.len() && v[i].0 == k {
            let i = choose|i: int| 0 <= i < v.len() && v[i].0 == k;
            if i < v.len() - 1 {
                assert(v.drop_last()[i].0 == k);
            }
        }
    }
}

proof fn lemma_pairs_map_index(v: Seq<(KeySpec, Action)>, i: int)
    requires
        unique_keys(v),
        0 <= i < v.len(),
    ensures
        pairs_map(v).contains_key(v[i].0),
        pairs_map(v)[v[i].0] == v[i].1,
    decreases v.len(),
{
    if i < v.len() - 1 {
        lemma_pairs_map_index(v.drop_last(), i);
        assert(v.drop_last()[i] == v[i]);
    }
}

proof fn lemma_pairs_map_finite(v: Seq<(KeySpec, Action)>)
    ensures
        pairs_map(v).dom().finite(),
    decreases v.len(),
{
    if v.len() > 0 {
        lemma_pairs_map_finite(v.drop_last());
    }
}

proof fn lemma_filter_action(v: Seq<(KeySpec, Action)>, a: Action)
    requires
        unique_keys(v),
    ensures
        unique_keys(filter_action(v, a)),
        pairs_map(filter_action(v, a)) == without_action(pairs_map(v), a),
        forall|x: (KeySpec, Action)| filter_action(v, a).contains(x) ==> v.contains(x),
    decreases v.len(),
{
    if v.len() > 0 {
        let d = v.drop_last();
        assert forall|i: int, j: int| 0 <= i < j < d.len() implies d[i].0 != d[j].0 by {
            assert(d[i] == v[i] && d[j] == v[j]);
        }
        lemma_filter_action(d, a);
        let f = filter_action(d, a);
        let last = v.last();
        assert forall|x: (KeySpec, Action)| f.contains(x) implies v.contains(x) by {
            assert(d.contains(x));
            let t = choose|t: int| 0 <= t < d.len() && d[t] == x;
            assert(v[t] == x);
        }
        lemma_pairs_map_keys(d, last.0);
        if exists|i: int| 0 <= i < d.len() && d[i].0 == last.0 {
            let i = choose|i: int| 0 <= i < d.len() && d[i].0 == last.0;
            assert(v[i].0 == v[v.len() - 1].0);
            assert(false);
        }
        if last.1 == a {
            assert(pairs_map(filter_action(v, a)) =~= without_action(pairs_map(v), a));
        } else {
            let g = f.push(last);
            assert forall|i: int, j: int| 0 <= i < j < g.len() implies g[i].0 != g[j].0 by {
                if j == g.len() - 1 {
                    assert(g[i] == f[i]);
                    assert(f.contains(g[i]));
                    assert(d.contains(g[i]));
                    let t = choose|t: int| 0 <= t < d.len() && d[t] == g[i];
                    assert(d[t].0 == g[i].0);
                    assert(v[t] == d[t]);
                } else {
                    assert(g[i] == f[i] && g[j] == f[j]);
                }
            }
            assert(filter_action(v, a) == g);
            assert(g.drop_last() =~= f);
            assert(pairs_map(filter_action(v, a)) =~= without_action(pairs_map(v), a));
        }
    }
}

proof fn lemma_pairs_map_update(v: Seq<(KeySpec, Action)>, i: int, a: Action)
    requires
        unique_keys(v),
        0 <= i < v.len(),
    ensures
        unique_keys(v.update(i, (v[i].0, a))),
        pairs_map(v.update(i, (v[i].0, a))) == pairs_map(v).insert(v[i].0, a),
    decreases v.len(),
{
    let w = v.update(i, (v[i].0, a));
    assert forall|p: int, q: int| 0 <= p < q < w.len() implies w[p].0 != w[q].0 by {
        assert(w[p].0 == v[p].0 && w[q].0 == v[q].0);
    }
    if i == v.len() - 1 {
        assert(w.drop_last() =~= v.drop_last());
        assert(pairs_map(w) =~= pairs_map(v).insert(v[i].0, a));
    } else {
        let d = v.drop_last();
        assert forall|p: int, q: int| 0 <= p < q < d.len() implies d[p].0 != d[q].0 by {
            assert(d[p] == v[p] && d[q] == v[q]);
        }
        lemma_pairs_map_update(d, i, a);
        assert(w.drop_last() =~= d.update(i, (d[i].0, a)));
        assert(v[i].0 != v.last().0);
        assert(pairs_map(w) =~= pairs_map(v).insert(v[i].0, a));
    }
}

/// The resolved keymap: key spec → action.
#[derive(Debug)]
pub struct Keymap {
    /// Fully-resolved bindings (including sequences), each key at most once.
    bindings: Vec<(KeySpec, Action)>,
}

impl Keymap {
    #[verifier::type_invariant]
    spec fn wf(self) -> bool {
        unique_keys(self.bindings@)
    }
}

impl View for Keymap {
    type V = Map<KeySpec, Action>;

    closed spec fn view(&self) -> Map<KeySpec, Action> {
        pairs_map(self.bindings@)
    }
}

impl Clone for Keymap {
    fn clone(&self) -> (km: Self)
        ensures
            km@ == self@,
    {
        proof {
            use_type_invariant(self);
        }
        let mut out: Vec<(KeySpec, Action)> = Vec::new();
        let mut i: usize = 0;
        while i < self.bindings.len()
            invariant
                0 <= i <= self.bindings.len(),
                out@ == self.bindings@.subrange(0, i as int),
            decreases self.bindings.len() - i,
        {
            out.push(self.bindings[i]);
            proof {
                assert(out@ =~= self.bindings@.subrange(0, i + 1));
            }
            i = i + 1;
        }
        proof {
            assert(out@ =~= self.bindings@);
        }
        Keymap { bindings: out }
    }
}

impl Default for Keymap {
    fn default() -> (km: Self)
        ensures
            km@ == Map::<KeySpec, Action>::empty(),
    {
        Keymap { bindings: Vec::new() }
    }
}

/// The action bound to `k`, if any.
pub open spec fn map_get(m: Map<KeySpec, Action>, k: KeySpec) -> Option<Action> {
    if m.contains_key(k) {
        Some(m[k])
    } else {
        None
    }
}

impl Keymap {
    /// The binding map is finite.
    fn find(&self, k: &KeySpec) -> (r: Option<usize>)
        ensures
            match r {
                Some(i) => i < self.bindings@.len() && self.bindings@[i as int].0 == *k
                    && self@.contains_key(*k) && self@[*k] == self.bindings@[i as int].1,
                None => !self@.contains_key(*k),
            },
    {
        proof {
            use_type_invariant(self);
        }
        let mut i: usize = 0;
        while i < self.bindings.len()
            invariant
                0 <= i <= self.bindings.len(),
                unique_keys(self.bindings@),
                forall|t: int| 0 <= t < i ==> self.bindings@[t].0 != *k,
            decreases self.bindings.len() - i,
        {
            if self.bindings[i].0 == *k {
                proof {
                    lemma_pairs_map_index(self.bindings@, i as int);
                }
                return Some(i);
            }
            i = i + 1;
        }
        proof {
            lemma_pairs_map_keys(self.bindings@, *k);
        }
        None
    }

    /// The action bound to `k`, if any.
    fn get(&self, k: &KeySpec) -> (r: Option<Action>)
        ensures
            r == map_get(self@, *k),
    {
        match self.find(k) {
            Some(i) => Some(self.bindings[i].1),
            None => None,
        }
    }

    /// Bind `k` to `a`, replacing any earlier binding of `k`.
    fn set(&mut self, k: KeySpec, a: Action)
        ensures
            final(self)@ == old(self)@.insert(k, a),
    {
        proof {
            use_type_invariant(&*self);
        }
        match self.find(&k) {
            Some(i) => {
                let mut v: Vec<(KeySpec, Action)> = Vec::new();
                std::mem::swap(&mut v, &mut self.bindings);
                proof {
                    lemma_pairs_map_update(v@, i as int, a);
                }
                v.set(i, (k, a));
                self.bindings = v;
            },
            None => {
                let mut v: Vec<(KeySpec, Action)> = Vec::new();
                std::mem::swap(&mut v, &mut self.bindings);
                let ghost old_v = v@;
                proof {
                    lemma_pairs_map_keys(old_v, k);
                }
                v.push((k, a));
                proof {
                    assert(v@.drop_last() =~= old_v);
                    assert forall|p: int, q: int| 0 <= p < q < v@.len() implies v@[p].0 != v@[q].0 by {
                        if q == v@.len() - 1 {
                            assert(old_v[p].0 == v@[p].0);
                        } else {
                            assert(old_v[p] == v@[p] && old_v[q] == v@[q]);
                        }
                    }
                }
                self.bindings = v;
            },
        }
    }

    /// Drop every binding of `a`.
    fn unbind(&mut self, a: Action)
        ensures
            final(self)@ == without_action(old(self)@, a),
    {
        proof {
            use_type_invariant(&*self);
            lemma_filter_action(self.bindings@, a);
        }
        let mut out: Vec<(KeySpec, Action)> = Vec::new();
        let mut i: usize = 0;
        while i < self.bindings.len()
            invariant
                0 <= i <= self.bindings.len(),
                out@ == filter_action(self.bindings@.subrange(0, i as int), a),
            decreases self.bindings.len() - i,
        {
            proof {
                assert(self.bindings@.subrange(0, i + 1).drop_last() =~= self.bindings@.subrange(
                    0,
                    i as int,
                ));
            }
            if self.bindings[i].1 != a {
                out.push(self.bindings[i]);
            }
            i = i + 1;
        }
        proof {
            assert(self.bindings@.subrange(0, self.bindings@.len() as int) =~= self.bindings@);
        }
        self.bindings = out;
    }
}

} // verus!

verus! {

/// The bindings an action's spec strings claim, in order (unparseable specs
/// claim nothing).
pub open spec fn action_claims(a: Action, specs: Seq<Seq<char>>) -> Seq<(KeySpec, Action)>
    decreases specs.len(),
{
    if specs.len() == 0 {
        Seq::empty()
    } else {
        let rest = action_claims(a, specs.drop_last());
        match key_spec_of(specs.last()) {
            Some(k) => rest.push((k, a)),
            None => rest,
        }
    }
}

/// The default claims of a list of actions, action by action.
pub open spec fn default_claims(actions: Seq<Action>) -> Seq<(KeySpec, Action)>
    decreases actions.len(),
{
    if actions.len() == 0 {
        Seq::empty()
    } else {
        default_claims(actions.drop_last()) + action_claims(
            actions.last(),
            default_specs_spec(actions.last()),
        )
    }
}

/// Apply claims in order on top of `m`: the first claim of a key wins.
pub open spec fn first_wins(m: Map<KeySpec, Action>, claims: Seq<(KeySpec, Action)>) -> Map<KeySpec, Action>
    decreases claims.len(),
{
    if claims.len() == 0 {
        m
    } else {
        let prev = first_wins(m, claims.drop_last());
        if prev.contains_key(claims.last().0) {
            prev
        } else {
            prev.insert(claims.last().0, claims.last().1)
        }
    }
}

/// The default bindings: every action's built-in keys, claimed in
/// help-overlay order, first claim winning.
pub open spec fn default_map_spec() -> Map<KeySpec, Action> {
    first_wins(Map::empty(), default_claims(all_actions_spec()))
}

impl Keymap {
    /// Claim a key for an action. First claim wins: a key already held by
    /// another action is left alone and that holder is returned.
    fn claim(&mut self, spec: KeySpec, action: Action) -> (held: Option<Action>)
        ensures
            old(self)@.contains_key(spec) && old(self)@[spec] != action ==> held == Some(
                old(self)@[spec],
            ) && final(self)@ == old(self)@,
            !(old(self)@.contains_key(spec) && old(self)@[spec] != action) ==> held.is_none()
                && final(self)@ == old(self)@.insert(spec, action),
    {
        match self.get(&spec) {
            Some(h) => {
                if h != action {
                    return Some(h);
                }
            },
            None => {},
        }
        self.set(spec, action);
        None
    }

    /// The default bindings — identical to the pre-config hardcoded keys.
    pub fn default_map() -> (km: Keymap)
        ensures
            km@ == default_map_spec(),
    {
        let mut km = Keymap::default();
        let actions = all_actions();
        let mut i: usize = 0;
        while i < actions.len()
            invariant
                0 <= i <= actions.len(),
                actions@ == all_actions_spec(),
                km@ == first_wins(Map::empty(), default_claims(actions@.subrange(0, i as int))),
            decreases actions.len() - i,
        {
            let action = actions[i];
            let specs = action.default_specs();
            let ghost before = default_claims(actions@.subrange(0, i as int));
            let mut j: usize = 0;
            while j < specs.len()
                invariant
                    0 <= j <= specs.len(),
                    str_views(specs@) == default_specs_spec(action),
                    km@ == first_wins(
                        Map::empty(),
                        before + action_claims(action, str_views(specs@).subrange(0, j as int)),
                    ),
                decreases specs.len() - j,
            {
                let ghost cl = action_claims(action, str_views(specs@).subrange(0, j as int));
                proof {
                    assert(str_views(specs@).subrange(0, j + 1).drop_last() =~= str_views(
                        specs@,
                    ).subrange(0, j as int));
                    assert(str_views(specs@).subrange(0, j + 1).last() == specs@[j as int]@);
                }
                match KeySpec::parse(specs[j]) {
                    Some(k) => {
                        proof {
                            assert((before + cl.push((k, action))).drop_last() =~= before + cl);
                        }
                        let _ = km.claim(k, action);
                        proof {
                            let m = first_wins(Map::empty(), before + cl);
                            if m.contains_key(k) && m[k] == action {
                                assert(m.insert(k, action) =~= m);
                            }
                        }
                    },
                    None => {},
                }
                j = j + 1;
            }
            proof {
                assert(str_views(specs@).subrange(0, specs@.len() as int) =~= str_views(specs@));
                assert(actions@.subrange(0, i + 1).drop_last() =~= actions@.subrange(0, i as int));
                assert(actions@.subrange(0, i + 1).last() == action);
            }
            i = i + 1;
        }
        proof {
            assert(actions@.subrange(0, actions@.len() as int) =~= actions@);
        }
        km
    }

    /// Resolve a single-key press (no pending prefix).
    pub fn lookup(&self, key: &KeyPress) -> (r: Option<Action>)
        ensures
            r == map_get(self@, KeySpec { prefix: None, ctrl: key.ctrl, code: key.code }),
    {
        self.get(&KeySpec { prefix: None, ctrl: key.ctrl, code: key.code })
    }

    /// Resolve the second key of a sequence armed by `prefix` (the Control
    /// state of the second key is not considered).
    pub fn lookup_sequence(&self, prefix: char, key: &KeyPress) -> (r: Option<Action>)
        ensures
            r == map_get(self@, KeySpec { prefix: Some(prefix), ctrl: false, code: key.code }),
    {
        self.get(&KeySpec { prefix: Some(prefix), ctrl: false, code: key.code })
    }

    /// Does any sequence start with this key (i.e. should pressing it arm a
    /// pending prefix instead of falling through)?
    pub fn arms_prefix(&self, c: char) -> (b: bool)
        ensures
            b == exists|k: KeySpec| #[trigger] self@.contains_key(k) && k.prefix == Some(c) && !k.ctrl,
    {
        proof {
            use_type_invariant(self);
        }
        let mut i: usize = 0;
        while i < self.bindings.len()
            invariant
                0 <= i <= self.bindings.len(),
                unique_keys(self.bindings@),
                forall|t: int| 0 <= t < i ==> !(self.bindings@[t].0.prefix == Some(c) && !self.bindings@[t].0.ctrl),
            decreases self.bindings.len() - i,
        {
            let k = self.bindings[i].0;
            if k.prefix == Some(c) && !k.ctrl {
                proof {
                    lemma_pairs_map_index(self.bindings@, i as int);
                    assert(self@.contains_key(k));
                }
                return true;
            }
            i = i + 1;
        }
        proof {
            if exists|k: KeySpec| #[trigger] self@.contains_key(k) && k.prefix == Some(c) && !k.ctrl {
                let k = choose|k: KeySpec| #[trigger] self@.contains_key(k) && k.prefix == Some(c) && !k.ctrl;
                lemma_pairs_map_keys(self.bindings@, k);
                let t = choose|t: int| 0 <= t < self.bindings@.len() && self.bindings@[t].0 == k;
                assert(false);
            }
        }
        false
    }
}

} // verus!

verus! {

/// A `[keybindings]` value as the config file delivered it.
#[derive(Debug, Clone, PartialEq, Eq)]
pub enum OverrideValue {
    /// `true` (keep the defaults) or `false` (unbind).
    Bool(bool),
    /// A single key spec.
    Str(String),
    /// A list; its string items are `Some`, any other item `None`.
    Array(Vec<Option<String>>),
    /// Any other value, carried as its debug rendering for the warning.
    Other(String),
}

/// The key spec strings an override names, or `None` for a value of the
/// wrong type.
pub open spec fn override_specs(a: Action, v: OverrideValue) -> Option<Seq<Seq<char>>> {
    match v {
        OverrideValue::Bool(false) => Some(Seq::empty()),
        OverrideValue::Bool(true) => Some(default_specs_spec(a)),
        OverrideValue::Str(s) => Some(seq![s@]),
        OverrideValue::Array(items) => Some(string_items(items@)),
        OverrideValue::Other(_) => None,
    }
}

/// The string items of a list, in order.
pub open spec fn string_items(items: Seq<Option<String>>) -> Seq<Seq<char>>
    decreases items.len(),
{
    if items.len() == 0 {
        Seq::empty()
    } else {
        match items.last() {
            Some(s) => string_items(items.drop_last()).push(s@),
            None => string_items(items.drop_last()),
        }
    }
}

/// The keys a list of spec strings parses to, in order.
pub open spec fn parsed_specs(specs: Seq<Seq<char>>) -> Seq<KeySpec>
    decreases specs.len(),
{
    if specs.len() == 0 {
        Seq::empty()
    } else {
        match key_spec_of(specs.last()) {
            Some(k) => parsed_specs(specs.drop_last()).push(k),
            None => parsed_specs(specs.drop_last()),
        }
    }
}

pub open spec fn warn_type(name: Seq<char>, shown: Seq<char>) -> Seq<char> {
    "keybindings."@ + name + ": expected key list or false, got "@ + shown + " — ignored"@
}

pub open spec fn warn_parse(name: Seq<char>, spec: Seq<char>) -> Seq<char> {
    "keybindings."@ + name + ": cannot parse key `"@ + spec + "` — ignored"@
}

pub open spec fn warn_no_valid(name: Seq<char>) -> Seq<char> {
    "keybindings."@ + name + ": no valid keys — keeping defaults"@
}

pub open spec fn warn_conflict(k: KeySpec, earlier: Action, a: Action) -> Seq<char> {
    "keybindings: `"@ + display_spec(k) + "` is claimed by both `"@ + action_name(earlier)
        + "` and `"@ + action_name(a) + "` — keeping `"@ + action_name(earlier) + "`"@
}

pub open spec fn warn_takes(a: Action, k: KeySpec, held: Action) -> Seq<char> {
    "keybindings: `"@ + action_name(a) + "` takes `"@ + display_spec(k) + "` from `"@
        + action_name(held) + "`"@
}

pub open spec fn warn_unknown(name: Seq<char>) -> Seq<char> {
    "keybindings."@ + name + ": unknown action — ignored"@
}

/// The parse warnings for a list of spec strings, in order.
pub open spec fn parse_warnings(name: Seq<char>, specs: Seq<Seq<char>>) -> Seq<Seq<char>>
    decreases specs.len(),
{
    if specs.len() == 0 {
        Seq::empty()
    } else {
        match key_spec_of(specs.last()) {
            Some(_) => parse_warnings(name, specs.drop_last()),
            None => parse_warnings(name, specs.drop_last()).push(warn_parse(name, specs.last())),
        }
    }
}

/// The override entry for a name, if the table has one.
pub open spec fn find_override(ov: Seq<(String, OverrideValue)>, name: Seq<char>) -> Option<OverrideValue>
    decreases ov.len(),
{
    if ov.len() == 0 {
        None
    } else if ov[0].0@ == name {
        Some(ov[0].1)
    } else {
        find_override(ov.drop_first(), name)
    }
}

/// First pass over the actions: which overrides apply (with their keys) and
/// the warnings for values of the wrong type, unparseable specs and
/// overrides left without a valid key (which keep their defaults; only an
/// explicit `false` unbinds).
pub struct Applied {
    pub applied: Seq<(Action, Seq<KeySpec>)>,
    pub warnings: Seq<Seq<char>>,
}

pub open spec fn apply_pass(ov: Seq<(String, OverrideValue)>, actions: Seq<Action>) -> Applied
    decreases actions.len(),
{
    if actions.len() == 0 {
        Applied { applied: Seq::empty(), warnings: Seq::empty() }
    } else {
        let prev = apply_pass(ov, actions.drop_last());
        let a = actions.last();
        let name = action_name(a);
        match find_override(ov, name) {
            None => prev,
            Some(v) => match override_specs(a, v) {
                None => Applied {
                    warnings: prev.warnings.push(warn_type(name, v->Other_0@)),
                    ..prev
                },
                Some(specs) => {
                    let w = prev.warnings + parse_warnings(name, specs);
                    let p = parsed_specs(specs);
                    if v != OverrideValue::Bool(false) && p.len() == 0 {
                        Applied { warnings: w.push(warn_no_valid(name)), ..prev }
                    } else {
                        Applied { applied: prev.applied.push((a, p)), warnings: w }
                    }
                },
            },
        }
    }
}

/// The defaults with every overridden action's keys dropped.
pub open spec fn unbind_all(m: Map<KeySpec, Action>, applied: Seq<(Action, Seq<KeySpec>)>) -> Map<KeySpec, Action>
    decreases applied.len(),
{
    if applied.len() == 0 {
        m
    } else {
        without_action(unbind_all(m, applied.drop_last()), applied.last().0)
    }
}

/// The override claims, action by action in order.
pub open spec fn override_claims(applied: Seq<(Action, Seq<KeySpec>)>) -> Seq<(KeySpec, Action)>
    decreases applied.len(),
{
    if applied.len() == 0 {
        Seq::empty()
    } else {
        override_claims(applied.drop_last()) + claims_of(applied.last().0, applied.last().1)
    }
}

/// The claims of one action on a list of keys, in order.
pub open spec fn claims_of(a: Action, keys: Seq<KeySpec>) -> Seq<(KeySpec, Action)> {
    keys.map_values(|k: KeySpec| (k, a))
}

/// Second pass: claim the override keys in order. A key an earlier override
/// already claimed stays with it (warned); a key still held by a default
/// binding is taken (warned).
pub struct Claimed {
    pub bindings: Map<KeySpec, Action>,
    pub by_override: Map<KeySpec, Action>,
    pub warnings: Seq<Seq<char>>,
}

pub open spec fn claim_pass(base: Map<KeySpec, Action>, claims: Seq<(KeySpec, Action)>) -> Claimed
    decreases claims.len(),
{
    if claims.len() == 0 {
        Claimed { bindings: base, by_override: Map::empty(), warnings: Seq::empty() }
    } else {
        let prev = claim_pass(base, claims.drop_last());
        let (k, a) = claims.last();
        if prev.by_override.contains_key(k) {
            Claimed {
                warnings: prev.warnings.push(warn_conflict(k, prev.by_override[k], a)),
                ..prev
            }
        } else {
            Claimed {
                bindings: prev.bindings.insert(k, a),
                by_override: prev.by_override.insert(k, a),
                warnings: if prev.bindings.contains_key(k) {
                    prev.warnings.push(warn_takes(a, k, prev.bindings[k]))
                } else {
                    prev.warnings
                },
            }
        }
    }
}

/// Whether a name is the name of an action.
pub open spec fn is_action_name(name: Seq<char>) -> bool {
    exists|i: int| 0 <= i < all_actions_spec().len() && action_name(all_actions_spec()[i]) == name
}

/// Third pass: a warning for every table entry that names no action, in
/// table order.
pub open spec fn unknown_warnings(ov: Seq<(String, OverrideValue)>) -> Seq<Seq<char>>
    decreases ov.len(),
{
    if ov.len() == 0 {
        Seq::empty()
    } else if is_action_name(ov.last().0@) {
        unknown_warnings(ov.drop_last())
    } else {
        unknown_warnings(ov.drop_last()).push(warn_unknown(ov.last().0@))
    }
}

/// The keymap a `[keybindings]` table yields.
pub open spec fn overridden_map(ov: Seq<(String, OverrideValue)>) -> Map<KeySpec, Action> {
    let p = apply_pass(ov, all_actions_spec());
    claim_pass(unbind_all(default_map_spec(), p.applied), override_claims(p.applied)).bindings
}

/// The warnings a `[keybindings]` table yields, in order.
pub open spec fn override_warnings(ov: Seq<(String, OverrideValue)>) -> Seq<Seq<char>> {
    let p = apply_pass(ov, all_actions_spec());
    p.warnings + claim_pass(
        unbind_all(default_map_spec(), p.applied),
        override_claims(p.applied),
    ).warnings + unknown_warnings(ov)
}

/// No name occurs twice in the table (it comes from a TOML table).
pub open spec fn names_unique(ov: Seq<(String, OverrideValue)>) -> bool {
    forall|i: int, j: int| 0 <= i < j < ov.len() ==> ov[i].0@ != ov[j].0@
}

fn warning_type(name: &str, shown: &str) -> (r: String)
    ensures
        r@ == warn_type(name@, shown@),
{
    let mut out = owned("keybindings.");
    out.append(name);
    out.append(": expected key list or false, got ");
    out.append(shown);
    out.append(" — ignored");
    out
}

fn warning_parse(name: &str, spec: &str) -> (r: String)
    ensures
        r@ == warn_parse(name@, spec@),
{
    let mut out = owned("keybindings.");
    out.append(name);
    out.append(": cannot parse key `");
    out.append(spec);
    out.append("` — ignored");
    out
}

fn warning_no_valid(name: &str) -> (r: String)
    ensures
        r@ == warn_no_valid(name@),
{
    let mut out = owned("keybindings.");
    out.append(name);
    out.append(": no valid keys — keeping defaults");
    out
}

fn warning_conflict(k: &KeySpec, earlier: Action, a: Action) -> (r: String)
    ensures
        r@ == warn_conflict(*k, earlier, a),
{
    let mut out = owned("keybindings: `");
    let d = k.display();
    out.append(d.as_str());
    out.append("` is claimed by both `");
    out.append(earlier.name());
    out.append("` and `");
    out.append(a.name());
    out.append("` — keeping `");
    out.append(earlier.name());
    out.append("`");
    out
}

fn warning_takes(a: Action, k: &KeySpec, held: Action) -> (r: String)
    ensures
        r@ == warn_takes(a, *k, held),
{
    let mut out = owned("keybindings: `");
    out.append(a.name());
    out.append("` takes `");
    let d = k.display();
    out.append(d.as_str());
    out.append("` from `");
    out.append(held.name());
    out.append("`");
    out
}

fn warning_unknown(name: &str) -> (r: String)
    ensures
        r@ == warn_unknown(name@),
{
    let mut out = owned("keybindings.");
    out.append(name);
    out.append(": unknown action — ignored");
    out
}

} // verus!

verus! {

/// The override entry named `name`, if the table has one.
fn find_override_in<'a>(ov: &'a Vec<(String, OverrideValue)>, name: &str) -> (r: Option<&'a OverrideValue>)
    ensures
        match r {
            Some(v) => find_override(ov@, name@) == Some(*v),
            None => find_override(ov@, name@) is None,
        },
{
    let mut i: usize = 0;
    proof {
        assert(ov@.subrange(0, ov@.len() as int) =~= ov@);
    }
    while i < ov.len()
        invariant
            0 <= i <= ov.len(),
            find_override(ov@, name@) == find_override(ov@.subrange(i as int, ov@.len() as int), name@),
        decreases ov.len() - i,
    {
        let ghost rest = ov@.subrange(i as int, ov@.len() as int);
        proof {
            assert(rest.drop_first() =~= ov@.subrange(i + 1, ov@.len() as int));
            assert(rest[0] == ov@[i as int]);
        }
        if str_eq(ov[i].0.as_str(), name) {
            return Some(&ov[i].1);
        }
        i = i + 1;
    }
    None
}

/// The key spec strings an override names, or `None` for a value of the
/// wrong type.
fn override_spec_strings(a: Action, v: &OverrideValue) -> (r: Option<Vec<String>>)
    ensures
        match override_specs(a, *v) {
            Some(s) => r is Some && string_views(r->0@) == s,
            None => r is None,
        },
{
    match v {
        OverrideValue::Bool(false) => {
            let out: Vec<String> = Vec::new();
            proof {
                assert(string_views(out@) =~= Seq::<Seq<char>>::empty());
            }
            Some(out)
        },
        OverrideValue::Bool(true) => {
            let defaults = a.default_specs();
            let mut out: Vec<String> = Vec::new();
            let mut i: usize = 0;
            while i < defaults.len()
                invariant
                    0 <= i <= defaults.len(),
                    str_views(defaults@) == default_specs_spec(a),
                    string_views(out@) == str_views(defaults@).subrange(0, i as int),
                decreases defaults.len() - i,
            {
                let ghost before = out@;
                let s = owned(defaults[i]);
                out.push(s);
                proof {
                    assert(out@ == before.push(s));
                    assert(str_views(defaults@)[i as int] == defaults@[i as int]@);
                    assert(string_views(out@) =~= string_views(before).push(s@));
                    assert(str_views(defaults@).subrange(0, i + 1) =~= str_views(defaults@).subrange(
                        0,
                        i as int,
                    ).push(defaults@[i as int]@));
                }
                i = i + 1;
            }
            proof {
                assert(str_views(defaults@).subrange(0, defaults@.len() as int) =~= str_views(
                    defaults@,
                ));
            }
            Some(out)
        },
        OverrideValue::Str(s) => {
            let mut out: Vec<String> = Vec::new();
            out.push(s.clone());
            proof {
                assert(string_views(out@) =~= seq![s@]);
            }
            Some(out)
        },
        OverrideValue::Array(items) => {
            let mut out: Vec<String> = Vec::new();
            let mut i: usize = 0;
            while i < items.len()
                invariant
                    0 <= i <= items.len(),
                    string_views(out@) == string_items(items@.subrange(0, i as int)),
                decreases items.len() - i,
            {
                proof {
                    assert(items@.subrange(0, i + 1).drop_last() =~= items@.subrange(0, i as int));
                    assert(items@.subrange(0, i + 1).last() == items@[i as int]);
                }
                match &items[i] {
                    Some(s) => {
                        out.push(s.clone());
                        proof {
                            assert(string_views(out@) =~= string_items(
                                items@.subrange(0, i as int),
                            ).push(s@));
                        }
                    },
                    None => {},
                }
                i = i + 1;
            }
            proof {
                assert(items@.subrange(0, items@.len() as int) =~= items@);
            }
            Some(out)
        },
        OverrideValue::Other(_) => None,
    }
}

/// Parse each spec string in order, warning about those that do not parse.
fn parse_all(name: &str, specs: &Vec<String>, warnings: &mut Vec<String>) -> (parsed: Vec<KeySpec>)
    ensures
        parsed@ == parsed_specs(string_views(specs@)),
        string_views(final(warnings)@) == string_views(old(warnings)@) + parse_warnings(
            name@,
            string_views(specs@),
        ),
{
    let ghost views = string_views(specs@);
    let ghost w0 = string_views(warnings@);
    let mut parsed: Vec<KeySpec> = Vec::new();
    let mut j: usize = 0;
    while j < specs.len()
        invariant
            0 <= j <= specs.len(),
            views == string_views(specs@),
            parsed@ == parsed_specs(views.subrange(0, j as int)),
            string_views(warnings@) == w0 + parse_warnings(name@, views.subrange(0, j as int)),
        decreases specs.len() - j,
    {
        proof {
            assert(views.subrange(0, j + 1).drop_last() =~= views.subrange(0, j as int));
            assert(views.subrange(0, j + 1).last() == specs@[j as int]@);
        }
        match KeySpec::parse(specs[j].as_str()) {
            Some(k) => {
                parsed.push(k);
            },
            None => {
                let w = warning_parse(name, specs[j].as_str());
                let ghost before = string_views(warnings@);
                warnings.push(w);
                proof {
                    assert(string_views(warnings@) =~= before.push(w@));
                }
            },
        }
        j = j + 1;
    }
    proof {
        assert(views.subrange(0, specs@.len() as int) =~= views);
    }
    parsed
}

/// Whether `name` names an action.
fn is_action_name_exec(name: &str) -> (b: bool)
    ensures
        b == is_action_name(name@),
{
    let actions = all_actions();
    let mut i: usize = 0;
    while i < actions.len()
        invariant
            0 <= i <= actions.len(),
            actions@ == all_actions_spec(),
            forall|t: int| 0 <= t < i ==> action_name(all_actions_spec()[t]) != name@,
        decreases actions.len() - i,
    {
        if str_eq(actions[i].name(), name) {
            return true;
        }
        i = i + 1;
    }
    false
}

} // verus!

verus! {

/// The applied overrides as plain sequences.
pub open spec fn applied_view(v: Seq<(Action, Vec<KeySpec>)>) -> Seq<(Action, Seq<KeySpec>)> {
    v.map_values(|x: (Action, Vec<KeySpec>)| (x.0, x.1@))
}

impl Keymap {
    /// First pass of [`Keymap::with_overrides`]: collect the overrides in
    /// action order, dropping each overridden action's default keys.
    fn apply_overrides(
        overrides: &Vec<(String, OverrideValue)>,
        km: &mut Keymap,
        warnings: &mut Vec<String>,
    ) -> (applied: Vec<(Action, Vec<KeySpec>)>)
        requires
            old(km)@ == default_map_spec(),
            old(warnings)@.len() == 0,
        ensures
            applied_view(applied@) == apply_pass(overrides@, all_actions_spec()).applied,
            string_views(final(warnings)@) == apply_pass(overrides@, all_actions_spec()).warnings,
            final(km)@ == unbind_all(
                default_map_spec(),
                apply_pass(overrides@, all_actions_spec()).applied,
            ),
    {
        let ghost ov = overrides@;
        let mut applied: Vec<(Action, Vec<KeySpec>)> = Vec::new();
        let actions = all_actions();
        let mut i: usize = 0;
        proof {
            assert(string_views(warnings@) =~= Seq::<Seq<char>>::empty());
            assert(applied_view(applied@) =~= Seq::<(Action, Seq<KeySpec>)>::empty());
            assert(actions@.subrange(0, 0) =~= Seq::<Action>::empty());
        }
        while i < actions.len()
            invariant
                0 <= i <= actions.len(),
                actions@ == all_actions_spec(),
                ov == overrides@,
                applied_view(applied@) == apply_pass(ov, actions@.subrange(0, i as int)).applied,
                string_views(warnings@) == apply_pass(ov, actions@.subrange(0, i as int)).warnings,
                km@ == unbind_all(
                    default_map_spec(),
                    apply_pass(ov, actions@.subrange(0, i as int)).applied,
                ),
            decreases actions.len() - i,
        {
            let action = actions[i];
            let ghost prev = apply_pass(ov, actions@.subrange(0, i as int));
            proof {
                assert(actions@.subrange(0, i + 1).drop_last() =~= actions@.subrange(0, i as int));
                assert(actions@.subrange(0, i + 1).last() == action);
            }
            let name = action.name();
            match find_override_in(overrides, name) {
                None => {},
                Some(v) => {
                    match override_spec_strings(action, v) {
                        None => {
                            if let OverrideValue::Other(shown) = v {
                                let w = warning_type(name, shown.as_str());
                                let ghost before = warnings@;
                                warnings.push(w);
                                proof {
                                    assert(string_views(warnings@) =~= string_views(
                                        before,
                                    ).push(w@));
                                }
                            }
                        },
                        Some(specs) => {
                            let parsed = parse_all(name, &specs, warnings);
                            let is_false = match v {
                                OverrideValue::Bool(b) => !*b,
                                _ => false,
                            };
                            if !is_false && parsed.len() == 0 {
                                let w = warning_no_valid(name);
                                let ghost before = warnings@;
                                warnings.push(w);
                                proof {
                                    assert(string_views(warnings@) =~= string_views(
                                        before,
                                    ).push(w@));
                                }
                            } else {
                                km.unbind(action);
                                let ghost before = applied@;
                                let ghost pv = parsed@;
                                applied.push((action, parsed));
                                proof {
                                    assert(applied_view(applied@) =~= applied_view(before).push(
                                        (action, pv),
                                    ));
                                    assert(applied_view(applied@).drop_last() =~= applied_view(
                                        before,
                                    ));
                                }
                            }
                        },
                    }
                },
            }
            i = i + 1;
        }
        proof {
            assert(actions@.subrange(0, actions@.len() as int) =~= actions@);
        }
        applied
    }

    /// Second pass of [`Keymap::with_overrides`]: claim the override keys
    /// in order. A key an earlier override claimed stays with it (warned);
    /// a key still held by a default binding is taken (warned).
    fn claim_overrides(
        applied: &Vec<(Action, Vec<KeySpec>)>,
        km: &mut Keymap,
        warnings: &mut Vec<String>,
    )
        ensures
            final(km)@ == claim_pass(old(km)@, override_claims(applied_view(applied@))).bindings,
            string_views(final(warnings)@) == string_views(old(warnings)@) + claim_pass(
                old(km)@,
                override_claims(applied_view(applied@)),
            ).warnings,
    {
        let ghost base = km@;
        let ghost w0 = string_views(warnings@);
        let ghost av = applied_view(applied@);
        let mut by_override = Keymap::default();
        let mut t: usize = 0;
        proof {
            assert(av.subrange(0, 0) =~= Seq::<(Action, Seq<KeySpec>)>::empty());
            assert(w0 + Seq::<Seq<char>>::empty() =~= w0);
        }
        while t < applied.len()
            invariant
                0 <= t <= applied.len(),
                av == applied_view(applied@),
                km@ == claim_pass(base, override_claims(av.subrange(0, t as int))).bindings,
                by_override@ == claim_pass(base, override_claims(av.subrange(0, t as int))).by_override,
                string_views(warnings@) == w0 + claim_pass(
                    base,
                    override_claims(av.subrange(0, t as int)),
                ).warnings,
            decreases applied.len() - t,
        {
            let action = applied[t].0;
            let ghost pre = override_claims(av.subrange(0, t as int));
            let ghost ks = applied@[t as int].1@;
            proof {
                assert(av[t as int] == (action, ks));
                assert(pre + claims_of(action, ks.subrange(0, 0)) =~= pre);
            }
            let mut u: usize = 0;
            while u < applied[t].1.len()
                invariant
                    0 <= u <= ks.len(),
                    t < applied.len(),
                    ks == applied@[t as int].1@,
                    action == applied@[t as int].0,
                    km@ == claim_pass(base, pre + claims_of(action, ks.subrange(0, u as int))).bindings,
                    by_override@ == claim_pass(
                        base,
                        pre + claims_of(action, ks.subrange(0, u as int)),
                    ).by_override,
                    string_views(warnings@) == w0 + claim_pass(
                        base,
                        pre + claims_of(action, ks.subrange(0, u as int)),
                    ).warnings,
                decreases ks.len() - u,
            {
                let k = applied[t].1[u];
                let ghost c0 = pre + claims_of(action, ks.subrange(0, u as int));
                let ghost c1 = pre + claims_of(action, ks.subrange(0, u + 1));
                proof {
                    assert(c1.drop_last() =~= c0);
                    assert(c1.last() == (k, action));
                }
                let ghost before = string_views(warnings@);
                match by_override.get(&k) {
                    Some(earlier) => {
                        let w = warning_conflict(&k, earlier, action);
                        warnings.push(w);
                        proof {
                            assert(string_views(warnings@) =~= before.push(w@));
                        }
                    },
                    None => {
                        match km.get(&k) {
                            Some(held) => {
                                let w = warning_takes(action, &k, held);
                                warnings.push(w);
                                proof {
                                    assert(string_views(warnings@) =~= before.push(w@));
                                }
                            },
                            None => {},
                        }
                        km.set(k, action);
                        by_override.set(k, action);
                    },
                }
                u = u + 1;
            }
            proof {
                assert(ks.subrange(0, ks.len() as int) =~= ks);
                assert(av.subrange(0, t + 1).drop_last() =~= av.subrange(0, t as int));
                assert(av.subrange(0, t + 1).last() == (action, ks));
            }
            t = t + 1;
        }
        proof {
            assert(av.subrange(0, av.len() as int) =~= av);
        }
    }

    /// Apply `[keybindings]` overrides on top of the defaults. An override
    /// fully replaces the action's default keys (`false` unbinds). Explicit
    /// overrides may steal a key from another action's defaults (warned);
    /// two overrides fighting over one key resolve first-wins (warned).
    /// Returns the keymap and the warnings to print (unknown names, bad
    /// specs, conflicts).
    pub fn with_overrides(overrides: &Vec<(String, OverrideValue)>) -> (r: (Keymap, Vec<String>))
        ensures
            r.0@ == overridden_map(overrides@),
            string_views(r.1@) == override_warnings(overrides@),
    {
        let ghost ov = overrides@;
        let mut km = Keymap::default_map();
        let mut warnings: Vec<String> = Vec::new();
        let applied = Keymap::apply_overrides(overrides, &mut km, &mut warnings);
        Keymap::claim_overrides(&applied, &mut km, &mut warnings);
        let ghost w12 = string_views(warnings@);
        let mut e: usize = 0;
        proof {
            assert(ov.subrange(0, 0) =~= Seq::<(String, OverrideValue)>::empty());
            assert(w12 + Seq::<Seq<char>>::empty() =~= w12);
        }
        while e < overrides.len()
            invariant
                0 <= e <= overrides.len(),
                ov == overrides@,
                string_views(warnings@) == w12 + unknown_warnings(ov.subrange(0, e as int)),
            decreases overrides.len() - e,
        {
            proof {
                assert(ov.subrange(0, e + 1).drop_last() =~= ov.subrange(0, e as int));
                assert(ov.subrange(0, e + 1).last() == ov[e as int]);
            }
            let name = overrides[e].0.as_str();
            if !is_action_name_exec(name) {
                let ghost before = string_views(warnings@);
                let w = warning_unknown(name);
                warnings.push(w);
                proof {
                    assert(string_views(warnings@) =~= before.push(w@));
                }
            }
            e = e + 1;
        }
        proof {
            assert(ov.subrange(0, ov.len() as int) =~= ov);
        }
        (km, warnings)
    }
}

/// The displays of the action's default keys that are still bound to it,
/// in default order.
pub open spec fn shown_defaults(m: Map<KeySpec, Action>, a: Action, specs: Seq<Seq<char>>) -> Seq<Seq<char>>
    decreases specs.len(),
{
    if specs.len() == 0 {
        Seq::empty()
    } else {
        let prev = shown_defaults(m, a, specs.drop_last());
        match key_spec_of(specs.last()) {
            Some(k) => if map_get(m, k) == Some(a) {
                prev.push(display_spec(k))
            } else {
                prev
            },
            None => prev,
        }
    }
}

/// The keys bound to `a` that display as `d`, where `d` is not among the
/// displays already shown.
pub open spec fn extra_keys(m: Map<KeySpec, Action>, a: Action, shown: Seq<Seq<char>>, d: Seq<char>) -> Set<KeySpec> {
    m.dom().filter(|k: KeySpec| m[k] == a && !shown.contains(display_spec(k)) && display_spec(k) == d)
}

proof fn lemma_extra_keys_insert(
    m: Map<KeySpec, Action>,
    k: KeySpec,
    x: Action,
    a: Action,
    shown: Seq<Seq<char>>,
    d: Seq<char>,
)
    requires
        m.dom().finite(),
        !m.contains_key(k),
    ensures
        extra_keys(m, a, shown, d).finite(),
        extra_keys(m.insert(k, x), a, shown, d).len() == extra_keys(m, a, shown, d).len() + (if x == a
            && !shown.contains(display_spec(k)) && display_spec(k) == d {
            1int
        } else {
            0int
        }),
{
    let e = extra_keys(m, a, shown, d);
    assert(e.subset_of(m.dom()));
    vstd::set_lib::lemma_len_subset(e, m.dom());
    if x == a && !shown.contains(display_spec(k)) && display_spec(k) == d {
        assert(extra_keys(m.insert(k, x), a, shown, d) =~= e.insert(k));
    } else {
        assert(extra_keys(m.insert(k, x), a, shown, d) =~= e);
    }
}

/// The other keys of `a`, as displayed: the one list in lexicographic order
/// that holds each display as often as `extra_keys` has keys with it.
pub open spec fn extras_spec(m: Map<KeySpec, Action>, a: Action, shown: Seq<Seq<char>>) -> Seq<Seq<char>> {
    choose|s: Seq<Seq<char>>|
        sorted_lex(s) && forall|d: Seq<char>| #[trigger] s.to_multiset().count(d) == extra_keys(
            m,
            a,
            shown,
            d,
        ).len()
}

/// The keys the help overlay lists for `a`: its still-bound default keys in
/// default order, then its other keys in lexicographic order.
pub open spec fn keys_for_spec(m: Map<KeySpec, Action>, a: Action) -> Seq<Seq<char>> {
    let shown = shown_defaults(m, a, default_specs_spec(a));
    shown + extras_spec(m, a, shown)
}

impl Keymap {
    /// All keys bound to an action, for the help overlay: first those of
    /// the action's defaults that are still bound to it, in default order,
    /// then the others in lexicographic order.
    pub fn keys_for(&self, action: Action) -> (r: Vec<String>)
        ensures
            string_views(r@) == keys_for_spec(self@, action),
            ({
                let shown = shown_defaults(self@, action, default_specs_spec(action));
                let extra = string_views(r@).subrange(shown.len() as int, r@.len() as int);
                &&& shown.len() <= r@.len()
                &&& string_views(r@).subrange(0, shown.len() as int) == shown
                &&& sorted_lex(extra)
                &&& forall|d: Seq<char>| #[trigger] extra.to_multiset().count(d) == extra_keys(
                    self@,
                    action,
                    shown,
                    d,
                ).len()
            }),
    {
        broadcast use vstd::seq_lib::group_to_multiset_ensures;

        proof {
            use_type_invariant(self);
        }
        let defaults = action.default_specs();
        let mut out: Vec<String> = Vec::new();
        let mut j: usize = 0;
        proof {
            assert(string_views(out@) =~= Seq::<Seq<char>>::empty());
        }
        while j < defaults.len()
            invariant
                0 <= j <= defaults.len(),
                str_views(defaults@) == default_specs_spec(action),
                string_views(out@) == shown_defaults(
                    self@,
                    action,
                    str_views(defaults@).subrange(0, j as int),
                ),
            decreases defaults.len() - j,
        {
            proof {
                assert(str_views(defaults@).subrange(0, j + 1).drop_last() =~= str_views(
                    defaults@,
                ).subrange(0, j as int));
                assert(str_views(defaults@).subrange(0, j + 1).last() == defaults@[j as int]@);
            }
            match KeySpec::parse(defaults[j]) {
                Some(k) => {
                    if self.get(&k) == Some(action) {
                        let ghost before = out@;
                        let d = k.display();
                        out.push(d);
                        proof {
                            assert(string_views(out@) =~= string_views(before).push(d@));
                        }
                    }
                },
                None => {},
            }
            j = j + 1;
        }
        proof {
            assert(str_views(defaults@).subrange(0, defaults@.len() as int) =~= str_views(
                defaults@,
            ));
        }
        let ghost shown = string_views(out@);
        let mut extra: Vec<String> = Vec::new();
        let mut i: usize = 0;
        proof {
            assert(self.bindings@.subrange(0, 0) =~= Seq::<(KeySpec, Action)>::empty());
            assert forall|d: Seq<char>| #[trigger] string_views(extra@).to_multiset().count(d)
                == extra_keys(Map::empty(), action, shown, d).len() by {
                assert(string_views(extra@) =~= Seq::<Seq<char>>::empty());
                assert(extra_keys(Map::empty(), action, shown, d) =~= Set::empty());
            }
        }
        while i < self.bindings.len()
            invariant
                0 <= i <= self.bindings.len(),
                unique_keys(self.bindings@),
                shown == string_views(out@),
                forall|d: Seq<char>| #[trigger] string_views(extra@).to_multiset().count(d)
                    == extra_keys(
                    pairs_map(self.bindings@.subrange(0, i as int)),
                    action,
                    shown,
                    d,
                ).len(),
            decreases self.bindings.len() - i,
        {
            let (k, a) = self.bindings[i];
            let ghost m0 = pairs_map(self.bindings@.subrange(0, i as int));
            let ghost before = string_views(extra@);
            proof {
                let pre = self.bindings@.subrange(0, i as int);
                assert(self.bindings@.subrange(0, i + 1).drop_last() =~= pre);
                assert(self.bindings@.subrange(0, i + 1).last() == (k, a));
                lemma_pairs_map_finite(pre);
                lemma_pairs_map_keys(pre, k);
                if m0.contains_key(k) {
                    let t = choose|t: int| 0 <= t < pre.len() && pre[t].0 == k;
                    assert(self.bindings@[t].0 == self.bindings@[i as int].0);
                }
            }
            let mut pushed = false;
            let mut shown_d = false;
            if a == action {
                let d = k.display();
                if !strings_contain(&out, d.as_str()) {
                    extra.push(d);
                    pushed = true;
                } else {
                    shown_d = true;
                }
            }
            proof {
                assert forall|d: Seq<char>| #[trigger] string_views(extra@).to_multiset().count(d)
                    == extra_keys(m0.insert(k, a), action, shown, d).len() by {
                    broadcast use vstd::multiset::group_multiset_axioms;

                    lemma_extra_keys_insert(m0, k, a, action, shown, d);
                    assert(before.to_multiset().count(d) == extra_keys(m0, action, shown, d).len());
                    if pushed {
                        assert(a == action && !shown.contains(display_spec(k)));
                        assert(string_views(extra@) =~= before.push(display_spec(k)));
                        vstd::seq_lib::to_multiset_build(before, display_spec(k));
                        assert(string_views(extra@).to_multiset() =~= before.to_multiset().insert(
                            display_spec(k),
                        ));
                    } else {
                        assert(a != action || shown.contains(display_spec(k)));
                        assert(string_views(extra@) =~= before);
                    }
                }
            }
            i = i + 1;
        }
        proof {
            assert(self.bindings@.subrange(0, self.bindings@.len() as int) =~= self.bindings@);
        }
        let sorted = sort_strings(extra);
        let ghost head = out@;
        let mut t: usize = 0;
        while t < sorted.len()
            invariant
                0 <= t <= sorted.len(),
                head.len() == shown.len(),
                string_views(head) == shown,
                out@ == head + sorted@.subrange(0, t as int),
            decreases sorted.len() - t,
        {
            out.push(sorted[t].clone());
            proof {
                assert(out@ =~= head + sorted@.subrange(0, t + 1));
            }
            t = t + 1;
        }
        proof {
            assert(sorted@.subrange(0, sorted@.len() as int) =~= sorted@);
            assert(string_views(out@).subrange(0, shown.len() as int) =~= shown);
            assert(string_views(out@).subrange(shown.len() as int, out@.len() as int) =~= string_views(
                sorted@,
            ));
            let ex = string_views(sorted@);
            assert forall|d: Seq<char>| #[trigger] ex.to_multiset().count(d) == extra_keys(
                self@,
                action,
                shown,
                d,
            ).len() by {
                assert(string_views(extra@).to_multiset().count(d) == extra_keys(
                    pairs_map(self.bindings@),
                    action,
                    shown,
                    d,
                ).len());
            }
            let c = extras_spec(self@, action, shown);
            assert(c.to_multiset() =~= ex.to_multiset());
            lemma_sorted_lex_unique(ex, c);
            assert(string_views(out@) =~= shown + ex);
        }
        out
    }
}

} // verus!

verus! {

/// The keys a table's override for `a` names (empty when there is none).
pub open spec fn override_keys(ov: Seq<(String, OverrideValue)>, a: Action) -> Seq<KeySpec> {
    match find_override(ov, action_name(a)) {
        Some(v) => match override_specs(a, v) {
            Some(specs) => parsed_specs(specs),
            None => Seq::empty(),
        },
        None => Seq::empty(),
    }
}

/// Whether the table overrides `a`: it names `a` with `false` or with at
/// least one valid key.
pub open spec fn overrides_action(ov: Seq<(String, OverrideValue)>, a: Action) -> bool {
    match find_override(ov, action_name(a)) {
        Some(v) => match override_specs(a, v) {
            Some(specs) => v == OverrideValue::Bool(false) || parsed_specs(specs).len() > 0,
            None => false,
        },
        None => false,
    }
}

/// The first action that claims `k`, if any.
pub open spec fn first_claim(claims: Seq<(KeySpec, Action)>, k: KeySpec) -> Option<Action>
    decreases claims.len(),
{
    if claims.len() == 0 {
        None
    } else {
        match first_claim(claims.drop_last(), k) {
            Some(x) => Some(x),
            None => if claims.last().0 == k {
                Some(claims.last().1)
            } else {
                None
            },
        }
    }
}

/// The position of an action in help-overlay order.
pub open spec fn action_index(a: Action) -> int {
    match a {
        Action::CursorDown => 0,
        Action::CursorUp => 1,
        Action::HalfPageDown => 2,
        Action::HalfPageUp => 3,
        Action::PageForward => 4,
        Action::PageBackward => 5,
        Action::GotoTop => 6,
        Action::GotoBottom => 7,
        Action::NextFile => 8,
        Action::PrevFile => 9,
        Action::NextHunk => 10,
        Action::PrevHunk => 11,
        Action::NextNote => 12,
        Action::PrevNote => 13,
        Action::FoldFile => 14,
        Action::UnfoldFile => 15,
        Action::ToggleContextCollapse => 16,
        Action::ToggleHighlight => 17,
        Action::ToggleLineNumbers => 18,
        Action::ToggleWordDiff => 19,
        Action::ToggleIgnoreWhitespace => 20,
        Action::ToggleWrap => 21,
        Action::ToggleRail => 22,
        Action::CycleLayout => 23,
        Action::CycleThemeMode => 24,
        Action::CyclePalette => 25,
        Action::Search => 26,
        Action::FilterPaths => 27,
        Action::ComposeNote => 28,
        Action::OpenEditor => 29,
        Action::NextMatch => 30,
        Action::PrevMatch => 31,
        Action::Help => 32,
        Action::Quit => 33,
        Action::Cancel => 34,
        Action::AcceptHunk => 35,
        Action::RejectHunk => 36,
        Action::UndecideHunk => 37,
    }
}

proof fn lemma_all_actions_complete(a: Action)
    ensures
        0 <= action_index(a) < all_actions_spec().len(),
        all_actions_spec()[action_index(a)] == a,
        all_actions_spec().contains(a),
{
    assert(all_actions_spec().len() == 38);
    assert(all_actions_spec()[action_index(a)] == a);
}

proof fn lemma_find_override_none(ov: Seq<(String, OverrideValue)>, name: Seq<char>)
    requires
        forall|i: int| 0 <= i < ov.len() ==> ov[i].0@ != name,
    ensures
        find_override(ov, name) is None,
    decreases ov.len(),
{
    if ov.len() > 0 {
        assert forall|i: int| 0 <= i < ov.drop_first().len() implies ov.drop_first()[i].0@ != name by {
            assert(ov.drop_first()[i] == ov[i + 1]);
        }
        lemma_find_override_none(ov.drop_first(), name);
    }
}

proof fn lemma_apply_pass(ov: Seq<(String, OverrideValue)>, actions: Seq<Action>)
    ensures
        forall|j: int| #![trigger apply_pass(ov, actions).applied[j]]
            0 <= j < apply_pass(ov, actions).applied.len() ==> {
                let e = apply_pass(ov, actions).applied[j];
                &&& e.1 == override_keys(ov, e.0)
                &&& overrides_action(ov, e.0)
                &&& actions.contains(e.0)
            },
        forall|a: Action| #[trigger] actions.contains(a) && overrides_action(ov, a) ==> exists|j: int|
            0 <= j < apply_pass(ov, actions).applied.len() && apply_pass(ov, actions).applied[j].0
                == a,
    decreases actions.len(),
{
    if actions.len() > 0 {
        let d = actions.drop_last();
        lemma_apply_pass(ov, d);
        let prev = apply_pass(ov, d);
        let p = apply_pass(ov, actions);
        let a = actions.last();
        assert forall|x: Action| d.contains(x) implies actions.contains(x) by {
            let t = choose|t: int| 0 <= t < d.len() && d[t] == x;
            assert(actions[t] == x);
        }
        assert(actions.contains(a)) by {
            assert(actions[actions.len() - 1] == a);
        }
        assert(p.applied == prev.applied || p.applied == prev.applied.push((a, override_keys(ov, a)))
            && overrides_action(ov, a));
        assert(p.applied == prev.applied ==> !overrides_action(ov, a));
        assert forall|x: Action| #[trigger] actions.contains(x) && overrides_action(ov, x) implies exists|j: int|
            0 <= j < p.applied.len() && p.applied[j].0 == x by {
            if x == a {
                assert(p.applied != prev.applied);
                assert(p.applied[p.applied.len() - 1].0 == x);
            } else {
                let t = choose|t: int| 0 <= t < actions.len() && actions[t] == x;
                assert(t != actions.len() - 1);
                assert(d[t] == x);
                assert(d.contains(x));
                let j = choose|j: int| 0 <= j < prev.applied.len() && prev.applied[j].0 == x;
                assert(p.applied[j] == prev.applied[j]);
            }
        }
    }
}

proof fn lemma_unbind_all(m: Map<KeySpec, Action>, applied: Seq<(Action, Seq<KeySpec>)>)
    ensures
        forall|k: KeySpec| #[trigger] unbind_all(m, applied).contains_key(k) <==> (m.contains_key(k)
            && forall|j: int| 0 <= j < applied.len() ==> applied[j].0 != m[k]),
        forall|k: KeySpec| #[trigger] unbind_all(m, applied).contains_key(k) ==> unbind_all(m, applied)[k]
            == m[k],
    decreases applied.len(),
{
    if applied.len() > 0 {
        let d = applied.drop_last();
        lemma_unbind_all(m, d);
        let u = unbind_all(m, d);
        let a = applied.last().0;
        assert(unbind_all(m, applied) == without_action(u, a));
        assert forall|k: KeySpec| #[trigger] unbind_all(m, applied).contains_key(k) <==> (m.contains_key(
            k,
        ) && forall|j: int| 0 <= j < applied.len() ==> applied[j].0 != m[k]) by {
            assert(without_action(u, a).contains_key(k) == (u.contains_key(k) && u[k] != a));
            if m.contains_key(k) && forall|j: int| 0 <= j < applied.len() ==> applied[j].0 != m[k] {
                assert forall|j: int| 0 <= j < d.len() implies d[j].0 != m[k] by {
                    assert(d[j] == applied[j]);
                }
                assert(applied[applied.len() - 1].0 != m[k]);
                assert(u.contains_key(k));
            }
            if unbind_all(m, applied).contains_key(k) {
                assert(u.contains_key(k) && u[k] != a);
                assert forall|j: int| 0 <= j < applied.len() implies applied[j].0 != m[k] by {
                    if j < applied.len() - 1 {
                        assert(d[j] == applied[j]);
                    }
                }
            }
        }
        assert forall|k: KeySpec| #[trigger] unbind_all(m, applied).contains_key(k) implies unbind_all(
            m,
            applied,
        )[k] == m[k] by {
            assert(u.contains_key(k));
        }
    }
}

proof fn lemma_first_claim(claims: Seq<(KeySpec, Action)>, k: KeySpec)
    ensures
        first_claim(claims, k) matches Some(x) ==> exists|i: int| 0 <= i < claims.len() && claims[i] == (k, x),
        (exists|i: int| 0 <= i < claims.len() && claims[i].0 == k) ==> first_claim(claims, k) is Some,
    decreases claims.len(),
{
    if claims.len() > 0 {
        let d = claims.drop_last();
        lemma_first_claim(d, k);
        if let Some(x) = first_claim(d, k) {
            let i = choose|i: int| 0 <= i < d.len() && d[i] == (k, x);
            assert(claims[i] == (k, x));
        }
        if exists|i: int| 0 <= i < claims.len() && claims[i].0 == k {
            let i = choose|i: int| 0 <= i < claims.len() && claims[i].0 == k;
            if i < claims.len() - 1 {
                assert(d[i].0 == k);
            }
        }
    }
}

proof fn lemma_claim_pass(base: Map<KeySpec, Action>, claims: Seq<(KeySpec, Action)>)
    ensures
        forall|k: KeySpec| #[trigger] first_claim(claims, k) is Some ==> {
            &&& claim_pass(base, claims).bindings.contains_key(k)
            &&& claim_pass(base, claims).bindings[k] == first_claim(claims, k)->0
            &&& claim_pass(base, claims).by_override.contains_key(k)
        },
        forall|k: KeySpec| #[trigger] first_claim(claims, k) is None ==> {
            &&& !claim_pass(base, claims).by_override.contains_key(k)
            &&& claim_pass(base, claims).bindings.contains_key(k) == base.contains_key(k)
            &&& base.contains_key(k) ==> claim_pass(base, claims).bindings[k] == base[k]
        },
    decreases claims.len(),
{
    if claims.len() > 0 {
        let d = claims.drop_last();
        lemma_claim_pass(base, d);
        let prev = claim_pass(base, d);
        let c = claim_pass(base, claims);
        let k0 = claims.last().0;
        let a0 = claims.last().1;
        assert forall|k: KeySpec| #[trigger] first_claim(claims, k) is Some implies {
            &&& c.bindings.contains_key(k)
            &&& c.bindings[k] == first_claim(claims, k)->0
            &&& c.by_override.contains_key(k)
        } by {
            if first_claim(d, k) is Some {
                assert(prev.by_override.contains_key(k));
            } else {
                assert(k == k0);
                assert(!prev.by_override.contains_key(k0));
            }
        }
        assert forall|k: KeySpec| #[trigger] first_claim(claims, k) is None implies {
            &&& !c.by_override.contains_key(k)
            &&& c.bindings.contains_key(k) == base.contains_key(k)
            &&& base.contains_key(k) ==> c.bindings[k] == base[k]
        } by {
            assert(first_claim(d, k) is None);
            assert(k != k0);
        }
    }
}

/// Where the claims of the `j`th applied override start.
pub open spec fn claim_offset(applied: Seq<(Action, Seq<KeySpec>)>, j: int) -> int {
    override_claims(applied.subrange(0, j)).len() as int
}

proof fn lemma_override_claims(applied: Seq<(Action, Seq<KeySpec>)>)
    ensures
        forall|i: int| 0 <= i < override_claims(applied).len() ==> exists|j: int| 0 <= j < applied.len()
            && applied[j].0 == #[trigger] override_claims(applied)[i].1 && applied[j].1.contains(
            override_claims(applied)[i].0,
        ),
        forall|j: int| 0 <= j < applied.len() ==> 0 <= claim_offset(applied, j) && claim_offset(applied, j)
            + (#[trigger] applied[j]).1.len() <= override_claims(applied).len(),
        forall|j: int, t: int|
            #![trigger applied[j].1[t]]
            0 <= j < applied.len() && 0 <= t < applied[j].1.len() ==> override_claims(applied)[claim_offset(
                applied,
                j,
            ) + t] == (applied[j].1[t], applied[j].0),
    decreases applied.len(),
{
    if applied.len() > 0 {
        let d = applied.drop_last();
        lemma_override_claims(d);
        let c0 = override_claims(d);
        let last = applied.last();
        let c = override_claims(applied);
        assert(c == c0 + claims_of(last.0, last.1));
        assert forall|i: int| 0 <= i < c.len() implies exists|j: int| 0 <= j < applied.len()
            && applied[j].0 == #[trigger] c[i].1 && applied[j].1.contains(c[i].0) by {
            if i < c0.len() {
                assert(c[i] == c0[i]);
                let j = choose|j: int| 0 <= j < d.len() && d[j].0 == c0[i].1 && d[j].1.contains(
                    c0[i].0,
                );
                assert(applied[j] == d[j]);
            } else {
                let t = i - c0.len();
                assert(c[i] == (last.1[t], last.0));
                assert(applied[applied.len() - 1] == last);
                assert(last.1.contains(last.1[t]));
            }
        }
        assert forall|j: int| 0 <= j < applied.len() implies 0 <= claim_offset(applied, j)
            && claim_offset(applied, j) + (#[trigger] applied[j]).1.len() <= c.len() by {
            if j < applied.len() - 1 {
                assert(applied.subrange(0, j) =~= d.subrange(0, j));
                assert(applied[j] == d[j]);
                assert(d[j].1.len() == d[j].1.len());
            } else {
                assert(applied.subrange(0, j) =~= d);
            }
        }
        assert forall|j: int, t: int|
            #![trigger applied[j].1[t]]
            0 <= j < applied.len() && 0 <= t < applied[j].1.len() implies c[claim_offset(applied, j)
                + t] == (applied[j].1[t], applied[j].0) by {
            if j < applied.len() - 1 {
                assert(applied.subrange(0, j) =~= d.subrange(0, j));
                assert(applied[j] == d[j]);
                assert(d[j].1[t] == applied[j].1[t]);
                assert(c0[claim_offset(d, j) + t] == (d[j].1[t], d[j].0));
                assert((#[trigger] d[j]).1.len() == applied[j].1.len());
            } else {
                assert(applied.subrange(0, j) =~= d);
                assert(applied[j] == last);
            }
        }
    }
}

} // verus!

verus! {

proof fn lemma_apply_pass_nothing(ov: Seq<(String, OverrideValue)>, actions: Seq<Action>)
    requires
        forall|i: int| 0 <= i < actions.len() ==> find_override(ov, action_name(#[trigger] actions[i])) is None,
    ensures
        apply_pass(ov, actions).applied.len() == 0,
        apply_pass(ov, actions).warnings.len() == 0,
    decreases actions.len(),
{
    if actions.len() > 0 {
        let d = actions.drop_last();
        assert forall|i: int| 0 <= i < d.len() implies find_override(ov, action_name(#[trigger] d[i])) is None by {
            assert(d[i] == actions[i]);
        }
        lemma_apply_pass_nothing(ov, d);
        assert(find_override(ov, action_name(actions[actions.len() - 1])) is None);
    }
}

/// A table that names no action changes no binding: the keymap is the
/// default one and the only warnings are those naming the unknown entries
/// (a bad config never bricks the default keys).
pub proof fn law_unknown_names_change_nothing(ov: Seq<(String, OverrideValue)>)
    requires
        forall|i: int| 0 <= i < ov.len() ==> !is_action_name(#[trigger] ov[i].0@),
    ensures
        overridden_map(ov) == default_map_spec(),
        override_warnings(ov) == unknown_warnings(ov),
{
    let all = all_actions_spec();
    assert forall|i: int| 0 <= i < all.len() implies find_override(ov, action_name(#[trigger] all[i])) is None by {
        let a = all[i];
        assert forall|e: int| 0 <= e < ov.len() implies ov[e].0@ != action_name(a) by {
            if ov[e].0@ == action_name(a) {
                assert(is_action_name(ov[e].0@));
            }
        }
        lemma_find_override_none(ov, action_name(a));
    }
    lemma_apply_pass_nothing(ov, all);
    let p = apply_pass(ov, all);
    assert(p.applied =~= Seq::<(Action, Seq<KeySpec>)>::empty());
    assert(p.warnings =~= Seq::<Seq<char>>::empty());
    assert(override_claims(p.applied) =~= Seq::<(KeySpec, Action)>::empty());
    assert(override_warnings(ov) =~= unknown_warnings(ov));
}

/// Every key bound to an overridden action is one its override names: an
/// override replaces the action's default keys instead of adding to them.
pub proof fn law_override_replaces_defaults(ov: Seq<(String, OverrideValue)>, a: Action)
    requires
        overrides_action(ov, a),
    ensures
        forall|k: KeySpec| #[trigger] overridden_map(ov).contains_key(k) && overridden_map(ov)[k] == a
            ==> override_keys(ov, a).contains(k),
{
    let all = all_actions_spec();
    let p = apply_pass(ov, all);
    let base = unbind_all(default_map_spec(), p.applied);
    let claims = override_claims(p.applied);
    lemma_apply_pass(ov, all);
    lemma_all_actions_complete(a);
    lemma_unbind_all(default_map_spec(), p.applied);
    lemma_claim_pass(base, claims);
    lemma_override_claims(p.applied);
    let j0 = choose|j: int| 0 <= j < p.applied.len() && p.applied[j].0 == a;
    assert forall|k: KeySpec| #[trigger] overridden_map(ov).contains_key(k) && overridden_map(ov)[k] == a
        implies override_keys(ov, a).contains(k) by {
        lemma_first_claim(claims, k);
        match first_claim(claims, k) {
            Some(x) => {
                let i = choose|i: int| 0 <= i < claims.len() && claims[i] == (k, x);
                let j = choose|j: int| 0 <= j < p.applied.len() && p.applied[j].0 == #[trigger] claims[i].1
                    && p.applied[j].1.contains(claims[i].0);
                assert(p.applied[j].1 == override_keys(ov, p.applied[j].0));
            },
            None => {
                assert(base.contains_key(k));
                assert(p.applied[j0].0 != default_map_spec()[k]);
            },
        }
    }
}

/// `false` unbinds: an action whose override is `false` keeps no key.
pub proof fn law_false_unbinds(ov: Seq<(String, OverrideValue)>, a: Action)
    requires
        find_override(ov, action_name(a)) == Some(OverrideValue::Bool(false)),
    ensures
        forall|k: KeySpec| !(#[trigger] overridden_map(ov).contains_key(k) && overridden_map(ov)[k] == a),
{
    assert(parsed_specs(Seq::<Seq<char>>::empty()) =~= Seq::<KeySpec>::empty());
    law_override_replaces_defaults(ov, a);
}

/// Every key an override names is bound, and to an overridden action whose
/// override names it: an override may take a key from the defaults, but
/// never loses one to them.
pub proof fn law_override_keys_are_bound(ov: Seq<(String, OverrideValue)>, a: Action, k: KeySpec)
    requires
        overrides_action(ov, a),
        override_keys(ov, a).contains(k),
    ensures
        overridden_map(ov).contains_key(k),
        overrides_action(ov, overridden_map(ov)[k]),
        override_keys(ov, overridden_map(ov)[k]).contains(k),
{
    let all = all_actions_spec();
    let p = apply_pass(ov, all);
    let base = unbind_all(default_map_spec(), p.applied);
    let claims = override_claims(p.applied);
    lemma_apply_pass(ov, all);
    lemma_all_actions_complete(a);
    lemma_claim_pass(base, claims);
    lemma_override_claims(p.applied);
    let j0 = choose|j: int| 0 <= j < p.applied.len() && p.applied[j].0 == a;
    assert(p.applied[j0].1 == override_keys(ov, a));
    let t = choose|t: int| 0 <= t < override_keys(ov, a).len() && override_keys(ov, a)[t] == k;
    assert(claims[claim_offset(p.applied, j0) + t] == (p.applied[j0].1[t], p.applied[j0].0));
    lemma_first_claim(claims, k);
    let x = first_claim(claims, k)->0;
    let i = choose|i: int| 0 <= i < claims.len() && claims[i] == (k, x);
    let j = choose|j: int| 0 <= j < p.applied.len() && p.applied[j].0 == #[trigger] claims[i].1
        && p.applied[j].1.contains(claims[i].0);
    assert(p.applied[j].1 == override_keys(ov, p.applied[j].0));
}

/// A default binding survives when its action is not overridden and no
/// override names its key.
pub proof fn law_untouched_defaults_survive(ov: Seq<(String, OverrideValue)>, k: KeySpec)
    requires
        default_map_spec().contains_key(k),
        !overrides_action(ov, default_map_spec()[k]),
        forall|b: Action| #[trigger] overrides_action(ov, b) ==> !override_keys(ov, b).contains(k),
    ensures
        overridden_map(ov).contains_key(k),
        overridden_map(ov)[k] == default_map_spec()[k],
{
    let all = all_actions_spec();
    let p = apply_pass(ov, all);
    let base = unbind_all(default_map_spec(), p.applied);
    let claims = override_claims(p.applied);
    lemma_apply_pass(ov, all);
    lemma_unbind_all(default_map_spec(), p.applied);
    lemma_claim_pass(base, claims);
    lemma_override_claims(p.applied);
    lemma_first_claim(claims, k);
    if first_claim(claims, k) is Some {
        let x = first_claim(claims, k)->0;
        let i = choose|i: int| 0 <= i < claims.len() && claims[i] == (k, x);
        let j = choose|j: int| 0 <= j < p.applied.len() && p.applied[j].0 == #[trigger] claims[i].1
            && p.applied[j].1.contains(claims[i].0);
        assert(p.applied[j].1 == override_keys(ov, p.applied[j].0));
        assert(overrides_action(ov, p.applied[j].0));
    }
    assert forall|j: int| 0 <= j < p.applied.len() implies p.applied[j].0 != default_map_spec()[k] by {
        assert(overrides_action(ov, p.applied[j].0));
    }
    assert(base.contains_key(k));
}

} // verus!

verus! {

proof fn lemma_first_claim_first(claims: Seq<(KeySpec, Action)>, k: KeySpec)
    ensures
        first_claim(claims, k) matches Some(x) ==> exists|i: int| 0 <= i < claims.len() && claims[i] == (k, x)
            && forall|e: int| 0 <= e < i ==> claims[e].0 != k,
        first_claim(claims, k) is None ==> forall|e: int| 0 <= e < claims.len() ==> claims[e].0 != k,
    decreases claims.len(),
{
    if claims.len() > 0 {
        let d = claims.drop_last();
        lemma_first_claim_first(d, k);
        if let Some(x) = first_claim(d, k) {
            let i = choose|i: int| 0 <= i < d.len() && d[i] == (k, x) && forall|e: int| 0 <= e < i ==> d[e].0 != k;
            assert(claims[i] == (k, x));
            assert forall|e: int| 0 <= e < i implies claims[e].0 != k by {
                assert(claims[e] == d[e]);
            }
        } else {
            assert forall|e: int| 0 <= e < claims.len() - 1 implies claims[e].0 != k by {
                assert(claims[e] == d[e]);
            }
        }
    }
}

proof fn lemma_claim_offset_step(applied: Seq<(Action, Seq<KeySpec>)>, j: int)
    requires
        0 <= j < applied.len(),
    ensures
        claim_offset(applied, j + 1) == claim_offset(applied, j) + applied[j].1.len(),
{
    let s1 = applied.subrange(0, j + 1);
    assert(s1.drop_last() =~= applied.subrange(0, j));
    assert(s1.last() == applied[j]);
}

proof fn lemma_claim_offset_mono(applied: Seq<(Action, Seq<KeySpec>)>, j1: int, j2: int)
    requires
        0 <= j1 < j2 <= applied.len(),
    ensures
        claim_offset(applied, j1) + applied[j1].1.len() <= claim_offset(applied, j2),
    decreases j2 - j1,
{
    lemma_claim_offset_step(applied, j1);
    if j2 > j1 + 1 {
        lemma_claim_offset_mono(applied, j1 + 1, j2);
        lemma_claim_offset_step(applied, j1 + 1);
    }
}

proof fn lemma_claim_entry(applied: Seq<(Action, Seq<KeySpec>)>, i: int)
    requires
        0 <= i < override_claims(applied).len(),
    ensures
        exists|j: int| 0 <= j < applied.len() && #[trigger] claim_offset(applied, j) <= i < claim_offset(
            applied,
            j,
        ) + applied[j].1.len(),
    decreases applied.len(),
{
    let d = applied.drop_last();
    let c0 = override_claims(d);
    assert(override_claims(applied) == c0 + claims_of(applied.last().0, applied.last().1));
    if i < c0.len() {
        lemma_claim_entry(d, i);
        let j = choose|j: int| 0 <= j < d.len() && #[trigger] claim_offset(d, j) <= i < claim_offset(d, j)
            + d[j].1.len();
        assert(applied.subrange(0, j) =~= d.subrange(0, j));
        assert(claim_offset(applied, j) == claim_offset(d, j));
        assert(applied[j] == d[j]);
    } else {
        let j = applied.len() - 1;
        assert(applied.subrange(0, j) =~= d);
        assert(claim_offset(applied, j) == c0.len());
        assert(applied[j] == applied.last());
    }
}

proof fn lemma_apply_pass_order(ov: Seq<(String, OverrideValue)>, actions: Seq<Action>)
    requires
        forall|i1: int, i2: int| 0 <= i1 < i2 < actions.len() ==> action_index(#[trigger] actions[i1])
            < action_index(#[trigger] actions[i2]),
    ensures
        forall|j1: int, j2: int| 0 <= j1 < j2 < apply_pass(ov, actions).applied.len() ==> action_index(
            #[trigger] apply_pass(ov, actions).applied[j1].0,
        ) < action_index(#[trigger] apply_pass(ov, actions).applied[j2].0),
    decreases actions.len(),
{
    if actions.len() > 0 {
        let d = actions.drop_last();
        assert forall|i1: int, i2: int| 0 <= i1 < i2 < d.len() implies action_index(#[trigger] d[i1])
            < action_index(#[trigger] d[i2]) by {
            assert(d[i1] == actions[i1] && d[i2] == actions[i2]);
        }
        lemma_apply_pass_order(ov, d);
        lemma_apply_pass(ov, d);
        let prev = apply_pass(ov, d);
        let p = apply_pass(ov, actions);
        let a = actions.last();
        if p.applied != prev.applied {
            assert(p.applied == prev.applied.push((a, override_keys(ov, a))));
            assert forall|j1: int, j2: int| 0 <= j1 < j2 < p.applied.len() implies action_index(
                #[trigger] p.applied[j1].0,
            ) < action_index(#[trigger] p.applied[j2].0) by {
                assert(p.applied[j1] == prev.applied[j1]);
                if j2 < prev.applied.len() {
                    assert(p.applied[j2] == prev.applied[j2]);
                } else {
                    let x = prev.applied[j1].0;
                    assert(d.contains(x));
                    let t = choose|t: int| 0 <= t < d.len() && d[t] == x;
                    assert(actions[t] == x);
                    assert(actions[actions.len() - 1] == a);
                }
            }
        }
    }
}

proof fn lemma_all_actions_ordered()
    ensures
        forall|i: int| 0 <= i < all_actions_spec().len() ==> action_index(#[trigger] all_actions_spec()[i]) == i,
{
    let all = all_actions_spec();
    assert(all.len() == 38);
    assert forall|i: int| 0 <= i < all.len() implies action_index(#[trigger] all[i]) == i by {
        if i == 0 {
            assert(action_index(all[0]) == 0);
        } else if i == 1 {
            assert(action_index(all[1]) == 1);
        } else if i == 2 {
            assert(action_index(all[2]) == 2);
        } else if i == 3 {
            assert(action_index(all[3]) == 3);
        } else if i == 4 {
            assert(action_index(all[4]) == 4);
        } else if i == 5 {
            assert(action_index(all[5]) == 5);
        } else if i == 6 {
            assert(action_index(all[6]) == 6);
        } else if i == 7 {
            assert(action_index(all[7]) == 7);
        } else if i == 8 {
            assert(action_index(all[8]) == 8);
        } else if i == 9 {
            assert(action_index(all[9]) == 9);
        } else if i == 10 {
            assert(action_index(all[10]) == 10);
        } else if i == 11 {
            assert(action_index(all[11]) == 11);
        } else if i == 12 {
            assert(action_index(all[12]) == 12);
        } else if i == 13 {
            assert(action_index(all[13]) == 13);
        } else if i == 14 {
            assert(action_index(all[14]) == 14);
        } else if i == 15 {
            assert(action_index(all[15]) == 15);
        } else if i == 16 {
            assert(action_index(all[16]) == 16);
        } else if i == 17 {
            assert(action_index(all[17]) == 17);
        } else if i == 18 {
            assert(action_index(all[18]) == 18);
        } else if i == 19 {
            assert(action_index(all[19]) == 19);
        } else if i == 20 {
            assert(action_index(all[20]) == 20);
        } else if i == 21 {
            assert(action_index(all[21]) == 21);
        } else if i == 22 {
            assert(action_index(all[22]) == 22);
        } else if i == 23 {
            assert(action_index(all[23]) == 23);
        } else if i == 24 {
            assert(action_index(all[24]) == 24);
        } else if i == 25 {
            assert(action_index(all[25]) == 25);
        } else if i == 26 {
            assert(action_index(all[26]) == 26);
        } else if i == 27 {
            assert(action_index(all[27]) == 27);
        } else if i == 28 {
            assert(action_index(all[28]) == 28);
        } else if i == 29 {
            assert(action_index(all[29]) == 29);
        } else if i == 30 {
            assert(action_index(all[30]) == 30);
        } else if i == 31 {
            assert(action_index(all[31]) == 31);
        } else if i == 32 {
            assert(action_index(all[32]) == 32);
        } else if i == 33 {
            assert(action_index(all[33]) == 33);
        } else if i == 34 {
            assert(action_index(all[34]) == 34);
        } else if i == 35 {
            assert(action_index(all[35]) == 35);
        } else if i == 36 {
            assert(action_index(all[36]) == 36);
        } else if i == 37 {
            assert(action_index(all[37]) == 37);
        }
    }
}

proof fn lemma_claim_at(ap: Seq<(Action, Seq<KeySpec>)>, j: int, t: int)
    requires
        0 <= j < ap.len(),
        0 <= t < ap[j].1.len(),
    ensures
        0 <= claim_offset(ap, j) + t < override_claims(ap).len(),
        override_claims(ap)[claim_offset(ap, j) + t] == (ap[j].1[t], ap[j].0),
{
    lemma_override_claims(ap);
    assert(ap[j].1[t] == ap[j].1[t]);
    assert(ap[j] == ap[j]);
}

proof fn lemma_first_claim_of_entry(ap: Seq<(Action, Seq<KeySpec>)>, j0: int, t: int, k: KeySpec)
    requires
        0 <= j0 < ap.len(),
        0 <= t < ap[j0].1.len(),
        ap[j0].1[t] == k,
        forall|j: int| 0 <= j < j0 ==> !(#[trigger] ap[j]).1.contains(k),
    ensures
        first_claim(override_claims(ap), k) == Some(ap[j0].0),
{
    let claims = override_claims(ap);
    let at = claim_offset(ap, j0) + t;
    lemma_claim_at(ap, j0, t);
    assert(first_claim(claims, k) is Some) by {
        lemma_first_claim(claims, k);
    }
    let x = first_claim(claims, k)->0;
    assert(exists|i: int| 0 <= i < claims.len() && claims[i] == (k, x) && forall|e: int| 0 <= e < i ==> claims[e].0 != k) by {
        lemma_first_claim_first(claims, k);
    }
    let i = choose|i: int| 0 <= i < claims.len() && claims[i] == (k, x) && forall|e: int| 0 <= e < i ==> claims[e].0 != k;
    assert(i <= at);
    assert(exists|j: int| 0 <= j < ap.len() && #[trigger] claim_offset(ap, j) <= i < claim_offset(ap, j)
        + ap[j].1.len()) by {
        lemma_claim_entry(ap, i);
    }
    let j = choose|j: int| 0 <= j < ap.len() && #[trigger] claim_offset(ap, j) <= i < claim_offset(ap, j)
        + ap[j].1.len();
    let t1 = i - claim_offset(ap, j);
    lemma_claim_at(ap, j, t1);
    if j < j0 {
        assert(ap[j].1.contains(k));
    } else if j > j0 {
        lemma_claim_offset_mono(ap, j0, j);
    }
}

/// Claims are exclusive and the first claim wins: a key that the override
/// of `a` names belongs to `a` unless an action before `a` in help-overlay
/// order names it in its own override.
pub proof fn law_first_override_claim_wins(ov: Seq<(String, OverrideValue)>, a: Action, k: KeySpec)
    requires
        overrides_action(ov, a),
        override_keys(ov, a).contains(k),
        forall|b: Action| #[trigger] overrides_action(ov, b) && action_index(b) < action_index(a)
            ==> !override_keys(ov, b).contains(k),
    ensures
        overridden_map(ov).contains_key(k),
        overridden_map(ov)[k] == a,
{
    let all = all_actions_spec();
    let ap = apply_pass(ov, all).applied;
    lemma_apply_pass(ov, all);
    lemma_all_actions_complete(a);
    lemma_all_actions_ordered();
    lemma_apply_pass_order(ov, all);
    let j0 = choose|j: int| 0 <= j < ap.len() && ap[j].0 == a;
    assert(ap[j0].1 == override_keys(ov, a));
    let t = choose|t: int| 0 <= t < override_keys(ov, a).len() && override_keys(ov, a)[t] == k;
    assert forall|j: int| 0 <= j < j0 implies !(#[trigger] ap[j]).1.contains(k) by {
        assert(action_index(ap[j].0) < action_index(ap[j0].0));
        assert(ap[j].1 == override_keys(ov, ap[j].0));
        assert(overrides_action(ov, ap[j].0));
    }
    lemma_first_claim_of_entry(ap, j0, t, k);
    lemma_claim_pass(unbind_all(default_map_spec(), ap), override_claims(ap));
}

/// A fingerprint of a name: its length, first two and last two
/// characters.
pub open spec fn name_sig(s: Seq<char>) -> (nat, char, char, char, char) {
    (s.len(), s[0], s[s.len() - 1], s[1], s[s.len() - 2])
}

/// No two actions share a name: the name is the `[keybindings]` key that
/// picks the action.
pub proof fn law_action_names_distinct(a: Action, b: Action)
    requires
        a != b,
    ensures
        action_name(a) != action_name(b),
{
    reveal_strlit("quit");
    reveal_strlit("cancel");
    reveal_strlit("cursor_down");
    reveal_strlit("cursor_up");
    reveal_strlit("half_page_down");
    reveal_strlit("half_page_up");
    reveal_strlit("page_forward");
    reveal_strlit("page_backward");
    reveal_strlit("goto_top");
    reveal_strlit("goto_bottom");
    reveal_strlit("next_file");
    reveal_strlit("prev_file");
    reveal_strlit("next_hunk");
    reveal_strlit("prev_hunk");
    reveal_strlit("next_note");
    reveal_strlit("prev_note");
    reveal_strlit("fold_file");
    reveal_strlit("unfold_file");
    reveal_strlit("toggle_context_collapse");
    reveal_strlit("toggle_highlight");
    reveal_strlit("toggle_line_numbers");
    reveal_strlit("toggle_word_diff");
    reveal_strlit("toggle_ignore_whitespace");
    reveal_strlit("toggle_wrap");
    reveal_strlit("toggle_rail");
    reveal_strlit("cycle_layout");
    reveal_strlit("cycle_theme_mode");
    reveal_strlit("cycle_palette");
    reveal_strlit("search");
    reveal_strlit("filter_paths");
    reveal_strlit("compose_note");
    reveal_strlit("open_editor");
    reveal_strlit("next_match");
    reveal_strlit("prev_match");
    reveal_strlit("help");
    reveal_strlit("accept_hunk");
    reveal_strlit("reject_hunk");
    reveal_strlit("undecide_hunk");
    assert(name_sig(action_name(a)) != name_sig(action_name(b)));
}

/// A character of an action name: a lower-case ASCII letter or `_`.
pub open spec fn is_name_char(c: char) -> bool {
    ('a' <= c && c <= 'z') || c == '_'
}

/// Every action name is non-empty and made of lower-case ASCII letters and
/// underscores.
pub proof fn law_action_names_snake_case(a: Action)
    ensures
        action_name(a).len() > 0,
        forall|i: int| 0 <= i < action_name(a).len() ==> is_name_char(#[trigger] action_name(a)[i]),
{
    match a {
        Action::Quit => {
            reveal_strlit("quit");
        },
        Action::Cancel => {
            reveal_strlit("cancel");
        },
        Action::CursorDown => {
            reveal_strlit("cursor_down");
        },
        Action::CursorUp => {
            reveal_strlit("cursor_up");
        },
        Action::HalfPageDown => {
            reveal_strlit("half_page_down");
        },
        Action::HalfPageUp => {
            reveal_strlit("half_page_up");
        },
        Action::PageForward => {
            reveal_strlit("page_forward");
        },
        Action::PageBackward => {
            reveal_strlit("page_backward");
        },
        Action::GotoTop => {
            reveal_strlit("goto_top");
        },
        Action::GotoBottom => {
            reveal_strlit("goto_bottom");
        },
        Action::NextFile => {
            reveal_strlit("next_file");
        },
        Action::PrevFile => {
            reveal_strlit("prev_file");
        },
        Action::NextHunk => {
            reveal_strlit("next_hunk");
        },
        Action::PrevHunk => {
            reveal_strlit("prev_hunk");
        },
        Action::NextNote => {
            reveal_strlit("next_note");
        },
        Action::PrevNote => {
            reveal_strlit("prev_note");
        },
        Action::FoldFile => {
            reveal_strlit("fold_file");
        },
        Action::UnfoldFile => {
            reveal_strlit("unfold_file");
        },
        Action::ToggleContextCollapse => {
            reveal_strlit("toggle_context_collapse");
        },
        Action::ToggleHighlight => {
            reveal_strlit("toggle_highlight");
        },
        Action::ToggleLineNumbers => {
            reveal_strlit("toggle_line_numbers");
        },
        Action::ToggleWordDiff => {
            reveal_strlit("toggle_word_diff");
        },
        Action::ToggleIgnoreWhitespace => {
            reveal_strlit("toggle_ignore_whitespace");
        },
        Action::ToggleWrap => {
            reveal_strlit("toggle_wrap");
        },
        Action::ToggleRail => {
            reveal_strlit("toggle_rail");
        },
        Action::CycleLayout => {
            reveal_strlit("cycle_layout");
        },
        Action::CycleThemeMode => {
            reveal_strlit("cycle_theme_mode");
        },
        Action::CyclePalette => {
            reveal_strlit("cycle_palette");
        },
        Action::Search => {
            reveal_strlit("search");
        },
        Action::FilterPaths => {
            reveal_strlit("filter_paths");
        },
        Action::ComposeNote => {
            reveal_strlit("compose_note");
        },
        Action::OpenEditor => {
            reveal_strlit("open_editor");
        },
        Action::NextMatch => {
            reveal_strlit("next_match");
        },
        Action::PrevMatch => {
            reveal_strlit("prev_match");
        },
        Action::Help => {
            reveal_strlit("help");
        },
        Action::AcceptHunk => {
            reveal_strlit("accept_hunk");
        },
        Action::RejectHunk => {
            reveal_strlit("reject_hunk");
        },
        Action::UndecideHunk => {
            reveal_strlit("undecide_hunk");
        },
    }
}

/// The named keys of a key spec, each word to the key it names: `esc`,
/// `enter`/`return`, `space`/`spacebar`, `tab`, `backtab`/`shift-tab`/`btab`,
/// the arrows, `home`, `end`, `pageup`/`pgup`, `pagedown`/`pgdn`/`pgdown`,
/// `backspace`, `delete`/`del`, `insert`/`ins` and `f1`–`f12`; no word of one
/// letter is a named key (a lone character is that character's key).
pub proof fn law_named_keys()
    ensures
        named_key("esc"@) == Some(KeyCode::Esc),
        named_key("enter"@) == Some(KeyCode::Enter),
        named_key("return"@) == Some(KeyCode::Enter),
        named_key("space"@) == Some(KeyCode::Char(' ')),
        named_key("spacebar"@) == Some(KeyCode::Char(' ')),
        named_key("tab"@) == Some(KeyCode::Tab),
        named_key("backtab"@) == Some(KeyCode::BackTab),
        named_key("shift-tab"@) == Some(KeyCode::BackTab),
        named_key("btab"@) == Some(KeyCode::BackTab),
        named_key("up"@) == Some(KeyCode::Up),
        named_key("down"@) == Some(KeyCode::Down),
        named_key("left"@) == Some(KeyCode::Left),
        named_key("right"@) == Some(KeyCode::Right),
        named_key("home"@) == Some(KeyCode::Home),
        named_key("end"@) == Some(KeyCode::End),
        named_key("pageup"@) == Some(KeyCode::PageUp),
        named_key("pgup"@) == Some(KeyCode::PageUp),
        named_key("pagedown"@) == Some(KeyCode::PageDown),
        named_key("pgdn"@) == Some(KeyCode::PageDown),
        named_key("pgdown"@) == Some(KeyCode::PageDown),
        named_key("backspace"@) == Some(KeyCode::Backspace),
        named_key("delete"@) == Some(KeyCode::Delete),
        named_key("del"@) == Some(KeyCode::Delete),
        named_key("insert"@) == Some(KeyCode::Insert),
        named_key("ins"@) == Some(KeyCode::Insert),
        named_key("f1"@) == Some(KeyCode::F(1)),
        named_key("f2"@) == Some(KeyCode::F(2)),
        named_key("f3"@) == Some(KeyCode::F(3)),
        named_key("f4"@) == Some(KeyCode::F(4)),
        named_key("f5"@) == Some(KeyCode::F(5)),
        named_key("f6"@) == Some(KeyCode::F(6)),
        named_key("f7"@) == Some(KeyCode::F(7)),
        named_key("f8"@) == Some(KeyCode::F(8)),
        named_key("f9"@) == Some(KeyCode::F(9)),
        named_key("f10"@) == Some(KeyCode::F(10)),
        named_key("f11"@) == Some(KeyCode::F(11)),
        named_key("f12"@) == Some(KeyCode::F(12)),
        forall|l: Seq<char>| l.len() == 1 ==> #[trigger] named_key(l) is None,
        forall|l: Seq<char>| #[trigger] named_key(l) is Some ==> !has_prefix(l, "ctrl-"@),
{
    reveal_strlit("ctrl-");
    assert("ctrl-"@.len() == 5);
    assert("ctrl-"@[0] == 'c');
    reveal_strlit("esc");
    reveal_strlit("enter");
    reveal_strlit("return");
    reveal_strlit("space");
    reveal_strlit("spacebar");
    reveal_strlit("tab");
    reveal_strlit("backtab");
    reveal_strlit("shift-tab");
    reveal_strlit("btab");
    reveal_strlit("up");
    reveal_strlit("down");
    reveal_strlit("left");
    reveal_strlit("right");
    reveal_strlit("home");
    reveal_strlit("end");
    reveal_strlit("pageup");
    reveal_strlit("pgup");
    reveal_strlit("pagedown");
    reveal_strlit("pgdn");
    reveal_strlit("pgdown");
    reveal_strlit("backspace");
    reveal_strlit("delete");
    reveal_strlit("del");
    reveal_strlit("insert");
    reveal_strlit("ins");
    reveal_strlit("f1");
    reveal_strlit("f2");
    reveal_strlit("f3");
    reveal_strlit("f4");
    reveal_strlit("f5");
    reveal_strlit("f6");
    reveal_strlit("f7");
    reveal_strlit("f8");
    reveal_strlit("f9");
    reveal_strlit("f10");
    reveal_strlit("f11");
    reveal_strlit("f12");
    assert("esc"@.len() == 3);
    assert("esc"@[0] == 'e');
    assert("esc"@[1] == 's');
    assert("esc"@[2] == 'c');
    assert("enter"@.len() == 5);
    assert("enter"@[0] == 'e');
    assert("enter"@[1] == 'n');
    assert("enter"@[2] == 't');
    assert("enter"@[3] == 'e');
    assert("enter"@[4] == 'r');
    assert("return"@.len() == 6);
    assert("return"@[0] == 'r');
    assert("return"@[1] == 'e');
    assert("return"@[2] == 't');
    assert("return"@[3] == 'u');
    assert("return"@[4] == 'r');
    assert("return"@[5] == 'n');
    assert("space"@.len() == 5);
    assert("space"@[0] == 's');
    assert("space"@[1] == 'p');
    assert("space"@[2] == 'a');
    assert("space"@[3] == 'c');
    assert("space"@[4] == 'e');
    assert("spacebar"@.len() == 8);
    assert("spacebar"@[0] == 's');
    assert("spacebar"@[1] == 'p');
    assert("spacebar"@[2] == 'a');
    assert("spacebar"@[3] == 'c');
    assert("spacebar"@[4] == 'e');
    assert("spacebar"@[5] == 'b');
    assert("spacebar"@[6] == 'a');
    assert("spacebar"@[7] == 'r');
    assert("tab"@.len() == 3);
    assert("tab"@[0] == 't');
    assert("tab"@[1] == 'a');
    assert("tab"@[2] == 'b');
    assert("backtab"@.len() == 7);
    assert("backtab"@[0] == 'b');
    assert("backtab"@[1] == 'a');
    assert("backtab"@[2] == 'c');
    assert("backtab"@[3] == 'k');
    assert("backtab"@[4] == 't');
    assert("backtab"@[5] == 'a');
    assert("backtab"@[6] == 'b');
    assert("shift-tab"@.len() == 9);
    assert("shift-tab"@[0] == 's');
    assert("shift-tab"@[1] == 'h');
    assert("shift-tab"@[2] == 'i');
    assert("shift-tab"@[3] == 'f');
    assert("shift-tab"@[4] == 't');
    assert("shift-tab"@[5] == '-');
    assert("shift-tab"@[6] == 't');
    assert("shift-tab"@[7] == 'a');
    assert("shift-tab"@[8] == 'b');
    assert("btab"@.len() == 4);
    assert("btab"@[0] == 'b');
    assert("btab"@[1] == 't');
    assert("btab"@[2] == 'a');
    assert("btab"@[3] == 'b');
    assert("up"@.len() == 2);
    assert("up"@[0] == 'u');
    assert("up"@[1] == 'p');
    assert("down"@.len() == 4);
    assert("down"@[0] == 'd');
    assert("down"@[1] == 'o');
    assert("down"@[2] == 'w');
    assert("down"@[3] == 'n');
    assert("left"@.len() == 4);
    assert("left"@[0] == 'l');
    assert("left"@[1] == 'e');
    assert("left"@[2] == 'f');
    assert("left"@[3] == 't');
    assert("right"@.len() == 5);
    assert("right"@[0] == 'r');
    assert("right"@[1] == 'i');
    assert("right"@[2] == 'g');
    assert("right"@[3] == 'h');
    assert("right"@[4] == 't');
    assert("home"@.len() == 4);
    assert("home"@[0] == 'h');
    assert("home"@[1] == 'o');
    assert("home"@[2] == 'm');
    assert("home"@[3] == 'e');
    assert("end"@.len() == 3);
    assert("end"@[0] == 'e');
    assert("end"@[1] == 'n');
    assert("end"@[2] == 'd');
    assert("pageup"@.len() == 6);
    assert("pageup"@[0] == 'p');
    assert("pageup"@[1] == 'a');
    assert("pageup"@[2] == 'g');
    assert("pageup"@[3] == 'e');
    assert("pageup"@[4] == 'u');
    assert("pageup"@[5] == 'p');
    assert("pgup"@.len() == 4);
    assert("pgup"@[0] == 'p');
    assert("pgup"@[1] == 'g');
    assert("pgup"@[2] == 'u');
    assert("pgup"@[3] == 'p');
    assert("pagedown"@.len() == 8);
    assert("pagedown"@[0] == 'p');
    assert("pagedown"@[1] == 'a');
    assert("pagedown"@[2] == 'g');
    assert("pagedown"@[3] == 'e');
    assert("pagedown"@[4] == 'd');
    assert("pagedown"@[5] == 'o');
    assert("pagedown"@[6] == 'w');
    assert("pagedown"@[7] == 'n');
    assert("pgdn"@.len() == 4);
    assert("pgdn"@[0] == 'p');
    assert("pgdn"@[1] == 'g');
    assert("pgdn"@[2] == 'd');
    assert("pgdn"@[3] == 'n');
    assert("pgdown"@.len() == 6);
    assert("pgdown"@[0] == 'p');
    assert("pgdown"@[1] == 'g');
    assert("pgdown"@[2] == 'd');
    assert("pgdown"@[3] == 'o');
    assert("pgdown"@[4] == 'w');
    assert("pgdown"@[5] == 'n');
    assert("backspace"@.len() == 9);
    assert("backspace"@[0] == 'b');
    assert("backspace"@[1] == 'a');
    assert("backspace"@[2] == 'c');
    assert("backspace"@[3] == 'k');
    assert("backspace"@[4] == 's');
    assert("backspace"@[5] == 'p');
    assert("backspace"@[6] == 'a');
    assert("backspace"@[7] == 'c');
    assert("backspace"@[8] == 'e');
    assert("delete"@.len() == 6);
    assert("delete"@[0] == 'd');
    assert("delete"@[1] == 'e');
    assert("delete"@[2] == 'l');
    assert("delete"@[3] == 'e');
    assert("delete"@[4] == 't');
    assert("delete"@[5] == 'e');
    assert("del"@.len() == 3);
    assert("del"@[0] == 'd');
    assert("del"@[1] == 'e');
    assert("del"@[2] == 'l');
    assert("insert"@.len() == 6);
    assert("insert"@[0] == 'i');
    assert("insert"@[1] == 'n');
    assert("insert"@[2] == 's');
    assert("insert"@[3] == 'e');
    assert("insert"@[4] == 'r');
    assert("insert"@[5] == 't');
    assert("ins"@.len() == 3);
    assert("ins"@[0] == 'i');
    assert("ins"@[1] == 'n');
    assert("ins"@[2] == 's');
    assert("f1"@.len() == 2);
    assert("f1"@[0] == 'f');
    assert("f1"@[1] == '1');
    assert("f2"@.len() == 2);
    assert("f2"@[0] == 'f');
    assert("f2"@[1] == '2');
    assert("f3"@.len() == 2);
    assert("f3"@[0] == 'f');
    assert("f3"@[1] == '3');
    assert("f4"@.len() == 2);
    assert("f4"@[0] == 'f');
    assert("f4"@[1] == '4');
    assert("f5"@.len() == 2);
    assert("f5"@[0] == 'f');
    assert("f5"@[1] == '5');
    assert("f6"@.len() == 2);
    assert("f6"@[0] == 'f');
    assert("f6"@[1] == '6');
    assert("f7"@.len() == 2);
    assert("f7"@[0] == 'f');
    assert("f7"@[1] == '7');
    assert("f8"@.len() == 2);
    assert("f8"@[0] == 'f');
    assert("f8"@[1] == '8');
    assert("f9"@.len() == 2);
    assert("f9"@[0] == 'f');
    assert("f9"@[1] == '9');
    assert("f10"@.len() == 3);
    assert("f10"@[0] == 'f');
    assert("f10"@[1] == '1');
    assert("f10"@[2] == '0');
    assert("f11"@.len() == 3);
    assert("f11"@[0] == 'f');
    assert("f11"@[1] == '1');
    assert("f11"@[2] == '1');
    assert("f12"@.len() == 3);
    assert("f12"@[0] == 'f');
    assert("f12"@[1] == '1');
    assert("f12"@[2] == '2');
    assert forall|l: Seq<char>| #[trigger] named_key(l) is Some implies !has_prefix(l, "ctrl-"@) by {
        if has_prefix(l, "ctrl-"@) {
            assert(l.subrange(0, 5)[0] == l[0]);
            assert(l[0] == 'c');
        }
    }
}

/// A key spec whose trimmed, lower-cased text is one of the named words
/// parses to the key that word names, with no prefix and no Control: with
/// `law_named_keys`, `home` gives `Home`, `end` gives `End`, `pgup` gives
/// `PageUp`, and so on.
pub proof fn law_parse_named_key(s: Seq<char>)
    requires
        trim_seq(s).len() > 0,
        named_key(unicode_lowercase(trim_seq(s))) is Some,
    ensures
        key_spec_of(s) == Some(
            KeySpec { prefix: None, ctrl: false, code: named_key(unicode_lowercase(trim_seq(s)))->0 },
        ),
{
    law_named_keys();
}

} // verus!
