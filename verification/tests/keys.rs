use next_hunk::app::{search_rows, Decision, InputMode, Search};
use next_hunk::keymap::{KeyCode, KeyPress};
use next_hunk::keys::{
    edit_prompt, mouse_action, normal_key, route_key, step_delta, Area, KeyRoute, MouseAction,
    MouseInput, NormalCommand, PromptEdit, Step,
};

fn key(code: KeyCode) -> KeyPress {
    KeyPress { code, ctrl: false }
}

fn ch(c: char) -> KeyPress {
    key(KeyCode::Char(c))
}

fn ctrl(c: char) -> KeyPress {
    KeyPress { code: KeyCode::Char(c), ctrl: true }
}

#[test]
fn ctrl_c_quits_in_every_mode_even_under_help() {
    assert_eq!(route_key(ctrl('c'), false, InputMode::Normal), KeyRoute::Quit);
    assert_eq!(route_key(ctrl('c'), true, InputMode::Search), KeyRoute::Quit);
    assert_eq!(route_key(ctrl('c'), false, InputMode::Note), KeyRoute::Quit);
}

#[test]
fn the_help_overlay_closes_on_its_keys_and_swallows_the_rest() {
    for k in [ch('?'), key(KeyCode::Esc), ch('q'), key(KeyCode::Enter), ch(' ')] {
        assert_eq!(route_key(k, true, InputMode::Normal), KeyRoute::CloseHelp);
    }
    assert_eq!(route_key(ch('j'), true, InputMode::Normal), KeyRoute::Swallow);
    assert_eq!(route_key(key(KeyCode::Down), true, InputMode::Filter), KeyRoute::Swallow);
}

#[test]
fn an_open_prompt_takes_the_key() {
    assert_eq!(route_key(ch('q'), false, InputMode::Search), KeyRoute::Prompt(InputMode::Search));
    assert_eq!(route_key(ch('q'), false, InputMode::Normal), KeyRoute::Normal);
}

#[test]
fn two_key_sequences_complete_or_fall_through() {
    assert_eq!(normal_key(ch(']'), None, false), (NormalCommand::Arm(']'), Some(']')));
    assert_eq!(normal_key(ch('h'), Some(']'), false), (NormalCommand::NextHunk, None));
    assert_eq!(normal_key(ch('h'), Some('['), false), (NormalCommand::PrevHunk, None));
    assert_eq!(normal_key(ch('c'), Some('z'), false), (NormalCommand::FoldCurrent, None));
    assert_eq!(normal_key(ch('o'), Some('z'), false), (NormalCommand::UnfoldCurrent, None));
    assert_eq!(normal_key(ch('x'), Some('z'), false), (NormalCommand::ToggleCollapse, None));
    assert_eq!(normal_key(ch('j'), Some('z'), false), (NormalCommand::Move(Step::Down), None));
    assert_eq!(normal_key(ch('z'), Some(']'), false), (NormalCommand::Arm('z'), Some('z')));
    assert_eq!(normal_key(ch('h'), None, false), (NormalCommand::PrevFile, None));
}

#[test]
fn ctrl_page_keys_keep_an_armed_prefix() {
    assert_eq!(normal_key(ctrl('d'), Some('z'), false), (NormalCommand::Move(Step::HalfDown), Some('z')));
    assert_eq!(normal_key(ctrl('b'), None, false), (NormalCommand::Move(Step::PageUp), None));
    assert_eq!(normal_key(ctrl('j'), None, false), (NormalCommand::Move(Step::Down), None));
}

#[test]
fn digits_jump_to_files_and_decisions_need_select_mode() {
    assert_eq!(normal_key(ch('5'), None, false).0, NormalCommand::NthFile(5));
    assert_eq!(normal_key(ch('0'), None, false).0, NormalCommand::Nothing);
    assert_eq!(normal_key(ch('a'), None, false).0, NormalCommand::Nothing);
    assert_eq!(normal_key(ch('a'), None, true).0, NormalCommand::Decide(Decision::Accept));
    assert_eq!(normal_key(ch('r'), None, true).0, NormalCommand::Decide(Decision::Reject));
    assert_eq!(normal_key(ch('u'), None, true).0, NormalCommand::Decide(Decision::Undecided));
    assert_eq!(normal_key(key(KeyCode::PageDown), None, false).0, NormalCommand::Move(Step::HalfDown));
    assert_eq!(normal_key(key(KeyCode::Esc), None, false).0, NormalCommand::QuitOrClearSearch);
}

#[test]
fn step_sizes_follow_the_viewport() {
    assert_eq!(step_delta(Step::HalfDown, 0), 0);
    assert_eq!(step_delta(Step::PageDown, 0), 1);
    assert_eq!(step_delta(Step::PageUp, 20), -20);
    assert_eq!(step_delta(Step::HalfUp, 21), -10);
    assert_eq!(step_delta(Step::Up, 21), -1);
}

#[test]
fn note_composer_ctrl_shortcuts_edit_the_draft_text() {
    let mut draft = String::new();
    for c in "one two three".chars() {
        assert_eq!(edit_prompt(&mut draft, ch(c)), PromptEdit::Edited);
    }
    edit_prompt(&mut draft, ctrl('w'));
    assert_eq!(draft, "one two");
    edit_prompt(&mut draft, ctrl('u'));
    assert_eq!(draft, "");
}

#[test]
fn prompt_backspace_enter_and_esc() {
    let mut q = "héllo".to_string();
    assert_eq!(edit_prompt(&mut q, key(KeyCode::Backspace)), PromptEdit::Edited);
    assert_eq!(q, "héll");
    assert_eq!(edit_prompt(&mut q, key(KeyCode::Enter)), PromptEdit::Submit);
    assert_eq!(q, "héll");
    assert_eq!(edit_prompt(&mut q, key(KeyCode::Up)), PromptEdit::Ignored);
    assert_eq!(edit_prompt(&mut q, key(KeyCode::Esc)), PromptEdit::Cancel);
    assert_eq!(q, "");
    assert_eq!(edit_prompt(&mut q, key(KeyCode::Backspace)), PromptEdit::Edited);
    assert_eq!(q, "");
}

#[test]
fn search_matches_wrap_both_ways() {
    let mut s = Search { query: "x".to_string(), matches: vec![3, 8, 13], current: 0, active: true };
    assert_eq!(s.advance(true), Some(8));
    assert_eq!(s.advance(true), Some(13));
    assert_eq!(s.advance(true), Some(3));
    assert_eq!(s.advance(false), Some(13));
    assert_eq!(s.current, 2);
    let mut empty = Search::default();
    assert_eq!(empty.advance(true), None);
}

#[test]
fn search_scans_rows_case_insensitively() {
    let rows = vec![
        Some("fn Main() {}".to_string()),
        None,
        Some("no".to_string()),
        Some("MAIN again".to_string()),
    ];
    assert_eq!(search_rows(&rows, "main"), Some(vec![0, 3]));
    assert_eq!(search_rows(&rows, "  "), None);
    assert_eq!(search_rows(&rows, "zzz"), Some(vec![]));
}

#[test]
fn the_wheel_scrolls_and_shift_widens_it() {
    let v = vec![0, 1];
    assert_eq!(
        mouse_action(MouseInput::WheelDown { shift: false }, None, &v, None, 0, 10),
        MouseAction::Scroll { down: true, half_page: false }
    );
    assert_eq!(
        mouse_action(MouseInput::WheelUp { shift: true }, None, &v, None, 0, 10),
        MouseAction::Scroll { down: false, half_page: true }
    );
}

#[test]
fn a_rail_click_selects_the_file_on_that_row() {
    let rail = Some(Area { x: 0, y: 1, width: 20, height: 10 });
    let stream = Some(Area { x: 20, y: 1, width: 60, height: 10 });
    let visible = vec![2, 5, 7];
    assert_eq!(
        mouse_action(MouseInput::LeftClick { column: 3, row: 2 }, rail, &visible, stream, 0, 50),
        MouseAction::SelectFile(5)
    );
    assert_eq!(
        mouse_action(MouseInput::LeftClick { column: 3, row: 9 }, rail, &visible, stream, 0, 50),
        MouseAction::Nothing
    );
}

#[test]
fn a_stream_click_puts_the_cursor_on_the_row_within_the_stream() {
    let stream = Some(Area { x: 20, y: 1, width: 60, height: 10 });
    let v = vec![];
    assert_eq!(
        mouse_action(MouseInput::LeftClick { column: 30, row: 4 }, None, &v, stream, 10, 50),
        MouseAction::SetCursor(13)
    );
    assert_eq!(
        mouse_action(MouseInput::LeftClick { column: 30, row: 4 }, None, &v, stream, 10, 12),
        MouseAction::SetCursor(11)
    );
    assert_eq!(
        mouse_action(MouseInput::LeftClick { column: 80, row: 4 }, None, &v, stream, 10, 50),
        MouseAction::Nothing
    );
    assert_eq!(mouse_action(MouseInput::Other, None, &v, stream, 10, 50), MouseAction::Nothing);
}
