use next_hunk::app::{Search, Toast, ToastKind};
use next_hunk::status::{status_line, LayoutBadge, StatusBar, StatusStyle};

fn bar(width: u16, path: &str, status: Toast) -> StatusBar {
    StatusBar {
        width,
        virtual_len: 0,
        scroll_y: 0,
        selected_file: 0,
        file_tally: None,
        total_inserts: 1,
        total_deletes: 2,
        current_path: path.to_string(),
        status,
        banner: None,
        search: Search::default(),
        pending_prefix: None,
        layout: LayoutBadge::Flow,
        highlight_on: false,
        ignore_ws: false,
        word_diff_on: true,
        collapse_on: true,
        wrap_on: false,
        select_mode: false,
        watch_mode: false,
        serve_mode: false,
    }
}

fn texts(line: &[(StatusStyle, String)]) -> Vec<(StatusStyle, &str)> {
    line.iter().map(|(s, t)| (*s, t.as_str())).collect()
}

#[test]
fn sticky_hint_keeps_the_flow_layout() {
    let mut b = bar(80, "src/main.rs", Toast::sticky("press ? for help".to_string()));
    b.virtual_len = 120;
    b.scroll_y = 9;
    b.selected_file = 1;
    b.file_tally = Some((12, 3));
    b.total_inserts = 40;
    b.total_deletes = 7;
    b.highlight_on = true;
    let line = status_line(&b);
    assert_eq!(
        texts(&line),
        vec![
            (StatusStyle::Location, " src/main.rs  [2]  10/120  +12/−3 HL "),
            (StatusStyle::Totals, " Σ +40/−7 "),
            (StatusStyle::Message(ToastKind::Info), " press ? for help "),
        ]
    );
}

#[test]
fn transient_message_is_pushed_to_the_right_edge() {
    let mut b = bar(60, "crates/engine/src/review/state.rs", Toast::stamped("saved".to_string()));
    b.ignore_ws = true;
    b.word_diff_on = false;
    b.select_mode = true;
    let line = status_line(&b);
    assert_eq!(
        texts(&line),
        vec![
            (StatusStyle::Location, " …/state.rs  [1]  0/0   "),
            (StatusStyle::Totals, " Σ +1/−2 "),
            (StatusStyle::Badge, " WS"),
            (StatusStyle::Badge, " wd−"),
            (StatusStyle::Select, " SELECT "),
            (StatusStyle::Fill, "     "),
            (StatusStyle::Message(ToastKind::Info), " saved "),
        ]
    );
    let cols: usize = line.iter().map(|(_, t)| t.chars().count()).sum();
    assert_eq!(cols, 60);
}

#[test]
fn a_narrow_bar_cuts_the_left_side_for_the_message() {
    let mut toast = Toast::stamped("reloaded by agent".to_string());
    toast.kind = ToastKind::Error;
    let b = bar(30, "src/lib.rs", toast);
    let line = status_line(&b);
    assert_eq!(
        texts(&line),
        vec![
            (StatusStyle::Location, " …"),
            (StatusStyle::Totals, " Σ +1/−2 "),
            (StatusStyle::Fill, ""),
            (StatusStyle::Message(ToastKind::Error), " reloaded by agent "),
        ]
    );
}

#[test]
fn badges_follow_the_search_indicator_in_order() {
    let mut b = bar(120, "a.rs", Toast::sticky(String::new()));
    b.virtual_len = 5;
    b.file_tally = Some((0, 0));
    b.search = Search {
        query: "needle_that_is_long".to_string(),
        matches: vec![4, 9, 30],
        current: 2,
        active: true,
    };
    b.pending_prefix = Some(']');
    b.layout = LayoutBadge::Split;
    b.collapse_on = false;
    b.wrap_on = true;
    b.watch_mode = true;
    b.serve_mode = true;
    b.banner = Some("ship it".to_string());
    let line = status_line(&b);
    assert_eq!(
        texts(&line),
        vec![
            (StatusStyle::Location, " a.rs  [1]  1/5  +0/−0 "),
            (StatusStyle::Totals, " Σ +1/−2 "),
            (StatusStyle::SearchMatch, " /needle_that… 3/3 "),
            (StatusStyle::Badge, " zx−"),
            (StatusStyle::Badge, " wrap"),
            (StatusStyle::Badge, " ]…"),
            (StatusStyle::Badge, " split"),
            (StatusStyle::Note, " WATCH "),
            (StatusStyle::Note, " SERVE "),
            (StatusStyle::Note, " 💬 ship it "),
            (StatusStyle::Message(ToastKind::Info), "  "),
        ]
    );
}

#[test]
fn an_inactive_search_shows_no_indicator() {
    let mut b = bar(80, "a.rs", Toast::sticky(String::new()));
    b.search = Search { query: "x".to_string(), matches: vec![1], current: 0, active: false };
    let line = status_line(&b);
    assert!(!line.iter().any(|(s, _)| *s == StatusStyle::SearchMatch));
}
