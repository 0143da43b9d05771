use next_hunk::app::Decision;
use next_hunk::persist::{
    decision_from_wire, decision_to_wire, default_version, loaded_state, path_in_git_dir,
    path_in_xdg, path_last_export_in_git_dir, path_last_export_in_xdg, repo_key_from_path,
    resolve_last_export_path, resolve_store_path, sanitize_scope, xdg_state_home,
    PersistedState, VERSION,
};

fn lookup<'a, V>(pairs: &'a [(String, V)], key: &str) -> Option<&'a V> {
    pairs.iter().find(|(k, _)| k == key).map(|(_, v)| v)
}

#[test]
fn round_trip_decisions() {
    let mut state = PersistedState::new("worktree");
    let map = vec![
        ("src/a.rs:h1".to_string(), Decision::Accept),
        ("src/a.rs:h2".to_string(), Decision::Reject),
        ("src/b.rs:h1".to_string(), Decision::Undecided),
    ];
    state.set_from_decisions(&map);
    assert_eq!(lookup(&state.decisions, "src/a.rs:h1").unwrap(), "accepted");
    assert_eq!(lookup(&state.decisions, "src/a.rs:h2").unwrap(), "rejected");
    assert!(lookup(&state.decisions, "src/b.rs:h1").is_none());

    let back = state.as_decisions();
    assert_eq!(lookup(&back, "src/a.rs:h1"), Some(&Decision::Accept));
    assert_eq!(lookup(&back, "src/a.rs:h2"), Some(&Decision::Reject));
    assert!(lookup(&back, "src/b.rs:h1").is_none());
}

#[test]
fn load_missing_is_empty() {
    let s = loaded_state(None);
    assert!(s.decisions.is_empty());
}

#[test]
fn loaded_state_fills_in_a_missing_version() {
    let mut old = PersistedState::new("staged");
    old.version = 0;
    old.decisions.push(("foo.rs:h1".into(), "accepted".into()));
    let s = loaded_state(Some(old.clone()));
    assert_eq!(s.version, VERSION);
    assert_eq!(s.scope, "staged");
    assert_eq!(s.decisions, old.decisions);
    let mut newer = PersistedState::new("staged");
    newer.version = 7;
    assert_eq!(loaded_state(Some(newer)).version, 7);
}

#[test]
fn sanitize_scope_strips_bad_chars() {
    assert_eq!(sanitize_scope("working-set"), "working-set");
    assert_eq!(sanitize_scope("a/b"), "a_b");
    assert_eq!(sanitize_scope(""), "default");
}

#[test]
fn sanitize_scope_replaces_non_ascii() {
    assert_eq!(sanitize_scope("é x_9"), "__x_9");
}

#[test]
fn path_in_git_dir_shape() {
    let p = path_in_git_dir("/repo/.git", "worktree");
    assert_eq!(p, "/repo/.git/next-hunk/decisions-worktree.json");
}

#[test]
fn wire_aliases() {
    assert_eq!(decision_from_wire("accepted"), Some(Decision::Accept));
    assert_eq!(decision_from_wire("accept"), Some(Decision::Accept));
    assert_eq!(decision_from_wire("rejected"), Some(Decision::Reject));
    assert_eq!(decision_from_wire("nope"), None);
}

#[test]
fn wire_short_aliases_and_undecided() {
    assert_eq!(decision_from_wire("a"), Some(Decision::Accept));
    assert_eq!(decision_from_wire("r"), Some(Decision::Reject));
    assert_eq!(decision_from_wire("u"), Some(Decision::Undecided));
    assert_eq!(decision_from_wire("undecided"), Some(Decision::Undecided));
    assert_eq!(decision_to_wire(Decision::Accept), Some("accepted"));
    assert_eq!(decision_to_wire(Decision::Reject), Some("rejected"));
    assert_eq!(decision_to_wire(Decision::Undecided), None);
}

#[test]
fn last_export_path_shape() {
    let p = path_last_export_in_git_dir("/repo/.git");
    assert_eq!(p, "/repo/.git/next-hunk/last-export.json");
}

#[test]
fn default_version_is_current() {
    assert_eq!(default_version(), VERSION);
    assert_eq!(PersistedState::new("x").version, VERSION);
}

#[test]
fn xdg_state_home_prefers_xdg_then_home() {
    assert_eq!(xdg_state_home(Some("/x/state"), Some("/home/u")), Some("/x/state".to_string()));
    assert_eq!(xdg_state_home(Some(""), Some("/home/u")), Some("/home/u/.local/state".to_string()));
    assert_eq!(xdg_state_home(None, Some("/home/u")), Some("/home/u/.local/state".to_string()));
    assert_eq!(xdg_state_home(None, None), None);
}

#[test]
fn xdg_paths_sanitize_key_and_scope() {
    assert_eq!(
        path_in_xdg("abc", "a/b", Some("/st")),
        Some("/st/next-hunk/abc/decisions-a_b.json".to_string())
    );
    assert_eq!(
        path_last_export_in_xdg("k", Some("/st")),
        Some("/st/next-hunk/k/last-export.json".to_string())
    );
    assert_eq!(path_in_xdg("abc", "s", None), None);
}

#[test]
fn repo_key_is_fnv1a_hex() {
    // FNV-1a 64 of the empty input is the offset basis.
    assert_eq!(repo_key_from_path(""), "cbf29ce484222325");
    // FNV-1a 64 of "a".
    assert_eq!(repo_key_from_path("a"), "af63dc4c8601ec8c");
    assert_eq!(repo_key_from_path("/repo").len(), 16);
}

#[test]
fn store_path_prefers_git_dir_then_state_home() {
    assert_eq!(
        resolve_store_path(Some("/r/.git"), Some("k"), "worktree", Some("/st")),
        Some("/r/.git/next-hunk/decisions-worktree.json".to_string())
    );
    assert_eq!(
        resolve_store_path(None, Some("k"), "worktree", Some("/st")),
        Some("/st/next-hunk/k/decisions-worktree.json".to_string())
    );
    assert_eq!(resolve_store_path(None, None, "worktree", Some("/st")), None);
    assert_eq!(
        resolve_last_export_path(None, Some("k"), Some("/st")),
        Some("/st/next-hunk/k/last-export.json".to_string())
    );
    assert_eq!(
        resolve_last_export_path(Some("/r/.git"), None, None),
        Some("/r/.git/next-hunk/last-export.json".to_string())
    );
}
