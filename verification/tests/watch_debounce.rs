use next_hunk::watch::{watch_step, WatchAction};

#[test]
fn events_restart_the_quiet_period() {
    assert_eq!(watch_step(false, true, 0, 200), WatchAction::Restart);
    assert_eq!(watch_step(true, true, 500, 200), WatchAction::Restart);
}

#[test]
fn a_reload_fires_once_the_quiet_period_is_over() {
    assert_eq!(watch_step(true, false, 199, 200), WatchAction::Wait);
    assert_eq!(watch_step(true, false, 200, 200), WatchAction::Reload);
    assert_eq!(watch_step(false, false, 10_000, 200), WatchAction::Idle);
}
