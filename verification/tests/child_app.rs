use aes67_rs::child_app::{exit_action, start_outcome, AppState, ExitAction};
use aes67_rs::error::ChildAppError;

#[test]
fn started_child_app_is_ok() {
    assert_eq!(start_outcome("audio".to_owned(), Some(AppState::Started)), Ok(()));
}

#[test]
fn child_app_ending_at_once_fails() {
    let expected = Err(ChildAppError("audio".to_owned(), "audio terminated immediately after start.".to_owned()));
    assert_eq!(start_outcome("audio".to_owned(), None), expected);
    assert_eq!(start_outcome("audio".to_owned(), Some(AppState::TerminatedNormally)), expected);
}

#[test]
fn crashed_child_app_fails_with_its_message() {
    assert_eq!(
        start_outcome("audio".to_owned(), Some(AppState::Crashed("boom".to_owned()))),
        Err(ChildAppError("audio".to_owned(), "boom".to_owned()))
    );
}

#[test]
fn only_a_start_keeps_the_watcher_going() {
    assert_eq!(exit_action(&AppState::Started), ExitAction::KeepWatching);
    assert_eq!(exit_action(&AppState::TerminatedNormally), ExitAction::Shutdown);
    assert_eq!(exit_action(&AppState::Crashed("x".to_owned())), ExitAction::Shutdown);
}

#[test]
fn watcher_stops_at_the_first_end() {
    let states = vec![
        AppState::Started,
        AppState::Started,
        AppState::Crashed("x".to_owned()),
        AppState::TerminatedNormally,
    ];
    let stop = states.iter().position(|s| exit_action(s) == ExitAction::Shutdown);
    assert_eq!(stop, Some(2));
    let only_started = [AppState::Started, AppState::Started];
    assert!(only_started.iter().all(|s| exit_action(s) == ExitAction::KeepWatching));
}
