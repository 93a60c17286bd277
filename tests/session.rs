use branch_picker::session::{
    event_for_key, Action, App, CheckoutError, InputEvent, Key, Phase,
    SessionStatus,
};

fn names(list: &[&str]) -> Vec<String> {
    list.iter().map(|s| s.to_string()).collect()
}

fn sample_app() -> App {
    App::from_parts(
        names(&["feature/x", "main", "release/1.0"]),
        Some("main".to_string()),
        "/work/repo".to_string(),
    )
}

#[test]
fn scenario_navigate_and_switch() {
    let mut app = sample_app();
    assert_eq!(app.cursor, Some(1));
    assert_eq!(app.handle_event(InputEvent::NavigateDown), Action::Nothing);
    assert_eq!(app.cursor, Some(2));
    assert_eq!(app.handle_event(InputEvent::NavigateDown), Action::Nothing);
    assert_eq!(app.cursor, Some(0));
    let action = app.handle_event(InputEvent::Confirm);
    assert_eq!(action, Action::Checkout("feature/x".to_string()));
    app.record_checkout("feature/x".to_string(), Ok(()));
    assert_eq!(app.status, SessionStatus::Success("feature/x".to_string()));
    assert_eq!(app.phase, Phase::Terminated);
    assert_eq!(app.current, Some("feature/x".to_string()));
    assert_eq!(app.handle_event(InputEvent::NavigateDown), Action::Exit);
}

#[test]
fn scenario_conflict_keeps_browsing() {
    let mut app = sample_app();
    app.handle_event(InputEvent::NavigateDown);
    app.handle_event(InputEvent::NavigateDown);
    assert_eq!(app.cursor, Some(0));
    let action = app.handle_event(InputEvent::Confirm);
    assert_eq!(action, Action::Checkout("feature/x".to_string()));
    let err = CheckoutError::WorkingTreeConflict("1 conflict prevents checkout".to_string());
    app.record_checkout("feature/x".to_string(), Err(err.clone()));
    assert_eq!(app.status, SessionStatus::Failure("feature/x".to_string(), err));
    assert_eq!(app.phase, Phase::Browsing);
    assert_eq!(app.current, Some("main".to_string()));
    assert_eq!(app.cursor, Some(0));
    app.handle_event(InputEvent::NavigateDown);
    assert_eq!(app.handle_event(InputEvent::Confirm), Action::Checkout("main".to_string()));
}

#[test]
fn navigating_down_len_times_cycles() {
    let mut app = sample_app();
    let start = app.cursor;
    for _ in 0..3 {
        app.next();
    }
    assert_eq!(app.cursor, start);
}

#[test]
fn navigating_up_len_times_cycles() {
    let mut app = sample_app();
    let start = app.cursor;
    for _ in 0..3 {
        app.previous();
    }
    assert_eq!(app.cursor, start);
}

#[test]
fn previous_wraps_from_first_to_last() {
    let mut app = App::from_parts(names(&["a", "b", "c"]), None, String::new());
    assert_eq!(app.cursor, Some(0));
    app.previous();
    assert_eq!(app.cursor, Some(2));
    app.next();
    assert_eq!(app.cursor, Some(0));
}

#[test]
fn empty_list_has_no_cursor() {
    let mut app = App::from_parts(Vec::new(), Some("main".to_string()), String::new());
    assert_eq!(app.cursor, None);
    app.next();
    assert_eq!(app.cursor, None);
    app.previous();
    assert_eq!(app.cursor, None);
    assert_eq!(app.handle_event(InputEvent::NavigateDown), Action::Nothing);
    assert_eq!(app.handle_event(InputEvent::NavigateUp), Action::Nothing);
    assert_eq!(app.cursor, None);
    assert_eq!(app.handle_event(InputEvent::Confirm), Action::Nothing);
    assert_eq!(app.status, SessionStatus::NoAttemptYet);
}

#[test]
fn quit_without_attempt_reports_nothing() {
    let mut app = sample_app();
    assert_eq!(app.handle_event(InputEvent::Quit), Action::Exit);
    assert_eq!(app.phase, Phase::Terminated);
    assert_eq!(app.status, SessionStatus::NoAttemptYet);
    assert_eq!(app.current, Some("main".to_string()));
}

#[test]
fn initial_cursor_falls_back_to_first() {
    let app = App::from_parts(names(&["dev", "main"]), Some("gone".to_string()), String::new());
    assert_eq!(app.cursor, Some(0));
    let app = App::from_parts(names(&["dev", "main"]), None, String::new());
    assert_eq!(app.cursor, Some(0));
    let app = App::from_parts(names(&["dev", "main"]), Some("main".to_string()), String::new());
    assert_eq!(app.cursor, Some(1));
    assert_eq!(app.repo_path, "");
}

#[test]
fn head_update_failure_keeps_browsing() {
    let mut app = sample_app();
    let err = CheckoutError::HeadUpdateFailed("locked".to_string());
    app.record_checkout("release/1.0".to_string(), Err(err.clone()));
    assert_eq!(app.phase, Phase::Browsing);
    assert_eq!(app.status, SessionStatus::Failure("release/1.0".to_string(), err));
    assert_eq!(app.current, Some("main".to_string()));
}

#[test]
fn unresolved_branch_keeps_browsing() {
    let mut app = sample_app();
    let err = CheckoutError::UnresolvedBranch("revspec not found".to_string());
    app.record_checkout("feature/x".to_string(), Err(err.clone()));
    assert_eq!(app.phase, Phase::Browsing);
    assert_eq!(app.status, SessionStatus::Failure("feature/x".to_string(), err));
}

#[test]
fn success_from_any_state_sets_current() {
    let mut app = sample_app();
    app.handle_event(InputEvent::NavigateUp);
    app.record_checkout("release/1.0".to_string(), Err(CheckoutError::HeadUpdateFailed("x".to_string())));
    app.record_checkout("feature/x".to_string(), Ok(()));
    assert_eq!(app.phase, Phase::Terminated);
    assert_eq!(app.current, Some("feature/x".to_string()));
    assert_eq!(app.status, SessionStatus::Success("feature/x".to_string()));
}

#[test]
fn keys_map_to_events() {
    assert_eq!(event_for_key(Key::Char('q')), Some(InputEvent::Quit));
    assert_eq!(event_for_key(Key::Esc), Some(InputEvent::Quit));
    assert_eq!(event_for_key(Key::Down), Some(InputEvent::NavigateDown));
    assert_eq!(event_for_key(Key::Char('j')), Some(InputEvent::NavigateDown));
    assert_eq!(event_for_key(Key::Up), Some(InputEvent::NavigateUp));
    assert_eq!(event_for_key(Key::Char('k')), Some(InputEvent::NavigateUp));
    assert_eq!(event_for_key(Key::Enter), Some(InputEvent::Confirm));
    assert_eq!(event_for_key(Key::Char('x')), None);
    assert_eq!(event_for_key(Key::Other), None);
}
