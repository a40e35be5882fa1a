use photocopy::drives::{get_drives, GetLogicalDrivesError};
use photocopy::shell::{CloseAction, CloseEvent, CloseState, MyApp};

fn app_with_drive_c() -> MyApp {
    MyApp::new(get_drives(0b100, 0))
}

#[test]
fn new_shell_starts_open_with_labels() {
    let app = app_with_drive_c();
    assert_eq!(app.close_state, CloseState::Open);
    assert_eq!(app.drive_letters, vec!["C:/".to_string()]);
    assert_eq!(app.selected_drive, None);
}

#[test]
fn single_bit_scenario_yields_label_list() {
    // bit 2 set: the set {'C'} and the label list ["C:/"].
    let labels = MyApp::convert_drives_to_drive_letters(&get_drives(0b100, 0));
    assert_eq!(labels, vec!["C:/".to_string()]);
}

#[test]
fn error_degrades_to_empty_label_list() {
    let labels = MyApp::convert_drives_to_drive_letters(&Err(
        GetLogicalDrivesError::ApiError(5),
    ));
    assert!(labels.is_empty());
    let app = MyApp::new(Err(GetLogicalDrivesError::TooManyDrivesError));
    assert!(app.drive_letters.is_empty());
}

#[test]
fn close_request_then_no_returns_to_open() {
    let mut app = app_with_drive_c();
    let a1 = app.handle_close_event(CloseEvent::CloseRequested);
    assert_eq!(a1, CloseAction::CancelAndConfirm);
    assert_eq!(app.close_state, CloseState::ConfirmPending);
    let a2 = app.handle_close_event(CloseEvent::DialogNo);
    assert_eq!(a2, CloseAction::NoAction);
    assert_eq!(app.close_state, CloseState::Open);
    assert_ne!(a1, CloseAction::IssueClose);
    assert_ne!(a2, CloseAction::IssueClose);
}

#[test]
fn close_request_then_yes_issues_exactly_one_close() {
    let mut app = app_with_drive_c();
    let mut closes_issued = 0;
    if app.handle_close_event(CloseEvent::CloseRequested) == CloseAction::IssueClose {
        closes_issued += 1;
    }
    if app.handle_close_event(CloseEvent::DialogYes) == CloseAction::IssueClose {
        closes_issued += 1;
    }
    assert_eq!(app.close_state, CloseState::ClosingAllowed);
    assert_eq!(closes_issued, 1);
}

#[test]
fn closing_allowed_is_terminal() {
    let mut app = app_with_drive_c();
    app.handle_close_event(CloseEvent::CloseRequested);
    app.handle_close_event(CloseEvent::DialogYes);
    for e in [CloseEvent::CloseRequested, CloseEvent::DialogNo, CloseEvent::DialogYes] {
        let a = app.handle_close_event(e);
        assert_eq!(a, CloseAction::NoAction);
        assert_eq!(app.close_state, CloseState::ClosingAllowed);
    }
}

#[test]
fn dialog_answers_while_open_change_nothing() {
    let mut app = app_with_drive_c();
    for e in [CloseEvent::DialogNo, CloseEvent::DialogYes] {
        let a = app.handle_close_event(e);
        assert_eq!(a, CloseAction::NoAction);
        assert_eq!(app.close_state, CloseState::Open);
    }
}

#[test]
fn select_drive_records_the_label() {
    let mut app = app_with_drive_c();
    app.select_drive("C:/".to_string());
    assert_eq!(app.selected_drive, Some("C:/".to_string()));
    assert_eq!(app.drive_letters, vec!["C:/".to_string()]);
}
