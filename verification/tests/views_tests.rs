use opencode_shell::{plan_close, plan_open, plan_resize, CmdError, OpenPlan};

#[test]
fn open_on_existing_label_updates_and_focuses() {
    // the URL and the main window are not even looked at
    let r = plan_open(true, "not a url at all", false);
    assert_eq!(r, Ok(OpenPlan::FocusExisting));
}

#[test]
fn open_rejects_a_malformed_url() {
    let r = plan_open(false, "http://[broken", true);
    match r {
        Err(CmdError::InvalidUrl(msg)) => assert!(!msg.is_empty()),
        other => panic!("expected InvalidUrl, got {:?}", other),
    }
}

#[test]
fn open_needs_the_main_window() {
    let r = plan_open(false, "https://example.com/", false);
    assert_eq!(r, Err(CmdError::MainWindowMissing));
}

#[test]
fn open_creates_a_new_view() {
    let r = plan_open(false, "https://example.com/", true);
    assert_eq!(r, Ok(OpenPlan::CreateView));
}

#[test]
fn close_and_resize_are_noops_on_unknown_labels() {
    assert!(!plan_close(false));
    assert!(!plan_resize(false));
    assert!(plan_close(true));
    assert!(plan_resize(true));
}
