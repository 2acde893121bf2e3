use fetch_mediator::add;
use fetch_mediator::mediator::FetchError;
use fetch_mediator::mediator::Mediator;
use fetch_mediator::mediator::perform;

#[test]
fn it_works() {
    let result = add(2, 2);
    assert_eq!(result, 4);
}

#[test]
fn fresh_mediator_is_empty_and_dirty() {
    let m = Mediator::default();
    assert!(m.is_dirty());
    assert_eq!(m.get_display(""), "");
}

#[test]
fn fresh_then_successful_fetch() {
    let mut m = Mediator::default();
    assert_eq!(m.get_display("X"), "X");
    let r = m.refresh(Some("{\"origin\":\"1.2.3.4\"}"));
    assert_eq!(r, Ok(()));
    assert!(!m.is_dirty());
    assert_eq!(m.get_display("X"), "1.2.3.4X");
}

#[test]
fn transport_failure_keeps_state_and_display_survives() {
    let mut m = Mediator::default();
    let ok = m.refresh(Some("{\"origin\":\"10.0.0.7\"}"));
    assert_eq!(ok, Ok(()));
    let failed = m.refresh(None);
    assert_eq!(failed, Err(FetchError::Transport));
    assert!(!m.is_dirty());
    assert_eq!(m.get_display("Y"), "10.0.0.7Y");
}

#[test]
fn transport_failure_on_fresh_mediator() {
    let mut m = Mediator::default();
    let failed = m.refresh(None);
    assert_eq!(failed, Err(FetchError::Transport));
    assert!(m.is_dirty());
    assert_eq!(m.get_display("Y"), "Y");
}

#[test]
fn parse_failure_keeps_state() {
    let mut m = Mediator::default();
    let ok = m.refresh(Some("{\"origin\":\"8.8.8.8\"}"));
    assert_eq!(ok, Ok(()));
    let failed = m.refresh(Some("not json at all"));
    assert_eq!(failed, Err(FetchError::Parse));
    assert!(!m.is_dirty());
    assert_eq!(m.get_display(""), "8.8.8.8");
}

#[test]
fn display_is_idempotent_between_refreshes() {
    let mut m = Mediator::default();
    let first = m.get_display("tag");
    assert_eq!(m.get_display("tag"), first);
    assert_eq!(m.get_display("tag"), first);
    let r = m.refresh(Some("{\"origin\":\"1.1.1.1\"}"));
    assert_eq!(r, Ok(()));
    let second = m.get_display("tag");
    assert_eq!(m.get_display("tag"), second);
    assert_eq!(m.get_display("tag"), second);
    assert_eq!(second, "1.1.1.1tag");
}

#[test]
fn suffix_is_kept_verbatim() {
    let mut m = Mediator::default();
    let r = m.refresh(Some("{\"origin\":\"2.2.2.2\"}"));
    assert_eq!(r, Ok(()));
    let shown = m.get_display("12345");
    assert!(shown.ends_with("12345"));
    assert!(shown.starts_with("2.2.2.2"));
    assert_eq!(shown.len(), "2.2.2.2".len() + "12345".len());
}

#[test]
fn dirty_and_clean_flags() {
    let mut m = Mediator::default();
    assert!(m.is_dirty());
    m.clean();
    assert!(!m.is_dirty());
    m.dirty();
    assert!(m.is_dirty());
    assert_eq!(m.get_display(""), "");
}

#[test]
fn perform_success_updates_and_displays() {
    let mut m = Mediator::default();
    let shown = perform(&mut m, Some("{\"origin\":\"5.6.7.8\"}"), "12345");
    assert_eq!(shown, "5.6.7.812345");
    assert!(!m.is_dirty());
}

#[test]
fn perform_swallows_failures() {
    let mut m = Mediator::default();
    let ok = m.refresh(Some("{\"origin\":\"9.9.9.9\"}"));
    assert_eq!(ok, Ok(()));
    let after_transport = perform(&mut m, None, "Y");
    assert_eq!(after_transport, "9.9.9.9Y");
    let after_bad_body = perform(&mut m, Some("{\"nope\":1}"), "Y");
    assert_eq!(after_bad_body, "9.9.9.9Y");
    assert!(!m.is_dirty());
}
