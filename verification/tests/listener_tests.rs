use opencode_shell::{ListenerSlot, SseListener, SseState};

#[test]
fn connect_failure_emits_once_and_retries() {
    let mut l = SseListener::new();
    assert_eq!(l.state, SseState::Connecting);
    let (cause, delay) = l.on_connect_failure(String::from("connection refused"));
    assert_eq!(cause, "connection refused");
    assert_eq!(delay, 1000);
    assert_eq!(l.state, SseState::Retrying);
    l.on_retry_elapsed();
    assert_eq!(l.state, SseState::Connecting);
    // the loop repeats until cancelled
    let (cause2, delay2) = l.on_connect_failure(String::from("still refused"));
    assert_eq!((cause2.as_str(), delay2), ("still refused", 1000));
    l.on_cancel();
    assert_eq!(l.state, SseState::Stopped);
}

#[test]
fn bad_status_names_the_status() {
    let mut l = SseListener::new();
    let (msg, delay) = l.on_connect_bad_status(404);
    assert_eq!(msg, b"SSE HTTP 404".to_vec());
    assert_eq!(delay, 2000);
    assert_eq!(l.state, SseState::Retrying);
}

#[test]
fn streaming_parses_chunks() {
    let mut l = SseListener::new();
    l.on_connect_success();
    assert_eq!(l.state, SseState::Streaming);
    let evs = l.on_chunk(&b"data: one\n\ndata: tw".to_vec());
    assert_eq!(evs, vec![b"one".to_vec()]);
    let evs = l.on_chunk(&b"o\n\n".to_vec());
    assert_eq!(evs, vec![b"two".to_vec()]);
}

#[test]
fn reconnect_resets_the_buffer() {
    let mut l = SseListener::new();
    l.on_connect_success();
    assert!(l.on_chunk(&b"data: half".to_vec()).is_empty());
    let delay = l.on_stream_end();
    assert_eq!(delay, 1000);
    assert_eq!(l.state, SseState::Retrying);
    l.on_retry_elapsed();
    l.on_connect_success();
    // the stale partial frame is gone
    let evs = l.on_chunk(&b"data: fresh\n\n".to_vec());
    assert_eq!(evs, vec![b"fresh".to_vec()]);
}

#[test]
fn stream_error_forwards_the_cause() {
    let mut l = SseListener::new();
    l.on_connect_success();
    let (cause, delay) = l.on_stream_error(String::from("reset by peer"));
    assert_eq!(cause, "reset by peer");
    assert_eq!(delay, 1000);
    assert_eq!(l.state, SseState::Retrying);
}

#[test]
fn cancel_stops_from_any_state() {
    let mut l = SseListener::new();
    l.on_cancel();
    assert_eq!(l.state, SseState::Stopped);

    let mut l = SseListener::new();
    l.on_connect_success();
    l.on_cancel();
    assert_eq!(l.state, SseState::Stopped);
}

#[test]
fn second_start_retires_the_first() {
    let mut slot = ListenerSlot::new();
    let (retired1, t1) = slot.start();
    assert_eq!(retired1, None);
    let (retired2, t2) = slot.start();
    assert_eq!(retired2, Some(t1));
    assert_ne!(t1, t2);
    // the second start's token is the one active token
    assert_eq!(slot.stop(), Some(t2));
}

#[test]
fn stop_with_no_listener_is_a_noop() {
    let mut slot = ListenerSlot::new();
    assert_eq!(slot.stop(), None);
    // still usable, and still empty
    assert_eq!(slot.stop(), None);
    let (retired, _) = slot.start();
    assert_eq!(retired, None);
}

#[test]
fn stale_task_cannot_clear_a_newer_token() {
    let mut slot = ListenerSlot::new();
    let (_, t1) = slot.start();
    let (_, t2) = slot.start();
    slot.finish(t1);
    // the stale task's finish left the newer token in place
    assert_eq!(slot.stop(), Some(t2));
}

#[test]
fn owner_finish_clears_the_slot() {
    let mut slot = ListenerSlot::new();
    let (_, t1) = slot.start();
    slot.finish(t1);
    assert_eq!(slot.stop(), None);
}
