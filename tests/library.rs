use ntfy_client::key::{base_url, sse_url, subscription_key};
use ntfy_client::message::{
    display_body, display_title, is_message_kind, notification_id, plan_dispatch, NtfyMessage,
};
use ntfy_client::registry::{NtfyState, SubscribeOutcome};
use ntfy_client::sse::SseParser;
use ntfy_client::worker::{
    SubscriptionWorker, WorkerAction, WorkerEvent, WorkerPhase, BACKOFF_MS,
};

fn msg(event: &str, topic: &str, title: Option<&str>, body: Option<&str>, time: i64) -> NtfyMessage {
    NtfyMessage {
        id: "abc123".to_string(),
        time,
        event: event.to_string(),
        topic: topic.to_string(),
        message: body.map(|s| s.to_string()),
        title: title.map(|s| s.to_string()),
        tags: None,
        priority: None,
    }
}

#[test]
fn key_strips_trailing_slashes() {
    assert_eq!(subscription_key("http://h/", "t"), "http://h/t");
    assert_eq!(subscription_key("http://h", "t"), "http://h/t");
    assert_eq!(subscription_key("http://h///", "t"), "http://h/t");
    assert_eq!(base_url("https://ntfy.sh/"), "https://ntfy.sh");
    assert_eq!(base_url(""), "");
    assert_eq!(base_url("///"), "");
}

#[test]
fn sse_endpoint_appends_suffix() {
    assert_eq!(sse_url("http://h/t"), "http://h/t/sse");
}

#[test]
fn parser_splits_two_frames_in_one_chunk() {
    let mut p = SseParser::new();
    let out = p.feed(b"data: {\"a\":1}\n\ndata: {\"b\":2}\n\n");
    assert_eq!(out, vec![b"{\"a\":1}".to_vec(), b"{\"b\":2}".to_vec()]);
    assert!(p.buffer.is_empty());
}

#[test]
fn parser_buffers_partial_frames() {
    let mut p = SseParser::new();
    assert!(p.feed(b"event: message\nda").is_empty());
    assert!(p.feed(b"ta: hello\n").is_empty());
    assert_eq!(p.feed(b"\ndata: next"), vec![b"hello".to_vec()]);
    assert_eq!(p.buffer, b"data: next".to_vec());
}

#[test]
fn parser_takes_first_data_line_and_skips_frames_without_data() {
    let mut p = SseParser::new();
    let out = p.feed(b"id: 1\ndata:x\ndata: y\n\n: comment\n\nevent: open\ndata: z\n\n");
    assert_eq!(out, vec![b"x".to_vec(), b"z".to_vec()]);
}

#[test]
fn parser_empty_chunk_yields_nothing() {
    let mut p = SseParser::new();
    assert!(p.feed(b"").is_empty());
    assert!(p.buffer.is_empty());
}

#[test]
fn title_falls_back_to_broker_and_topic() {
    assert_eq!(display_title(&None, "alerts"), "ntfy: alerts");
    assert_eq!(display_title(&Some("Disk full".to_string()), "alerts"), "Disk full");
}

#[test]
fn body_defaults_to_empty() {
    assert_eq!(display_body(&None), "");
    assert_eq!(display_body(&Some("hi".to_string())), "hi");
}

#[test]
fn notification_id_reduces_timestamp() {
    assert_eq!(notification_id(1700000000), 1700000000);
    assert_eq!(notification_id(2147483647), 0);
    assert_eq!(notification_id(2147483648), 1);
    assert_eq!(notification_id(-1), 2147483646);
    assert_eq!(notification_id(-5), 2147483642);
    assert_eq!(notification_id(-2147483647), 0);
    assert_eq!(notification_id(-2147483648), 2147483646);
    assert_eq!(notification_id(i64::MAX), i64::MAX.rem_euclid(2147483647) as i32);
    assert_eq!(notification_id(i64::MIN), i64::MIN.rem_euclid(2147483647) as i32);
    assert!(notification_id(i64::MIN) >= 0);
}

#[test]
fn only_message_kind_qualifies() {
    assert!(is_message_kind("message"));
    assert!(!is_message_kind("open"));
    assert!(!is_message_kind("keepalive"));
    assert!(!is_message_kind("messages"));
    assert!(!is_message_kind(""));
}

#[test]
fn dispatch_of_message_without_title() {
    let d = plan_dispatch("http://h", msg("message", "alerts", None, None, 42)).unwrap();
    assert_eq!(d.title, "ntfy: alerts");
    assert_eq!(d.body, "");
    assert_eq!(d.notification_id, 42);
    assert_eq!(d.server_url, "http://h");
    assert_eq!(d.message.id, "abc123");
}

#[test]
fn open_and_keepalive_are_not_dispatched() {
    assert!(plan_dispatch("http://h", msg("open", "t", None, None, 1)).is_none());
    assert!(plan_dispatch("http://h", msg("keepalive", "t", None, None, 1)).is_none());
}

fn streaming_worker() -> SubscriptionWorker {
    let mut w = SubscriptionWorker::new("http://h/", "t");
    assert!(matches!(w.pending_action(), WorkerAction::Connect(ref u) if u == "http://h/t/sse"));
    assert!(matches!(w.step(WorkerEvent::Connected), WorkerAction::ReadNext));
    assert_eq!(w.phase, WorkerPhase::Streaming);
    w
}

#[test]
fn worker_dispatches_qualifying_message() {
    let mut w = streaming_worker();
    match w.step(WorkerEvent::Message(Some(msg("message", "t", Some("T"), Some("B"), 7)))) {
        WorkerAction::Notify(d) => {
            assert_eq!(d.title, "T");
            assert_eq!(d.body, "B");
            assert_eq!(d.notification_id, 7);
            assert_eq!(d.server_url, "http://h");
        }
        other => panic!("unexpected action {:?}", other),
    }
}

#[test]
fn worker_skips_other_kinds() {
    let mut w = streaming_worker();
    assert!(matches!(w.step(WorkerEvent::Message(Some(msg("keepalive", "t", None, None, 1)))), WorkerAction::ReadNext));
    assert!(matches!(w.step(WorkerEvent::Opened), WorkerAction::ReadNext));
    assert_eq!(w.phase, WorkerPhase::Streaming);
}

#[test]
fn worker_survives_malformed_payload() {
    let mut w = streaming_worker();
    assert!(matches!(w.step(WorkerEvent::Message(None)), WorkerAction::ReadNext));
    assert_eq!(w.phase, WorkerPhase::Streaming);
    assert!(matches!(w.step(WorkerEvent::Message(Some(msg("message", "t", None, None, 3)))), WorkerAction::Notify(_)));
}

#[test]
fn failed_connection_waits_fixed_backoff_then_retries() {
    let mut w = SubscriptionWorker::new("http://h", "t");
    assert!(matches!(w.step(WorkerEvent::ConnectFailed), WorkerAction::Sleep(BACKOFF_MS)));
    assert_eq!(BACKOFF_MS, 5000);
    assert_eq!(w.phase, WorkerPhase::BackoffWait);
    assert!(matches!(w.step(WorkerEvent::BackoffElapsed), WorkerAction::Connect(ref u) if u == "http://h/t/sse"));
    assert!(matches!(w.step(WorkerEvent::ConnectFailed), WorkerAction::Sleep(5000)));
}

#[test]
fn stream_end_leads_to_backoff() {
    let mut w = streaming_worker();
    assert!(matches!(w.step(WorkerEvent::StreamEnded), WorkerAction::Sleep(5000)));
    assert_eq!(w.phase, WorkerPhase::BackoffWait);
}

#[test]
fn cancel_during_backoff_never_reconnects() {
    let mut w = SubscriptionWorker::new("http://h", "t");
    w.step(WorkerEvent::ConnectFailed);
    assert!(matches!(w.step(WorkerEvent::Cancel), WorkerAction::Stop));
    assert!(matches!(w.step(WorkerEvent::BackoffElapsed), WorkerAction::Stop));
    assert!(matches!(w.step(WorkerEvent::Connected), WorkerAction::Stop));
    assert_eq!(w.phase, WorkerPhase::Cancelled);
}

#[test]
fn cancel_while_streaming_stops_dispatch() {
    let mut w = streaming_worker();
    assert!(matches!(w.step(WorkerEvent::Cancel), WorkerAction::Stop));
    assert!(matches!(w.step(WorkerEvent::Message(Some(msg("message", "t", None, None, 1)))), WorkerAction::Stop));
}

#[test]
fn resubscribe_with_trailing_slash_keeps_one_worker() {
    let mut reg: NtfyState<u32> = NtfyState::new();
    match reg.subscribe("http://h/", "t", 1) {
        SubscribeOutcome::Started(w) => {
            assert_eq!(w.sse_url, "http://h/t/sse");
            assert_eq!(w.base_url, "http://h");
        }
        SubscribeOutcome::AlreadyActive(_) => panic!("first subscription must start a worker"),
    }
    assert!(matches!(reg.subscribe("http://h", "t", 2), SubscribeOutcome::AlreadyActive(2)));
    assert_eq!(reg.subscriptions.len(), 1);
    assert_eq!(reg.subscriptions[0].handle, 1);
    assert!(reg.is_subscribed("http://h", "t"));
}

#[test]
fn unsubscribe_unknown_is_noop() {
    let mut reg: NtfyState<u32> = NtfyState::default();
    reg.subscribe("http://h", "a", 1);
    assert_eq!(reg.unsubscribe("http://h", "b"), None);
    assert_eq!(reg.subscriptions.len(), 1);
    assert_eq!(reg.subscriptions[0].key, "http://h/a");
}

#[test]
fn unsubscribe_returns_handle_and_allows_fresh_subscribe() {
    let mut reg: NtfyState<u32> = NtfyState::new();
    reg.subscribe("http://h", "a", 1);
    reg.subscribe("http://h", "b", 2);
    assert_eq!(reg.unsubscribe("http://h/", "a"), Some(1));
    assert!(!reg.is_subscribed("http://h", "a"));
    assert!(reg.is_subscribed("http://h", "b"));
    assert_eq!(reg.unsubscribe("http://h", "a"), None);
    assert!(matches!(reg.subscribe("http://h", "a", 3), SubscribeOutcome::Started(_)));
    assert_eq!(reg.subscriptions.len(), 2);
}

#[test]
fn parser_accepts_crlf_and_cr_line_breaks() {
    let mut p = SseParser::new();
    let out = p.feed(b"id: 1\r\ndata: a\r\n\r\ndata: b\r\rdata: c\n\n");
    assert_eq!(out, vec![b"a".to_vec(), b"b".to_vec(), b"c".to_vec()]);
    assert!(p.buffer.is_empty());
}

#[test]
fn parser_joins_crlf_split_between_chunks() {
    let mut p = SseParser::new();
    assert!(p.feed(b"data: a\r").is_empty());
    assert!(p.after_cr);
    assert_eq!(p.feed(b"\n\r\n"), vec![b"a".to_vec()]);
    assert!(!p.after_cr);
    assert!(p.buffer.is_empty());
    assert!(p.feed(b"data: b\r\n").is_empty());
    assert_eq!(p.buffer, b"data: b\n".to_vec());
}
