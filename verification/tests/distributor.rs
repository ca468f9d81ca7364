use tokio::sync::mpsc::error::TryRecvError;
use tokio::sync::mpsc::unbounded_channel;
use wss::controllers::wss::{BroadcastBody, QueryEventType, WssController};
use wss::json::Payload;
use wss::service::registry::ConnectionRegistry;
use wss::service::wss::{Delivery, WssError, WssService};

fn text(s: &str) -> Payload {
    Payload::Text(s.to_string())
}

fn encoded(s: &str) -> Payload {
    Payload::Encoded(s.to_string())
}

#[test]
fn a_string_that_holds_json_is_replaced_by_its_value() {
    assert_eq!(WssService::fix_json_value(text("{\"nested\":1}")), encoded("{\"nested\":1}"));
    assert_eq!(WssService::fix_json_value(text(" [1, 2,\n 3] ")), encoded("[1,2,3]"));
    assert_eq!(WssService::fix_json_value(text("17")), encoded("17"));
    assert_eq!(WssService::fix_json_value(text("null")), encoded("null"));
    assert_eq!(WssService::fix_json_value(text("\"quoted\"")), encoded("\"quoted\""));
}

#[test]
fn a_string_that_holds_no_json_is_kept() {
    assert_eq!(WssService::fix_json_value(text("hello")), text("hello"));
    assert_eq!(WssService::fix_json_value(text("{\"nested\":")), text("{\"nested\":"));
    assert_eq!(WssService::fix_json_value(text("")), text(""));
}

#[test]
fn encoded_data_is_not_normalized() {
    assert_eq!(WssService::fix_json_value(encoded("{ \"a\": 1 }")), encoded("{ \"a\": 1 }"));
    assert_eq!(WssService::fix_json_value(encoded("\"17\"")), encoded("\"17\""));
}

#[test]
fn normalize_follows_the_answer_of_the_reader() {
    assert_eq!(WssService::normalize(text("x"), Some("[1]".to_string())), encoded("[1]"));
    assert_eq!(WssService::normalize(text("x"), None), text("x"));
    assert_eq!(WssService::normalize(encoded("x"), Some("[1]".to_string())), encoded("x"));
    assert_eq!(WssService::normalize(encoded("x"), None), encoded("x"));
}

#[test]
fn accept_refuses_encoded_data_that_the_reader_refused() {
    assert_eq!(WssService::accept(text("x"), Some("[1]".to_string())), Ok(encoded("[1]")));
    assert_eq!(WssService::accept(text("x"), None), Ok(text("x")));
    assert_eq!(WssService::accept(encoded("x"), Some("[1]".to_string())), Ok(encoded("x")));
    assert_eq!(WssService::accept(encoded("x"), None), Err(WssError::Serialize));
}

#[test]
fn control_characters_are_escaped() {
    let message = WssService::serialize("t".to_string(), text("a\u{8}\t\n\u{c}\r\u{0}\u{1f}\u{b}z"));
    assert_eq!(
        message,
        Ok("{\"type\":\"t\",\"data\":\"a\\b\\t\\n\\f\\r\\u0000\\u001f\\u000bz\"}".to_string())
    );
}

#[test]
fn other_characters_are_written_as_they_are() {
    let message = WssService::serialize("t/\u{7f}".to_string(), text("g\u{e9}n\u{e9}ral \u{1f600} / '"));
    assert_eq!(
        message,
        Ok("{\"type\":\"t/\u{7f}\",\"data\":\"g\u{e9}n\u{e9}ral \u{1f600} / '\"}".to_string())
    );
}

#[test]
fn frame_puts_the_members_in_order() {
    assert_eq!(WssService::frame("\"ping\"", "{}"), "{\"type\":\"ping\",\"data\":{}}");
    assert_eq!(WssService::frame("", ""), "{\"type\":,\"data\":}");
}

#[test]
fn a_string_payload_is_sent_as_the_object_it_spells() {
    let message = WssService::serialize("ping".to_string(), text("{\"nested\":1}"));
    assert_eq!(message, Ok("{\"type\":\"ping\",\"data\":{\"nested\":1}}".to_string()));
}

#[test]
fn a_plain_string_payload_is_sent_as_a_string() {
    let message = WssService::serialize("say".to_string(), text("he said \"hi\"\n"));
    assert_eq!(
        message,
        Ok("{\"type\":\"say\",\"data\":\"he said \\\"hi\\\"\\n\"}".to_string())
    );
}

#[test]
fn the_tag_is_written_as_a_json_string() {
    let message = WssService::serialize("a\"b\\c".to_string(), encoded("{}"));
    assert_eq!(message, Ok("{\"type\":\"a\\\"b\\\\c\",\"data\":{}}".to_string()));
}

#[test]
fn encoded_data_is_written_as_it_is() {
    let message = WssService::serialize("ping".to_string(), encoded("{ \"b\": [1, 2], \"a\": null }"));
    assert_eq!(
        message,
        Ok("{\"type\":\"ping\",\"data\":{ \"b\": [1, 2], \"a\": null }}".to_string())
    );
    let message = WssService::serialize("ping".to_string(), encoded("\"{\\\"nested\\\":1}\""));
    assert_eq!(
        message,
        Ok("{\"type\":\"ping\",\"data\":\"{\\\"nested\\\":1}\"}".to_string())
    );
}

#[test]
fn encoded_data_that_is_no_json_is_refused() {
    assert_eq!(
        WssService::serialize("ping".to_string(), encoded("{\"nested\":")),
        Err(WssError::Serialize)
    );
    assert_eq!(WssService::serialize("ping".to_string(), encoded("")), Err(WssError::Serialize));
}

#[test]
fn sending_to_a_user_without_connections_does_nothing() {
    let registry = ConnectionRegistry::new();
    assert_eq!(WssService::send(&registry, 5, "{}"), Ok(vec![]));
    assert!(!registry.contains(5));
}

#[test]
fn broadcasting_to_users_without_connections_does_nothing() {
    let registry = ConnectionRegistry::new();
    let outcome = WssService::broadcast(&registry, vec![1, 2, 3], "ping".to_string(), encoded("{}"));
    assert_eq!(outcome, Ok(vec![]));
    let outcome = WssService::broadcast(&registry, vec![], "ping".to_string(), encoded("{}"));
    assert_eq!(outcome, Ok(vec![]));
}

#[test]
fn frames_reach_a_connection_in_the_order_sent() {
    let mut registry = ConnectionRegistry::new();
    let (sender, mut receiver) = unbounded_channel::<String>();
    let token = registry.register(1, sender).expect("a token");
    for message in ["m1", "m2", "m3"] {
        assert_eq!(
            WssService::send(&registry, 1, message),
            Ok(vec![Delivery { user: 1, token, accepted: true }])
        );
    }
    assert_eq!(receiver.try_recv(), Ok("m1".to_string()));
    assert_eq!(receiver.try_recv(), Ok("m2".to_string()));
    assert_eq!(receiver.try_recv(), Ok("m3".to_string()));
    assert_eq!(receiver.try_recv(), Err(TryRecvError::Empty));
}

#[test]
fn every_connection_of_a_user_gets_a_copy() {
    let mut registry = ConnectionRegistry::new();
    let (a, mut ra) = unbounded_channel::<String>();
    let (b, mut rb) = unbounded_channel::<String>();
    let (c, mut rc) = unbounded_channel::<String>();
    let first = registry.register(1, a).expect("a token");
    let other = registry.register(2, c).expect("a token");
    let second = registry.register(1, b).expect("a token");
    assert_eq!(
        WssService::send(&registry, 1, "hello"),
        Ok(vec![
            Delivery { user: 1, token: first, accepted: true },
            Delivery { user: 1, token: second, accepted: true },
        ])
    );
    assert_eq!(ra.try_recv(), Ok("hello".to_string()));
    assert_eq!(rb.try_recv(), Ok("hello".to_string()));
    assert_eq!(rc.try_recv(), Err(TryRecvError::Empty));
    assert_ne!(other, first);
}

#[test]
fn deliver_serves_a_snapshot() {
    let mut registry = ConnectionRegistry::new();
    let (a, mut ra) = unbounded_channel::<String>();
    let token = registry.register(1, a).expect("a token");
    let conns = registry.snapshot(1);
    assert!(registry.deregister(1, token));
    assert_eq!(
        WssService::deliver(1, &conns, "late"),
        vec![Delivery { user: 1, token, accepted: true }]
    );
    assert_eq!(ra.try_recv(), Ok("late".to_string()));
}

#[test]
fn a_connection_whose_session_is_gone_takes_nothing() {
    let mut registry = ConnectionRegistry::new();
    let (a, ra) = unbounded_channel::<String>();
    let token = registry.register(1, a).expect("a token");
    drop(ra);
    assert_eq!(
        WssService::send(&registry, 1, "hello"),
        Ok(vec![Delivery { user: 1, token, accepted: false }])
    );
}

#[test]
fn a_broadcast_passes_over_a_user_without_connections() {
    let mut registry = ConnectionRegistry::new();
    let (a, mut ra) = unbounded_channel::<String>();
    let token = registry.register(10, a).expect("a token");
    let outcome = WssService::broadcast(&registry, vec![10, 20], "ping".to_string(), encoded("{}"));
    assert_eq!(outcome, Ok(vec![Delivery { user: 10, token, accepted: true }]));
    assert_eq!(ra.try_recv(), Ok("{\"type\":\"ping\",\"data\":{}}".to_string()));
    assert_eq!(ra.try_recv(), Err(TryRecvError::Empty));
    let outcome = WssService::broadcast(&registry, vec![20, 10], "ping".to_string(), encoded("{}"));
    assert_eq!(outcome, Ok(vec![Delivery { user: 10, token, accepted: true }]));
    assert_eq!(ra.try_recv(), Ok("{\"type\":\"ping\",\"data\":{}}".to_string()));
}

#[test]
fn fan_out_and_its_other_name_do_the_same() {
    let mut registry = ConnectionRegistry::new();
    let (a, mut ra) = unbounded_channel::<String>();
    let token = registry.register(10, a).expect("a token");
    let outcome = WssService::fan_out(&registry, vec![20, 10], "ping".to_string(), encoded("{}"));
    assert_eq!(outcome, Ok(vec![Delivery { user: 10, token, accepted: true }]));
    assert_eq!(ra.try_recv(), Ok("{\"type\":\"ping\",\"data\":{}}".to_string()));
    assert_eq!(ra.try_recv(), Err(TryRecvError::Empty));
    let outcome = WssService::fan_out(&registry, vec![20, 30], "ping".to_string(), encoded("{}"));
    assert_eq!(outcome, Ok(vec![]));
    let outcome = WssService::fan_out(&registry, vec![10], "ping".to_string(), encoded("{"));
    assert_eq!(outcome, Err(WssError::Serialize));
    assert_eq!(ra.try_recv(), Err(TryRecvError::Empty));
}

#[test]
fn a_user_named_twice_is_served_twice() {
    let mut registry = ConnectionRegistry::new();
    let (a, mut ra) = unbounded_channel::<String>();
    let token = registry.register(10, a).expect("a token");
    let outcome = WssService::broadcast(&registry, vec![10, 10], "ping".to_string(), text("x"));
    assert_eq!(
        outcome,
        Ok(vec![
            Delivery { user: 10, token, accepted: true },
            Delivery { user: 10, token, accepted: true },
        ])
    );
    assert_eq!(ra.try_recv(), Ok("{\"type\":\"ping\",\"data\":\"x\"}".to_string()));
    assert_eq!(ra.try_recv(), Ok("{\"type\":\"ping\",\"data\":\"x\"}".to_string()));
}

#[test]
fn a_broadcast_of_bad_data_sends_nothing() {
    let mut registry = ConnectionRegistry::new();
    let (a, mut ra) = unbounded_channel::<String>();
    registry.register(10, a);
    let outcome = WssService::broadcast(&registry, vec![10], "ping".to_string(), encoded("{"));
    assert_eq!(outcome, Err(WssError::Serialize));
    assert_eq!(ra.try_recv(), Err(TryRecvError::Empty));
}

#[test]
fn the_remaining_connection_still_receives_broadcasts() {
    let mut registry = ConnectionRegistry::new();
    let (a, mut ra) = unbounded_channel::<String>();
    let (b, mut rb) = unbounded_channel::<String>();
    let first = registry.register(6, a).expect("a token");
    let second = registry.register(6, b).expect("a token");
    assert!(registry.deregister(6, first));
    assert!(registry.contains(6));
    let outcome = WssService::broadcast(&registry, vec![6], "ping".to_string(), encoded("{}"));
    assert_eq!(outcome, Ok(vec![Delivery { user: 6, token: second, accepted: true }]));
    assert_eq!(rb.try_recv(), Ok("{\"type\":\"ping\",\"data\":{}}".to_string()));
    assert_eq!(rb.try_recv(), Err(TryRecvError::Empty));
    assert_eq!(ra.try_recv(), Err(TryRecvError::Disconnected));
}

#[test]
fn the_older_connection_survives_the_newer() {
    let mut registry = ConnectionRegistry::new();
    let (a, mut ra) = unbounded_channel::<String>();
    let (b, mut rb) = unbounded_channel::<String>();
    let first = registry.register(6, a).expect("a token");
    let second = registry.register(6, b).expect("a token");
    assert!(registry.deregister(6, second));
    let outcome = WssService::broadcast(&registry, vec![6], "ping".to_string(), encoded("{}"));
    assert_eq!(outcome, Ok(vec![Delivery { user: 6, token: first, accepted: true }]));
    assert_eq!(ra.try_recv(), Ok("{\"type\":\"ping\",\"data\":{}}".to_string()));
    assert_eq!(ra.try_recv(), Err(TryRecvError::Empty));
    assert_eq!(rb.try_recv(), Err(TryRecvError::Disconnected));
}

#[test]
fn the_send_request_normalizes_and_delivers() {
    let mut registry = ConnectionRegistry::new();
    let (a, mut ra) = unbounded_channel::<String>();
    let token = registry.register(5, a).expect("a token");
    let query = QueryEventType { kind: "ping".to_string() };
    let outcome = WssController::send(&registry, 5, query, text("{\"nested\":1}"));
    assert_eq!(outcome, Ok(vec![Delivery { user: 5, token, accepted: true }]));
    assert_eq!(ra.try_recv(), Ok("{\"type\":\"ping\",\"data\":{\"nested\":1}}".to_string()));
}

#[test]
fn the_send_request_succeeds_without_connections() {
    let registry = ConnectionRegistry::new();
    let query = QueryEventType { kind: "ping".to_string() };
    assert_eq!(WssController::send(&registry, 5, query, encoded("{}")), Ok(vec![]));
    let query = QueryEventType { kind: "ping".to_string() };
    assert_eq!(
        WssController::send(&registry, 5, query, encoded("nonsense")),
        Err(WssError::Serialize)
    );
}

#[test]
fn the_broadcast_request_reaches_every_listed_user() {
    let mut registry = ConnectionRegistry::new();
    let (a, mut ra) = unbounded_channel::<String>();
    let (b, mut rb) = unbounded_channel::<String>();
    let first = registry.register(1, a).expect("a token");
    let second = registry.register(2, b).expect("a token");
    let query = QueryEventType { kind: "news".to_string() };
    let body = BroadcastBody { ids: vec![2, 3, 1], body: text("[1, 2]") };
    let outcome = WssController::broadcast(&registry, query, body);
    assert_eq!(
        outcome,
        Ok(vec![
            Delivery { user: 2, token: second, accepted: true },
            Delivery { user: 1, token: first, accepted: true },
        ])
    );
    assert_eq!(ra.try_recv(), Ok("{\"type\":\"news\",\"data\":[1,2]}".to_string()));
    assert_eq!(rb.try_recv(), Ok("{\"type\":\"news\",\"data\":[1,2]}".to_string()));
    let query = QueryEventType { kind: "news".to_string() };
    let body = BroadcastBody { ids: vec![1], body: encoded("[1, 2") };
    assert_eq!(WssController::broadcast(&registry, query, body), Err(WssError::Serialize));
    assert_eq!(ra.try_recv(), Err(TryRecvError::Empty));
}
