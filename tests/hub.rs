use cube_server::events::{connected_greeting, copied_event, send_raw_request};
use cube_server::hub::{control_requests, BroadcastHub, ControlMessage};
use tokio::sync::mpsc::{unbounded_channel, UnboundedSender};

fn send(tx: &UnboundedSender<String>, text: &String) -> bool {
    tx.send(text.clone()).is_ok()
}

#[test]
fn broadcast_reaches_three_channels() {
    let mut hub = BroadcastHub::new();
    let (a, mut ra) = unbounded_channel::<String>();
    let (b, mut rb) = unbounded_channel::<String>();
    let (c, mut rc) = unbounded_channel::<String>();
    assert_eq!(hub.register(a), 0);
    assert_eq!(hub.register(b), 1);
    assert_eq!(hub.register(c), 2);
    let text = "{\"token\":\"t\"}".to_string();
    let accepted = hub.broadcast(&text, send);
    assert_eq!(accepted, vec![true, true, true]);
    assert_eq!(ra.try_recv().unwrap(), text);
    assert_eq!(rb.try_recv().unwrap(), text);
    assert_eq!(rc.try_recv().unwrap(), text);
}

#[test]
fn closed_channel_does_not_stop_broadcast() {
    let mut hub = BroadcastHub::new();
    let (a, mut ra) = unbounded_channel::<String>();
    let (b, rb) = unbounded_channel::<String>();
    let (c, mut rc) = unbounded_channel::<String>();
    hub.register(a);
    hub.register(b);
    hub.register(c);
    drop(rb);
    let text = "hello".to_string();
    let accepted = hub.broadcast(&text, send);
    assert_eq!(accepted, vec![true, false, true]);
    assert_eq!(ra.try_recv().unwrap(), "hello");
    assert_eq!(rc.try_recv().unwrap(), "hello");
    assert_eq!(hub.len(), 3);
}

#[test]
fn broadcast_without_channels_sends_nothing() {
    let hub: BroadcastHub<UnboundedSender<String>> = BroadcastHub::new();
    assert!(hub.broadcast(&"x".to_string(), send).is_empty());
}

#[test]
fn copy_files_asks_every_client_for_each_hash() {
    let msg = ControlMessage::Json {
        name: Some("copy_files".to_string()),
        hashes: Some(vec![Some("h1".to_string()), None, Some("h2".to_string())]),
    };
    assert_eq!(
        control_requests(&msg),
        vec![
            r#"{"action":"send_raw","hash":"h1"}"#.to_string(),
            r#"{"action":"send_raw","hash":"h2"}"#.to_string(),
        ]
    );
}

#[test]
fn malformed_message_broadcasts_nothing() {
    assert!(control_requests(&ControlMessage::Malformed).is_empty());
}

#[test]
fn unknown_action_broadcasts_nothing() {
    let msg = ControlMessage::Json {
        name: Some("delete_files".to_string()),
        hashes: Some(vec![Some("h1".to_string())]),
    };
    assert!(control_requests(&msg).is_empty());
    let unnamed = ControlMessage::Json { name: None, hashes: Some(vec![Some("h1".to_string())]) };
    assert!(control_requests(&unnamed).is_empty());
    let no_hashes = ControlMessage::Json { name: Some("copy_files".to_string()), hashes: None };
    assert!(control_requests(&no_hashes).is_empty());
}

#[test]
fn event_texts_are_json_objects() {
    assert_eq!(send_raw_request("abc"), r#"{"action":"send_raw","hash":"abc"}"#);
    assert_eq!(
        copied_event("h", "base/u/f.raw"),
        r#"{"event":"copied","hash":"h","path":"base/u/f.raw","status":"success"}"#
    );
    assert_eq!(connected_greeting(), r#"{"status":"connected"}"#);
}

#[test]
fn event_strings_are_escaped() {
    assert_eq!(
        copied_event("h", "C:\\pics\\a \"b\".raw"),
        r#"{"event":"copied","hash":"h","path":"C:\\pics\\a \"b\".raw","status":"success"}"#
    );
    let parsed: serde_json::Value = serde_json::from_str(&send_raw_request("x\"y")).unwrap();
    assert_eq!(parsed["hash"], "x\"y");
}
