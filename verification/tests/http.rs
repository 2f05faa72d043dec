use cumulus_host::http::{get_reply, json_reply, GetReply, HeaderSet, JsonReply, TaskGate};

#[test]
fn header_defaults_are_present() {
    let hs = HeaderSet::new();
    assert_eq!(
        hs.get(&"User-Agent".to_string()),
        Some(&"Cumulus/1.0".to_string())
    );
    assert_eq!(
        hs.get(&"Accept".to_string()),
        Some(&"application/json".to_string())
    );
    assert!(hs.get(&"Authorization".to_string()).is_none());
}

#[test]
fn setting_a_header_replaces_the_earlier_value() {
    let mut hs = HeaderSet::new();
    hs.set("Accept".to_string(), "text/plain".to_string());
    assert_eq!(hs.get(&"Accept".to_string()), Some(&"text/plain".to_string()));
    assert_eq!(hs.entries().len(), 2);
    hs.set("X-Trace".to_string(), "1".to_string());
    assert_eq!(hs.entries().len(), 3);
    assert_eq!(hs.get(&"X-Trace".to_string()), Some(&"1".to_string()));
}

#[test]
fn get_reply_hands_through_a_success() {
    let r = get_reply(200, "200 OK".to_string(), "payload".to_string());
    assert_eq!(
        r,
        GetReply::Success {
            status_line: "200 OK".to_string(),
            body: "payload".to_string(),
        }
    );
}

#[test]
fn get_reply_turns_a_non_success_into_a_failure() {
    let r = get_reply(404, "404 Not Found".to_string(), "ignored".to_string());
    assert_eq!(
        r,
        GetReply::Failure {
            message: "404 Not Found".to_string(),
        }
    );
}

#[test]
fn json_reply_refuses_a_non_json_content_type() {
    let r = json_reply(
        200,
        "200 OK".to_string(),
        &Some("text/plain".to_string()),
        "{\"a\":\"b\"}",
    );
    assert_eq!(
        r,
        JsonReply::Failure {
            message: "Response is not valid json".to_string(),
        }
    );
}

#[test]
fn json_reply_refuses_a_missing_content_type() {
    let r = json_reply(200, "200 OK".to_string(), &None, "{}");
    assert_eq!(
        r,
        JsonReply::Failure {
            message: "Response is not valid json".to_string(),
        }
    );
}

#[test]
fn json_reply_decodes_a_flat_object() {
    let r = json_reply(
        200,
        "200 OK".to_string(),
        &Some("application/json; charset=utf-8".to_string()),
        "{\"a\":\"b\",\"c\":\"d\"}",
    );
    match r {
        JsonReply::Object { mut entries } => {
            entries.sort();
            assert_eq!(
                entries,
                vec![
                    ("a".to_string(), "b".to_string()),
                    ("c".to_string(), "d".to_string()),
                ]
            );
        }
        JsonReply::Failure { message } => panic!("unexpected failure: {}", message),
    }
}

#[test]
fn json_reply_surfaces_a_decode_failure() {
    let r = json_reply(
        200,
        "200 OK".to_string(),
        &Some("application/json".to_string()),
        "not json at all",
    );
    assert_eq!(
        r,
        JsonReply::Failure {
            message: "Failed to decode json response".to_string(),
        }
    );
}

#[test]
fn json_reply_reports_the_status_line_on_a_non_success() {
    let r = json_reply(
        500,
        "500 Internal Server Error".to_string(),
        &Some("application/json".to_string()),
        "{}",
    );
    assert_eq!(
        r,
        JsonReply::Failure {
            message: "500 Internal Server Error".to_string(),
        }
    );
}

#[test]
fn task_gate_refuses_reentrant_calls() {
    let mut gate = TaskGate::new();
    assert!(gate.enter());
    assert!(!gate.enter());
    gate.leave();
    assert!(gate.enter());
    gate.leave();
}
