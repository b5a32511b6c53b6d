use voicett::app_state::{dispatch_key, pending_key};
use voicett::conversation_store::{active_conversation, history_collapsed, switch_word};
use voicett::python::{is_ready_signal, response_event_name, MessageGate};

#[test]
fn ready_signal_is_a_log_line_about_the_start() {
    assert!(is_ready_signal(Some("log"), Some("Service started on port 1")));
    assert!(is_ready_signal(Some("log"), Some("idle, waiting for commands")));
    assert!(is_ready_signal(Some("log"), Some("Service started")));
    assert!(!is_ready_signal(Some("log"), Some("service started")));
    assert!(!is_ready_signal(Some("log"), Some("waiting for command")));
    assert!(!is_ready_signal(Some("log"), Some("")));
    assert!(!is_ready_signal(Some("Log"), Some("Service started")));
    assert!(!is_ready_signal(Some("result"), Some("Service started")));
    assert!(!is_ready_signal(None, Some("Service started")));
    assert!(!is_ready_signal(Some("log"), None));
    assert!(!is_ready_signal(None, None));
}

#[test]
fn special_responses_are_named_by_type_and_request() {
    assert_eq!(
        response_event_name("conversation_summary", Some("r-1")).as_deref(),
        Some("python-response::conversation_summary::r-1")
    );
    assert_eq!(
        response_event_name("summary_result", Some("")).as_deref(),
        Some("python-response::summary_result::")
    );
    assert_eq!(
        response_event_name("optimization_result", Some("42")).as_deref(),
        Some("python-response::optimization_result::42")
    );
    assert_eq!(response_event_name("optimization_result", None), None);
    assert_eq!(response_event_name("log", Some("r-1")), None);
    assert_eq!(response_event_name("Summary_Result", Some("r-1")), None);
}

#[test]
fn gate_holds_messages_until_ready() {
    let mut gate = MessageGate::new();
    assert!(!gate.is_ready());
    assert_eq!(gate.held_count(), 0);
    assert_eq!(gate.send("one".to_string()), None);
    assert_eq!(gate.send("two".to_string()), None);
    assert_eq!(gate.held_count(), 2);
    assert!(!gate.is_ready());

    assert_eq!(gate.mark_ready(), vec!["one", "two"]);
    assert!(gate.is_ready());
    assert_eq!(gate.held_count(), 0);
    assert_eq!(gate.send("three".to_string()).as_deref(), Some("three"));
    assert_eq!(gate.held_count(), 0);
    assert!(gate.mark_ready().is_empty());
    assert!(gate.is_ready());

    gate.reset();
    assert!(!gate.is_ready());
    assert_eq!(gate.send("four".to_string()), None);
    gate.reset();
    assert_eq!(gate.held_count(), 0);
    assert!(gate.mark_ready().is_empty());
}

#[test]
fn pending_requests_are_named_by_type_and_identifier() {
    assert_eq!(pending_key("summary", "r-1"), "summary:r-1");
    assert_eq!(pending_key("", ""), ":");
    assert_eq!(dispatch_key(Some("summary"), Some("r-1")).as_deref(), Some("summary:r-1"));
    assert_eq!(dispatch_key(None, Some("r-1")), None);
    assert_eq!(dispatch_key(Some("summary"), None), None);
    assert_eq!(dispatch_key(None, None), None);
}

#[test]
fn stored_interface_state() {
    assert_eq!(active_conversation(Some("c-1".to_string())).as_deref(), Some("c-1"));
    assert_eq!(active_conversation(Some(" ".to_string())).as_deref(), Some(" "));
    assert_eq!(active_conversation(Some(String::new())), None);
    assert_eq!(active_conversation(None), None);
    assert!(history_collapsed(Some("1")));
    assert!(history_collapsed(Some(" Yes ")));
    assert!(!history_collapsed(Some("0")));
    assert!(!history_collapsed(Some("collapsed")));
    assert!(!history_collapsed(None));
    assert_eq!(switch_word(true), "1");
    assert_eq!(switch_word(false), "0");
}
