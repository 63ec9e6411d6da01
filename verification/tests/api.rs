use bloop::api::{attachment_fields, check_status, collect_messages, BlueBubblesApi, Endpoint, Method};
use bloop::types::Message;

fn valid_message(guid: &str) -> Message {
    Message {
        guid: guid.to_string(),
        text: Some("hello".to_string()),
        handle: None,
        handle_id: None,
        attachments: None,
        subject: None,
        error: 0,
        date_created: 1700000000000,
        date_read: None,
        date_delivered: None,
        is_from_me: false,
        is_delayed: false,
        is_auto_reply: false,
        is_system_message: false,
        is_service_message: false,
        is_forward: false,
        is_archived: false,
        is_audio_message: false,
        item_type: 0,
        group_title: None,
        group_action_type: 0,
        associated_message_guid: None,
        associated_message_type: None,
    }
}

#[test]
fn ping_accepts_success_response() {
    assert!(check_status(Some(200), Some("Success")).is_ok());
}

#[test]
fn handle_response_preserves_api_error_status_and_message() {
    let api = BlueBubblesApi::new("http://localhost:1234".to_string(), "password".to_string());
    assert_eq!(api.host, "http://localhost:1234");
    let result = check_status(Some(401), Some("Unauthorized"));
    assert!(result.is_err());
    assert_eq!(result.unwrap_err(), "API error (401): Unauthorized");
}

#[test]
fn query_messages_parses_valid_message_arrays() {
    let messages = collect_messages(vec![Ok(valid_message("message-1")), Ok(valid_message("message-2"))]).unwrap();
    assert_eq!(messages.len(), 2);
    assert_eq!(messages[0].guid, "message-1");
    assert_eq!(messages[1].guid, "message-2");
}

#[test]
fn query_messages_reports_malformed_entries() {
    let err = collect_messages(vec![
        Ok(valid_message("message-1")),
        Err("missing field `error`".to_string()),
    ])
    .unwrap_err();
    assert!(err.contains("Failed to parse message at index 1"));
    assert_eq!(err, "Failed to parse message at index 1: missing field `error`");
}

#[test]
fn collect_messages_names_the_first_bad_entry() {
    let err = collect_messages(vec![
        Err("first".to_string()),
        Err("second".to_string()),
    ])
    .unwrap_err();
    assert_eq!(err, "Failed to parse message at index 0: first");
    assert!(collect_messages(Vec::new()).unwrap().is_empty());
}

#[test]
fn status_errors() {
    assert_eq!(check_status(None, Some("x")).unwrap_err(), "Missing status");
    assert_eq!(check_status(Some(500), None).unwrap_err(), "API error (500): Unknown error");
    assert_eq!(check_status(Some(0), Some("")).unwrap_err(), "API error (0): ");
}

#[test]
fn new_adds_scheme_and_drops_trailing_slashes() {
    let api = BlueBubblesApi::new("localhost:1234///".to_string(), "pw".to_string());
    assert_eq!(api.host, "http://localhost:1234");
    let api = BlueBubblesApi::new("https://example.org/".to_string(), "pw".to_string());
    assert_eq!(api.host, "https://example.org");
    // Normalising again changes nothing.
    let again = BlueBubblesApi::new(api.host.clone(), "pw".to_string());
    assert_eq!(again.host, "https://example.org");
    // An address of slashes only is the case where it does change.
    let empty = BlueBubblesApi::new("/".to_string(), "pw".to_string());
    assert_eq!(empty.host, "http://");
    let twice = BlueBubblesApi::new(empty.host.clone(), "pw".to_string());
    assert_eq!(twice.host, "http://http:");
}

#[test]
fn with_host_keeps_the_address() {
    let api = BlueBubblesApi::with_host("localhost:1234/".to_string(), "pw".to_string());
    assert_eq!(api.host, "localhost:1234");
}

#[test]
fn build_url_encodes_the_password() {
    let api = BlueBubblesApi::new("http://h".to_string(), "p w&x=é".to_string());
    assert_eq!(api.build_url("/api/v1/ping"), "http://h/api/v1/ping?password=p%20w%26x%3D%C3%A9");
    assert_eq!(api.build_url("/api/v1/chat?with=a"), "http://h/api/v1/chat?with=a&password=p%20w%26x%3D%C3%A9");
    let plain = BlueBubblesApi::new("http://h".to_string(), "Az09-_.~".to_string());
    assert_eq!(plain.build_url("/x"), "http://h/x?password=Az09-_.~");
}

#[test]
fn endpoints_have_their_paths_and_methods() {
    let api = BlueBubblesApi::new("http://h".to_string(), "pw".to_string());
    let e = Endpoint::ChatMessages("iMessage;-;+15551234567".to_string());
    assert_eq!(e.path(), "/api/v1/chat/iMessage;-;+15551234567/message");
    assert!(matches!(e.method(), Method::Get));
    assert_eq!(api.endpoint_url(&Endpoint::Ping), "http://h/api/v1/ping?password=pw");
    assert!(matches!(Endpoint::SendText.method(), Method::Post));
    assert!(matches!(Endpoint::DeleteChat("g".to_string()).method(), Method::Delete));
    assert_eq!(Endpoint::DownloadAttachment("a1".to_string()).path(), "/api/v1/attachment/a1/download");
    assert_eq!(Endpoint::ScheduledMessageById(7).path(), "/api/v1/message/schedule/7");
}

#[test]
fn attachment_upload_fields() {
    let f = attachment_fields("chat-1", "a.png", Some("temp-1"), Some("apple-script"), false);
    let expect: Vec<(String, String)> = vec![
        ("chatGuid".to_string(), "chat-1".to_string()),
        ("name".to_string(), "a.png".to_string()),
        ("isAudioMessage".to_string(), "false".to_string()),
        ("tempGuid".to_string(), "temp-1".to_string()),
        ("method".to_string(), "apple-script".to_string()),
    ];
    assert_eq!(f, expect);
    let f = attachment_fields("c", "v.m4a", None, None, true);
    assert_eq!(f.len(), 3);
    assert_eq!(f[2], ("isAudioMessage".to_string(), "true".to_string()));
}
