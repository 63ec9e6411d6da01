use bloop::layout::{
    attachment_rows, chat_row_layout, compose_box_height, compose_cursor_cell, is_system_line, message_text,
    message_window, notice_boxes, split_lines, wrap_compose_text, AttachmentRow, MessageRow, Presence, StatusBar,
};
use bloop::types::Attachment;
use bloop::model::{FocusedPane, LoginFields, MainState};
use bloop::types::{Handle, Message};

fn chars(s: &str) -> Vec<char> {
    s.chars().collect()
}

#[test]
fn compose_box_height_counts_wrapped_rows() {
    assert_eq!(compose_box_height(false, &chars("anything"), 40), 3);
    assert_eq!(compose_box_height(true, &chars(""), 40), 3);
    assert_eq!(compose_box_height(true, &chars("hello"), 12), 3);
    // inner width 10: 25 characters take three rows
    assert_eq!(compose_box_height(true, &chars(&"x".repeat(25)), 12), 5);
    // exactly 10 characters take one row
    assert_eq!(compose_box_height(true, &chars(&"x".repeat(10)), 12), 3);
    assert_eq!(compose_box_height(true, &chars("a\n\nb"), 12), 5);
    assert_eq!(compose_box_height(true, &chars("abc"), 2), 3);
}

#[test]
fn compose_text_is_cut_into_rows() {
    assert_eq!(wrap_compose_text(&chars("abcdef"), 4), "abcd\nef");
    assert_eq!(wrap_compose_text(&chars("abcd"), 4), "abcd");
    assert_eq!(wrap_compose_text(&chars("abcd\nxy"), 4), "abcd\nxy");
    assert_eq!(wrap_compose_text(&chars("a\n\nb"), 4), "a\n\nb");
    assert_eq!(wrap_compose_text(&chars("abc"), 0), "");
    assert_eq!(wrap_compose_text(&chars("abcdefghij"), 3), "abc\ndef\nghi\nj");
}

#[test]
fn compose_cursor_follows_the_rows() {
    let t = chars("abcdef\nxy");
    assert_eq!(compose_cursor_cell(&t, 0, 4), (0, 0));
    assert_eq!(compose_cursor_cell(&t, 3, 4), (0, 3));
    assert_eq!(compose_cursor_cell(&t, 4, 4), (1, 0));
    assert_eq!(compose_cursor_cell(&t, 6, 4), (1, 2));
    assert_eq!(compose_cursor_cell(&t, 7, 4), (2, 0));
    assert_eq!(compose_cursor_cell(&t, 9, 4), (2, 2));
    assert_eq!(compose_cursor_cell(&t, 99, 4), (2, 2));
    assert_eq!(compose_cursor_cell(&chars("\n\n"), 2, 4), (2, 0));
    assert_eq!(compose_cursor_cell(&t, 5, 0), (0, 0));
}

#[test]
fn message_window_bottom_aligns_the_newest() {
    // heights 3, 2, 4 with a blank row after each: 4 + 3 + 5 = 12 rows
    let h = vec![3, 2, 4];
    assert_eq!(message_window(&h, None, 20), (0, 8));
    assert_eq!(message_window(&h, None, 8), (1, 0));
    assert_eq!(message_window(&h, None, 9), (1, 1));
    assert_eq!(message_window(&h, None, 4), (3, 4));
    assert_eq!(message_window(&h, Some(2), 8), (1, 0));
    assert_eq!(message_window(&Vec::new(), None, 5), (0, 5));
}

#[test]
fn message_window_starts_at_a_selection_above_the_bottom() {
    let h = vec![3, 2, 4, 1];
    assert_eq!(message_window(&h, Some(0), 8), (0, 0));
    assert_eq!(message_window(&h, Some(1), 3), (1, 0));
    assert_eq!(message_window(&h, Some(3), 3), (3, 1));
}

#[test]
fn chat_rows_cut_long_names() {
    // width 30: 25 columns, an 8-column timestamp leaves 16 for the name
    let (name, pad) = chat_row_layout("Short", "10:00 AM", 30);
    assert_eq!(name, "Short");
    assert_eq!(pad, 12);
    let (name, pad) = chat_row_layout("A very long chat name here", "10:00 AM", 30);
    assert_eq!(name, "A very long cha\u{2026}");
    assert_eq!(pad, 1);
    // wide characters count two columns each
    let (name, _) = chat_row_layout("日本語のチャット名前です", "10:00 AM", 30);
    assert_eq!(name, "日本語のチャッ\u{2026}");
    // no room: the name is kept whole
    let (name, pad) = chat_row_layout("Name", "10:00 AM", 10);
    assert_eq!(name, "Name");
    assert_eq!(pad, 0);
}

fn msg(from_me: bool, handle: Option<&str>) -> Message {
    Message {
        guid: "g".to_string(),
        text: Some("t".to_string()),
        handle: handle.map(|a| Handle { address: a.to_string(), country: None, uncanonicalized_id: None }),
        handle_id: None,
        attachments: None,
        subject: None,
        error: 0,
        date_created: 0,
        date_read: None,
        date_delivered: None,
        is_from_me: from_me,
        is_delayed: false,
        is_auto_reply: false,
        is_system_message: false,
        is_service_message: false,
        is_forward: false,
        is_archived: false,
        is_audio_message: false,
        item_type: 0,
        group_title: None,
        group_action_type: 0,
        associated_message_guid: None,
        associated_message_type: None,
    }
}

#[test]
fn system_lines_have_no_sender() {
    assert!(is_system_line(&msg(false, None)));
    assert!(!is_system_line(&msg(true, None)));
    assert!(!is_system_line(&msg(false, Some("a@b.c"))));
}

fn state() -> MainState {
    MainState::new(Vec::new(), "apple-script".to_string(), "/".to_string(), 0)
}

#[test]
fn status_bar_choices() {
    let mut m = state();
    assert!(matches!(m.status_bar(40), StatusBar::ChatsHint));
    m.focused_pane = FocusedPane::Messages;
    assert!(matches!(m.status_bar(40), StatusBar::MessageHint { has_attachments: false }));
    m.attachment_status = Some("Opened a".to_string());
    m.loading_attachment = true;
    match m.status_bar(40) {
        StatusBar::MessageStatus { text, loading } => {
            assert_eq!(text, "Opened a");
            assert!(loading);
        }
        _ => panic!("expected the status line"),
    }
    m.send_error = Some("Send failed: x".to_string());
    match m.status_bar(40) {
        StatusBar::Error(e) => assert_eq!(e, "Send failed: x"),
        _ => panic!("expected the error"),
    }
    m.focused_pane = FocusedPane::AttachmentPicker;
    assert!(matches!(m.status_bar(40), StatusBar::AttachmentStatus(_)));
    m.attachment_status = None;
    assert!(matches!(m.status_bar(40), StatusBar::AttachmentHint));
    m.compose_mode = true;
    m.compose_text = chars("abcdefgh");
    m.compose_cursor = 5;
    match m.status_bar(6) {
        StatusBar::Compose { text, cursor_row, cursor_col } => {
            assert_eq!(text, "abcd\nefgh");
            assert_eq!((cursor_row, cursor_col), (1, 1));
        }
        _ => panic!("expected the compose box"),
    }
    assert_eq!(m.compose_box_height(6), 4);
    m.pending_send = true;
    assert!(matches!(m.status_bar(6), StatusBar::Sending));
}

#[test]
fn presence_dot() {
    let mut m = state();
    assert_eq!(m.presence(15_000), Presence::Active);
    assert_eq!(m.presence(15_001), Presence::Idle);
    m.tui_notifications.push((
        "c".to_string(),
        bloop::model::TuiNotification { title: "t".to_string(), bodies: vec!["b".to_string()] },
    ));
    assert_eq!(m.presence(20_000), Presence::Notified);
    assert_eq!(m.presence(100), Presence::Active);
}

fn att(guid: &str, name: Option<&str>, mime: Option<&str>) -> Attachment {
    Attachment {
        guid: guid.to_string(),
        transfer_name: name.map(|s| s.to_string()),
        mime_type: mime.map(|s| s.to_string()),
        total_bytes: 1,
        is_outgoing: false,
        is_sticker: false,
        uti: None,
        transfer_state: 5,
    }
}

#[test]
fn attachments_show_as_previews_or_labels() {
    let mut m = msg(false, Some("a@b.c"));
    m.attachments = Some(vec![
        att("i1", Some("cat.png"), None),
        att("i2", None, Some("image/gif")),
        att("f1", Some("doc.pdf"), Some("application/pdf")),
        att("f2", None, None),
    ]);
    let rows = attachment_rows(&m);
    assert_eq!(rows.len(), 4);
    assert!(matches!(&rows[0], AttachmentRow::Image { guid, name } if guid == "i1" && name == "cat.png"));
    assert!(matches!(&rows[1], AttachmentRow::Image { guid, name } if guid == "i2" && name == "image"));
    assert!(matches!(&rows[2], AttachmentRow::Label(l) if l == "[doc.pdf]"));
    assert!(matches!(&rows[3], AttachmentRow::Label(l) if l == "[attachment]"));
    assert!(attachment_rows(&msg(false, None)).is_empty());
}

#[test]
fn lines_split_like_str_lines() {
    assert_eq!(split_lines("a\nb"), vec!["a".to_string(), "b".to_string()]);
    assert_eq!(split_lines("a\n"), vec!["a".to_string()]);
    assert_eq!(split_lines("a\r\nb\r"), vec!["a".to_string(), "b\r".to_string()]);
    assert_eq!(split_lines("\n\n"), vec![String::new(), String::new()]);
    assert!(split_lines("").is_empty());
}

#[test]
fn message_text_is_wrapped_to_the_bubble() {
    let (rows, lines) = message_text("Memory safety without garbage collection.", 15);
    assert_eq!(rows, 3);
    assert_eq!(lines, vec!["Memory safety".to_string(), "without garbage".to_string(), "collection.".to_string()]);
    let (rows, lines) = message_text("", 15);
    assert_eq!(rows, 0);
    assert!(lines.is_empty());
    let (rows, _) = message_text("short", 15);
    assert_eq!(rows, 1);
}

#[test]
fn notification_boxes_stack_until_the_bottom() {
    // area 80 x 12 at the origin: boxes start on row 1, each followed by a blank row
    let boxes = notice_boxes(&vec![1, 2, 5], 0, 80, 12);
    let got: Vec<(usize, u16, u16, bool)> = boxes.iter().map(|b| (b.index, b.y, b.height, b.shadow)).collect();
    assert_eq!(got, vec![(0, 1, 3, true), (1, 5, 4, true)]);
    // exactly filling the area leaves no room for the shadow
    let boxes = notice_boxes(&vec![9], 0, 80, 12);
    assert_eq!(boxes.len(), 1);
    assert!(!boxes[0].shadow);
    assert!(notice_boxes(&vec![1], 0, 43, 12).is_empty());
    assert!(notice_boxes(&vec![1], 0, 80, 4).is_empty());
}

#[test]
fn notification_lines_wrap_each_body() {
    let mut m = state();
    m.tui_notifications.push((
        "c".to_string(),
        bloop::model::TuiNotification {
            title: "t".to_string(),
            bodies: vec!["hello".to_string(), "a much longer body that needs two rows".to_string()],
        },
    ));
    let lines = m.notification_lines();
    assert_eq!(lines.len(), 1);
    assert_eq!(lines[0], vec!["hello".to_string(), "a much longer body that needs two".to_string(), "rows".to_string()]);
}

#[test]
fn message_rows_place_rules_and_the_selection() {
    let mut m = state();
    let mut a = msg(false, Some("x@y.z"));
    a.guid = "a".to_string();
    let mut b = msg(true, None);
    b.guid = "b".to_string();
    let mut sys_empty = msg(false, None);
    sys_empty.text = Some(String::new());
    let mut c = msg(false, Some("x@y.z"));
    c.guid = "c".to_string();
    m.messages = vec![a, b, sys_empty, c];
    m.message_selected = Some(3);
    // a and b ten minutes apart, b and the system line two hours apart, then the next day
    let stamps = vec![(10, 0), (10, 600_000), (10, 7_800_000), (11, 7_900_000)];
    let (rows, sel) = m.message_rows(&stamps);
    assert_eq!(
        rows,
        vec![MessageRow::Message(0), MessageRow::Message(1), MessageRow::HourGap, MessageRow::DaySeparator, MessageRow::Message(3)]
    );
    assert_eq!(sel, Some(4));
    let (rows, _) = m.message_rows(&vec![(10, 0)]);
    assert_eq!(rows, vec![MessageRow::Message(0)]);
}

#[test]
fn unread_rows_skip_the_selected_chat() {
    let mut m = MainState::new(
        vec![
            bloop::types::Chat {
                guid: "c1".to_string(),
                participants: None,
                chat_identifier: "i1".to_string(),
                is_archived: false,
                is_filtered: false,
                display_name: None,
                last_message: None,
            },
            bloop::types::Chat {
                guid: "c2".to_string(),
                participants: None,
                chat_identifier: "i2".to_string(),
                is_archived: false,
                is_filtered: false,
                display_name: None,
                last_message: None,
            },
        ],
        "apple-script".to_string(),
        "/".to_string(),
        0,
    );
    m.unread_chats.insert("c1".to_string());
    m.unread_chats.insert("c2".to_string());
    assert!(!m.chat_row_unread(0));
    assert!(m.chat_row_unread(1));
    assert!(!m.chat_row_unread(5));
}

fn login(host: &str, password: &str, private: bool, active: usize) -> LoginFields {
    LoginFields {
        host: host.to_string(),
        password: password.to_string(),
        use_private_api: private,
        active_field: active,
        error: None,
    }
}

#[test]
fn password_is_masked_one_star_per_byte() {
    assert_eq!(login("", "", false, 0).masked_password(), "");
    assert_eq!(login("", "secret", false, 0).masked_password(), "******");
    assert_eq!(login("", "pé", false, 0).masked_password(), "***");
}

#[test]
fn checkbox_mark_follows_the_private_api_flag() {
    assert_eq!(login("", "", true, 2).private_api_mark(), "[x]");
    assert_eq!(login("", "", false, 2).private_api_mark(), "[ ]");
}

#[test]
fn login_cursor_sits_after_the_active_field() {
    assert_eq!(login("http://h", "pw", false, 0).login_cursor(), Some((0, 8)));
    assert_eq!(login("http://h", "pw", false, 1).login_cursor(), Some((1, 2)));
    assert_eq!(login("http://h", "漢", false, 1).login_cursor(), Some((1, 2)));
    assert_eq!(login("http://h", "pw", false, 2).login_cursor(), None);
}

#[test]
fn selected_message_row_lands_inside_the_pane() {
    let mut m = state();
    m.messages = (0..4).map(|_| msg(false, Some("x@y.z"))).collect();
    m.message_selected = Some(0);
    let stamps = vec![(10, 0), (10, 1), (10, 2), (10, 3)];
    let (rows, sel) = m.message_rows(&stamps);
    assert_eq!(sel, Some(0));
    assert_eq!(rows[0], MessageRow::Message(0));
    let heights = vec![3, 3, 3, 3];
    // only the newest message fits at the bottom, so the pane starts at the selection
    assert_eq!(message_window(&heights, sel, 5), (0, 0));
    m.message_selected = Some(3);
    let (_, sel) = m.message_rows(&stamps);
    assert_eq!(sel, Some(3));
    // bottom-aligned: the newest message starts one blank row down
    assert_eq!(message_window(&heights, sel, 5), (3, 1));
}
