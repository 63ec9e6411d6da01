use bloop::chooser::sort_by_name;
use bloop::display::is_image_attachment;
use bloop::keys::{AppState, KeyAction, KeyCode, KeyModifiers};
use bloop::model::{FileEntry, FocusedPane, ImageCacheEntry, MainState};
use bloop::responses::{ApiResponse, Effect};
use bloop::types::{Attachment, Chat, ContactAddress, ContactData, Handle, Message};

const NONE: KeyModifiers = KeyModifiers { shift: false, control: false, alt: false };

fn message(guid: &str, text: &str, from_me: bool, handle: Option<&str>) -> Message {
    Message {
        guid: guid.to_string(),
        text: Some(text.to_string()),
        handle: handle.map(|a| Handle { address: a.to_string(), country: None, uncanonicalized_id: None }),
        handle_id: None,
        attachments: None,
        subject: None,
        error: 0,
        date_created: 1700000000000,
        date_read: None,
        date_delivered: None,
        is_from_me: from_me,
        is_delayed: false,
        is_auto_reply: false,
        is_system_message: false,
        is_service_message: false,
        is_forward: false,
        is_archived: false,
        is_audio_message: false,
        item_type: 0,
        group_title: None,
        group_action_type: 0,
        associated_message_guid: None,
        associated_message_type: None,
    }
}

fn handle(a: &str) -> Handle {
    Handle { address: a.to_string(), country: None, uncanonicalized_id: None }
}

fn chat(guid: &str, name: Option<&str>, participants: Vec<&str>, last: Option<Message>) -> Chat {
    Chat {
        guid: guid.to_string(),
        participants: Some(participants.into_iter().map(handle).collect()),
        chat_identifier: format!("id-{}", guid),
        is_archived: false,
        is_filtered: false,
        display_name: name.map(|s| s.to_string()),
        last_message: last.map(Box::new),
    }
}

fn attachment(guid: &str, name: Option<&str>, mime: Option<&str>) -> Attachment {
    Attachment {
        guid: guid.to_string(),
        transfer_name: name.map(|s| s.to_string()),
        mime_type: mime.map(|s| s.to_string()),
        total_bytes: 10,
        is_outgoing: false,
        is_sticker: false,
        uti: None,
        transfer_state: 5,
    }
}

fn two_chats() -> Vec<Chat> {
    vec![
        chat("c1", Some("Family"), vec!["+15550001111", "+15550002222"], Some(message("m1", "hi", false, Some("+15550001111")))),
        chat("c2", None, vec!["+15550003333"], Some(message("m2", "yo", false, Some("+15550003333")))),
    ]
}

fn client(now: u64) -> MainState {
    MainState::new(two_chats(), "apple-script".to_string(), "/home/u".to_string(), now)
}

fn key(m: &mut MainState, code: KeyCode, now: u64) -> KeyAction {
    m.handle_main_key(code, NONE, now)
}

fn type_str(m: &mut MainState, s: &str, start: u64) {
    let mut t = start;
    for c in s.chars() {
        t += 100;
        key(m, KeyCode::Char(c), t);
    }
}

#[test]
fn fresh_session_selects_first_chat_and_seeds_seen() {
    let m = client(1000);
    assert_eq!(m.selected_chat_index, Some(0));
    assert_eq!(m.chat_list_selected, Some(0));
    assert!(matches!(m.focused_pane, FocusedPane::Chats));
    assert_eq!(m.last_seen_guids.get("c1").map(|s| s.as_str()), Some("m1"));
    assert_eq!(m.last_seen_guids.get("c2").map(|s| s.as_str()), Some("m2"));
    assert!(m.has_more_messages);
    assert!(!m.emoji_catalog.is_empty());
    let empty = MainState::new(Vec::new(), "apple-script".to_string(), "/".to_string(), 0);
    assert_eq!(empty.selected_chat_index, None);
}

#[test]
fn draft_survives_switching_chats() {
    let mut m = client(0);
    key(&mut m, KeyCode::Char('i'), 1000);
    assert!(m.compose_mode);
    type_str(&mut m, "hi", 1000);
    assert_eq!(m.compose_text.iter().collect::<String>(), "hi");
    key(&mut m, KeyCode::Esc, 2000);
    assert!(!m.compose_mode);
    key(&mut m, KeyCode::Down, 3000);
    assert_eq!(m.selected_chat_index, Some(1));
    assert!(m.compose_text.is_empty());
    key(&mut m, KeyCode::Up, 4000);
    assert_eq!(m.selected_chat_index, Some(0));
    assert_eq!(m.compose_text.iter().collect::<String>(), "hi");
    assert_eq!(m.compose_cursor, 2);
}

#[test]
fn typing_then_backspace_restores_text() {
    let mut m = client(0);
    key(&mut m, KeyCode::Char('i'), 1000);
    type_str(&mut m, "ab", 1000);
    key(&mut m, KeyCode::Left, 2000);
    key(&mut m, KeyCode::Char('x'), 3000);
    assert_eq!(m.compose_text.iter().collect::<String>(), "axb");
    key(&mut m, KeyCode::Backspace, 4000);
    assert_eq!(m.compose_text.iter().collect::<String>(), "ab");
    assert_eq!(m.compose_cursor, 1);
}

#[test]
fn shift_two_types_at_and_double_at_opens_the_file_chooser() {
    let mut m = client(0);
    key(&mut m, KeyCode::Char('i'), 1000);
    let shift = KeyModifiers { shift: true, control: false, alt: false };
    m.handle_main_key(KeyCode::Char('2'), shift, 2000);
    assert!(m.pending_at);
    m.handle_main_key(KeyCode::Char('x'), NONE, 3000);
    assert_eq!(m.compose_text.iter().collect::<String>(), "@x");
    key(&mut m, KeyCode::Char('@'), 4000);
    let a = key(&mut m, KeyCode::Char('@'), 5000);
    assert!(matches!(a, KeyAction::ResetFileChooser));
    assert!(matches!(m.focused_pane, FocusedPane::FileChooser));
    assert!(!m.compose_mode);
}

fn entry(path: &str, name: &str, dir: bool) -> FileEntry {
    FileEntry { path: path.to_string(), name: name.to_string(), is_dir: dir }
}

#[test]
fn file_chooser_lists_parent_dirs_then_files_by_name() {
    let mut m = client(0);
    let listing = vec![
        entry("/d/zeta.txt", "zeta.txt", false),
        entry("/d/beta", "beta", true),
        entry("/d/Alpha.png", "Alpha.png", false),
        entry("/d/alpha", "alpha", true),
    ];
    m.reload_file_chooser(Some("/d/..".to_string()), listing);
    let names: Vec<&str> = m.file_chooser_entries.iter().map(|e| e.name.as_str()).collect();
    assert_eq!(names, vec!["..", "alpha", "beta", "Alpha.png", "zeta.txt"]);
    assert_eq!(m.file_chooser_entries[0].path, "/d/..");
    assert!(m.file_chooser_entries[0].is_dir);
    assert_eq!(m.file_chooser_selected, 0);
}

#[test]
fn file_chooser_filter_ignores_case() {
    let mut m = client(0);
    m.file_chooser_filter = "ALP".to_string();
    let listing = vec![
        entry("/d/zeta.txt", "zeta.txt", false),
        entry("/d/Alpha.png", "Alpha.png", false),
        entry("/d/alpha", "alpha", true),
    ];
    m.reload_file_chooser(Some("/d/..".to_string()), listing);
    let names: Vec<&str> = m.file_chooser_entries.iter().map(|e| e.name.as_str()).collect();
    assert_eq!(names, vec!["alpha", "Alpha.png"]);
    m.file_chooser_filter = ".".to_string();
    m.reload_file_chooser(None, vec![entry("/x.txt", "x.txt", false)]);
    let names: Vec<&str> = m.file_chooser_entries.iter().map(|e| e.name.as_str()).collect();
    assert_eq!(names, vec!["x.txt"]);
}

#[test]
fn file_chooser_picks_a_file() {
    let mut m = client(0);
    m.focused_pane = FocusedPane::FileChooser;
    m.reload_file_chooser(None, vec![entry("/d/a.txt", "a.txt", false)]);
    let a = key(&mut m, KeyCode::Enter, 1000);
    match a {
        KeyAction::OpenChooserEntry(p) => {
            assert_eq!(p, "/d/a.txt");
            m.attach_chosen_file(p);
        }
        _ => panic!("expected an entry to open"),
    }
    assert_eq!(m.pending_file_attachments, vec!["/d/a.txt".to_string()]);
    assert!(matches!(m.focused_pane, FocusedPane::Messages));
    m.enter_chooser_directory("/tmp".to_string());
    assert_eq!(m.file_chooser_dir, "/tmp");
    assert!(m.file_chooser_filter.is_empty());
}

#[test]
fn sort_by_name_orders_by_code_point() {
    let v = sort_by_name(vec![entry("b", "b", false), entry("B", "B", false), entry("a", "a", false)]);
    let names: Vec<&str> = v.iter().map(|e| e.name.as_str()).collect();
    assert_eq!(names, vec!["B", "a", "b"]);
}

#[test]
fn colon_opens_the_emoji_picker_and_enter_inserts() {
    let mut m = client(0);
    key(&mut m, KeyCode::Char('i'), 1000);
    key(&mut m, KeyCode::Char(':'), 2000);
    assert!(matches!(m.focused_pane, FocusedPane::EmojiPicker));
    assert_eq!(m.compose_text.iter().collect::<String>(), ":");
    let all = m.emoji_picker_state.as_ref().unwrap().results.len();
    assert_eq!(all, m.emoji_catalog.len());
    type_str(&mut m, "grinning", 2000);
    let picker = m.emoji_picker_state.as_ref().unwrap();
    assert!(!picker.results.is_empty());
    assert!(picker.results.len() < all);
    let first = &m.emoji_catalog[picker.results[0]];
    assert!(first.name.to_lowercase().contains("grinning"));
    let glyph = first.glyph.clone();
    key(&mut m, KeyCode::Enter, 9000);
    assert!(m.emoji_picker_state.is_none());
    assert!(matches!(m.focused_pane, FocusedPane::Messages));
    assert_eq!(m.compose_text.iter().collect::<String>(), glyph);
}

#[test]
fn ctrl_k_searches_chats_by_name_and_participant() {
    let mut m = client(0);
    let ctrl = KeyModifiers { shift: false, control: true, alt: false };
    m.handle_main_key(KeyCode::Char('k'), ctrl, 1000);
    assert!(matches!(m.focused_pane, FocusedPane::ChatSearch));
    assert_eq!(m.chat_search_results, vec![0, 1]);
    type_str(&mut m, "fam", 1000);
    assert_eq!(m.chat_search_results, vec![0]);
    key(&mut m, KeyCode::Backspace, 5000);
    key(&mut m, KeyCode::Backspace, 5100);
    key(&mut m, KeyCode::Backspace, 5200);
    type_str(&mut m, "3333", 6000);
    assert_eq!(m.chat_search_results, vec![1]);
    key(&mut m, KeyCode::Enter, 9000);
    assert_eq!(m.selected_chat_index, Some(1));
    assert!(matches!(m.focused_pane, FocusedPane::Messages));
}

#[test]
fn new_message_in_chat_list_notifies_once() {
    let mut m = client(0);
    let mut chats = two_chats();
    chats[1].last_message = Some(Box::new(message("m3", "are you there?", false, Some("+15550003333"))));
    let effects = m.handle_api_response(ApiResponse::ChatsLoaded(Ok(chats.clone())), 100);
    assert_eq!(effects.len(), 1);
    match &effects[0] {
        Effect::Notify { title, body } => {
            assert_eq!(title, "+15550003333");
            assert_eq!(body, "are you there?");
        }
        _ => panic!("expected a notification"),
    }
    assert!(m.unread_chats.contains("c2"));
    assert_eq!(m.last_seen_guids.get("c2").map(|s| s.as_str()), Some("m3"));
    let again = m.handle_api_response(ApiResponse::ChatsLoaded(Ok(chats)), 200);
    assert!(again.is_empty());
}

#[test]
fn own_messages_and_focus_do_not_notify() {
    let mut m = client(0);
    m.set_terminal_focused(true);
    let mut chats = two_chats();
    chats[1].last_message = Some(Box::new(message("m3", "x", false, Some("+15550003333"))));
    let effects = m.handle_api_response(ApiResponse::ChatsLoaded(Ok(chats)), 100);
    assert!(effects.is_empty());
    assert_eq!(m.last_seen_guids.get("c2").map(|s| s.as_str()), Some("m3"));
    m.set_terminal_focused(false);
    let mut chats = two_chats();
    chats[1].last_message = Some(Box::new(message("m4", "mine", true, None)));
    let effects = m.handle_api_response(ApiResponse::ChatsLoaded(Ok(chats)), 200);
    assert!(effects.is_empty());
}

#[test]
fn idle_user_gets_an_in_terminal_notification_for_other_chats() {
    let mut m = client(0);
    let mut chats = two_chats();
    chats[1].last_message = Some(Box::new(message("m3", "ping", false, Some("+15550003333"))));
    m.handle_api_response(ApiResponse::ChatsLoaded(Ok(chats)), 20_000);
    assert_eq!(m.tui_notifications.len(), 1);
    assert_eq!(m.tui_notifications[0].0, "c2");
    assert_eq!(m.tui_notifications[0].1.bodies, vec!["ping".to_string()]);
    // A key press starts the fade, and a tick a second later clears them.
    key(&mut m, KeyCode::Other, 21_000);
    assert_eq!(m.notification_fade_start, Some(21_000));
    m.tick(22_000);
    assert!(m.tui_notifications.is_empty());
}

#[test]
fn chat_list_reload_keeps_the_selected_chat() {
    let mut m = client(0);
    key(&mut m, KeyCode::Down, 1000);
    assert_eq!(m.selected_chat_index, Some(1));
    let mut chats = two_chats();
    chats.reverse();
    m.handle_api_response(ApiResponse::ChatsLoaded(Ok(chats)), 2000);
    assert_eq!(m.selected_chat_index, Some(0));
    assert_eq!(m.chats[0].guid, "c2");
}

fn page(prefix: &str, n: usize) -> Vec<Message> {
    // newest first, as the server sends them
    (0..n).rev().map(|i| message(&format!("{}{}", prefix, i), "t", false, Some("+15550001111"))).collect()
}

#[test]
fn first_page_is_shown_oldest_first() {
    let mut m = client(0);
    let r = m.load_messages(0).unwrap();
    assert_eq!(r.chat_guid, "c1");
    assert_eq!(m.api_requests_in_flight, 1);
    m.handle_api_response(ApiResponse::MessagesLoaded { chat_guid: "c1".to_string(), messages: Ok(page("a", 3)) }, 10);
    let guids: Vec<&str> = m.messages.iter().map(|x| x.guid.as_str()).collect();
    assert_eq!(guids, vec!["a0", "a1", "a2"]);
    assert!(!m.has_more_messages);
    assert_eq!(m.api_requests_in_flight, 0);
}

#[test]
fn older_page_goes_in_front_and_keeps_selection() {
    let mut m = client(0);
    m.handle_api_response(ApiResponse::MessagesLoaded { chat_guid: "c1".to_string(), messages: Ok(page("b", 50)) }, 10);
    assert!(m.has_more_messages);
    key(&mut m, KeyCode::Right, 100);
    assert!(matches!(m.focused_pane, FocusedPane::Messages));
    let sel = m.message_selected.unwrap();
    let selected_guid = m.messages[sel].guid.clone();
    let older = page("a", 2);
    m.handle_api_response(ApiResponse::MoreMessagesLoaded { chat_guid: "c1".to_string(), count: 2, older: Ok(older) }, 20);
    assert_eq!(m.messages.len(), 52);
    assert_eq!(m.messages[0].guid, "a0");
    assert_eq!(m.messages[m.message_selected.unwrap()].guid, selected_guid);
    assert!(!m.has_more_messages);
}

#[test]
fn answers_for_other_chats_are_ignored() {
    let mut m = client(0);
    m.handle_api_response(ApiResponse::MessagesLoaded { chat_guid: "c2".to_string(), messages: Ok(page("x", 2)) }, 10);
    assert!(m.messages.is_empty());
}

#[test]
fn error_answers() {
    let mut m = client(0);
    let e = m.handle_api_response(ApiResponse::MessagesLoaded { chat_guid: "c1".to_string(), messages: Err("boom".to_string()) }, 10);
    match &e[0] {
        Effect::LogError(s) => assert_eq!(s, "[bluebubbles] load_messages error: boom"),
        _ => panic!("expected a log line"),
    }
    let e = m.handle_api_response(ApiResponse::ChatsLoaded(Err("down".to_string())), 10);
    match &e[0] {
        Effect::LogError(s) => assert_eq!(s, "[bluebubbles] reload_chats error: down"),
        _ => panic!("expected a log line"),
    }
    let e = m.handle_api_response(ApiResponse::MoreMessagesLoaded { chat_guid: "c1".to_string(), count: 0, older: Err("x".to_string()) }, 10);
    match &e[0] {
        Effect::LogError(s) => assert_eq!(s, "[bluebubbles] load_more_messages error: x"),
        _ => panic!("expected a log line"),
    }
    assert!(!m.has_more_messages);
    m.handle_api_response(ApiResponse::TextSent(Err("nope".to_string())), 10);
    assert_eq!(m.send_error.as_deref(), Some("Send failed: nope"));
    m.handle_api_response(ApiResponse::AttachmentSent(Err("big".to_string())), 10);
    assert_eq!(m.send_error.as_deref(), Some("Send attachment failed: big"));
    m.handle_api_response(ApiResponse::AttachmentDownloaded { name: "a.png".to_string(), result: Err("404".to_string()) }, 10);
    assert_eq!(m.attachment_status.as_deref(), Some("404"));
    assert!(!m.loading_attachment);
}

#[test]
fn downloaded_attachment_is_opened_and_status_expires() {
    let mut m = client(0);
    let e = m.handle_api_response(ApiResponse::AttachmentDownloaded { name: "a.png".to_string(), result: Ok("/tmp/a.png".to_string()) }, 1000);
    match &e[0] {
        Effect::OpenFile(p) => assert_eq!(p, "/tmp/a.png"),
        _ => panic!("expected a file to open"),
    }
    assert_eq!(m.attachment_status.as_deref(), Some("Opened a.png"));
    assert_eq!(m.status_expires, Some(4000));
    m.tick(3999);
    assert!(m.attachment_status.is_some());
    m.tick(4000);
    assert!(m.attachment_status.is_none());
}

#[test]
fn sent_text_clears_error_and_draft() {
    let mut m = client(0);
    key(&mut m, KeyCode::Char('i'), 1000);
    type_str(&mut m, " hello ", 1000);
    key(&mut m, KeyCode::Enter, 5000);
    assert!(m.pending_send);
    let work = m.take_pending_work();
    assert!(work.send);
    let req = m.begin_send(1234).unwrap();
    assert_eq!(req.chat_guid, "c1");
    assert_eq!(req.message, "hello");
    assert_eq!(req.method, "apple-script");
    assert_eq!(req.temp_guid.as_deref(), Some("temp-1234"));
    assert!(m.compose_text.is_empty());
    m.handle_api_response(ApiResponse::TextSent(Ok(())), 9000);
    assert!(m.send_error.is_none());
    assert_eq!(m.api_requests_in_flight, 0);
}

#[test]
fn blank_text_is_not_sent() {
    let mut m = client(0);
    key(&mut m, KeyCode::Char('i'), 1000);
    type_str(&mut m, "   ", 1000);
    assert!(m.begin_send(1).is_none());
    assert!(!m.compose_mode);
}

#[test]
fn reload_and_answer_balance_requests_in_flight() {
    let mut m = client(0);
    m.reload_chats();
    assert_eq!(m.api_requests_in_flight, 1);
    m.handle_api_response(ApiResponse::ChatsLoaded(Err("x".to_string())), 1);
    assert_eq!(m.api_requests_in_flight, 0);
    m.handle_api_response(ApiResponse::ChatsLoaded(Err("x".to_string())), 1);
    assert_eq!(m.api_requests_in_flight, 0);
}

#[test]
fn timers_fall_due() {
    let mut m = client(0);
    let t = m.tick(100);
    assert!(t.reload_chats.is_none());
    assert!(t.load_messages.is_none());
    let t = m.tick(3000);
    assert_eq!(t.load_messages.unwrap().chat_guid, "c1");
    let t = m.tick(30_000);
    assert!(t.reload_chats.is_some());
    assert_eq!(m.last_chat_reload, 30_000);
    key(&mut m, KeyCode::Down, 31_000);
    assert_eq!(m.pending_load, Some(1));
    assert!(m.tick(31_100).load_messages.is_none());
    assert_eq!(m.tick(31_200).load_messages.unwrap().chat_guid, "c2");
    assert_eq!(m.pending_load, None);
}

#[test]
fn contacts_name_chats_and_senders() {
    let mut m = client(0);
    let contacts = vec![ContactData {
        first_name: Some("Ann".to_string()),
        last_name: Some("Lee".to_string()),
        display_name: None,
        nickname: None,
        phone_numbers: vec![ContactAddress { address: "+1 (555) 000-3333".to_string() }],
        emails: Vec::new(),
    }];
    m.handle_api_response(ApiResponse::ContactsLoaded(Ok(contacts)), 0);
    assert_eq!(m.lookup_contact("5550003333").map(|s| s.as_str()), Some("Ann Lee"));
    assert_eq!(m.lookup_contact("+15550003333").map(|s| s.as_str()), Some("Ann Lee"));
    assert_eq!(m.chat_display_name(&m.chats[1].clone()), "Ann Lee");
    assert_eq!(m.chat_display_name(&m.chats[0].clone()), "Family");
    let msg = message("z", "t", false, Some("+15550003333"));
    assert_eq!(m.sender_label(&msg), "Ann Lee");
    assert_eq!(m.sender_label(&message("z", "t", true, None)), "Me");
    assert_eq!(m.sender_label(&message("z", "t", false, None)), "Unknown");
    assert_eq!(m.sender_label(&message("z", "t", false, Some("x@y.z"))), "x@y.z");
}

#[test]
fn group_names_list_known_first_names() {
    let mut m = client(0);
    let mk = |first: &str, phone: &str| ContactData {
        first_name: Some(first.to_string()),
        last_name: Some("X".to_string()),
        display_name: None,
        nickname: None,
        phone_numbers: vec![ContactAddress { address: phone.to_string() }],
        emails: Vec::new(),
    };
    let contacts = vec![mk("Ann", "1111111"), mk("Bob", "2222222"), mk("Cy", "3333333"), mk("Di", "4444444"), mk("Ed", "5555555")];
    m.handle_api_response(ApiResponse::ContactsLoaded(Ok(contacts)), 0);
    let g = |ps: Vec<&str>| chat("g", None, ps, None);
    assert_eq!(m.chat_display_name(&g(vec!["1111111", "2222222"])), "Ann & Bob");
    assert_eq!(m.chat_display_name(&g(vec!["1111111", "2222222", "3333333"])), "Ann, Bob, & Cy");
    assert_eq!(m.chat_display_name(&g(vec!["1111111", "2222222", "3333333", "4444444"])), "Ann, Bob, Cy, & Di");
    assert_eq!(m.chat_display_name(&g(vec!["1111111", "2222222", "3333333", "4444444", "5555555"])), "Ann, Bob, Cy, & 2 others");
    assert_eq!(m.chat_display_name(&g(vec!["1111111", "9999999"])), "Ann & 1 others");
    assert_eq!(m.chat_display_name(&g(vec!["8888888", "9999999"])), "2 others");
    assert_eq!(m.chat_display_name(&g(vec!["1111111", "2222222", "9999999"])), "Ann, Bob & 1 others");
    assert_eq!(m.chat_display_name(&g(vec![])), "id-g");
}

#[test]
fn enter_on_a_message_opens_or_lists_attachments() {
    let mut m = client(0);
    let mut one = message("p1", "pic", false, Some("+15550001111"));
    one.attachments = Some(vec![attachment("a1", Some("cat.jpg"), Some("image/jpeg"))]);
    let mut two = message("p2", "files", false, Some("+15550001111"));
    two.attachments = Some(vec![attachment("a2", Some("x.pdf"), None), attachment("a3", None, None)]);
    m.handle_api_response(ApiResponse::MessagesLoaded { chat_guid: "c1".to_string(), messages: Ok(vec![one, two]) }, 0);
    assert_eq!(m.pending_image_downloads, vec![("a1".to_string(), "cat.jpg".to_string())]);
    key(&mut m, KeyCode::Right, 100);
    assert_eq!(m.message_selected, Some(1));
    assert!(m.selected_message_has_attachments());
    key(&mut m, KeyCode::Enter, 200);
    assert_eq!(m.pending_attachment_open, Some(("a1".to_string(), "cat.jpg".to_string())));
    assert!(m.loading_attachment);
    key(&mut m, KeyCode::Up, 300);
    key(&mut m, KeyCode::Enter, 400);
    assert!(matches!(m.focused_pane, FocusedPane::AttachmentPicker));
    assert_eq!(m.attachment_items.len(), 2);
    key(&mut m, KeyCode::Down, 500);
    key(&mut m, KeyCode::Enter, 600);
    assert_eq!(m.pending_attachment_open, Some(("a3".to_string(), String::new())));
}

#[test]
fn image_previews_are_cached() {
    let mut m = client(0);
    assert!(m.begin_image_download("a1"));
    assert!(matches!(m.image_cache.get("a1"), Some(ImageCacheEntry::Loading)));
    m.handle_api_response(ApiResponse::ImageDownloaded { guid: "a1".to_string(), result: Ok(()) }, 0);
    assert!(matches!(m.image_cache.get("a1"), Some(ImageCacheEntry::Ready)));
    m.handle_api_response(ApiResponse::ImageDownloaded { guid: "a2".to_string(), result: Err("x".to_string()) }, 0);
    assert!(matches!(m.image_cache.get("a2"), Some(ImageCacheEntry::Failed)));
}

#[test]
fn is_image_by_mime_type_or_extension() {
    assert!(is_image_attachment(&attachment("a", Some("x.txt"), Some("image/png"))));
    assert!(!is_image_attachment(&attachment("a", Some("x.png"), Some("text/plain"))));
    assert!(is_image_attachment(&attachment("a", Some("PHOTO.JPEG"), None)));
    assert!(is_image_attachment(&attachment("a", Some("a.tiff"), None)));
    assert!(!is_image_attachment(&attachment("a", Some("a.heic"), None)));
    assert!(!is_image_attachment(&attachment("a", None, None)));
}

#[test]
fn pasted_files_are_queued_and_text_is_inserted() {
    let mut m = client(0);
    m.handle_paste("/tmp/a.png /tmp/b.png", &vec![true, true], &vec![true, true], 100);
    assert_eq!(m.pending_file_attachments, vec!["/tmp/a.png".to_string(), "/tmp/b.png".to_string()]);
    key(&mut m, KeyCode::Char('i'), 1000);
    m.handle_paste("not a file", &vec![false, false, false], &vec![false, false, false], 2000);
    assert_eq!(m.compose_text.iter().collect::<String>(), "not a file");
    assert_eq!(m.compose_cursor, 10);
}

#[test]
fn login_screen_keys() {
    let mut s = AppState::Login(bloop::model::LoginFields {
        host: String::new(),
        password: String::new(),
        use_private_api: false,
        active_field: 0,
        error: None,
    });
    for c in "h:1".chars() {
        s.handle_key(KeyCode::Char(c), NONE, 0);
    }
    s.handle_key(KeyCode::Tab, NONE, 0);
    s.handle_key(KeyCode::Char('p'), NONE, 0);
    s.handle_key(KeyCode::Char('q'), NONE, 0);
    s.handle_key(KeyCode::Backspace, NONE, 0);
    s.handle_key(KeyCode::Tab, NONE, 0);
    s.handle_key(KeyCode::Char(' '), NONE, 0);
    s.handle_paste("ignored", &Vec::new(), &Vec::new(), 0);
    let a = s.handle_key(KeyCode::Enter, NONE, 0);
    match a {
        KeyAction::AttemptLogin { host, password, send_method } => {
            assert_eq!(host, "h:1");
            assert_eq!(password, "p");
            assert_eq!(send_method, "private-api");
        }
        _ => panic!("expected a login attempt"),
    }
    if let AppState::Login(f) = &mut s {
        f.login_failed("Password is incorrect".to_string());
        assert_eq!(f.error.as_deref(), Some("Password is incorrect"));
    }
    assert!(matches!(s.handle_key(KeyCode::Esc, NONE, 0), KeyAction::Quit));
}

#[test]
fn quit_from_the_chat_list() {
    let mut m = client(0);
    assert!(matches!(key(&mut m, KeyCode::Char('q'), 10), KeyAction::Quit));
}

#[test]
fn new_message_check_records_each_last_message_as_seen() {
    let mut m = client(0);
    m.last_seen_guids.insert("gone".to_string(), "old".to_string());
    m.chats[0].last_message = Some(Box::new(message("m5", "a", false, Some("+15550001111"))));
    m.chats[1].last_message = Some(Box::new(message("m6", "b", true, None)));
    m.check_new_messages_and_notify(50);
    assert_eq!(m.last_seen_guids.get("c1").map(|s| s.as_str()), Some("m5"));
    assert_eq!(m.last_seen_guids.get("c2").map(|s| s.as_str()), Some("m6"));
    assert_eq!(m.last_seen_guids.get("gone").map(|s| s.as_str()), Some("old"));
}
