use bloop::config::{default_send_method, empty_login_fields, finish_login, initial_login_fields, startup_state, SavedConfig};
use bloop::keys::AppState;
use bloop::model::MainState;
use bloop::helpers::{char_to_byte, friendly_login_error, normalize_address, notification_text, word_left, word_right};
use bloop::types::{ContactAddress, ContactData};

#[test]
fn word_right_skips_word_then_spaces() {
    assert_eq!(word_right("hello world", 0), 6);
    assert_eq!(word_right("hello world", 6), 11);
    assert_eq!(word_right("hello   world", 2), 8);
    assert_eq!(word_right("a\nb", 0), 2);
    assert_eq!(word_right("abc", 3), 3);
    assert_eq!(word_right("abc", 10), 10);
}

#[test]
fn word_left_skips_spaces_then_word() {
    assert_eq!(word_left("hello world", 11), 6);
    assert_eq!(word_left("hello world", 6), 0);
    assert_eq!(word_left("hello   world", 8), 0);
    assert_eq!(word_left("", 0), 0);
    assert_eq!(word_left("ab cd", 9), 7);
}

#[test]
fn char_to_byte_counts_utf8_bytes() {
    assert_eq!(char_to_byte("héllo", 0), 0);
    assert_eq!(char_to_byte("héllo", 2), 3);
    assert_eq!(char_to_byte("héllo", 5), 6);
    assert_eq!(char_to_byte("héllo", 99), 6);
    assert_eq!(char_to_byte("😀x", 1), 4);
}

#[test]
fn normalize_address_keeps_last_ten_digits() {
    assert_eq!(normalize_address("+1 (555) 123-4567"), "5551234567");
    assert_eq!(normalize_address("555-123-4567"), "5551234567");
    assert_eq!(normalize_address("123-4567"), "1234567");
}

#[test]
fn normalize_address_lowercases_other_addresses() {
    assert_eq!(normalize_address("John.Doe@Example.COM"), "john.doe@example.com");
    assert_eq!(normalize_address("ÄBC12"), "äbc12");
}

#[test]
fn normalizing_a_phone_number_twice_changes_nothing() {
    let once = normalize_address("+44 (0) 20 7946 0958");
    assert_eq!(normalize_address(&once), once);
}

#[test]
fn friendly_login_error_messages() {
    assert_eq!(friendly_login_error("http status: 401"), "Password is incorrect");
    assert_eq!(
        friendly_login_error("Connection refused (os error 111)"),
        "Could not connect to server. Check the host address."
    );
    assert_eq!(
        friendly_login_error("failed to resolve host"),
        "Could not connect to server. Check the host address."
    );
    assert_eq!(friendly_login_error("weird"), "Login failed: weird");
    assert_eq!(friendly_login_error("Connection reset"), "Login failed: Connection reset");
}

#[test]
fn notification_text_replaces_double_quotes() {
    assert_eq!(notification_text("say \"hi\""), "say 'hi'");
}

#[test]
fn default_send_method_is_apple_script() {
    assert_eq!(default_send_method(), "apple-script");
}

#[test]
fn login_fields_from_saved_config() {
    let saved = SavedConfig {
        host: "http://h".to_string(),
        password: "pw".to_string(),
        send_method: "private-api".to_string(),
    };
    let f = initial_login_fields(&saved);
    assert_eq!(f.host, "http://h");
    assert_eq!(f.password, "pw");
    assert!(f.use_private_api);
    assert_eq!(f.active_field, 0);
    assert!(f.error.is_none());
    let saved = SavedConfig { send_method: "apple-script".to_string(), ..saved };
    assert!(!initial_login_fields(&saved).use_private_api);
}

#[test]
fn failed_chat_list_is_reported_on_login() {
    let r = finish_login(Err("timed out".to_string()), "apple-script".to_string(), "/".to_string(), 0);
    assert_eq!(r.err(), Some("Failed to load chats: timed out".to_string()));
}

#[test]
fn best_name_prefers_display_then_full_then_nickname() {
    let c = ContactData {
        first_name: Some("Ada".to_string()),
        last_name: Some("Lovelace".to_string()),
        display_name: Some("Countess".to_string()),
        nickname: Some("A".to_string()),
        phone_numbers: vec![ContactAddress { address: "+15550001111".to_string() }],
        emails: Vec::new(),
    };
    assert_eq!(c.best_name(), Some("Countess".to_string()));
    let c = ContactData { display_name: Some(String::new()), ..c };
    assert_eq!(c.best_name(), Some("Ada Lovelace".to_string()));
    let c = ContactData { last_name: None, ..c };
    assert_eq!(c.best_name(), Some("Ada".to_string()));
    let c = ContactData { first_name: None, ..c };
    assert_eq!(c.best_name(), Some("A".to_string()));
    let c = ContactData { nickname: None, ..c };
    assert_eq!(c.best_name(), None);
}

#[test]
fn first_screen_depends_on_saved_settings_and_the_login() {
    match startup_state(None, None) {
        AppState::Login(f) => {
            assert!(f.host.is_empty() && f.password.is_empty() && !f.use_private_api && f.error.is_none());
            assert_eq!(f.active_field, 0);
        }
        _ => panic!("expected the login form"),
    }
    let saved = || SavedConfig { host: "h".to_string(), password: "p".to_string(), send_method: "private-api".to_string() };
    match startup_state(Some(saved()), Some(Err("Password is incorrect".to_string()))) {
        AppState::Login(f) => {
            assert_eq!(f.host, "h");
            assert_eq!(f.password, "p");
            assert!(f.use_private_api);
        }
        _ => panic!("expected the filled-in login form"),
    }
    let main = MainState::new(Vec::new(), "private-api".to_string(), "/".to_string(), 0);
    assert!(matches!(startup_state(Some(saved()), Some(Ok(main))), AppState::Main(_)));
    assert!(empty_login_fields().host.is_empty());
}
