use chat_core::chats::{Chat, ChatPanel, Side};

#[test]
fn open_chat_creates_and_activates() {
    let mut panel = ChatPanel::new();
    assert_eq!(panel.active(), None);
    assert!(panel.open_chat("alice@example.com").is_ok());
    assert_eq!(panel.count(), 1);
    assert_eq!(panel.active(), Some(1));
    assert_eq!(panel.chat(0).contact, "alice@example.com");
    assert!(panel.chat(0).messages.is_empty());
}

#[test]
fn open_chat_trims_input() {
    let mut panel = ChatPanel::new();
    assert!(panel.open_chat("  alice@example.com  ").is_ok());
    assert_eq!(panel.chat(0).contact, "alice@example.com");
}

#[test]
fn duplicate_contact_switches_instead_of_creating() {
    let mut panel = ChatPanel::new();
    panel.open_chat("alice@example.com").unwrap();
    panel.open_chat("bob@example.com").unwrap();
    assert_eq!(panel.count(), 2);
    let second_id = panel.active();
    panel.open_chat("alice@example.com").unwrap();
    assert_eq!(panel.count(), 2);
    assert_eq!(panel.active(), Some(panel.chat(0).id));
    assert_ne!(panel.active(), second_id);
}

#[test]
fn invalid_contact_rejected() {
    let mut panel = ChatPanel::new();
    assert_eq!(panel.open_chat("   "), Err("Please enter an email or phone number."));
    assert_eq!(
        panel.open_chat("not-an-address"),
        Err("Enter a valid email (user@example.com) or phone (+1 555 000 0000).")
    );
    assert_eq!(panel.count(), 0);
    // Seven digits pass as a phone number.
    assert!(panel.open_chat("+1 555 000 0000").is_ok());
}

#[test]
fn send_message_appends_to_active_chat() {
    let mut panel = ChatPanel::new();
    panel.open_chat("alice@example.com").unwrap();
    assert!(panel.send_message("  hi there  "));
    let chat = panel.chat(0);
    assert_eq!(chat.messages.len(), 1);
    assert_eq!(chat.messages[0].text, "hi there");
    assert_eq!(chat.messages[0].side, Side::Me);
    assert_eq!(chat.messages[0].id, 2);
}

#[test]
fn send_message_needs_text_and_active_chat() {
    let mut panel = ChatPanel::new();
    assert!(!panel.send_message("hello"));
    panel.open_chat("alice@example.com").unwrap();
    assert!(!panel.send_message("   "));
    assert!(panel.chat(0).messages.is_empty());
}

#[test]
fn display_name_cuts_at_first_at_sign() {
    let chat = Chat::new(1, String::from("alice@example.com"));
    assert_eq!(chat.display_name(), "alice");
    let phone = Chat::new(2, String::from("+1 555 000 0000"));
    assert_eq!(phone.display_name(), "+1 555 000 0000");
}

#[test]
fn avatar_char_is_uppercased_initial() {
    let chat = Chat::new(1, String::from("alice@example.com"));
    assert_eq!(chat.avatar_char(), 'A');
    let empty = Chat::new(2, String::new());
    assert_eq!(empty.avatar_char(), '?');
    let at_first = Chat::new(3, String::from("@example.com"));
    assert_eq!(at_first.avatar_char(), '?');
}

#[test]
fn preview_shows_last_message() {
    let mut panel = ChatPanel::new();
    panel.open_chat("alice@example.com").unwrap();
    assert_eq!(panel.chat(0).preview(), "No messages yet");
    panel.send_message("first");
    panel.send_message("second");
    assert_eq!(panel.chat(0).preview(), "You: second");
}

#[test]
fn preview_truncates_long_text() {
    let mut panel = ChatPanel::new();
    panel.open_chat("alice@example.com").unwrap();
    let long = "abcdefghijklmnopqrstuvwxyz0123456789ABCDEF";
    panel.send_message(long);
    let preview = panel.chat(0).preview();
    let expected: String =
        format!("You: {}…", long.chars().take(38).collect::<String>());
    assert_eq!(preview, expected);
}
