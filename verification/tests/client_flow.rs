use chat_core::client::{
    check_otp_submission, next_screen, otp_request_outcome, otp_verify_outcome,
    sanitize_otp_input, verify_response_action, AppScreen, AuthEvent, VerifyResponse,
};
use chat_core::identity::{validate_identifier, validate_trimmed};

#[test]
fn screen_flow_follows_sign_in_order() {
    let s = AppScreen::Identifier;
    let s = next_screen(s, AuthEvent::IdentifierAccepted);
    assert_eq!(s, AppScreen::Otp);
    assert_eq!(next_screen(s, AuthEvent::BackToIdentifier), AppScreen::Identifier);
    assert_eq!(next_screen(s, AuthEvent::CodeVerified), AppScreen::Chat);
    // Events that do not apply leave the screen alone.
    assert_eq!(next_screen(AppScreen::Chat, AuthEvent::IdentifierAccepted), AppScreen::Chat);
    assert_eq!(
        next_screen(AppScreen::Identifier, AuthEvent::CodeVerified),
        AppScreen::Identifier
    );
}

#[test]
fn sanitize_keeps_first_digits_only() {
    assert_eq!(sanitize_otp_input("a1b2c3d4e5f6g7", 6), "123456");
    assert_eq!(sanitize_otp_input("12", 6), "12");
    assert_eq!(sanitize_otp_input("no digits", 6), "");
    assert_eq!(sanitize_otp_input("987654321", 6), "987654");
    assert_eq!(sanitize_otp_input("1234", 0), "");
}

#[test]
fn submission_needs_four_characters() {
    assert_eq!(check_otp_submission("123"), Err("Please enter the complete OTP code."));
    assert!(check_otp_submission("1234").is_ok());
}

#[test]
fn request_outcome_mapping() {
    let ok = otp_request_outcome(true, String::from("req-7"), String::new());
    assert_eq!(ok, Ok(String::from("req-7")));
    let with_message =
        otp_request_outcome(false, String::new(), String::from("mailbox unknown"));
    assert_eq!(with_message, Err(String::from("mailbox unknown")));
    let silent = otp_request_outcome(false, String::new(), String::new());
    assert_eq!(silent, Err(String::from("Failed to send OTP. Please try again.")));
}

#[test]
fn verify_outcome_mapping() {
    let ok = otp_verify_outcome(true, String::from("token-1"), String::new());
    assert_eq!(ok, Ok(String::from("token-1")));
    let with_message = otp_verify_outcome(false, String::new(), String::from("code expired"));
    assert_eq!(with_message, Err(String::from("code expired")));
    let silent = otp_verify_outcome(false, String::new(), String::new());
    assert_eq!(silent, Err(String::from("Invalid OTP. Please check and try again.")));
}

#[test]
fn verify_response_never_aborts() {
    let uuid = verify_response_action(Some(VerifyResponse::Uuid(String::from("handle"))));
    assert_eq!(uuid, Ok(String::from("handle")));
    let err = verify_response_action(Some(VerifyResponse::ErrMsg(String::from("bad code"))));
    assert_eq!(err, Err(String::from("bad code")));
    let none = verify_response_action(None);
    assert_eq!(none, Err(String::from("invalid otp")));
}

#[test]
fn identifier_validation_cases() {
    assert!(validate_identifier("alice@example.com").is_ok());
    assert!(validate_identifier("  alice@example.com  ").is_ok());
    assert!(validate_identifier("+1 555 000 0000").is_ok());
    assert_eq!(validate_identifier("   "), Err("Please enter an email or phone number."));
    assert_eq!(
        validate_identifier("nonsense"),
        Err("Enter a valid email (user@example.com) or phone (+1 555 000 0000).")
    );
    // An @ without a dot is not email-like, and six digits are not enough.
    assert!(validate_trimmed("user@host").is_err());
    assert!(validate_trimmed("123456").is_err());
    assert!(validate_trimmed("1234567").is_ok());
}
