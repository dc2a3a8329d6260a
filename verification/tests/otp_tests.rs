use chat_core::user_service::{delivery_outcome, Id, IssueError, UserService, VerifyError};

fn service() -> UserService {
    UserService::new(String::from("server-secret"), 20, 6)
}

fn email() -> String {
    String::from("a@b.com")
}

#[test]
fn request_then_verify_succeeds() {
    let mut svc = service();
    let code = svc.request_otp(Id::Email(email()), 100).unwrap();
    assert_eq!(code.chars().count(), 6);
    assert!(code.chars().all(|c| c.is_ascii_alphanumeric()));
    let token = svc.verify_otp(&email(), &code, 105).unwrap();
    assert_eq!(token.payload, email());
    assert!(token.verify(&email(), &String::from("server-secret")));
}

#[test]
fn second_verify_is_expired() {
    let mut svc = service();
    let code = svc.request_otp(Id::Email(email()), 100).unwrap();
    assert!(svc.verify_otp(&email(), &code, 101).is_ok());
    // The record was consumed: the same correct code no longer passes.
    let again = svc.verify_otp(&email(), &code, 101);
    assert!(matches!(again, Err(VerifyError::Expired)));
}

#[test]
fn verify_after_ttl_is_expired() {
    let mut svc = service();
    let code = svc.request_otp(Id::Email(email()), 100).unwrap();
    // The time-to-live is 20: at 120 the code is no longer live.
    let late = svc.verify_otp(&email(), &code, 120);
    assert!(matches!(late, Err(VerifyError::Expired)));
}

#[test]
fn mismatch_keeps_code_stored() {
    let mut svc = service();
    let code = svc.request_otp(Id::Email(email()), 100).unwrap();
    let wrong = format!("{}x", code);
    let r = svc.verify_otp(&email(), &wrong, 101);
    assert!(matches!(r, Err(VerifyError::Mismatch)));
    // A mismatch does not consume the record: the real code still passes.
    assert!(svc.verify_otp(&email(), &code, 102).is_ok());
}

#[test]
fn verify_without_request_is_expired() {
    let mut svc = service();
    let r = svc.verify_otp(&email(), &String::from("123456"), 100);
    assert!(matches!(r, Err(VerifyError::Expired)));
}

#[test]
fn new_request_invalidates_old_code() {
    let mut svc = service();
    let first = svc.request_otp(Id::Email(email()), 100).unwrap();
    let second = svc.request_otp(Id::Email(email()), 105).unwrap();
    if first != second {
        // The old code was overwritten: it now mismatches the stored one.
        let r = svc.verify_otp(&email(), &first, 106);
        assert!(matches!(r, Err(VerifyError::Mismatch)));
    }
    assert!(svc.verify_otp(&email(), &second, 106).is_ok());
}

#[test]
fn phone_identifier_unimplemented() {
    let mut svc = service();
    let r = svc.request_otp(Id::Phone(String::from("+15550000000")), 100);
    assert!(matches!(r, Err(IssueError::Unimplemented)));
}

#[test]
fn delivery_failure_carries_reason() {
    let ok = delivery_outcome(Ok(()));
    assert!(ok.is_ok());
    let failed = delivery_outcome(Err(String::from("relay refused")));
    match failed {
        Err(IssueError::DeliveryFailed(reason)) => assert_eq!(reason, "relay refused"),
        _ => panic!("expected a delivery failure"),
    }
}
