//! Client-side flow logic: the screen progression of the sign-in flow, the
//! one-time-code input filter, and the mapping of server responses onto
//! what the user sees.  The transport calls themselves live outside; these
//! functions take their plain results and decide.

use vstd::prelude::*;
use vstd::string::StrSliceExecFns;

use crate::identity::is_ascii_digit_char;

verus! {

/// The screens of the client, in sign-in order.
#[derive(Clone, Copy, Debug, PartialEq, Eq, Structural)]
pub enum AppScreen {
    Identifier,
    Otp,
    Chat,
}

/// What can happen on the sign-in screens.
#[derive(Clone, Copy, Debug, PartialEq, Eq, Structural)]
pub enum AuthEvent {
    IdentifierAccepted,
    CodeVerified,
    BackToIdentifier,
}

/// Where each event leads: an accepted identifier moves to the code
/// screen, a verified code into the chat, and going back returns to the
/// identifier screen; anything else stays put.
pub open spec fn screen_after(screen: AppScreen, event: AuthEvent) -> AppScreen {
    match (screen, event) {
        (AppScreen::Identifier, AuthEvent::IdentifierAccepted) => AppScreen::Otp,
        (AppScreen::Otp, AuthEvent::CodeVerified) => AppScreen::Chat,
        (AppScreen::Otp, AuthEvent::BackToIdentifier) => AppScreen::Identifier,
        (s, _) => s,
    }
}

/// Advance the sign-in flow by one event.
pub fn next_screen(screen: AppScreen, event: AuthEvent) -> (r: AppScreen)
    ensures
        r == screen_after(screen, event),
{
    match (screen, event) {
        (AppScreen::Identifier, AuthEvent::IdentifierAccepted) => AppScreen::Otp,
        (AppScreen::Otp, AuthEvent::CodeVerified) => AppScreen::Chat,
        (AppScreen::Otp, AuthEvent::BackToIdentifier) => AppScreen::Identifier,
        (s, _) => s,
    }
}

/// The first `room` ASCII digits of a string, in order, everything else
/// dropped: what the code entry field keeps of raw keyboard input.
pub open spec fn digits_prefix(s: Seq<char>, room: nat) -> Seq<char>
    decreases s.len(),
{
    if s.len() == 0 || room == 0 {
        Seq::empty()
    } else if is_ascii_digit_char(s[0]) {
        seq![s[0]] + digits_prefix(s.drop_first(), (room - 1) as nat)
    } else {
        digits_prefix(s.drop_first(), room)
    }
}

/// Relies on `String`'s `FromIterator`: collecting characters in order.
#[verifier::external_body]
fn chars_to_string(v: Vec<char>) -> (r: String)
    ensures
        r@ == v@,
{
    v.into_iter().collect()
}

/// Filter raw code input down to at most `max_len` digits, keeping their
/// order.
pub fn sanitize_otp_input(raw: &str, max_len: usize) -> (r: String)
    ensures
        r@ == digits_prefix(raw@, max_len as nat),
{
    let n = raw.unicode_len();
    let mut kept: Vec<char> = Vec::new();
    let mut i: usize = 0;
    proof {
        assert(raw@.skip(0) =~= raw@);
        assert(Seq::<char>::empty() + digits_prefix(raw@, max_len as nat) =~= digits_prefix(
            raw@,
            max_len as nat,
        ));
    }
    while i < n
        invariant
            n == raw@.len(),
            i <= n,
            kept@.len() <= max_len,
            kept@ + digits_prefix(raw@.skip(i as int), (max_len - kept@.len()) as nat)
                == digits_prefix(raw@, max_len as nat),
        decreases n - i,
    {
        let c = raw.get_char(i);
        proof {
            assert(raw@.skip(i as int).len() > 0);
            assert(raw@.skip(i as int)[0] == raw@[i as int]);
            assert(raw@.skip(i as int).drop_first() =~= raw@.skip(i as int + 1));
        }
        if kept.len() < max_len && (c as u32) >= 48 && (c as u32) <= 57 {
            kept.push(c);
            proof {
                assert(seq![c] + digits_prefix(
                    raw@.skip(i as int + 1),
                    (max_len - kept@.len()) as nat,
                ) =~= digits_prefix(raw@.skip(i as int), (max_len - (kept@.len() - 1)) as nat));
            }
        } else if kept.len() >= max_len {
            proof {
                assert(digits_prefix(raw@.skip(i as int), 0) =~= Seq::<char>::empty());
                assert(digits_prefix(raw@.skip(i as int + 1), 0) =~= Seq::<char>::empty());
            }
        }
        i += 1;
    }
    proof {
        assert(raw@.skip(n as int) =~= Seq::<char>::empty());
        assert(kept@ + Seq::<char>::empty() =~= kept@);
    }
    chars_to_string(kept)
}

/// Whether a code entry is complete enough to submit: at least four
/// characters, else the user is told to finish typing.
pub fn check_otp_submission(otp: &str) -> (r: Result<(), &'static str>)
    ensures
        match r {
            Ok(()) => otp@.len() >= 4,
            Err(m) => otp@.len() < 4 && m@ == "Please enter the complete OTP code."@,
        },
{
    if otp.unicode_len() < 4 {
        Err("Please enter the complete OTP code.")
    } else {
        Ok(())
    }
}

/// What a code-request response means for the user: success hands back the
/// request handle; failure shows the server's message, or a fixed line
/// when the server sent none.
pub fn otp_request_outcome(success: bool, request_id: String, message: String) -> (r: Result<
    String,
    String,
>)
    ensures
        match r {
            Ok(id) => success && id == request_id,
            Err(m) => !success && m@ == (if message@.len() == 0 {
                "Failed to send OTP. Please try again."@
            } else {
                message@
            }),
        },
{
    if success {
        Ok(request_id)
    } else if message.as_str().unicode_len() == 0 {
        Err(String::from_str("Failed to send OTP. Please try again."))
    } else {
        Err(message)
    }
}

/// What a code-verification response means for the user: success hands
/// back the session token; failure shows the server's message, or a fixed
/// line when the server sent none.
pub fn otp_verify_outcome(success: bool, token: String, message: String) -> (r: Result<
    String,
    String,
>)
    ensures
        match r {
            Ok(t) => success && t == token,
            Err(m) => !success && m@ == (if message@.len() == 0 {
                "Invalid OTP. Please check and try again."@
            } else {
                message@
            }),
        },
{
    if success {
        Ok(token)
    } else if message.as_str().unicode_len() == 0 {
        Err(String::from_str("Invalid OTP. Please check and try again."))
    } else {
        Err(message)
    }
}

/// The payload of a verification reply: a signed identity handle on
/// success, an error message otherwise.
pub enum VerifyResponse {
    Uuid(String),
    ErrMsg(String),
}

/// What the code screen does with a verification reply: a handle means
/// success, a carried message is shown as it is, and a missing payload is
/// reported as an invalid code — never an abort.
pub fn verify_response_action(res: Option<VerifyResponse>) -> (r: Result<String, String>)
    ensures
        match res {
            Some(VerifyResponse::Uuid(u)) => r == Ok::<String, String>(u),
            Some(VerifyResponse::ErrMsg(m)) => r == Err::<String, String>(m),
            None => match r {
                Ok(_) => false,
                Err(m) => m@ == "invalid otp"@,
            },
        },
{
    match res {
        Some(VerifyResponse::Uuid(u)) => Ok(u),
        Some(VerifyResponse::ErrMsg(m)) => Err(m),
        None => Err(String::from_str("invalid otp")),
    }
}

} // verus!
