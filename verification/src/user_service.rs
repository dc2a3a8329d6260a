//! The identity issuance flow: generate a one-time code for an identifier,
//! store it with a time-to-live, and — when the holder submits it back in
//! time — consume it and mint a signed session token.
//!
//! Code delivery (mail) and the durable store live at the edge; the shell
//! performs them and feeds their results back through `delivery_outcome`.
//! The clock is an explicit parameter, so expiry and single use are part of
//! the contracts.

use vstd::prelude::*;

use crate::store::{live, CodeStore, StoredCode};
use crate::token::{signature_of, SessionToken};

verus! {

/// The identifier kinds a code can be requested for.  Only mail-backed
/// identifiers are implemented; a phone identifier is refused explicitly
/// rather than aborting.
pub enum Id {
    Email(String),
    Phone(String),
}

/// Why issuing a code failed.
#[derive(Debug)]
pub enum IssueError {
    /// The identifier kind has no delivery channel yet.
    Unimplemented,
    /// The mail transport reported failure; the reason is carried along.
    /// The stored code stays valid, so delivery can be retried without
    /// invalidating it.
    DeliveryFailed(String),
    /// The store could not be reached.  The verified store never raises
    /// this; the shell maps outages of the external store onto it.
    StoreUnavailable,
}

/// Why verifying a submitted code failed.
#[derive(Debug)]
pub enum VerifyError {
    /// No live code for the identifier: never issued, expired, or already
    /// consumed.
    Expired,
    /// A live code exists but the submission does not match it.
    Mismatch,
    /// The store could not be reached.  The verified store never raises
    /// this; the shell maps outages of the external store onto it.
    StoreUnavailable,
}

/// An ASCII letter or digit, the alphabet one-time codes are drawn from.
pub open spec fn is_alphanumeric_char(c: char) -> bool {
    (48 <= c as u32 && c as u32 <= 57) || (65 <= c as u32 && c as u32 <= 90) || (97 <= c as u32
        && c as u32 <= 122)
}

/// Relies on `fastrand::alphanumeric`: every drawn character is an ASCII
/// letter or digit.  Which one is chance, so nothing more is claimed.
#[verifier::external_body]
fn random_code(len: usize) -> (r: String)
    ensures
        r@.len() == len,
        forall|i: int| 0 <= i < r@.len() ==> is_alphanumeric_char(#[trigger] r@[i]),
{
    std::iter::repeat_with(fastrand::alphanumeric).take(len).collect()
}

/// The decision a verification attempt reaches against store `m` at `now`:
/// no live code means expired, a live code that differs means mismatch,
/// and only the live matching code passes.
pub open spec fn verify_decision(
    m: Map<Seq<char>, StoredCode>,
    key: Seq<char>,
    submitted: Seq<char>,
    now: u64,
) -> Result<(), VerifyError> {
    if !live(m, key, now) {
        Err(VerifyError::Expired)
    } else if m[key].code != submitted {
        Err(VerifyError::Mismatch)
    } else {
        Ok(())
    }
}

/// The store after a verification attempt: only a passing attempt consumes
/// the record; failures leave the store as it was.
pub open spec fn store_after_verify(
    m: Map<Seq<char>, StoredCode>,
    key: Seq<char>,
    submitted: Seq<char>,
    now: u64,
) -> Map<Seq<char>, StoredCode> {
    match verify_decision(m, key, submitted, now) {
        Ok(()) => m.remove(key),
        Err(_) => m,
    }
}

/// Map the mail transport's report onto the issue flow's error: a failed
/// delivery surfaces as `DeliveryFailed` with its reason, never silently.
pub fn delivery_outcome(mail_result: Result<(), String>) -> (r: Result<(), IssueError>)
    ensures
        match mail_result {
            Ok(()) => r == Ok::<(), IssueError>(()),
            Err(reason) => r == Err::<(), IssueError>(IssueError::DeliveryFailed(reason)),
        },
{
    match mail_result {
        Ok(()) => Ok(()),
        Err(reason) => Err(IssueError::DeliveryFailed(reason)),
    }
}

/// The one-time-code service: the code store, the signing secret, and the
/// externally supplied policy — code length and time-to-live.
pub struct UserService {
    store: CodeStore,
    secret: String,
    ttl_seconds: u64,
    code_len: usize,
}

impl UserService {
    /// The store is well formed.
    pub closed spec fn wf(&self) -> bool {
        self.store.wf()
    }

    /// The stored codes, as a map from identifier to code and expiry.
    pub closed spec fn codes(&self) -> Map<Seq<char>, StoredCode> {
        self.store.codes()
    }

    /// The signing secret for session tokens.
    pub closed spec fn secret(&self) -> Seq<char> {
        self.secret@
    }

    /// How long an issued code stays valid.
    pub closed spec fn ttl(&self) -> u64 {
        self.ttl_seconds
    }

    /// How many characters an issued code has.
    pub closed spec fn code_len(&self) -> usize {
        self.code_len
    }

    /// A fresh service around the given secret and policy.  All three are
    /// configuration: nothing here is hard-coded.
    pub fn new(secret: String, ttl_seconds: u64, code_len: usize) -> (r: UserService)
        ensures
            r.wf(),
            r.codes() == Map::<Seq<char>, StoredCode>::empty(),
            r.secret() == secret@,
            r.ttl() == ttl_seconds,
            r.code_len() == code_len,
    {
        UserService { store: CodeStore::new(), secret, ttl_seconds, code_len }
    }

    /// Issue a one-time code for `id` at instant `now`.  For a mail-backed
    /// identifier this draws a fresh random code and stores it, valid for
    /// the configured time-to-live, overwriting (and so invalidating) any
    /// code the identifier still had; the code is returned for the shell to
    /// deliver.  Other identifier kinds are refused with `Unimplemented`
    /// and leave the store untouched.
    pub fn request_otp(&mut self, id: Id, now: u64) -> (r: Result<String, IssueError>)
        requires
            old(self).wf(),
            now + old(self).ttl() <= u64::MAX,
        ensures
            final(self).wf(),
            final(self).secret() == old(self).secret(),
            final(self).ttl() == old(self).ttl(),
            final(self).code_len() == old(self).code_len(),
            match id {
                Id::Email(email) => match r {
                    Ok(code) => {
                        &&& code@.len() == old(self).code_len()
                        &&& forall|i: int|
                            0 <= i < code@.len() ==> is_alphanumeric_char(#[trigger] code@[i])
                        &&& final(self).codes() == old(self).codes().insert(
                            email@,
                            (StoredCode {
                                code: code@,
                                expires_at: (now + old(self).ttl()) as u64,
                            }),
                        )
                    },
                    Err(_) => false,
                },
                Id::Phone(_) => r == Err::<String, IssueError>(IssueError::Unimplemented)
                    && *final(self) == *old(self),
            },
    {
        match id {
            Id::Email(email) => {
                let code = random_code(self.code_len);
                self.store.set(email, code.clone(), now, self.ttl_seconds);
                Ok(code)
            },
            Id::Phone(_) => Err(IssueError::Unimplemented),
        }
    }

    /// Verify a submitted code for `identifier` at instant `now`.  Exactly
    /// when a live code matches, the record is consumed — so no code passes
    /// twice — and a session token bound to the identifier is minted.  An
    /// absent, expired or already-consumed code answers `Expired`; a live
    /// code that differs answers `Mismatch` and stays stored.
    pub fn verify_otp(&mut self, identifier: &String, submitted: &String, now: u64) -> (r: Result<
        SessionToken,
        VerifyError,
    >)
        requires
            old(self).wf(),
        ensures
            final(self).wf(),
            final(self).secret() == old(self).secret(),
            final(self).ttl() == old(self).ttl(),
            final(self).code_len() == old(self).code_len(),
            final(self).codes() == store_after_verify(
                old(self).codes(),
                identifier@,
                submitted@,
                now,
            ),
            match r {
                Ok(token) => {
                    &&& verify_decision(old(self).codes(), identifier@, submitted@, now)
                        == Ok::<(), VerifyError>(())
                    &&& token.payload@ == identifier@
                    &&& token.signature@ == signature_of(old(self).secret(), identifier@)
                },
                Err(e) => verify_decision(old(self).codes(), identifier@, submitted@, now)
                    == Err::<(), VerifyError>(e) && *final(self) == *old(self),
            },
    {
        let stored = self.store.get(identifier, now);
        match stored {
            None => Err(VerifyError::Expired),
            Some(code) => {
                if code != *submitted {
                    Err(VerifyError::Mismatch)
                } else {
                    let consumed = self.store.check_and_delete(identifier, submitted, now);
                    assert(consumed);
                    Ok(SessionToken::sign(identifier, &self.secret))
                }
            },
        }
    }
}

/// The request–verify round trip: a code stored at `now` is live and
/// matches itself at any instant before its expiry, so submitting it in
/// time passes the verification gate, and the session token this mints —
/// whose signature is `signature_of(secret, identifier)` — verifies
/// against the identifier under the same secret.
pub proof fn lemma_code_round_trip(
    m: Map<Seq<char>, StoredCode>,
    identifier: Seq<char>,
    code: Seq<char>,
    secret: Seq<char>,
    now: u64,
    at: u64,
    ttl: u64,
)
    requires
        now + ttl <= u64::MAX,
        now <= at < now + ttl,
    ensures
        verify_decision(
            m.insert(identifier, StoredCode { code, expires_at: (now + ttl) as u64 }),
            identifier,
            code,
            at,
        ) == Ok::<(), VerifyError>(()),
        crate::token::signature_accepted(secret, identifier, signature_of(secret, identifier)),
{
    crate::token::lemma_sign_then_verify(secret, identifier);
}

/// A code passes verification at most once: after a passing attempt, any
/// further attempt for the same identifier — same code, any code, any later
/// instant — answers `Expired`.
pub proof fn lemma_code_single_use(
    m: Map<Seq<char>, StoredCode>,
    identifier: Seq<char>,
    submitted: Seq<char>,
    again: Seq<char>,
    now: u64,
    later: u64,
)
    requires
        verify_decision(m, identifier, submitted, now) == Ok::<(), VerifyError>(()),
    ensures
        verify_decision(
            store_after_verify(m, identifier, submitted, now),
            identifier,
            again,
            later,
        ) == Err::<(), VerifyError>(VerifyError::Expired),
{
}

/// Once its time-to-live has elapsed, a stored code answers `Expired` even
/// when the submission matches it exactly.
pub proof fn lemma_code_expiry(
    m: Map<Seq<char>, StoredCode>,
    identifier: Seq<char>,
    code: Seq<char>,
    submitted: Seq<char>,
    now: u64,
    at: u64,
    ttl: u64,
)
    requires
        now + ttl <= u64::MAX,
        at >= now + ttl,
    ensures
        verify_decision(
            m.insert(identifier, StoredCode { code, expires_at: (now + ttl) as u64 }),
            identifier,
            submitted,
            at,
        ) == Err::<(), VerifyError>(VerifyError::Expired),
{
}

} // verus!
