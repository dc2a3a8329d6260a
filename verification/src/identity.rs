//! Identifier validation: the loose shape check applied before a one-time
//! code is requested for an address — something email-like, or something
//! with enough digits to be a phone number.

use vstd::prelude::*;
use vstd::string::StrSliceExecFns;

verus! {

/// An ASCII decimal digit.
pub open spec fn is_ascii_digit_char(c: char) -> bool {
    48 <= c as u32 && c as u32 <= 57
}

/// How many ASCII digits a string holds.
pub open spec fn digit_count(s: Seq<char>) -> nat
    decreases s.len(),
{
    if s.len() == 0 {
        0
    } else {
        digit_count(s.drop_last()) + (if is_ascii_digit_char(s.last()) {
            1nat
        } else {
            0nat
        })
    }
}

/// What passes the shape check, on an already-trimmed string: not empty,
/// and either email-like (an `@` and a `.` somewhere) or phone-like (at
/// least seven digits).
pub open spec fn valid_identifier(t: Seq<char>) -> bool {
    t.len() > 0 && ((t.contains('@') && t.contains('.')) || digit_count(t) >= 7)
}

/// What `str::trim` returns: the string without leading and trailing
/// whitespace, a function of the characters alone.
pub uninterp spec fn trim_of(s: Seq<char>) -> Seq<char>;

/// Relies on `str::trim`: removes leading and trailing whitespace; trimming
/// an already-trimmed string changes nothing.
#[verifier::external_body]
pub(crate) fn trim<'a>(s: &'a str) -> (r: &'a str)
    ensures
        r@ == trim_of(s@),
        trim_of(r@) == r@,
{
    s.trim()
}

/// Whether `s` holds the character `c`.
fn contains_char(s: &str, c: char) -> (r: bool)
    ensures
        r == s@.contains(c),
{
    let n = s.unicode_len();
    let mut i: usize = 0;
    while i < n
        invariant
            n == s@.len(),
            i <= n,
            forall|j: int| 0 <= j < i ==> s@[j] != c,
        decreases n - i,
    {
        if s.get_char(i) == c {
            return true;
        }
        i += 1;
    }
    false
}

/// How many ASCII digits `s` holds.
fn count_ascii_digits(s: &str) -> (r: usize)
    ensures
        r == digit_count(s@),
{
    let n = s.unicode_len();
    let mut i: usize = 0;
    let mut count: usize = 0;
    while i < n
        invariant
            n == s@.len(),
            i <= n,
            count <= i,
            count == digit_count(s@.take(i as int)),
        decreases n - i,
    {
        let c = s.get_char(i);
        if (c as u32) >= 48 && (c as u32) <= 57 {
            count += 1;
        }
        proof {
            assert(s@.take(i as int + 1).drop_last() =~= s@.take(i as int));
            assert(s@.take(i as int + 1).last() == s@[i as int]);
        }
        i += 1;
    }
    proof {
        assert(s@.take(n as int) =~= s@);
    }
    count
}

/// The shape check on an already-trimmed identifier: accepts exactly what
/// `valid_identifier` describes, and names why it rejected otherwise.
pub fn validate_trimmed(t: &str) -> (r: Result<(), &'static str>)
    ensures
        match r {
            Ok(()) => valid_identifier(t@),
            Err(m) => !valid_identifier(t@) && m@ == (if t@.len() == 0 {
                "Please enter an email or phone number."@
            } else {
                "Enter a valid email (user@example.com) or phone (+1 555 000 0000)."@
            }),
        },
{
    if t.unicode_len() == 0 {
        return Err("Please enter an email or phone number.");
    }
    let looks_like_email = contains_char(t, '@') && contains_char(t, '.');
    let looks_like_phone = count_ascii_digits(t) >= 7;
    if looks_like_email || looks_like_phone {
        Ok(())
    } else {
        Err("Enter a valid email (user@example.com) or phone (+1 555 000 0000).")
    }
}

/// The shape check on raw input: trim, then check.  Accepts exactly the
/// strings whose trimmed form `valid_identifier` describes.
pub fn validate_identifier(s: &str) -> (r: Result<(), &'static str>)
    ensures
        match r {
            Ok(()) => valid_identifier(trim_of(s@)),
            Err(m) => !valid_identifier(trim_of(s@)) && m@ == (if trim_of(s@).len() == 0 {
                "Please enter an email or phone number."@
            } else {
                "Enter a valid email (user@example.com) or phone (+1 555 000 0000)."@
            }),
        },
{
    let t = trim(s);
    validate_trimmed(t)
}

} // verus!
