//! What a record takes from outside at the moment it is written: a fresh
//! identifier and the current time.

use vstd::prelude::*;

verus! {

/// A digit or one of the letters `a` to `f`.
pub open spec fn is_lower_hex(c: char) -> bool {
    ('0' as int <= c as int <= '9' as int) || ('a' as int <= c as int <= 'f' as int)
}

/// The shape of a random identifier: 36 characters, lower-case hexadecimal
/// digits in groups of 8, 4, 4, 4 and 12 with a hyphen between groups, the
/// third group beginning with `4` and the fourth with one of `8 9 a b`.
pub open spec fn is_random_id(s: Seq<char>) -> bool {
    &&& s.len() == 36
    &&& forall|i: int|
        0 <= i < 36 ==> if i == 8 || i == 13 || i == 18 || i == 23 {
            #[trigger] s[i] == '-'
        } else {
            is_lower_hex(s[i])
        }
    &&& s[14] == '4'
    &&& (s[19] == '8' || s[19] == '9' || s[19] == 'a' || s[19] == 'b')
}

/// The text of a time in UTC ends with the offset of UTC.
pub open spec fn is_utc_stamp(s: Seq<char>) -> bool {
    s.len() >= 6 && s.subrange(s.len() - 6, s.len() as int) == "+00:00"@
}

/// A new random identifier, from `uuid::Uuid::new_v4` rendered by its
/// `Display`. Which identifier comes back is left open; that it has the
/// hyphenated lower-case shape of a version 4 identifier is taken from that
/// crate, not proved. The call fails where the system gives no random
/// bytes.
#[verifier::external_body]
pub(crate) fn fresh_id() -> (id: String)
    ensures
        is_random_id(id@),
{
    uuid::Uuid::new_v4().to_string()
}

/// The current time in UTC as text, from `chrono::Utc::now` rendered by
/// `to_rfc3339`. Which time comes back is left open; that the text ends with
/// the offset `+00:00` is taken from that crate, not proved. The call fails
/// where the system clock stands before 1970.
#[verifier::external_body]
pub(crate) fn current_time() -> (now: String)
    ensures
        is_utc_stamp(now@),
{
    chrono::Utc::now().to_rfc3339()
}

} // verus!
