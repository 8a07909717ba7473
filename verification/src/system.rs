//! Values that come from the machine: fresh identifiers and the current time.

use vstd::prelude::*;

use crate::text::{is_blank_spec, is_ws};

verus! {

/// A lowercase hexadecimal digit.
pub open spec fn is_lower_hex(c: char) -> bool {
    ('0' <= c && c <= '9') || ('a' <= c && c <= 'f')
}

/// The hyphenated lowercase form of a UUID: 36 characters, hyphens at positions 8, 13, 18
/// and 23, lowercase hexadecimal digits elsewhere.
pub open spec fn hyphenated_uuid(s: Seq<char>) -> bool {
    &&& s.len() == 36
    &&& forall|i: int|
        0 <= i < 36 ==> if i == 8 || i == 13 || i == 18 || i == 23 {
            #[trigger] s[i] == '-'
        } else {
            is_lower_hex(s[i])
        }
}

/// `uuid::Uuid::new_v4().to_string()`: a random version-4 UUID in its hyphenated lowercase
/// form (`uuid`'s `Display` writes `LowerHex` of `as_hyphenated`: 32 lowercase hex digits
/// in groups of 8, 4, 4, 4 and 12, joined by hyphens). Which UUID it is, is random, so
/// nothing else is claimed of it; `uuid` panics if the system offers no randomness, which
/// no argument can rule out.
#[verifier::external_body]
pub(crate) fn new_uuid_string() -> (id: String)
    ensures
        hyphenated_uuid(id@),
{
    uuid::Uuid::new_v4().to_string()
}

/// A UUID in hyphenated form is not blank: it starts with a hexadecimal digit.
pub proof fn lemma_uuid_not_blank(s: Seq<char>)
    requires
        hyphenated_uuid(s),
    ensures
        !is_blank_spec(s),
{
    assert(is_lower_hex(s[0]));
    assert(!is_ws(s[0]));
}

/// A UTC time stamp is not blank: its offset starts with `+`.
pub proof fn lemma_stamp_not_blank(s: Seq<char>)
    requires
        utc_rfc3339(s),
    ensures
        !is_blank_spec(s),
{
    reveal_strlit("+00:00");
    let tail = s.subrange(s.len() - 6, s.len() as int);
    assert(tail[0] == '+');
    assert(s[s.len() - 6] == tail[0]);
    assert(!is_ws(s[s.len() - 6]));
}

/// The form of every time stamp `chrono` writes for a UTC time with `to_rfc3339`: a date
/// of at least four year digits, `-MM-DD`, `T`, `hh:mm:ss`, perhaps a fraction of a second,
/// then the offset `+00:00`; so at least 25 characters, ending in `+00:00`.
pub open spec fn utc_rfc3339(s: Seq<char>) -> bool {
    &&& s.len() >= 25
    &&& s.subrange(s.len() - 6, s.len() as int) == "+00:00"@
}

/// The current time as an RFC 3339 string, as `chrono`'s `DateTime::<Utc>::to_rfc3339`
/// writes it: the seconds and nanoseconds since 1970 that `std::time::SystemTime` reads are
/// turned into a time by `DateTime::from_timestamp`. `None` where the clock reads before
/// 1970 or beyond what `chrono` represents; neither step panics. `chrono` writes the offset
/// of a UTC time as `+00:00` (`to_rfc3339` does not use `Z`), after a date and a time of at
/// least 19 characters. Which time it is depends on the clock, so nothing more is claimed.
#[verifier::external_body]
pub(crate) fn now_rfc3339() -> (now: Option<String>)
    ensures
        now matches Some(t) ==> utc_rfc3339(t@),
{
    let since = std::time::SystemTime::now().duration_since(std::time::UNIX_EPOCH).ok()?;
    let secs = i64::try_from(since.as_secs()).ok()?;
    let time = chrono::DateTime::from_timestamp(secs, since.subsec_nanos())?;
    Some(time.to_rfc3339())
}

/// The current time as an RFC 3339 UTC time stamp; a clock that cannot be read as a time
/// since 1970 gives the epoch's stamp.
pub fn current_timestamp() -> (now: String)
    ensures
        utc_rfc3339(now@),
{
    match now_rfc3339() {
        Some(t) => t,
        None => {
            let t = "1970-01-01T00:00:00+00:00".to_owned();
            proof {
                reveal_strlit("1970-01-01T00:00:00+00:00");
                reveal_strlit("+00:00");
                assert(t@.subrange(t@.len() - 6, t@.len() as int) =~= "+00:00"@);
            }
            t
        },
    }
}

} // verus!
