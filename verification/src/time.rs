//! UTC timestamps in the FIX notation `YYYYMMDD-HH:MM:SS`, written and read by `chrono`.

use vstd::prelude::*;
use crate::text::is_digit;

verus! {

/// What `chrono` prints for the instant `millis` milliseconds after the Unix epoch,
/// in the form `%Y%m%d-%H:%M:%S`; `None` where `chrono` cannot represent the instant.
pub uninterp spec fn formatted_timestamp(millis: i64) -> Option<Seq<u8>>;

/// The instant that `chrono` reads from a text of the form `%Y%m%d-%H:%M:%S%.3f`,
/// in milliseconds after the Unix epoch; `None` where `chrono` rejects the text.
pub uninterp spec fn parsed_timestamp(text: Seq<u8>) -> Option<i64>;

/// The instant that a timestamp of the venue denotes, if `chrono` reads it and can
/// print the instant again.
pub open spec fn timestamp_of(text: Seq<u8>) -> Option<i64> {
    match parsed_timestamp(text) {
        Some(millis) => if formatted_timestamp(millis) is Some {
            Some(millis)
        } else {
            None
        },
        None => None,
    }
}

/// The bytes that a printed timestamp is made of: digits, the two separators, a sign.
pub open spec fn is_time_byte(b: u8) -> bool {
    is_digit(b) || b == 45 || b == 58 || b == 43
}

pub open spec fn is_time_text(s: Seq<u8>) -> bool {
    forall|i: int| 0 <= i < s.len() ==> is_time_byte(#[trigger] s[i])
}

/// Calls `chrono::DateTime::from_timestamp_millis` and prints the result with
/// `format("%Y%m%d-%H:%M:%S")`. Trusted: the result is the named text, and it holds
/// nothing but digits, `-`, `:` and `+`, which is all that these format items emit.
#[verifier::external_body]
fn chrono_format(millis: i64) -> (r: Option<Vec<u8>>)
    ensures
        r is Some == formatted_timestamp(millis) is Some,
        r is Some ==> r->0@ == formatted_timestamp(millis)->0,
        r is Some ==> is_time_text(r->0@),
{
    match chrono::DateTime::from_timestamp_millis(millis) {
        Some(d) => Some(d.format("%Y%m%d-%H:%M:%S").to_string().into_bytes()),
        None => None,
    }
}

/// Calls `chrono::NaiveDateTime::parse_from_str` with `%Y%m%d-%H:%M:%S%.3f` and
/// converts the result to milliseconds. Trusted: the result is the named instant.
#[verifier::external_body]
fn chrono_parse(text: &[u8]) -> (r: Option<i64>)
    ensures
        r == parsed_timestamp(text@),
{
    match std::str::from_utf8(text) {
        Ok(s) => match chrono::NaiveDateTime::parse_from_str(s, "%Y%m%d-%H:%M:%S%.3f") {
            Ok(d) => Some(d.and_utc().timestamp_millis()),
            Err(_) => None,
        },
        Err(_) => None,
    }
}

/// Calls `std::time::SystemTime::elapsed` on the Unix epoch: the milliseconds that
/// the system clock counts since then. Nothing is claimed of the reading.
#[verifier::external_body]
fn clock_millis() -> (r: Option<i64>) {
    match std::time::UNIX_EPOCH.elapsed() {
        Ok(d) => i64::try_from(d.as_millis()).ok(),
        Err(_) => None,
    }
}

/// An instant that can be printed in the FIX notation.
#[derive(Debug, Clone, Copy)]
pub struct Timestamp {
    millis: i64,
}

impl Timestamp {
    #[verifier::type_invariant]
    spec fn printable(self) -> bool {
        formatted_timestamp(self.millis) is Some
    }

    /// Milliseconds after the Unix epoch.
    pub closed spec fn millis_spec(self) -> i64 {
        self.millis
    }

    /// The FIX text of the instant, seconds only.
    pub open spec fn text(self) -> Seq<u8> {
        formatted_timestamp(self.millis_spec())->0
    }

    /// The instant `millis` milliseconds after the Unix epoch, if it can be printed.
    pub fn from_millis(millis: i64) -> (r: Option<Timestamp>)
        ensures
            r is Some == formatted_timestamp(millis) is Some,
            r is Some ==> r->0.millis_spec() == millis,
    {
        match chrono_format(millis) {
            Some(_) => Some(Timestamp { millis }),
            None => None,
        }
    }

    /// Reads a timestamp as the venue sends it, with or without milliseconds.
    pub fn parse(text: &[u8]) -> (r: Option<Timestamp>)
        ensures
            millis_view(r) == timestamp_of(text@),
    {
        match chrono_parse(text) {
            Some(millis) => Timestamp::from_millis(millis),
            None => None,
        }
    }

    /// The reading of the system clock, if it has one; a reading that comes back can be printed.
    pub fn now() -> (r: Option<Timestamp>)
        ensures
            r is Some ==> formatted_timestamp(r->0.millis_spec()) is Some,
    {
        match clock_millis() {
            Some(millis) => Timestamp::from_millis(millis),
            None => None,
        }
    }

    #[verifier::when_used_as_spec(millis_spec)]
    pub fn millis(self) -> (r: i64)
        ensures
            r == self.millis_spec(),
    {
        self.millis
    }

    /// Prints the instant as `YYYYMMDD-HH:MM:SS`.
    pub fn format(&self) -> (r: Vec<u8>)
        ensures
            r@ == self.text(),
            is_time_text(r@),
    {
        proof {
            use_type_invariant(self);
        }
        match chrono_format(self.millis) {
            Some(t) => t,
            None => Vec::new(),
        }
    }
}

/// The view of an optional instant.
pub open spec fn millis_view(t: Option<Timestamp>) -> Option<i64> {
    match t {
        Some(v) => Some(v.millis_spec()),
        None => None,
    }
}

} // verus!
