//! Points in time as the history keeps them: in UTC, written in the notation
//! of RFC 3339.

use vstd::prelude::*;

verus! {

/// The UTC form of the time that `chrono` reads `text` as: what it writes
/// for that time in UTC, with as many fraction digits as the time has and
/// `Z` for the offset. Nothing where `chrono` does not read `text` as a date
/// and time with an offset, in the notation of RFC 3339 as it relaxes it.
pub uninterp spec fn utc_timestamp_text(text: Seq<char>) -> Option<Seq<char>>;

/// Tells whether `text` is a timestamp in its UTC form: `chrono` reads it as
/// a time, and writes that time in UTC as this very text.
pub open spec fn is_timestamp_text(text: Seq<char>) -> bool {
    utc_timestamp_text(text) == Some(text)
}

/// The parser of `chrono::DateTime<FixedOffset>` on `text` and, for the time
/// that it reads, `with_timezone` to UTC and `to_rfc3339_opts`. What
/// `chrono` writes so, it reads as the same time and writes the same again.
#[verifier::external_body]
fn utc_text(text: &str) -> (r: Option<String>)
    ensures
        match utc_timestamp_text(text@) {
            Some(utc) => r matches Some(written) && written@ == utc,
            None => r is None,
        },
        r matches Some(written) ==> utc_timestamp_text(written@) == Some(written@),
{
    match text.parse::<chrono::DateTime<chrono::FixedOffset>>() {
        Ok(time) => Some(
            time.with_timezone(&chrono::Utc).to_rfc3339_opts(chrono::SecondsFormat::AutoSi, true),
        ),
        Err(_) => None,
    }
}

/// `SystemTime::now`, made a `chrono::DateTime<Utc>` by `From` and written
/// by `to_rfc3339_opts`. Which time it is, nothing says; what is written is
/// a timestamp in its UTC form.
#[verifier::external_body]
fn utc_now_text() -> (s: String)
    ensures
        utc_timestamp_text(s@) == Some(s@),
{
    chrono::DateTime::<chrono::Utc>::from(std::time::SystemTime::now()).to_rfc3339_opts(
        chrono::SecondsFormat::AutoSi,
        true,
    )
}

/// A point in time, held as its text in UTC.
#[derive(Debug)]
pub struct Timestamp {
    text: String,
}

impl View for Timestamp {
    type V = Seq<char>;

    closed spec fn view(&self) -> Seq<char> {
        self.text@
    }
}

impl Clone for Timestamp {
    fn clone(&self) -> (t: Self)
        ensures
            t@ == self@,
    {
        proof {
            use_type_invariant(self);
        }
        Timestamp { text: self.text.clone() }
    }
}

impl Timestamp {
    /// The text of a timestamp is always a timestamp in its UTC form.
    #[verifier::type_invariant]
    pub open spec fn well_formed(self) -> bool {
        is_timestamp_text(self@)
    }

    /// The present time.
    pub fn now() -> (t: Timestamp)
        ensures
            is_timestamp_text(t@),
    {
        Timestamp { text: utc_now_text() }
    }

    /// The timestamp that `text` spells, where it spells one. Whatever the
    /// offset from UTC that the text is written with, the timestamp holds
    /// the same time in UTC.
    pub fn parse(text: &str) -> (r: Option<Timestamp>)
        ensures
            match utc_timestamp_text(text@) {
                Some(utc) => r matches Some(t) && t@ == utc && is_timestamp_text(utc),
                None => r is None,
            },
    {
        match utc_text(text) {
            Some(written) => Some(Timestamp { text: written }),
            None => None,
        }
    }

    /// The text of this timestamp.
    pub fn as_str(&self) -> (s: &str)
        ensures
            s@ == self@,
            is_timestamp_text(s@),
    {
        proof {
            use_type_invariant(self);
        }
        self.text.as_str()
    }
}

} // verus!
