//! Points in time, in nanoseconds since the Unix epoch.

use vstd::prelude::*;

verus! {

/// The earliest representable instant.
pub const MIN_NANOS: i128 = -377_705_023_201_000_000_000;

/// The latest representable instant.
pub const MAX_NANOS: i128 = 253_402_207_200_999_999_999;

/// The text of an instant, as `jiff::Timestamp` displays it.
pub uninterp spec fn instant_text(nanos: int) -> Seq<char>;

/// The instant that `jiff::Timestamp` reads from a text, if it accepts it.
pub uninterp spec fn parsed_instant(text: Seq<char>) -> Option<i128>;

/// An instant between `MIN_NANOS` and `MAX_NANOS`.
#[derive(Debug, Clone, Copy, PartialEq, Eq, Structural)]
pub struct Timestamp {
    nanos: i128,
}

impl View for Timestamp {
    type V = int;

    closed spec fn view(&self) -> int {
        self.nanos as int
    }
}

impl DeepView for Timestamp {
    type V = int;

    open spec fn deep_view(&self) -> int {
        self@
    }
}

/// `jiff::Timestamp::now`: the system clock, within the representable range.
#[verifier::external_body]
fn clock_nanos() -> (nanos: i128)
    ensures
        MIN_NANOS <= nanos <= MAX_NANOS,
{
    jiff::Timestamp::now().as_nanosecond()
}

/// `Display` of a `jiff::Timestamp`: RFC 3339 text in UTC, with as many
/// fractional digits as it takes to lose nothing, so that reading the text
/// gives the instant back.
#[verifier::external_body]
fn nanos_to_text(nanos: i128) -> (text: String)
    requires
        MIN_NANOS <= nanos <= MAX_NANOS,
    ensures
        text@ == instant_text(nanos as int),
        parsed_instant(text@) == Some(nanos),
{
    jiff::Timestamp::from_nanosecond(nanos).unwrap().to_string()
}

/// `FromStr` of `jiff::Timestamp`: what it reads is named; it lies within the
/// representable range.
#[verifier::external_body]
fn nanos_from_text(text: &str) -> (nanos: Option<i128>)
    ensures
        nanos == parsed_instant(text@),
        nanos matches Some(n) ==> MIN_NANOS <= n <= MAX_NANOS,
{
    text.parse::<jiff::Timestamp>().ok().map(|t| t.as_nanosecond())
}

impl Timestamp {
    #[verifier::type_invariant]
    spec fn in_range(self) -> bool {
        MIN_NANOS <= self.nanos <= MAX_NANOS
    }

    /// The current time.
    pub fn now() -> (t: Timestamp)
        ensures
            MIN_NANOS <= t@ <= MAX_NANOS,
    {
        Timestamp { nanos: clock_nanos() }
    }

    /// The instant `nanos` nanoseconds after the Unix epoch, or `None` outside
    /// the representable range.
    pub fn from_nanosecond(nanos: i128) -> (t: Option<Timestamp>)
        ensures
            t is Some <==> MIN_NANOS <= nanos <= MAX_NANOS,
            t matches Some(t) ==> t@ == nanos,
    {
        if MIN_NANOS <= nanos && nanos <= MAX_NANOS {
            Some(Timestamp { nanos })
        } else {
            None
        }
    }

    /// Nanoseconds since the Unix epoch.
    pub fn as_nanosecond(&self) -> (nanos: i128)
        ensures
            nanos == self@,
            MIN_NANOS <= nanos <= MAX_NANOS,
    {
        proof {
            use_type_invariant(self);
        }
        self.nanos
    }

    /// The RFC 3339 text of the instant. Reading it with [`Timestamp::parse`]
    /// gives the instant back.
    pub fn to_string(&self) -> (text: String)
        ensures
            text@ == instant_text(self@),
            parsed_instant(text@) matches Some(n) && n == self@,
    {
        proof {
            use_type_invariant(self);
        }
        nanos_to_text(self.nanos)
    }

    /// Reads an RFC 3339 text.
    pub fn parse(text: &str) -> (t: Option<Timestamp>)
        ensures
            match parsed_instant(text@) {
                Some(n) => t matches Some(t) && t@ == n,
                None => t is None,
            },
    {
        match nanos_from_text(text) {
            Some(nanos) => Some(Timestamp { nanos }),
            None => None,
        }
    }
}

} // verus!
