//! Points in time, read from the system clock and printed by the `chrono`
//! crate.

use vstd::prelude::*;

verus! {

/// What `chrono` prints for the instant `secs` whole seconds and `nanos`
/// nanoseconds after the start of 1970 in UTC: the text that a
/// `chrono::DateTime<Utc>` built by `DateTime::from_timestamp` displays, or
/// `None` when `chrono` has no such instant.
pub uninterp spec fn utc_text(secs: i64, nanos: u32) -> Option<Seq<char>>;

/// An instant that `chrono` can represent, held as whole seconds since the
/// start of 1970 in UTC and nanoseconds since the last whole second.
#[derive(Clone, Copy, Debug, PartialEq, Eq)]
pub struct Timestamp {
    secs: i64,
    nanos: u32,
}

impl Timestamp {
    #[verifier::type_invariant]
    spec fn representable(self) -> bool {
        utc_text(self.secs, self.nanos) is Some
    }

    /// Whole seconds since the start of 1970 in UTC.
    pub closed spec fn spec_secs(self) -> i64 {
        self.secs
    }

    /// Nanoseconds since the last whole second.
    pub closed spec fn spec_nanos(self) -> u32 {
        self.nanos
    }

    /// The text that `chrono` displays for this instant.
    pub open spec fn text(self) -> Seq<char> {
        utc_text(self.spec_secs(), self.spec_nanos())->0
    }

    /// Whether this instant is not later than `other`.
    pub open spec fn not_after(self, other: Timestamp) -> bool {
        self.spec_secs() < other.spec_secs() || (self.spec_secs() == other.spec_secs()
            && self.spec_nanos() <= other.spec_nanos())
    }

    /// The instant with the given parts, if `chrono` can represent it.
    pub fn from_parts(secs: i64, nanos: u32) -> (made: Option<Timestamp>)
        ensures
            made is Some <==> utc_text(secs, nanos) is Some,
            made matches Some(t) ==> t.spec_secs() == secs && t.spec_nanos() == nanos,
    {
        match render_utc(secs, nanos) {
            Some(_) => Some(Timestamp { secs, nanos }),
            None => None,
        }
    }

    /// The current time, as the system clock tells it: an instant that `chrono`
    /// can represent. Which instant it is depends on the clock alone.
    pub fn now() -> (now: Timestamp)
        ensures
            utc_text(now.spec_secs(), now.spec_nanos()) is Some,
    {
        read_clock()
    }

    /// Whole seconds since the start of 1970 in UTC.
    #[verifier::when_used_as_spec(spec_secs)]
    pub fn secs(self) -> (s: i64)
        ensures
            s == self.spec_secs(),
    {
        self.secs
    }

    /// Nanoseconds since the last whole second.
    #[verifier::when_used_as_spec(spec_nanos)]
    pub fn nanos(self) -> (n: u32)
        ensures
            n == self.spec_nanos(),
    {
        self.nanos
    }

    /// Whether this instant is not later than `other`.
    pub fn is_not_after(self, other: Timestamp) -> (b: bool)
        ensures
            b == self.not_after(other),
    {
        self.secs < other.secs || (self.secs == other.secs && self.nanos <= other.nanos)
    }

    /// The instant as `chrono` displays it.
    pub fn render(self) -> (shown: String)
        ensures
            shown@ == self.text(),
    {
        proof {
            use_type_invariant(self);
        }
        match render_utc(self.secs, self.nanos) {
            Some(shown) => shown,
            None => String::new(),
        }
    }
}

/// Two instants with the same parts are the same instant.
pub proof fn law_same_parts_same_instant(a: Timestamp, b: Timestamp)
    requires
        a.spec_secs() == b.spec_secs(),
        a.spec_nanos() == b.spec_nanos(),
    ensures
        a == b,
{
}

/// Instants are in a total order: of two instants one is not after the other,
/// each is not after itself, two that are not after each other are the same,
/// and what is not after an instant is not after a later one.
pub proof fn law_instants_are_ordered(a: Timestamp, b: Timestamp, c: Timestamp)
    ensures
        a.not_after(a),
        a.not_after(b) || b.not_after(a),
        a.not_after(b) && b.not_after(a) ==> a == b,
        a.not_after(b) && b.not_after(c) ==> a.not_after(c),
{
}

/// Reads the system clock with `chrono::Utc::now` and takes the instant apart
/// with `DateTime::timestamp` and `DateTime::timestamp_subsec_nanos`.
///
/// Trusted: nothing is assumed about the time read, except that the parts of a
/// `DateTime` that `chrono` has made are parts `chrono` accepts back, as its
/// documentation guarantees. `Utc::now` panics when the system clock is set
/// before 1970.
#[verifier::external_body]
fn read_clock() -> (now: Timestamp)
    ensures
        utc_text(now.secs, now.nanos) is Some,
{
    let now = chrono::Utc::now();
    Timestamp { secs: now.timestamp(), nanos: now.timestamp_subsec_nanos() }
}

/// Builds the instant with `chrono::DateTime::from_timestamp` and prints it
/// with the `Display` of `DateTime<Utc>`.
///
/// Trusted: the result is taken to be a function of the two numbers alone,
/// named [`utc_text`].
#[verifier::external_body]
fn render_utc(secs: i64, nanos: u32) -> (shown: Option<String>)
    ensures
        shown is Some <==> utc_text(secs, nanos) is Some,
        shown matches Some(text) ==> utc_text(secs, nanos) == Some(text@),
{
    match chrono::DateTime::from_timestamp(secs, nanos) {
        Some(instant) => Some(instant.to_string()),
        None => None,
    }
}

} // verus!
