//! Moments in time.

use vstd::prelude::*;

verus! {

/// A moment: whole seconds since 1970-01-01 00:00:00 UTC, and the nanoseconds
/// after that second (a billion or more of them within a leap second).
#[derive(Clone, Copy, Debug, PartialEq, Eq, Structural)]
pub struct Timestamp {
    pub secs: i64,
    pub nanos: u32,
}

impl Timestamp {
    /// The moment lies in the calendar, which spans the years -262143 to
    /// 262142; a leap second can only be the last of its minute.
    pub open spec fn in_calendar(self) -> bool {
        &&& -8334601228800 <= self.secs <= 8210266876799
        &&& self.nanos < 1_000_000_000 || (self.nanos < 2_000_000_000 && self.secs % 60 == 59)
    }

    /// `self` is not before `other`.
    pub open spec fn at_or_after(self, other: Timestamp) -> bool {
        self.secs > other.secs || (self.secs == other.secs && self.nanos >= other.nanos)
    }

    /// Whether the moment lies in the calendar.
    pub fn is_in_calendar(&self) -> (yes: bool)
        ensures
            yes == self.in_calendar(),
    {
        self.secs >= -8334601228800 && self.secs <= 8210266876799 && (self.nanos < 1_000_000_000 || (
        self.nanos < 2_000_000_000 && self.last_of_minute()))
    }

    fn last_of_minute(&self) -> (yes: bool)
        requires
            -8334601228800 <= self.secs <= 8210266876799,
        ensures
            yes == (self.secs % 60 == 59),
    {
        // Shifted by whole minutes so that the dividend is not negative.
        let shifted: i64 = self.secs + 8334601228800;
        shifted % 60 == 59
    }

    /// Whether `self` is not before `other`.
    pub fn not_before(&self, other: &Timestamp) -> (yes: bool)
        ensures
            yes == self.at_or_after(*other),
    {
        self.secs > other.secs || (self.secs == other.secs && self.nanos >= other.nanos)
    }
}

impl Timestamp {
    /// The calendar reaches so many seconds further back.
    pub open spec fn can_go_back(self, secs: u32) -> bool {
        self.back(secs).secs >= -8334601228800
    }

    /// The moment so many seconds earlier, at least one. A leap second counts
    /// as the second that follows it.
    pub open spec fn back(self, secs: u32) -> Timestamp {
        if self.nanos >= 1_000_000_000 {
            Timestamp {
                secs: (self.secs + 1 - secs) as i64,
                nanos: (self.nanos - 1_000_000_000) as u32,
            }
        } else {
            Timestamp { secs: (self.secs - secs) as i64, nanos: self.nanos }
        }
    }

    /// Whether the calendar reaches so many seconds further back.
    pub fn has_room_before(&self, secs: u32) -> (yes: bool)
        requires
            self.in_calendar(),
        ensures
            yes == self.can_go_back(secs),
    {
        self.back_by(secs).secs >= -8334601228800
    }

    /// The moment so many seconds earlier, at least one.
    pub fn back_by(&self, secs: u32) -> (earlier: Timestamp)
        requires
            self.in_calendar(),
        ensures
            earlier == self.back(secs),
    {
        if self.nanos >= 1_000_000_000 {
            Timestamp {
                secs: self.secs + 1 - secs as i64,
                nanos: self.nanos - 1_000_000_000,
            }
        } else {
            Timestamp { secs: self.secs - secs as i64, nanos: self.nanos }
        }
    }
}

/// `chrono::Utc::now`: the current moment of the system clock. It lies in the
/// calendar, not before 1970, and outside any leap second; nothing else is
/// known of it.
#[verifier::external_body]
pub(crate) fn utc_now() -> (now: Timestamp)
    ensures
        now.in_calendar(),
        0 <= now.secs,
        now.nanos < 1_000_000_000,
{
    let now = chrono::Utc::now();
    Timestamp { secs: now.timestamp(), nanos: now.timestamp_subsec_nanos() }
}

/// What `chrono` writes for a UTC moment (seconds and nanoseconds) under a
/// `strftime` pattern.
pub uninterp spec fn utc_pattern_text(secs: i64, nanos: u32, pattern: Seq<char>) -> Seq<char>;

/// The patterns in use.
pub open spec fn is_known_pattern(pattern: Seq<char>) -> bool {
    pattern == "%Y-%m-%d"@ || pattern == "%Y%m%d"@ || pattern == "%Y-%m-%d %H:%M:%S"@
}

/// `chrono::DateTime::format` on a UTC moment: the text is determined by the
/// moment and the pattern.
#[verifier::external_body]
pub(crate) fn format_utc(t: &Timestamp, pattern: &str) -> (text: String)
    requires
        t.in_calendar(),
        is_known_pattern(pattern@),
    ensures
        text@ == utc_pattern_text(t.secs, t.nanos, pattern@),
{
    chrono::DateTime::from_timestamp(t.secs, t.nanos).unwrap().format(pattern).to_string()
}

/// The text shows a moment as clocks show it that are so many seconds ahead of
/// UTC, less than a day either way.
pub open spec fn shows_ahead_by(
    text: Seq<char>,
    t: Timestamp,
    pattern: Seq<char>,
    offset: int,
) -> bool {
    &&& -86_400 < offset < 86_400
    &&& text == utc_pattern_text((t.secs + offset) as i64, t.nanos, pattern)
}

/// The text shows a moment as clocks show it in some time zone. Nothing is said
/// of a leap second, and of the first and the last day of the calendar, which
/// some zones do not have.
pub open spec fn is_local_text(text: Seq<char>, t: Timestamp, pattern: Seq<char>) -> bool {
    t.nanos < 1_000_000_000 && -8334601142400 <= t.secs <= 8210266790399
        ==> exists|offset: int| shows_ahead_by(text, t, pattern, offset)
}

/// `chrono::DateTime::format` on a moment moved to the machine's time zone: the
/// text is what is written for the UTC moment that is later by the offset of
/// that zone, which is less than a day. Which offset that is depends on the
/// machine and is not stated.
#[verifier::external_body]
pub(crate) fn format_local(t: &Timestamp, pattern: &str) -> (text: String)
    requires
        t.in_calendar(),
        is_known_pattern(pattern@),
    ensures
        is_local_text(text@, *t, pattern@),
{
    let utc = chrono::DateTime::from_timestamp(t.secs, t.nanos).unwrap();
    utc.with_timezone(&chrono::Local).format(pattern).to_string()
}

// ── Laws ───────────────────────────────────────────────────────────────────

/// Moments are ordered by their seconds, and within one second by their
/// nanoseconds: of two moments one is not before the other, both are so only if
/// they are the same, and the order carries over.
pub proof fn moments_are_ordered(a: Timestamp, b: Timestamp, c: Timestamp)
    ensures
        a.at_or_after(a),
        a.at_or_after(b) || b.at_or_after(a),
        a.at_or_after(b) && b.at_or_after(a) ==> a == b,
        a.at_or_after(b) && b.at_or_after(c) ==> a.at_or_after(c),
        a.secs > b.secs ==> a.at_or_after(b) && !b.at_or_after(a),
        a.secs == b.secs && a.nanos > b.nanos ==> a.at_or_after(b) && !b.at_or_after(a),
{
}

/// Going back by seconds leads to an earlier moment, by just that much.
pub proof fn back_is_earlier(t: Timestamp, secs: u32)
    requires
        t.in_calendar(),
        secs > 0,
    ensures
        t.at_or_after(t.back(secs)),
        t.nanos < 1_000_000_000 ==> t.back(secs).secs + secs == t.secs && t.back(secs).nanos
            == t.nanos,
        t.nanos >= 1_000_000_000 ==> t.back(secs).secs + secs == t.secs + 1 && t.back(secs).nanos
            + 1_000_000_000 == t.nanos,
        t.can_go_back(secs) ==> t.back(secs).in_calendar(),
{
}

} // verus!
