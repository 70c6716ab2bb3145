//! The normalized raw-event record every capture source produces, and the
//! identity and time stamp each new event receives.
use vstd::prelude::*;
use crate::text::string_from;
use crate::time::{system_now, since_unix_epoch, span_since_epoch, duration_as_secs, duration_subsec_nanos, duration_as_nanos};
use std::time::{Duration, SystemTime};

verus! {

/// A normalized piece of captured evidence. Raw events are append-only:
/// semantic records derived from them can be regenerated, these cannot.
///
/// `confidence_permille` is the capture's confidence in thousandths
/// (1000 is certain).
#[derive(Debug, Clone)]
pub struct RawEvent {
    pub id: String,
    pub timestamp_ns: i64,
    pub event_type: String,
    pub source: String,
    pub app_name: Option<String>,
    pub executable_path: Option<String>,
    pub process_id: Option<u32>,
    pub window_handle: Option<u64>,
    pub window_title: Option<String>,
    pub element_name: Option<String>,
    pub text: Option<String>,
    pub file_path: Option<String>,
    pub metadata_json: String,
    pub privacy_class: String,
    pub confidence_permille: u16,
    pub created_at: String,
}

/// Confidence of events observed directly from the operating system.
pub const FULL_CONFIDENCE_PERMILLE: u16 = 1000;

/// Identity and time of a new event.
#[derive(Debug, Clone)]
pub struct EventStamp {
    pub id: String,
    pub timestamp_ns: i64,
    pub created_at: String,
}

/// Whether `s` has the shape of a hyphenated UUID: 36 characters with
/// hyphens at positions 8, 13, 18 and 23.
pub open spec fn is_hyphenated_uuid(s: Seq<char>) -> bool {
    &&& s.len() == 36
    &&& s[8] == '-'
    &&& s[13] == '-'
    &&& s[18] == '-'
    &&& s[23] == '-'
}

/// `Uuid::new_v4().to_string()`: a random version-4 UUID in hyphenated
/// lower-case form. Random, so only its shape is promised.
#[verifier::external_body]
pub(crate) fn new_event_id() -> (id: String)
    ensures
        is_hyphenated_uuid(id@),
{
    uuid::Uuid::new_v4().to_string()
}

/// What `DateTime::<Utc>::from_timestamp(secs, nsecs)` written out with
/// `to_rfc3339` gives.
pub uninterp spec fn utc_rfc3339_text(secs: i64, nsecs: u32) -> Option<Seq<char>>;

/// `DateTime::<Utc>::from_timestamp(secs, nsecs)` written out with
/// `to_rfc3339`: the UTC date and time `secs` seconds and `nsecs`
/// nanoseconds after the Unix epoch as RFC 3339 text, or `None` when that
/// lies outside chrono's range of dates or `nsecs` is not a valid
/// nanosecond. Neither call panics on a date `from_timestamp` returned.
#[verifier::external_body]
fn rfc3339_at(secs: i64, nsecs: u32) -> (s: Option<String>)
    ensures
        (match s {
            Some(t) => Some(t@),
            None => None,
        }) == utc_rfc3339_text(secs, nsecs),
{
    chrono::DateTime::<chrono::Utc>::from_timestamp(secs, nsecs).map(|t| t.to_rfc3339())
}

/// The nanosecond time stamp of a clock reading taken `since` the Unix
/// epoch: the span in nanoseconds, or zero when the reading lies before
/// the epoch (`None`) or the span does not fit an `i64`.
pub open spec fn stamp_timestamp(since: Option<Duration>) -> i64 {
    match since {
        Some(d) => if duration_as_nanos(d) <= i64::MAX {
            duration_as_nanos(d) as i64
        } else {
            0
        },
        None => 0,
    }
}

/// The RFC 3339 creation text of a clock reading taken `since` the Unix
/// epoch: the UTC date and time of its whole seconds and nanoseconds, or
/// empty when the reading lies before the epoch or outside chrono's range
/// of dates.
pub open spec fn stamp_created_text(since: Option<Duration>) -> Seq<char> {
    match since {
        Some(d) => {
            let secs = duration_as_nanos(d) / 1_000_000_000;
            if secs <= i64::MAX {
                match utc_rfc3339_text(secs as i64, (duration_as_nanos(d) % 1_000_000_000) as u32) {
                    Some(text) => text,
                    None => seq![],
                }
            } else {
                seq![]
            }
        },
        None => seq![],
    }
}

/// Whether a time stamp and creation text are those of the clock reading
/// `t`.
pub open spec fn stamped_at(timestamp_ns: i64, created_at: Seq<char>, t: SystemTime) -> bool {
    timestamp_ns == stamp_timestamp(span_since_epoch(t)) && created_at == stamp_created_text(
        span_since_epoch(t),
    )
}

/// The stamp of a new event with identity `id`, for a clock reading taken
/// `since` the Unix epoch (`None`: before it).
pub fn stamp_from(id: String, since: Option<Duration>) -> (s: EventStamp)
    ensures
        s.id@ == id@,
        s.timestamp_ns == stamp_timestamp(since),
        s.created_at@ == stamp_created_text(since),
{
    let mut timestamp_ns: i64 = 0;
    let mut created_at = String::new();
    if let Some(since) = since {
        let secs = duration_as_secs(since);
        let nsecs = duration_subsec_nanos(since);
        let total: u128 = secs as u128 * 1_000_000_000 + nsecs as u128;
        assert(total == duration_as_nanos(since)) by (nonlinear_arith)
            requires
                secs == duration_as_nanos(since) / 1_000_000_000,
                nsecs == duration_as_nanos(since) % 1_000_000_000,
                total == secs * 1_000_000_000 + nsecs,
        ;
        if total <= i64::MAX as u128 {
            timestamp_ns = total as i64;
        }
        if secs <= i64::MAX as u64 {
            if let Some(text) = rfc3339_at(secs as i64, nsecs) {
                created_at = text;
            }
        }
    }
    EventStamp { id, timestamp_ns, created_at }
}

/// A fresh identity and the current time for a new event: [`stamp_from`]
/// applied to a new id and to the span from the Unix epoch to the system
/// clock's reading.
pub fn stamp_now() -> (s: EventStamp)
    ensures
        is_hyphenated_uuid(s.id@),
        exists|t: SystemTime| #[trigger] stamped_at(s.timestamp_ns, s.created_at@, t),
        s.timestamp_ns >= 0,
{
    let id = new_event_id();
    let now = system_now();
    let since = since_unix_epoch(&now);
    let s = stamp_from(id, since);
    assert(stamped_at(s.timestamp_ns, s.created_at@, now));
    s
}

/// The event recorded once on first start, so a fresh installation shows a
/// healthy, non-empty timeline.
pub fn system_ready_event(stamp: EventStamp) -> (e: RawEvent)
    ensures
        e.id@ == stamp.id@,
        e.timestamp_ns == stamp.timestamp_ns,
        e.created_at@ == stamp.created_at@,
        e.event_type@ == "system_ready"@,
        e.source@ == "chronicle"@,
        e.app_name matches Some(a) && a@ == "Chronicle"@,
        e.window_title matches Some(t) && t@ == "Desktop shell initialized"@,
        e.executable_path is None,
        e.process_id is None,
        e.window_handle is None,
        e.element_name is None,
        e.text is None,
        e.file_path is None,
        e.metadata_json@ == "{}"@,
        e.privacy_class@ == "safe"@,
        e.confidence_permille == FULL_CONFIDENCE_PERMILLE,
{
    RawEvent {
        id: stamp.id,
        timestamp_ns: stamp.timestamp_ns,
        event_type: string_from("system_ready"),
        source: string_from("chronicle"),
        app_name: Some(string_from("Chronicle")),
        executable_path: None,
        process_id: None,
        window_handle: None,
        window_title: Some(string_from("Desktop shell initialized")),
        element_name: None,
        text: None,
        file_path: None,
        metadata_json: string_from("{}"),
        privacy_class: string_from("safe"),
        confidence_permille: FULL_CONFIDENCE_PERMILLE,
        created_at: stamp.created_at,
    }
}

/// Whether a database holding `event_count` events needs its first-start
/// event: only while it holds none.
pub open spec fn seeding_needed(event_count: int) -> bool {
    event_count == 0
}

/// Whether the database needs its first-start event.
pub fn needs_ready_event(event_count: i64) -> (r: bool)
    ensures
        r == seeding_needed(event_count as int),
{
    event_count == 0
}

/// First-run seeding happens once: once the ready event is stored the
/// database holds an event, so seeding again adds nothing.
pub proof fn law_seeding_is_idempotent(event_count: int)
    requires
        event_count >= 0,
    ensures
        seeding_needed(event_count) ==> !seeding_needed(event_count + 1),
{
}

} // verus!
