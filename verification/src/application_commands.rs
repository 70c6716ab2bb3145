//! What the desktop commands answer: input clamping, the status records the
//! user interface shows, and their assembly from stored rows.
use vstd::prelude::*;
use crate::text::string_from;
use crate::activity_capture::running_on_windows;
use crate::asynchronous_processing_queue::{MAX_RETRY_ATTEMPTS, MAX_PENDING_TASKS};

verus! {

/// Answer of the liveness probe.
pub fn health_check() -> (r: &'static str)
    ensures
        r@ == "ok"@,
{
    "ok"
}

/// Fewest events a listing returns.
pub const MIN_LISTED_EVENTS: u32 = 1;

/// Most events a listing returns.
pub const MAX_LISTED_EVENTS: u32 = 500;

/// The number of events a listing asks the database for: the requested
/// `limit` brought into `1..=500`.
pub fn clamp_event_limit(limit: u32) -> (r: u32)
    ensures
        r == (if limit < MIN_LISTED_EVENTS {
            MIN_LISTED_EVENTS
        } else if limit > MAX_LISTED_EVENTS {
            MAX_LISTED_EVENTS
        } else {
            limit
        }),
{
    if limit < MIN_LISTED_EVENTS {
        MIN_LISTED_EVENTS
    } else if limit > MAX_LISTED_EVENTS {
        MAX_LISTED_EVENTS
    } else {
        limit
    }
}

/// Whether capture is switched on, running, possible here, and how many
/// events are stored.
#[derive(Debug, Clone)]
pub struct CaptureStatus {
    pub enabled: bool,
    pub foreground_provider_available: bool,
    pub active: bool,
    pub persisted_event_count: i64,
}

impl CaptureStatus {
    /// The status for the given setting, run state and event count; the
    /// foreground provider is available on Windows only.
    pub fn new(enabled: bool, active: bool, persisted_event_count: i64) -> (s: Self)
        ensures
            s.enabled == enabled,
            s.active == active,
            s.persisted_event_count == persisted_event_count,
    {
        CaptureStatus {
            enabled,
            foreground_provider_available: running_on_windows(),
            active,
            persisted_event_count,
        }
    }
}

/// How many queue tasks are in each state.
#[derive(Debug, Clone)]
pub struct ProcessingQueueStatus {
    pub pending: i64,
    pub processing: i64,
    pub complete: i64,
    pub failed: i64,
    pub cancelled: i64,
}

/// The count stored for `status` among `(status, count)` rows: the last row
/// naming it, as a map filled row by row keeps; zero when none does.
pub open spec fn count_for(rows: Seq<(Seq<char>, i64)>, status: Seq<char>) -> i64
    decreases rows.len(),
{
    if rows.len() == 0 {
        0
    } else if rows.last().0 == status {
        rows.last().1
    } else {
        count_for(rows.drop_last(), status)
    }
}

/// Rows of the per-status count query as plain values.
pub open spec fn count_rows(rows: Seq<(String, i64)>) -> Seq<(Seq<char>, i64)> {
    rows.map_values(|r: (String, i64)| (r.0@, r.1))
}

/// Looks up the count of one status.
fn count_of(rows: &Vec<(String, i64)>, status: &str) -> (c: i64)
    ensures
        c == count_for(count_rows(rows@), status@),
{
    let ghost views = count_rows(rows@);
    let key = string_from(status);
    let mut i: usize = rows.len();
    assert(views.take(i as int) =~= views);
    while i > 0
        invariant
            views == count_rows(rows@),
            key@ == status@,
            i <= rows@.len(),
            count_for(views, status@) == count_for(views.take(i as int), status@),
        decreases i,
    {
        let ghost prefix = views.take(i as int);
        assert(prefix.drop_last() =~= views.take(i - 1));
        assert(prefix.last() == views[i - 1]);
        if rows[i - 1].0 == key {
            return rows[i - 1].1;
        }
        i = i - 1;
    }
    assert(views.take(0) =~= Seq::<(Seq<char>, i64)>::empty());
    0
}

impl ProcessingQueueStatus {
    /// The status from the `(status, count)` rows of the queue; a state with
    /// no row counts zero.
    pub fn from_counts(rows: &Vec<(String, i64)>) -> (s: Self)
        ensures
            s.pending == count_for(count_rows(rows@), "pending"@),
            s.processing == count_for(count_rows(rows@), "processing"@),
            s.complete == count_for(count_rows(rows@), "complete"@),
            s.failed == count_for(count_rows(rows@), "failed"@),
            s.cancelled == count_for(count_rows(rows@), "cancelled"@),
    {
        ProcessingQueueStatus {
            pending: count_of(rows, "pending"),
            processing: count_of(rows, "processing"),
            complete: count_of(rows, "complete"),
            failed: count_of(rows, "failed"),
            cancelled: count_of(rows, "cancelled"),
        }
    }
}

/// The state of one queue task of an event.
#[derive(Debug, Clone)]
pub struct EventProcessingStatus {
    pub task_type: String,
    pub status: String,
    pub attempts: u32,
    pub error: Option<String>,
}

/// A status record as plain values.
pub open spec fn status_view(s: EventProcessingStatus) -> (Seq<char>, Seq<char>, u32, Option<Seq<char>>) {
    (s.task_type@, s.status@, s.attempts, match s.error {
        Some(e) => Some(e@),
        None => None,
    })
}

/// A `(task_type, status, attempts, error)` row as plain values.
pub open spec fn row_view(r: (String, String, u32, Option<String>)) -> (Seq<char>, Seq<char>, u32, Option<Seq<char>>) {
    (r.0@, r.1@, r.2, match r.3 {
        Some(e) => Some(e@),
        None => None,
    })
}

/// One status record per stored task row, in the order of the rows.
pub fn event_processing_statuses(rows: Vec<(String, String, u32, Option<String>)>) -> (r: Vec<EventProcessingStatus>)
    ensures
        r@.len() == rows@.len(),
        forall|i: int| 0 <= i < rows@.len() ==> status_view(#[trigger] r@[i]) == row_view(rows@[i]),
{
    let ghost original = rows@;
    let mut rows = rows;
    let mut out: Vec<EventProcessingStatus> = Vec::new();
    let mut i: usize = 0;
    let n = rows.len();
    while i < n
        invariant
            n == original.len(),
            rows@.len() == n,
            i <= n,
            out@.len() == i,
            forall|k: int| 0 <= k < i ==> status_view(#[trigger] out@[k]) == row_view(original[k]),
            forall|k: int| i <= k < n ==> #[trigger] rows@[k] == original[k],
        decreases n - i,
    {
        let mut row = (String::new(), String::new(), 0u32, None);
        std::mem::swap(&mut row, &mut rows[i]);
        assert(row == original[i as int]);
        let (task_type, status, attempts, error) = row;
        out.push(EventProcessingStatus { task_type, status, attempts, error });
        i = i + 1;
    }
    out
}

/// Which providers serve semantic analysis and embeddings, and whether each
/// is usable.
#[derive(Debug, Clone)]
pub struct ModelProviderStatus {
    pub semantic_provider: String,
    pub embedding_provider: String,
    pub semantic_available: bool,
    pub embedding_available: bool,
}

/// The providers as configured: the local contract for semantic analysis,
/// not yet available, and the SQLite fallback for embeddings.
pub fn model_provider_status() -> (s: ModelProviderStatus)
    ensures
        s.semantic_provider@ == "local-contract"@,
        s.embedding_provider@ == "sqlite-fallback"@,
        !s.semantic_available,
        s.embedding_available,
{
    ModelProviderStatus {
        semantic_provider: string_from("local-contract"),
        embedding_provider: string_from("sqlite-fallback"),
        semantic_available: false,
        embedding_available: true,
    }
}

/// The bounds the processing queue works within.
#[derive(Debug, Clone)]
pub struct ProcessingQueueLimits {
    pub max_retry_attempts: u32,
    pub max_pending_tasks: u32,
}

/// The queue's retry and backlog bounds.
pub fn processing_queue_limits() -> (l: ProcessingQueueLimits)
    ensures
        l.max_retry_attempts == MAX_RETRY_ATTEMPTS,
        l.max_pending_tasks == MAX_PENDING_TASKS,
{
    ProcessingQueueLimits { max_retry_attempts: MAX_RETRY_ATTEMPTS, max_pending_tasks: MAX_PENDING_TASKS }
}

} // verus!
