//! Post-capture processing queue: task records, the retry policy, metrics,
//! and the decisions the worker loop makes between claiming, running and
//! settling tasks.
//!
//! Queue tasks are deliberately separate from capture: a slow or unavailable
//! model must not block persistence of raw evidence.
use vstd::prelude::*;
use std::time::Duration;
use crate::text::{string_from, append_str, u64_to_decimal, decimal, debug_optional, debug_optional_string};
use crate::raw_event::{new_event_id, is_hyphenated_uuid};
use crate::time::{duration_as_nanos, duration_from_millis, duration_as_millis};

verus! {

/// Attempts after which a failing task is marked failed instead of retried.
pub const MAX_RETRY_ATTEMPTS: u32 = 3;

/// Pending tasks beyond which new tasks are refused.
pub const MAX_PENDING_TASKS: u32 = 10_000;

/// Error recorded for a task whose processor panicked.
pub const PROVIDER_PANICKED: &'static str = "processing provider panicked";

/// Error recorded for image tasks, which have no native provider yet.
pub const IMAGE_TASKS_UNSUPPORTED: &'static str = "image processing is not wired to a native image provider";

// ---------------------------------------------------------------------------
// Metrics
// ---------------------------------------------------------------------------

/// Counters of the processing worker.
#[derive(Debug, PartialEq, Eq)]
pub struct ProcessingMetrics {
    pub completed: u64,
    pub failed: u64,
    pub panicked: u64,
    pub total_latency_ms: u128,
    pub last_model_name: Option<String>,
    pub last_model_version: Option<String>,
}

impl Default for ProcessingMetrics {
    fn default() -> (m: Self)
        ensures
            m.completed == 0,
            m.failed == 0,
            m.panicked == 0,
            m.total_latency_ms == 0,
            m.last_model_name is None,
            m.last_model_version is None,
    {
        ProcessingMetrics {
            completed: 0,
            failed: 0,
            panicked: 0,
            total_latency_ms: 0,
            last_model_name: None,
            last_model_version: None,
        }
    }
}

fn clone_optional(s: &Option<String>) -> (r: Option<String>)
    ensures
        r == *s,
{
    match s {
        Some(v) => Some(v.clone()),
        None => None,
    }
}

impl ProcessingMetrics {
    /// A copy of the current counters.
    pub fn snapshot(&self) -> (m: Self)
        ensures
            m == *self,
    {
        ProcessingMetrics {
            completed: self.completed,
            failed: self.failed,
            panicked: self.panicked,
            total_latency_ms: self.total_latency_ms,
            last_model_name: clone_optional(&self.last_model_name),
            last_model_version: clone_optional(&self.last_model_version),
        }
    }

    /// Clears every counter and the last model.
    pub fn reset(&mut self)
        ensures
            final(self).completed == 0,
            final(self).failed == 0,
            final(self).panicked == 0,
            final(self).total_latency_ms == 0,
            final(self).last_model_name is None,
            final(self).last_model_version is None,
    {
        *self = Self::default();
    }

    /// Counts one completed task.
    pub fn record_completed(&mut self)
        requires
            old(self).completed < u64::MAX,
        ensures
            *final(self) == (ProcessingMetrics { completed: (old(self).completed + 1) as u64, ..*old(self) }),
    {
        self.completed = self.completed + 1;
    }

    /// Counts one completed task and adds its latency (whole milliseconds).
    pub fn record_completed_with_latency(&mut self, latency: Duration)
        requires
            old(self).completed < u64::MAX,
            old(self).total_latency_ms + duration_as_nanos(latency) / 1_000_000 <= u128::MAX,
        ensures
            *final(self) == (ProcessingMetrics {
                completed: (old(self).completed + 1) as u64,
                total_latency_ms: (old(self).total_latency_ms + duration_as_nanos(latency)
                    / 1_000_000) as u128,
                ..*old(self)
            }),
    {
        self.record_completed();
        self.total_latency_ms = self.total_latency_ms + duration_as_millis(latency);
    }

    /// [`Self::record_completed_with_latency`] where the counters have room
    /// for it; otherwise the metrics stay as they are. Says whether the task
    /// was counted.
    pub fn try_record_completed_with_latency(&mut self, latency: Duration) -> (counted: bool)
        ensures
            counted == (old(self).completed < u64::MAX && old(self).total_latency_ms
                + duration_as_nanos(latency) / 1_000_000 <= u128::MAX),
            counted ==> *final(self) == (ProcessingMetrics {
                completed: (old(self).completed + 1) as u64,
                total_latency_ms: (old(self).total_latency_ms + duration_as_nanos(latency)
                    / 1_000_000) as u128,
                ..*old(self)
            }),
            !counted ==> *final(self) == *old(self),
    {
        let ms = duration_as_millis(latency);
        if self.completed < u64::MAX && ms <= u128::MAX - self.total_latency_ms {
            self.record_completed_with_latency(latency);
            true
        } else {
            false
        }
    }

    /// Counts one failed task.
    pub fn record_failed(&mut self)
        requires
            old(self).failed < u64::MAX,
        ensures
            *final(self) == (ProcessingMetrics { failed: (old(self).failed + 1) as u64, ..*old(self) }),
    {
        self.failed = self.failed + 1;
    }

    /// Counts one task whose processor panicked.
    pub fn record_panicked(&mut self)
        requires
            old(self).panicked < u64::MAX,
        ensures
            *final(self) == (ProcessingMetrics { panicked: (old(self).panicked + 1) as u64, ..*old(self) }),
    {
        self.panicked = self.panicked + 1;
    }

    /// Remembers the model that produced the last result.
    pub fn record_model(&mut self, name: &str, version: &str)
        ensures
            final(self).completed == old(self).completed,
            final(self).failed == old(self).failed,
            final(self).panicked == old(self).panicked,
            final(self).total_latency_ms == old(self).total_latency_ms,
            final(self).last_model_name matches Some(n) && n@ == name@,
            final(self).last_model_version matches Some(v) && v@ == version@,
    {
        self.last_model_name = Some(string_from(name));
        self.last_model_version = Some(string_from(version));
    }
}

// ---------------------------------------------------------------------------
// Tasks
// ---------------------------------------------------------------------------

/// Kind of work a queue task asks for.
#[derive(Debug, Clone, Copy, PartialEq, Eq, Structural)]
pub enum TaskType {
    SemanticTextAnalysis,
    SemanticImageAnalysis,
    EmbeddingGeneration,
}

/// Life-cycle state of a queue task.
#[derive(Debug, Clone, Copy, PartialEq, Eq, Structural)]
pub enum QueueStatus {
    Pending,
    Processing,
    Complete,
    Failed,
    Cancelled,
}

/// One unit of post-capture work on a raw event.
#[derive(Debug, Clone)]
pub struct QueueTask {
    pub id: String,
    pub raw_event_id: String,
    pub task_type: TaskType,
    pub status: QueueStatus,
    pub attempts: u32,
    pub priority: i32,
}

/// The stored name of a task type.
pub open spec fn task_type_name_spec(t: TaskType) -> Seq<char> {
    match t {
        TaskType::SemanticTextAnalysis => "semantic_text_analysis"@,
        TaskType::SemanticImageAnalysis => "semantic_image_analysis"@,
        TaskType::EmbeddingGeneration => "embedding_generation"@,
    }
}

/// The name under which a task type is stored (its snake_case name).
pub fn task_type_name(t: TaskType) -> (s: &'static str)
    ensures
        s@ == task_type_name_spec(t),
{
    match t {
        TaskType::SemanticTextAnalysis => "semantic_text_analysis",
        TaskType::SemanticImageAnalysis => "semantic_image_analysis",
        TaskType::EmbeddingGeneration => "embedding_generation",
    }
}

/// The stored name of a queue status.
pub open spec fn queue_status_name_spec(s: QueueStatus) -> Seq<char> {
    match s {
        QueueStatus::Pending => "pending"@,
        QueueStatus::Processing => "processing"@,
        QueueStatus::Complete => "complete"@,
        QueueStatus::Failed => "failed"@,
        QueueStatus::Cancelled => "cancelled"@,
    }
}

/// The name under which a queue status is stored (its snake_case name).
pub fn queue_status_name(s: QueueStatus) -> (n: &'static str)
    ensures
        n@ == queue_status_name_spec(s),
{
    match s {
        QueueStatus::Pending => "pending",
        QueueStatus::Processing => "processing",
        QueueStatus::Complete => "complete",
        QueueStatus::Failed => "failed",
        QueueStatus::Cancelled => "cancelled",
    }
}

/// The task type a stored name denotes; both the snake_case and the older
/// PascalCase spellings are read, and any other text means embedding work.
pub open spec fn task_type_from_name_spec(s: Seq<char>) -> TaskType {
    if s == "SemanticTextAnalysis"@ || s == "semantic_text_analysis"@ {
        TaskType::SemanticTextAnalysis
    } else if s == "SemanticImageAnalysis"@ || s == "semantic_image_analysis"@ {
        TaskType::SemanticImageAnalysis
    } else {
        TaskType::EmbeddingGeneration
    }
}

fn str_equals(a: &str, b: &str) -> (r: bool)
    ensures
        r == (a@ == b@),
{
    let x = string_from(a);
    let y = string_from(b);
    x == y
}

/// Reads a stored task type name back.
pub fn task_type_from_name(s: &str) -> (t: TaskType)
    ensures
        t == task_type_from_name_spec(s@),
{
    if str_equals(s, "SemanticTextAnalysis") || str_equals(s, "semantic_text_analysis") {
        TaskType::SemanticTextAnalysis
    } else if str_equals(s, "SemanticImageAnalysis") || str_equals(s, "semantic_image_analysis") {
        TaskType::SemanticImageAnalysis
    } else {
        TaskType::EmbeddingGeneration
    }
}

/// The task handed to the worker once the stored task `id` was claimed: it
/// is now processing, with one more attempt counted.
pub fn claimed_task(id: String, raw_event_id: String, task_type_name: &str, attempts: u32, priority: i32) -> (t: QueueTask)
    requires
        attempts < u32::MAX,
    ensures
        t.id == id,
        t.raw_event_id == raw_event_id,
        t.task_type == task_type_from_name_spec(task_type_name@),
        t.status == QueueStatus::Processing,
        t.attempts == attempts + 1,
        t.priority == priority,
{
    QueueTask {
        id,
        raw_event_id,
        task_type: task_type_from_name(task_type_name),
        status: QueueStatus::Processing,
        attempts: attempts + 1,
        priority,
    }
}

/// Priority of the embedding work queued after a text analysis, below
/// that of fresh analysis work.
pub const EMBEDDING_FOLLOW_UP_PRIORITY: i32 = -1;

/// The embedding task queued once the text analysis of `raw_event_id`
/// succeeded: a fresh identity, pending, no attempts yet.
pub fn embedding_follow_up_task(raw_event_id: String) -> (t: QueueTask)
    ensures
        is_hyphenated_uuid(t.id@),
        t.raw_event_id == raw_event_id,
        t.task_type == TaskType::EmbeddingGeneration,
        t.status == QueueStatus::Pending,
        t.attempts == 0,
        t.priority == EMBEDDING_FOLLOW_UP_PRIORITY,
{
    QueueTask {
        id: new_event_id(),
        raw_event_id,
        task_type: TaskType::EmbeddingGeneration,
        status: QueueStatus::Pending,
        attempts: 0,
        priority: EMBEDDING_FOLLOW_UP_PRIORITY,
    }
}

/// The context a model is given about a raw event: its application, window
/// title, event type and text, one per line, optional values as `{:?}`
/// prints them.
pub open spec fn event_context_spec(
    app_name: Option<Seq<char>>,
    window_title: Option<Seq<char>>,
    event_type: Seq<char>,
    text: Option<Seq<char>>,
) -> Seq<char> {
    "application: "@ + debug_optional(app_name) + "\nwindow: "@ + debug_optional(window_title)
        + "\nevent: "@ + event_type + "\ntext: "@ + debug_optional(text)
}

/// An optional string as plain values.
pub open spec fn optional_view(o: Option<String>) -> Option<Seq<char>> {
    match o {
        Some(s) => Some(s@),
        None => None,
    }
}

/// Builds the model context of a raw event.
pub fn event_context(
    app_name: &Option<String>,
    window_title: &Option<String>,
    event_type: &str,
    text: &Option<String>,
) -> (c: String)
    ensures
        c@ == event_context_spec(optional_view(*app_name), optional_view(*window_title), event_type@, optional_view(*text)),
{
    let mut c = string_from("application: ");
    let part = debug_optional_string(app_name);
    append_str(&mut c, part.as_str());
    append_str(&mut c, "\nwindow: ");
    let part = debug_optional_string(window_title);
    append_str(&mut c, part.as_str());
    append_str(&mut c, "\nevent: ");
    append_str(&mut c, event_type);
    append_str(&mut c, "\ntext: ");
    let part = debug_optional_string(text);
    append_str(&mut c, part.as_str());
    c
}

/// The model work a task asks for.
#[derive(Debug, Clone, Copy, PartialEq, Eq, Structural)]
pub enum ProcessingPlan {
    /// Describe the event's context, store the description and queue its
    /// embedding.
    AnalyzeText,
    /// Embed the event's context and store the vector with the event's
    /// description.
    Embed,
}

/// The work for a task type; image analysis has no provider yet and fails.
pub fn processing_plan(task_type: TaskType) -> (r: Result<ProcessingPlan, String>)
    ensures
        task_type == TaskType::SemanticTextAnalysis ==> r == Ok::<ProcessingPlan, String>(ProcessingPlan::AnalyzeText),
        task_type == TaskType::EmbeddingGeneration ==> r == Ok::<ProcessingPlan, String>(ProcessingPlan::Embed),
        task_type == TaskType::SemanticImageAnalysis ==> (r matches Err(e) && e@ == IMAGE_TASKS_UNSUPPORTED@),
{
    match task_type {
        TaskType::SemanticTextAnalysis => Ok(ProcessingPlan::AnalyzeText),
        TaskType::EmbeddingGeneration => Ok(ProcessingPlan::Embed),
        TaskType::SemanticImageAnalysis => Err(string_from(IMAGE_TASKS_UNSUPPORTED)),
    }
}

/// Whether a new task may be queued while `pending` tasks are pending.
pub fn queue_accepts(pending: i64) -> (r: bool)
    ensures
        r == (pending < MAX_PENDING_TASKS),
{
    pending < MAX_PENDING_TASKS as i64
}

// ---------------------------------------------------------------------------
// Retry policy
// ---------------------------------------------------------------------------

/// `2^n`.
pub open spec fn pow2(n: nat) -> nat
    decreases n,
{
    if n == 0 {
        1
    } else {
        2 * pow2((n - 1) as nat)
    }
}

/// Milliseconds to wait before retrying after failed attempt `attempt`:
/// 250 ms doubled per attempt, doubling at most eight times.
pub open spec fn retry_delay_ms_spec(attempt: u32) -> nat {
    250 * pow2(if attempt < 8 {
        attempt as nat
    } else {
        8
    })
}

proof fn lemma_pow2_at_most_256(n: nat)
    requires
        n <= 8,
    ensures
        1 <= pow2(n) <= pow2(8),
        pow2(8) == 256,
    decreases n,
{
    reveal_with_fuel(pow2, 9);
    if n > 0 {
        lemma_pow2_at_most_256((n - 1) as nat);
        lemma_pow2_monotone((n - 1) as nat, 7);
    }
}

proof fn lemma_pow2_monotone(a: nat, b: nat)
    requires
        a <= b,
    ensures
        pow2(a) <= pow2(b),
    decreases b,
{
    if a < b {
        lemma_pow2_monotone(a, (b - 1) as nat);
    }
}

/// The retry delay in milliseconds.
pub fn retry_delay_ms(attempt: u32) -> (ms: u64)
    ensures
        ms == retry_delay_ms_spec(attempt),
{
    let exponent: u32 = if attempt < 8 {
        attempt
    } else {
        8
    };
    let mut ms: u64 = 250;
    let mut i: u32 = 0;
    proof {
        lemma_pow2_at_most_256(exponent as nat);
    }
    while i < exponent
        invariant
            i <= exponent <= 8,
            ms == 250 * pow2(i as nat),
        decreases exponent - i,
    {
        proof {
            lemma_pow2_monotone(i as nat, 7);
            lemma_pow2_at_most_256(7);
            reveal_with_fuel(pow2, 9);
        }
        ms = ms * 2;
        i = i + 1;
    }
    ms
}

/// How long the worker pauses before retrying after failed attempt
/// `attempt`: 250 ms, doubling per attempt up to 64 s.
pub fn retry_delay(attempt: u32) -> (d: Duration)
    ensures
        duration_as_nanos(d) == retry_delay_ms_spec(attempt) * 1_000_000,
{
    duration_from_millis(retry_delay_ms(attempt))
}

/// Seconds until a failed task becomes claimable again: the retry delay in
/// whole seconds, at least one.
pub open spec fn retry_backoff_seconds_spec(attempt: u32) -> nat {
    let secs = retry_delay_ms_spec(attempt) / 1000;
    if secs < 1 {
        1
    } else {
        secs
    }
}

/// The retry timestamp offset (seconds) stored for a failed task.
pub fn retry_backoff_seconds(attempt: u32) -> (s: u64)
    ensures
        s == retry_backoff_seconds_spec(attempt),
{
    let secs = retry_delay_ms(attempt) / 1000;
    if secs < 1 {
        1
    } else {
        secs
    }
}

/// The retry delay never shrinks as attempts grow.
pub proof fn lemma_retry_delay_monotone(a: u32, b: u32)
    requires
        a <= b,
    ensures
        retry_delay_ms_spec(a) <= retry_delay_ms_spec(b),
{
    let ea: nat = if a < 8 { a as nat } else { 8 };
    let eb: nat = if b < 8 { b as nat } else { 8 };
    lemma_pow2_monotone(ea, eb);
}

/// Below the cap the retry delay doubles with each attempt; from attempt
/// eight on it stays at 64 seconds.
pub proof fn lemma_retry_delay_doubles(a: u32)
    ensures
        a < 8 ==> retry_delay_ms_spec((a + 1) as u32) == 2 * retry_delay_ms_spec(a),
        a >= 8 ==> retry_delay_ms_spec(a) == 64_000,
{
    if a >= 8 {
        lemma_pow2_at_most_256(8);
    }
}

// ---------------------------------------------------------------------------
// Worker decisions
// ---------------------------------------------------------------------------

/// What the worker does after asking the queue for a task.
#[derive(Debug)]
pub enum ClaimAction {
    /// Nothing was claimable: wait a moment and ask again.
    WaitForWork,
    /// A stop was requested: return processing tasks to pending and stop.
    RequeueAndStop,
    /// Run the processor on the claimed task.
    Process(QueueTask),
}

/// The worker's next step given what was claimed and whether a stop was
/// requested meanwhile.
pub fn after_claim(claimed: Option<QueueTask>, stop_requested: bool) -> (a: ClaimAction)
    ensures
        claimed is None ==> a is WaitForWork,
        claimed is Some && stop_requested ==> a is RequeueAndStop,
        claimed matches Some(t) ==> (!stop_requested ==> a == ClaimAction::Process(t)),
{
    match claimed {
        None => ClaimAction::WaitForWork,
        Some(task) => if stop_requested {
            ClaimAction::RequeueAndStop
        } else {
            ClaimAction::Process(task)
        },
    }
}

/// How the worker settles a task once its processor returned.
#[derive(Debug)]
pub enum SettleAction {
    /// Mark the task complete.
    Finish { task_id: String },
    /// Record the failure; when `retry`, the task returns to pending and the
    /// worker pauses `backoff_ms` first.
    Fail { task_id: String, error: String, retry: bool, attempt: u32, backoff_ms: Option<u64> },
}

/// Settles `task` given the processor's result: success completes it; a
/// failure is retried while the task has made fewer than
/// `MAX_RETRY_ATTEMPTS` attempts, after the retry delay of its attempt count.
pub fn settle_task(task: &QueueTask, result: Result<(), String>) -> (a: SettleAction)
    ensures
        result is Ok ==> (a matches SettleAction::Finish { task_id } && task_id@ == task.id@),
        result matches Err(err) ==> (a matches SettleAction::Fail {
            task_id,
            error,
            retry,
            attempt,
            backoff_ms,
        } && task_id@ == task.id@ && error@ == err@ && retry == (task.attempts < MAX_RETRY_ATTEMPTS)
            && attempt == task.attempts && backoff_ms == (if task.attempts < MAX_RETRY_ATTEMPTS {
            Some(retry_delay_ms_spec(task.attempts) as u64)
        } else {
            None
        })),
{
    match result {
        Ok(()) => SettleAction::Finish { task_id: string_from(task.id.as_str()) },
        Err(error) => {
            let retry = task.attempts < MAX_RETRY_ATTEMPTS;
            let backoff_ms = if retry {
                Some(retry_delay_ms(task.attempts))
            } else {
                None
            };
            SettleAction::Fail {
                task_id: string_from(task.id.as_str()),
                error,
                retry,
                attempt: task.attempts,
                backoff_ms,
            }
        },
    }
}

/// The SQLite time modifier selecting tasks started more than `minutes` ago.
pub fn stale_cutoff_modifier(minutes: u32) -> (m: String)
    ensures
        m@ == "-"@ + decimal(minutes as nat) + " minutes"@,
{
    let mut m = string_from("-");
    let digits = u64_to_decimal(minutes as u64);
    append_str(&mut m, digits.as_str());
    append_str(&mut m, " minutes");
    m
}

// ---------------------------------------------------------------------------
// Provider contracts
// ---------------------------------------------------------------------------

/// Produces a semantic description (model JSON) of text or an image.
pub trait SemanticAnalyzer: Send + Sync {
    fn analyze_text(&self, input: &str) -> Result<String, String>;

    fn analyze_image(&self, bytes: &[u8]) -> Result<String, String>;
}

/// Runs one queue task.
pub trait QueueTaskProcessor: Send + Sync {
    fn process(&self, task: &QueueTask) -> Result<(), String>;
}

} // verus!
