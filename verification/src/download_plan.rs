//! The decisions of a download task's run, apart from the downloading itself:
//! what a control signal asks for, which optional stages a task takes, what
//! to do after each batch, and the state the task ends in.
//!
//! The driver (downloading, storage, waiting) performs the actions these
//! functions choose and feeds back what happened.

use vstd::prelude::*;
use crate::task_status::TaskStatus;
use crate::types::CoordType;
use crate::throttle::{eased_delay, failure_delay, AdaptiveThrottle};
use crate::text::str_eq;

verus! {

/// Control signal of a running task.
#[derive(Debug, Clone, Copy, PartialEq, Eq, Structural)]
pub enum CtrlSignal {
    Run,
    Pause,
    Cancel,
}

/// What the main loop does on a control signal.
#[derive(Debug, Clone, Copy, PartialEq, Eq, Structural)]
pub enum LoopControl {
    /// Go on with the next batch.
    Proceed,
    /// Mark the task paused and wait for the next signal.
    WaitForSignal,
    /// Leave the loop.
    Stop,
}

/// The loop's answer to a signal read before a batch.
pub fn on_signal(sig: CtrlSignal) -> (r: LoopControl)
    ensures
        sig == CtrlSignal::Run ==> r == LoopControl::Proceed,
        sig == CtrlSignal::Pause ==> r == LoopControl::WaitForSignal,
        sig == CtrlSignal::Cancel ==> r == LoopControl::Stop,
{
    match sig {
        CtrlSignal::Run => LoopControl::Proceed,
        CtrlSignal::Pause => LoopControl::WaitForSignal,
        CtrlSignal::Cancel => LoopControl::Stop,
    }
}

/// The answer to a signal that arrives while paused: `Some(true)` resumes,
/// `Some(false)` stops, `None` keeps waiting.
pub fn on_signal_while_paused(sig: CtrlSignal) -> (r: Option<bool>)
    ensures
        sig == CtrlSignal::Run ==> r == Some(true),
        sig == CtrlSignal::Cancel ==> r == Some(false),
        sig == CtrlSignal::Pause ==> r is None,
{
    match sig {
        CtrlSignal::Run => Some(true),
        CtrlSignal::Cancel => Some(false),
        CtrlSignal::Pause => None,
    }
}

// ─── stages of a task ───────────────────────────────────────────────────────

/// `c` lower-cases (ASCII) to the lower-case letter or other character `l`:
/// it is `l`, or `l`'s upper-case letter.
pub open spec fn lowers_to(c: char, l: char) -> bool {
    c == l || ('a' <= l && l <= 'z' && (c as u32) + 32 == (l as u32))
}

/// `fmt.to_ascii_lowercase() == want`, for a lower-case `want`.
pub open spec fn ascii_lower_is(fmt: Seq<char>, want: Seq<char>) -> bool {
    fmt.len() == want.len() && forall|i: int| 0 <= i < fmt.len() ==> lowers_to(#[trigger] fmt[i], want[i])
}

/// Vector tile formats (`pbf`, `mvt`, in any ASCII case).
pub open spec fn vector_format(fmt: Seq<char>) -> bool {
    ascii_lower_is(fmt, "pbf"@) || ascii_lower_is(fmt, "mvt"@)
}

pub fn eq_ascii_lower(fmt: &str, want: &str) -> (r: bool)
    ensures
        r == ascii_lower_is(fmt@, want@),
{
    let f = crate::text::chars_of(fmt);
    let w = crate::text::chars_of(want);
    if f.len() != w.len() {
        return false;
    }
    let mut i: usize = 0;
    while i < f.len()
        invariant
            f@ == fmt@,
            w@ == want@,
            f.len() == w.len(),
            i <= f.len(),
            forall|k: int| 0 <= k < i ==> lowers_to(#[trigger] f@[k], w@[k]),
        decreases f.len() - i,
    {
        let c = f[i];
        let l = w[i];
        let ok = c == l || ('a' <= l && l <= 'z' && (c as u32) as u64 + 32 == (l as u32) as u64);
        if !ok {
            assert(!lowers_to(fmt@[i as int], want@[i as int]));
            return false;
        }
        i += 1;
    }
    true
}

/// Whether a tile format is a vector format (no pixel post-processing).
pub fn is_vector_format(fmt: &str) -> (r: bool)
    ensures
        r == vector_format(fmt@),
{
    eq_ascii_lower(fmt, "pbf") || eq_ascii_lower(fmt, "mvt")
}

/// The optional stages of a task.
#[derive(Debug, Clone, Copy, PartialEq, Eq, Structural)]
pub struct TaskPlan {
    /// Vector tiles: no pixel-based correction or clipping.
    pub vector: bool,
    /// GCJ-02 raster tiles: the download range is padded and the tiles are
    /// composited into place after downloading.
    pub gcj02_composite: bool,
    /// Boundary tiles are clipped while downloading.
    pub streaming_clip: bool,
    /// With a polygon, only tiles that meet it are enumerated (GCJ-02 raster
    /// tasks take the whole padded range instead).
    pub enumerate_by_polygon: bool,
}

/// The stages a task takes from its clipping choice, coordinate scheme,
/// tile format and whether it has a polygon.
pub open spec fn task_plan(clip_to_bounds: bool, coord: CoordType, fmt: Seq<char>, has_polygon: bool) -> TaskPlan {
    let vector = vector_format(fmt);
    let gcj = coord == CoordType::Gcj02 && !vector;
    TaskPlan {
        vector: vector,
        gcj02_composite: gcj,
        streaming_clip: clip_to_bounds && !vector && coord != CoordType::Gcj02,
        enumerate_by_polygon: has_polygon && !gcj,
    }
}

/// Plans the optional stages of a task.
pub fn plan_task(clip_to_bounds: bool, coord: CoordType, fmt: &str, has_polygon: bool) -> (r: TaskPlan)
    ensures
        r == task_plan(clip_to_bounds, coord, fmt@, has_polygon),
{
    let vector = is_vector_format(fmt);
    let gcj = coord == CoordType::Gcj02 && !vector;
    TaskPlan {
        vector,
        gcj02_composite: gcj,
        streaming_clip: clip_to_bounds && !vector && coord != CoordType::Gcj02,
        enumerate_by_polygon: has_polygon && !gcj,
    }
}

// ─── after each batch ───────────────────────────────────────────────────────

/// Batches between two "viewport" pauses.
pub const VIEWPORT_EVERY: u32 = 16;

/// Batches between two free-space checks.
pub const DISK_CHECK_EVERY: u32 = 50;

/// Free space below which a task stops (200 MiB).
pub const MIN_FREE_BYTES: u64 = 209715200;

/// What to do after a batch.
#[derive(Debug, Clone, Copy, PartialEq, Eq, Structural)]
pub struct BatchActions {
    /// Pause as a person would after looking over an area.
    pub viewport_pause: bool,
    /// Check the free space of the tile store's disk.
    pub check_disk: bool,
    /// Count down the retry cooldown before the next batch.
    pub cooldown: bool,
}

/// A batch with many failures: at least 4, and at least a quarter of it.
pub open spec fn failure_heavy(failed: nat, total: nat) -> bool {
    failed >= 4 && failed * 4 >= total
}

/// The actions after batch number `n` (counting from 1) in which `failed`
/// of `total` tiles failed, with a cooldown of `cooldown_secs` seconds.
pub open spec fn batch_actions(n: u32, failed: nat, total: nat, cooldown_secs: u64) -> BatchActions {
    BatchActions {
        viewport_pause: n % 16 == 0,
        check_disk: n % 50 == 0,
        cooldown: cooldown_secs > 0 && failure_heavy(failed, total),
    }
}

/// Counts a finished batch (`counter` batches before it) and chooses what
/// follows it; the counter wraps around as a `u32` does.
pub fn after_batch(counter: u32, failed: usize, total: usize, cooldown_secs: u64) -> (r: (u32, BatchActions))
    requires
        failed <= total,
    ensures
        r.0 == (if counter == u32::MAX { 0 } else { counter + 1 }),
        r.1 == batch_actions(r.0, failed as nat, total as nat, cooldown_secs),
{
    let n = counter.wrapping_add(1);
    let heavy = failed >= 4 && failed as u128 * 4 >= total as u128;
    (
        n,
        BatchActions {
            viewport_pause: n % VIEWPORT_EVERY == 0,
            check_disk: n % DISK_CHECK_EVERY == 0,
            cooldown: cooldown_secs > 0 && heavy,
        },
    )
}

/// What came of one tile's download task in a batch.
#[derive(Debug, Clone)]
pub enum TileAttempt {
    /// The tile arrived; the number of its bytes.
    Fetched(u64),
    /// The download failed with this error text (`cancelled` when the task
    /// was being cancelled).
    Errored(String),
    /// The download task itself was lost (it panicked or was aborted).
    Lost,
}

/// A failure that counts: an error other than a cancellation.
pub open spec fn counts_as_failure(a: TileAttempt) -> bool {
    a matches TileAttempt::Errored(m) && m@ != "cancelled"@
}

/// The throttle's failure run and extra delay after the outcomes, in the
/// order they were collected: each fetched tile reports a success, each
/// counted failure a failure; cancellations and lost tasks report nothing.
pub open spec fn throttle_after(f: nat, d: u64, s: Seq<TileAttempt>) -> (nat, u64)
    decreases s.len(),
{
    if s.len() == 0 {
        (f, d)
    } else {
        let prev = throttle_after(f, d, s.drop_last());
        match s.last() {
            TileAttempt::Fetched(_) => (0, eased_delay(prev.1)),
            TileAttempt::Errored(m) => if m@ != "cancelled"@ {
                ((prev.0 + 1) as nat, failure_delay((prev.0 + 1) as nat))
            } else {
                prev
            },
            TileAttempt::Lost => prev,
        }
    }
}

/// Number of fetched tiles.
pub open spec fn fetched_count(s: Seq<TileAttempt>) -> nat
    decreases s.len(),
{
    if s.len() == 0 {
        0
    } else {
        fetched_count(s.drop_last()) + if s.last() is Fetched { 1nat } else { 0nat }
    }
}

/// Number of counted failures.
pub open spec fn failed_count(s: Seq<TileAttempt>) -> nat
    decreases s.len(),
{
    if s.len() == 0 {
        0
    } else {
        failed_count(s.drop_last()) + if counts_as_failure(s.last()) { 1nat } else { 0nat }
    }
}

/// Bytes of the fetched tiles.
pub open spec fn fetched_bytes(s: Seq<TileAttempt>) -> nat
    decreases s.len(),
{
    if s.len() == 0 {
        0
    } else {
        fetched_bytes(s.drop_last()) + match s.last() {
            TileAttempt::Fetched(n) => n as nat,
            _ => 0nat,
        }
    }
}

proof fn lemma_fetched_bytes_prefix(s: Seq<TileAttempt>, i: int)
    requires
        0 <= i <= s.len(),
    ensures
        fetched_bytes(s.subrange(0, i)) <= fetched_bytes(s),
    decreases s.len() - i,
{
    if i < s.len() {
        lemma_fetched_bytes_prefix(s, i + 1);
        assert(s.subrange(0, i + 1).drop_last() =~= s.subrange(0, i));
    } else {
        assert(s.subrange(0, i) =~= s);
    }
}

/// The counts of a finished batch.
#[derive(Debug, Clone, Copy, PartialEq, Eq, Structural)]
pub struct BatchTally {
    pub downloaded: u64,
    pub failed: u64,
    pub bytes: u64,
}

/// Collects a batch's outcomes: counts the tiles fetched and failed and the
/// bytes that arrived, and tells the throttle of each success and counted
/// failure in turn.
pub fn tally_batch(throttle: &mut AdaptiveThrottle, attempts: &Vec<TileAttempt>) -> (r: BatchTally)
    requires
        old(throttle).failures() + attempts@.len() < u32::MAX,
        fetched_bytes(attempts@) <= u64::MAX,
    ensures
        r.downloaded == fetched_count(attempts@),
        r.failed == failed_count(attempts@),
        r.bytes == fetched_bytes(attempts@),
        (final(throttle).failures() as nat, final(throttle).delay())
            == throttle_after(old(throttle).failures() as nat, old(throttle).delay(), attempts@),
{
    let ghost f0 = throttle.failures() as nat;
    let ghost d0 = throttle.delay();
    let mut downloaded: u64 = 0;
    let mut failed: u64 = 0;
    let mut bytes: u64 = 0;
    let mut i: usize = 0;
    while i < attempts.len()
        invariant
            i <= attempts@.len(),
            f0 + attempts@.len() < u32::MAX,
            fetched_bytes(attempts@) <= u64::MAX,
            throttle.failures() <= f0 + i,
            (throttle.failures() as nat, throttle.delay()) == throttle_after(f0, d0, attempts@.subrange(0, i as int)),
            downloaded == fetched_count(attempts@.subrange(0, i as int)),
            failed == failed_count(attempts@.subrange(0, i as int)),
            bytes == fetched_bytes(attempts@.subrange(0, i as int)),
            downloaded + failed <= i,
        decreases attempts@.len() - i,
    {
        let ghost pre = attempts@.subrange(0, i as int);
        let ghost nxt = attempts@.subrange(0, i + 1);
        assert(nxt.drop_last() =~= pre);
        assert(nxt.last() == attempts@[i as int]);
        proof {
            lemma_fetched_bytes_prefix(attempts@, i + 1);
        }
        match &attempts[i] {
            TileAttempt::Fetched(n) => {
                throttle.report_success();
                downloaded = downloaded + 1;
                bytes = bytes + *n;
            },
            TileAttempt::Errored(m) => {
                if !str_eq(m.as_str(), "cancelled") {
                    throttle.report_failure();
                    failed = failed + 1;
                }
            },
            TileAttempt::Lost => {},
        }
        i += 1;
    }
    assert(attempts@.subrange(0, attempts@.len() as int) =~= attempts@);
    BatchTally { downloaded, failed, bytes }
}

/// However a batch goes, the throttle's extra delay stays within one second
/// when it started there, and a batch whose last counted outcome is a
/// fetched tile leaves no failure run.
pub proof fn lemma_throttle_after_bounded(f: nat, d: u64, s: Seq<TileAttempt>)
    requires
        d <= 1000,
    ensures
        throttle_after(f, d, s).1 <= 1000,
        s.len() > 0 && s.last() is Fetched ==> throttle_after(f, d, s).0 == 0,
    decreases s.len(),
{
    if s.len() > 0 {
        lemma_throttle_after_bounded(f, d, s.drop_last());
        let prev = throttle_after(f, d, s.drop_last());
        crate::throttle::lemma_delay_bounded(prev.0 + 1, prev.1);
    }
}

/// Whether the free space left calls for stopping the task.
pub fn disk_too_full(free_bytes: u64) -> (r: bool)
    ensures
        r == (free_bytes < MIN_FREE_BYTES),
{
    free_bytes < MIN_FREE_BYTES
}

// ─── after the loop ─────────────────────────────────────────────────────────

/// The stages that follow the download loop.
#[derive(Debug, Clone, Copy, PartialEq, Eq, Structural)]
pub struct PostSteps {
    /// Composite GCJ-02 tiles into place.
    pub composite: bool,
    /// Clip the downloaded tiles to the range in one pass.
    pub clip: bool,
}

/// The stages after the loop: none after a cancellation; GCJ-02
/// compositing when planned; a clipping pass when the task clips raster
/// tiles and streaming clipping did not complete.
pub open spec fn post_steps(plan: TaskPlan, clip_to_bounds: bool, cancelled: bool, streaming_clip_completed: bool) -> PostSteps {
    PostSteps {
        composite: plan.gcj02_composite && !cancelled,
        clip: clip_to_bounds && !plan.vector && !streaming_clip_completed && !cancelled,
    }
}

/// Chooses the stages after the download loop.
pub fn plan_post_steps(plan: TaskPlan, clip_to_bounds: bool, cancelled: bool, streaming_clip_completed: bool) -> (r: PostSteps)
    ensures
        r == post_steps(plan, clip_to_bounds, cancelled, streaming_clip_completed),
{
    PostSteps {
        composite: plan.gcj02_composite && !cancelled,
        clip: clip_to_bounds && !plan.vector && !streaming_clip_completed && !cancelled,
    }
}

/// A task's tiles counted by download state.
#[derive(Debug, Clone, Copy, PartialEq, Eq, Structural, Default)]
pub struct TileProgress {
    pub total: i64,
    pub downloaded: i64,
    pub failed: i64,
    pub pending: i64,
}

impl TileProgress {
    /// The counts from the number of tiles in all, downloaded and failed;
    /// every other tile is pending.
    pub fn from_counts(total: i64, downloaded: i64, failed: i64) -> (r: TileProgress)
        requires
            i64::MIN <= total - downloaded <= i64::MAX,
            i64::MIN <= total - downloaded - failed <= i64::MAX,
        ensures
            r.total == total,
            r.downloaded == downloaded,
            r.failed == failed,
            r.pending == total - downloaded - failed,
    {
        TileProgress { total, downloaded, failed, pending: total - downloaded - failed }
    }

    /// The tiles that a later run still has to fetch: pending and failed ones.
    pub fn remaining(&self) -> (r: i64)
        requires
            i64::MIN <= self.pending + self.failed <= i64::MAX,
        ensures
            r == self.pending + self.failed,
    {
        self.pending + self.failed
    }
}

/// The state a task ends in: cancelled when cancelled; else, when its
/// progress could be read, completed (nothing pending, nothing failed) or
/// completed with errors (nothing pending); paused otherwise.
pub open spec fn final_status_of(cancelled: bool, progress: Option<TileProgress>) -> TaskStatus {
    if cancelled {
        TaskStatus::Cancelled
    } else {
        match progress {
            Some(p) => if p.pending == 0 && p.failed == 0 {
                TaskStatus::Completed
            } else if p.pending == 0 {
                TaskStatus::CompletedWithErrors
            } else {
                TaskStatus::Paused
            },
            None => TaskStatus::Paused,
        }
    }
}

/// The state a task ends in, from whether it was cancelled and its
/// progress (`None` when it could not be read).
pub fn final_status(cancelled: bool, progress: Option<TileProgress>) -> (r: TaskStatus)
    ensures
        r == final_status_of(cancelled, progress),
{
    if cancelled {
        return TaskStatus::Cancelled;
    }
    match progress {
        Some(p) => {
            if p.pending == 0 && p.failed == 0 {
                TaskStatus::Completed
            } else if p.pending == 0 {
                TaskStatus::CompletedWithErrors
            } else {
                TaskStatus::Paused
            }
        },
        None => TaskStatus::Paused,
    }
}

/// Whether to notify the user of a finished task, from the
/// `app.download_notification` setting (on unless it is `false`) and the
/// final state (never for a cancelled task).
pub fn should_notify(setting: Option<&str>, status: TaskStatus) -> (r: bool)
    ensures
        r == (!(setting matches Some(s) && s@ == "false"@) && status != TaskStatus::Cancelled),
{
    let enabled = match setting {
        Some(s) => !crate::text::str_eq(s, "false"),
        None => true,
    };
    enabled && status != TaskStatus::Cancelled
}

/// A task ends completed exactly when it was not cancelled and its
/// progress shows nothing pending and nothing failed; it ends as one of the
/// completed states exactly when nothing is left pending.
pub proof fn lemma_final_status(cancelled: bool, progress: Option<TileProgress>)
    ensures
        (final_status_of(cancelled, progress) == TaskStatus::Completed) <==> (!cancelled
            && (progress matches Some(p) && p.pending == 0 && p.failed == 0)),
        (final_status_of(cancelled, progress) == TaskStatus::Completed
            || final_status_of(cancelled, progress) == TaskStatus::CompletedWithErrors) <==> (!cancelled
            && (progress matches Some(p) && p.pending == 0)),
        (final_status_of(cancelled, progress) == TaskStatus::Cancelled) <==> cancelled,
{
}

/// Streaming clipping and GCJ-02 compositing never both run, and vector
/// tasks take neither; a cancelled task runs no stage after the loop.
pub proof fn lemma_plan_exclusive(clip: bool, coord: CoordType, fmt: Seq<char>, poly: bool, streamed: bool)
    ensures
        !(task_plan(clip, coord, fmt, poly).streaming_clip && task_plan(clip, coord, fmt, poly).gcj02_composite),
        task_plan(clip, coord, fmt, poly).vector ==> !task_plan(clip, coord, fmt, poly).streaming_clip
            && !task_plan(clip, coord, fmt, poly).gcj02_composite,
        post_steps(task_plan(clip, coord, fmt, poly), clip, true, streamed) == (PostSteps { composite: false, clip: false }),
{
}

/// The free space is checked on exactly every 50th batch, and every 400th
/// batch brings both a viewport pause and a free-space check.
pub proof fn lemma_disk_checked_regularly(n: u32)
    ensures
        batch_actions(n, 0, 0, 0).check_disk <==> n % 50 == 0,
        n % 400 == 0 ==> batch_actions(n, 0, 0, 0).viewport_pause && batch_actions(n, 0, 0, 0).check_disk,
{
}

} // verus!
