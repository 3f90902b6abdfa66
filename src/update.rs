//! The state machine that drives a sync. Each step takes the outcome of
//! the outside work the previous step asked for (an event), decides the
//! next stage, reports one progress event, and names the next outside work
//! (an action). The caller performs the actions and feeds back events.

use crate::compare::{Compared, LocalFileInfo};
use crate::download::SyncError;
use crate::error::ClientError;
use crate::manifest::RemoteFileInfo;
use crate::paths::safe_relative;
use crate::progress::ProgressDetails;
use crate::unpack::{check_destination, is_supported_method, supported_method};
use vstd::prelude::*;
use vstd::string::StringExecFns;
use vstd::utf8::encode_utf8;

verus! {

/// Batches whose range requests may be in flight at once.
pub const NUM_PARALLEL_DOWNLOADS: usize = 15;

#[derive(Clone, Copy, Debug, PartialEq, Eq, Structural)]
pub enum Stage {
    ToBeEvaluated,
    InitializeSync,
    Sync,
    Finalizing,
    Finished,
}

/// What the outside work of one step reported.
#[derive(Clone, Copy, Debug, PartialEq, Eq, Structural)]
pub struct Tick {
    pub batches_finished: usize,
    pub unzips_started: usize,
    pub unzips_finished: usize,
    pub deletion_finished: bool,
    pub bytes: u64,
    pub now_ms: u64,
}

/// The outcome of the outside work, handed to the next step.
#[derive(Debug)]
pub enum Event {
    /// The version endpoint could not be reached.
    Offline,
    /// Some outside work failed.
    Failed(ClientError),
    /// The manifest was read, the local tree scanned and both diffed.
    Evaluated(Compared),
    /// The caller agreed to start downloading.
    Confirmed { now_ms: u64 },
    Tick(Tick),
    /// The final platform pass is done.
    Finalized,
}

/// The outside work a step asks for.
#[derive(Debug)]
pub enum Action {
    Nothing,
    DeleteFiles(Vec<LocalFileInfo>),
    /// Fetch these batches, each with one range request, and unpack them.
    StartBatches(Vec<Vec<RemoteFileInfo>>),
    /// Set executable bits or run the platform patcher on the launcher's
    /// executables and store the profile.
    Finalize,
}

/// What a step reports to its caller.
#[derive(Debug)]
pub enum Progress {
    Evaluating,
    ReadyToSync { total_bytes: u64 },
    Syncing { processed_bytes: u64, total_bytes: u64, bytes_per_sec: u64 },
    Successful,
    Errored(ClientError),
    Offline,
}

/// The state of a sync.
#[derive(Debug)]
pub struct Updater {
    pub stage: Stage,
    /// Batches not started yet.
    pub queued: Vec<Vec<RemoteFileInfo>>,
    /// Local files to remove once syncing starts.
    pub deletions: Vec<LocalFileInfo>,
    pub in_flight: usize,
    pub unzips_pending: usize,
    pub deletion_pending: bool,
    pub total_bytes: u64,
    pub progress: ProgressDetails,
}

pub open spec fn every_entry(bs: Seq<Vec<RemoteFileInfo>>, p: spec_fn(RemoteFileInfo) -> bool) -> bool {
    forall|b: int, k: int| 0 <= b < bs.len() && 0 <= k < bs[b]@.len() ==> p(#[trigger] bs[b]@[k])
}

pub open spec fn all_supported(bs: Seq<Vec<RemoteFileInfo>>) -> bool {
    every_entry(bs, |e: RemoteFileInfo| supported_method(e.compression_method))
}

pub open spec fn all_safe(bs: Seq<Vec<RemoteFileInfo>>) -> bool {
    every_entry(bs, |e: RemoteFileInfo| safe_relative(encode_utf8(e.file_name@)))
}

/// Checks, before anything is fetched or written, that every entry to be
/// downloaded uses a known compression method and stays below the root.
pub fn check_downloads(bs: &Vec<Vec<RemoteFileInfo>>) -> (r: Result<(), SyncError>)
    ensures
        !all_supported(bs@) ==> r == Err::<(), SyncError>(SyncError::UnsupportedCompressionMethod),
        all_supported(bs@) && !all_safe(bs@) ==> r == Err::<(), SyncError>(SyncError::UnsafePath),
        all_supported(bs@) && all_safe(bs@) ==> r is Ok,
{
    let mut b: usize = 0;
    while b < bs.len()
        invariant
            b <= bs@.len(),
            forall|x: int, k: int|
                0 <= x < b && 0 <= k < bs@[x]@.len() ==> supported_method(
                    (#[trigger] bs@[x]@[k]).compression_method,
                ),
        decreases bs@.len() - b,
    {
        let batch = &bs[b];
        let mut k: usize = 0;
        while k < batch.len()
            invariant
                b < bs@.len(),
                *batch == bs@[b as int],
                k <= batch@.len(),
                forall|x: int, j: int|
                    0 <= x < b && 0 <= j < bs@[x]@.len() ==> supported_method(
                        (#[trigger] bs@[x]@[j]).compression_method,
                    ),
                forall|j: int| 0 <= j < k ==> supported_method((#[trigger] batch@[j]).compression_method),
            decreases batch@.len() - k,
        {
            if !is_supported_method(batch[k].compression_method) {
                assert(!supported_method(bs@[b as int]@[k as int].compression_method));
                return Err(SyncError::UnsupportedCompressionMethod);
            }
            k = k + 1;
        }
        b = b + 1;
    }
    let mut b: usize = 0;
    while b < bs.len()
        invariant
            b <= bs@.len(),
            all_supported(bs@),
            forall|x: int, k: int|
                0 <= x < b && 0 <= k < bs@[x]@.len() ==> safe_relative(
                    encode_utf8((#[trigger] bs@[x]@[k]).file_name@),
                ),
        decreases bs@.len() - b,
    {
        let batch = &bs[b];
        let mut k: usize = 0;
        while k < batch.len()
            invariant
                b < bs@.len(),
                *batch == bs@[b as int],
                k <= batch@.len(),
                all_supported(bs@),
                forall|x: int, j: int|
                    0 <= x < b && 0 <= j < bs@[x]@.len() ==> safe_relative(
                        encode_utf8((#[trigger] bs@[x]@[j]).file_name@),
                    ),
                forall|j: int| 0 <= j < k ==> safe_relative(encode_utf8((#[trigger] batch@[j]).file_name@)),
            decreases batch@.len() - k,
        {
            if check_destination(&batch[k]).is_err() {
                assert(!safe_relative(encode_utf8(bs@[b as int]@[k as int].file_name@)));
                return Err(SyncError::UnsafePath);
            }
            k = k + 1;
        }
        b = b + 1;
    }
    Ok(())
}

pub open spec fn sat_sub(a: int, b: int) -> int {
    if a >= b {
        a - b
    } else {
        0
    }
}

/// Batches that a step in the sync stage starts: as many as are queued,
/// up to the free download slots.
pub open spec fn batches_to_start(queued: int, in_flight: int) -> int {
    vstd::math::min(queued, NUM_PARALLEL_DOWNLOADS - in_flight)
}

/// How evaluating the diff ends: nothing to do; only deletions, which go
/// straight to syncing; an aborted sync; or a sync ready to start.
pub open spec fn evaluation_outcome(c: Compared, r: (Updater, Option<Progress>, Action)) -> bool {
    &&& c.needs_download@.len() == 0 && c.needs_deletion@.len() == 0 ==> r.0.stage == Stage::Finished
        && r.1 == Some(Progress::Successful) && r.2 is Nothing
    &&& c.needs_download@.len() == 0 && c.needs_deletion@.len() > 0 ==> {
        &&& r.0.stage == Stage::Sync
        &&& r.0.queued@.len() == 0
        &&& r.0.in_flight == 0
        &&& r.0.unzips_pending == 0
        &&& r.0.deletion_pending
        &&& r.1 == Some(Progress::Evaluating)
        &&& r.2 == Action::DeleteFiles(c.needs_deletion)
    }
    &&& c.needs_download@.len() > 0 && !all_supported(c.needs_download@) ==> r.0.stage
        == Stage::Finished && (r.1 matches Some(Progress::Errored(ClientError::Custom(m))) && m@
        == crate::error::sync_text(SyncError::UnsupportedCompressionMethod)) && r.2 is Nothing
    &&& c.needs_download@.len() > 0 && all_supported(c.needs_download@) && !all_safe(c.needs_download@)
        ==> r.0.stage == Stage::Finished && (r.1 matches Some(Progress::Errored(ClientError::Custom(m)))
        && m@ == crate::error::sync_text(SyncError::UnsafePath)) && r.2 is Nothing
    &&& c.needs_download@.len() > 0 && all_supported(c.needs_download@) && all_safe(c.needs_download@)
        ==> {
        &&& r.0.stage == Stage::InitializeSync
        &&& r.0.queued == c.needs_download
        &&& r.0.deletions == c.needs_deletion
        &&& r.0.total_bytes == c.needs_download_bytes
        &&& r.0.in_flight == 0
        &&& r.0.unzips_pending == 0
        &&& r.1 == Some(Progress::ReadyToSync { total_bytes: c.needs_download_bytes })
        &&& r.2 is Nothing
    }
}

/// How starting the sync ends.
pub open spec fn start_outcome(u: Updater, r: (Updater, Option<Progress>, Action)) -> bool {
    &&& r.0.stage == Stage::Sync
    &&& r.0.queued == u.queued
    &&& r.0.in_flight == u.in_flight
    &&& r.0.unzips_pending == u.unzips_pending
    &&& r.0.deletion_pending == (u.deletions@.len() > 0)
    &&& r.0.progress.total() == u.total_bytes
    &&& r.0.progress.processed() == 0
    &&& r.0.progress.rate() == 0
    &&& r.1 == Some(Progress::Syncing { processed_bytes: 0, total_bytes: u.total_bytes, bytes_per_sec: 0 })
    &&& u.deletions@.len() > 0 ==> r.2 == Action::DeleteFiles(u.deletions)
    &&& u.deletions@.len() == 0 ==> r.2 is Nothing
}

/// How a step of the sync stage ends.
pub open spec fn tick_outcome(u: Updater, t: Tick, r: (Updater, Option<Progress>, Action)) -> bool {
    &&& r.0.total_bytes == u.total_bytes
    &&& r.0.unzips_pending == sat_sub(
        vstd::math::min(u.unzips_pending + t.unzips_started, usize::MAX as int),
        t.unzips_finished as int,
    )
    &&& r.0.deletion_pending == (u.deletion_pending && !t.deletion_finished)
    &&& r.0.progress.total() == u.progress.total()
    &&& r.0.progress.processed() == crate::progress::sat_add(u.progress.processed(), t.bytes)
    &&& r.1 == Some(Progress::Syncing {
        processed_bytes: r.0.progress.processed(),
        total_bytes: r.0.progress.total(),
        bytes_per_sec: r.0.progress.rate()
    })
    &&& ({
        let flying = sat_sub(u.in_flight as int, t.batches_finished as int);
        let n = batches_to_start(u.queued@.len() as int, flying);
        if u.queued@.len() == 0 && flying == 0 && r.0.unzips_pending == 0 && !r.0.deletion_pending {
            &&& r.0.stage == Stage::Finalizing
            &&& r.0.queued@.len() == 0
            &&& r.0.in_flight == 0
            &&& r.2 is Finalize
        } else {
            &&& r.0.stage == Stage::Sync
            &&& r.0.in_flight == flying + n
            &&& r.0.queued@ == u.queued@.subrange(0, u.queued@.len() - n)
            &&& n == 0 ==> r.2 is Nothing
            &&& n > 0 ==> (r.2 matches Action::StartBatches(started) && started@.len() == n
                && forall|i: int|
                0 <= i < n ==> #[trigger] started@[i] == u.queued@[u.queued@.len() - 1 - i])
        }
    })
}

/// The sync ends at once with this progress event and asks for nothing.
pub open spec fn ends_with(r: (Updater, Option<Progress>, Action), p: Progress) -> bool {
    r.0.stage == Stage::Finished && r.1 == Some(p) && r.2 is Nothing
}

/// An event that the current stage does not expect aborts the sync.
pub open spec fn aborted(r: (Updater, Option<Progress>, Action)) -> bool {
    r.0.stage == Stage::Finished && (r.1 matches Some(Progress::Errored(_))) && r.2 is Nothing
}

/// An entry to be downloaded whose path would leave the installation root
/// aborts the sync during evaluation: the sync finishes with an error and
/// asks for no deletion, download or write.
pub proof fn lemma_escaping_path_aborts(c: Compared, r: (Updater, Option<Progress>, Action), b: int, k: int)
    requires
        evaluation_outcome(c, r),
        0 <= b < c.needs_download@.len(),
        0 <= k < c.needs_download@[b]@.len(),
        !safe_relative(encode_utf8(c.needs_download@[b]@[k].file_name@)),
    ensures
        r.0.stage == Stage::Finished,
        r.1 matches Some(Progress::Errored(_)),
        r.2 is Nothing,
{
    assert(!all_safe(c.needs_download@));
}

impl Updater {
    pub open spec fn wf(&self) -> bool {
        self.in_flight <= NUM_PARALLEL_DOWNLOADS
    }

    /// A sync about to evaluate what has to be done.
    pub fn new(now_ms: u64) -> (r: Updater)
        ensures
            r.wf(),
            r.stage == Stage::ToBeEvaluated,
            r.queued@.len() == 0,
            r.deletions@.len() == 0,
            r.in_flight == 0,
            r.unzips_pending == 0,
            !r.deletion_pending,
    {
        Updater {
            stage: Stage::ToBeEvaluated,
            queued: Vec::new(),
            deletions: Vec::new(),
            in_flight: 0,
            unzips_pending: 0,
            deletion_pending: false,
            total_bytes: 0,
            progress: ProgressDetails::new(0, now_ms),
        }
    }

    fn syncing(&self) -> (r: Progress)
        ensures
            r == (Progress::Syncing {
                processed_bytes: self.progress.processed(),
                total_bytes: self.progress.total(),
                bytes_per_sec: self.progress.rate(),
            }),
    {
        Progress::Syncing {
            processed_bytes: self.progress.processed_bytes(),
            total_bytes: self.progress.total_bytes(),
            bytes_per_sec: self.progress.bytes_per_sec(),
        }
    }

    /// Decides, from the diff, whether anything has to be done and whether
    /// it may be done: entries with an unknown compression method or a path
    /// that leaves the root abort the sync before anything is written.
    fn evaluate(self, c: Compared) -> (r: (Updater, Option<Progress>, Action))
        requires
            self.wf(),
        ensures
            r.0.wf(),
            evaluation_outcome(c, r),
    {
        let mut u = self;
        if c.needs_download.len() == 0 {
            if c.needs_deletion.len() == 0 {
                u.stage = Stage::Finished;
                return (u, Some(Progress::Successful), Action::Nothing);
            }
            u.stage = Stage::Sync;
            u.queued = Vec::new();
            u.in_flight = 0;
            u.unzips_pending = 0;
            u.deletion_pending = true;
            return (u, Some(Progress::Evaluating), Action::DeleteFiles(c.needs_deletion));
        }
        match check_downloads(&c.needs_download) {
            Err(e) => {
                u.stage = Stage::Finished;
                (u, Some(Progress::Errored(e.to_client_error())), Action::Nothing)
            },
            Ok(()) => {
                u.stage = Stage::InitializeSync;
                u.queued = c.needs_download;
                u.deletions = c.needs_deletion;
                u.total_bytes = c.needs_download_bytes;
                u.in_flight = 0;
                u.unzips_pending = 0;
                u.deletion_pending = false;
                (u, Some(Progress::ReadyToSync { total_bytes: c.needs_download_bytes }), Action::Nothing)
            },
        }
    }

    /// One step of the sync stage: takes the report of finished work, then
    /// either finishes the stage when nothing is queued, in flight, being
    /// unpacked or being deleted, or tops up the downloads in flight.
    fn tick(self, t: Tick) -> (r: (Updater, Option<Progress>, Action))
        requires
            self.wf(),
        ensures
            r.0.wf(),
            tick_outcome(self, t, r),
    {
        let mut u = self;
        let done = if t.batches_finished < u.in_flight {
            t.batches_finished
        } else {
            u.in_flight
        };
        u.in_flight = u.in_flight - done;
        u.unzips_pending = u.unzips_pending.saturating_add(t.unzips_started).saturating_sub(t.unzips_finished);
        u.deletion_pending = u.deletion_pending && !t.deletion_finished;
        u.progress.add_chunk(t.bytes, t.now_ms);
        if u.queued.len() == 0 && u.in_flight == 0 && u.unzips_pending == 0 && !u.deletion_pending {
            u.stage = Stage::Finalizing;
            let p = u.syncing();
            return (u, Some(p), Action::Finalize);
        }
        let ghost q0 = u.queued@;
        let ghost flying = u.in_flight;
        let ghost pending = u.unzips_pending;
        let ghost deleting = u.deletion_pending;
        let ghost prog = u.progress;
        let free = NUM_PARALLEL_DOWNLOADS - u.in_flight;
        let n = if u.queued.len() < free {
            u.queued.len()
        } else {
            free
        };
        let mut started: Vec<Vec<RemoteFileInfo>> = Vec::new();
        while started.len() < n
            invariant
                n <= q0.len(),
                u.in_flight == flying,
                u.unzips_pending == pending,
                u.deletion_pending == deleting,
                u.progress == prog,
                u.total_bytes == self.total_bytes,
                u.in_flight + n <= NUM_PARALLEL_DOWNLOADS,
                started@.len() <= n,
                u.queued@ == q0.subrange(0, q0.len() - started@.len()),
                forall|i: int| 0 <= i < started@.len() ==> #[trigger] started@[i] == q0[q0.len() - 1 - i],
            decreases n - started@.len(),
        {
            let b = u.queued.pop().unwrap();
            started.push(b);
            assert(u.queued@ =~= q0.subrange(0, q0.len() - started@.len()));
        }
        u.in_flight = u.in_flight + n;
        u.stage = Stage::Sync;
        let p = u.syncing();
        if n == 0 {
            (u, Some(p), Action::Nothing)
        } else {
            (u, Some(p), Action::StartBatches(started))
        }
    }

    /// One step of a sync. A finished sync stays finished and reports
    /// nothing more; a failure or a lost connection ends the sync at any
    /// stage; an event the stage does not expect aborts it.
    pub fn step(self, event: Event) -> (r: (Updater, Option<Progress>, Action))
        requires
            self.wf(),
        ensures
            r.0.wf(),
            self.stage == Stage::Finished ==> r.0.stage == Stage::Finished && r.1 is None && r.2 is Nothing,
            self.stage != Stage::Finished ==> match event {
                Event::Failed(e) => ends_with(r, Progress::Errored(e)),
                Event::Offline => ends_with(r, Progress::Offline),
                Event::Evaluated(c) => if self.stage == Stage::ToBeEvaluated {
                    evaluation_outcome(c, r)
                } else {
                    aborted(r)
                },
                Event::Confirmed { now_ms } => if self.stage == Stage::InitializeSync {
                    start_outcome(self, r)
                } else {
                    aborted(r)
                },
                Event::Tick(t) => if self.stage == Stage::Sync {
                    tick_outcome(self, t, r)
                } else {
                    aborted(r)
                },
                Event::Finalized => if self.stage == Stage::Finalizing {
                    ends_with(r, Progress::Successful)
                } else {
                    aborted(r)
                },
            },
    {
        let mut u = self;
        if u.stage == Stage::Finished {
            return (u, None, Action::Nothing);
        }
        match event {
            Event::Failed(e) => {
                u.stage = Stage::Finished;
                (u, Some(Progress::Errored(e)), Action::Nothing)
            },
            Event::Offline => {
                u.stage = Stage::Finished;
                (u, Some(Progress::Offline), Action::Nothing)
            },
            Event::Evaluated(c) if u.stage == Stage::ToBeEvaluated => u.evaluate(c),
            Event::Confirmed { now_ms } if u.stage == Stage::InitializeSync => u.start_sync(now_ms),
            Event::Tick(t) if u.stage == Stage::Sync => u.tick(t),
            Event::Finalized if u.stage == Stage::Finalizing => {
                u.stage = Stage::Finished;
                (u, Some(Progress::Successful), Action::Nothing)
            },
            _ => {
                u.stage = Stage::Finished;
                let m = String::from_str("Unexpected event for the current stage of the update");
                (u, Some(Progress::Errored(ClientError::Task(m))), Action::Nothing)
            },
        }
    }

    /// Starts syncing: progress is counted from zero and stale files are
    /// deleted alongside the downloads.
    fn start_sync(self, now_ms: u64) -> (r: (Updater, Option<Progress>, Action))
        requires
            self.wf(),
        ensures
            r.0.wf(),
            start_outcome(self, r),
    {
        let mut u = self;
        u.stage = Stage::Sync;
        u.progress = ProgressDetails::new(u.total_bytes, now_ms);
        let p = u.syncing();
        if u.deletions.len() > 0 {
            let dels = u.deletions;
            u.deletions = Vec::new();
            u.deletion_pending = true;
            (u, Some(p), Action::DeleteFiles(dels))
        } else {
            u.deletion_pending = false;
            (u, Some(p), Action::Nothing)
        }
    }
}

} // verus!
