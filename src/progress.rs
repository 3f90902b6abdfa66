//! Byte counters of a running sync, turned into a smoothed throughput, a
//! completion percentage and an estimate of the time left. Time enters as
//! a millisecond clock reading that the caller supplies.

use vstd::math::min;
use vstd::prelude::*;

verus! {

/// Milliseconds between two throughput samples.
pub const SAMPLE_INTERVAL_MS: u64 = 500;

/// Bytes per second over `elapsed_ms`, capped at `u64::MAX`.
pub open spec fn instant_rate(bytes: u64, elapsed_ms: u64) -> u64 {
    let r = bytes as int * 1000 / elapsed_ms as int;
    if r > u64::MAX {
        u64::MAX
    } else {
        r as u64
    }
}

/// A new sample weighs one quarter against the smoothed rate; the first
/// sample is taken as it is.
pub open spec fn blended_rate(old: u64, instant: u64) -> u64 {
    if old == 0 {
        instant
    } else {
        ((3 * old as int + instant as int) / 4) as u64
    }
}

pub open spec fn sat_add(a: u64, b: u64) -> u64 {
    if a + b > u64::MAX {
        u64::MAX
    } else {
        (a + b) as u64
    }
}

/// The smoothed rate after a sample of `bytes` over `elapsed_ms`.
fn next_rate(old: u64, bytes: u64, elapsed_ms: u64) -> (r: u64)
    requires
        elapsed_ms > 0,
    ensures
        r == blended_rate(old, instant_rate(bytes, elapsed_ms)),
{
    let wide = (bytes as u128) * 1000 / (elapsed_ms as u128);
    let instant: u64 = if wide > u64::MAX as u128 {
        u64::MAX
    } else {
        wide as u64
    };
    if old == 0 {
        instant
    } else {
        ((3 * (old as u128) + instant as u128) / 4) as u64
    }
}

/// Progress of the download phase.
#[derive(Clone, Debug)]
pub struct ProgressDetails {
    total_bytes: u64,
    processed_bytes: u64,
    last_rate_check_ms: u64,
    downloaded_since_last_check: u64,
    bytes_per_sec: u64,
}

impl ProgressDetails {
    pub closed spec fn total(&self) -> u64 {
        self.total_bytes
    }

    pub closed spec fn processed(&self) -> u64 {
        self.processed_bytes
    }

    pub closed spec fn rate(&self) -> u64 {
        self.bytes_per_sec
    }

    /// When the current sample started.
    pub closed spec fn sample_start(&self) -> u64 {
        self.last_rate_check_ms
    }

    /// Bytes counted since the current sample started.
    pub closed spec fn sample_bytes(&self) -> u64 {
        self.downloaded_since_last_check
    }

    pub fn new(total_bytes: u64, now_ms: u64) -> (r: Self)
        ensures
            r.total() == total_bytes,
            r.processed() == 0,
            r.rate() == 0,
            r.sample_start() == now_ms,
            r.sample_bytes() == 0,
    {
        ProgressDetails {
            total_bytes,
            processed_bytes: 0,
            last_rate_check_ms: now_ms,
            downloaded_since_last_check: 0,
            bytes_per_sec: 0,
        }
    }

    /// Counts `data` more bytes at clock reading `now_ms`. A sample closes
    /// once half a second has passed, or at once while no rate is known.
    pub fn add_chunk(&mut self, data: u64, now_ms: u64)
        ensures
            final(self).total() == old(self).total(),
            final(self).processed() == sat_add(old(self).processed(), data),
            ({
                let since = sat_add(old(self).sample_bytes(), data);
                let elapsed = if now_ms >= old(self).sample_start() {
                    (now_ms - old(self).sample_start()) as u64
                } else {
                    0u64
                };
                if elapsed >= SAMPLE_INTERVAL_MS || (elapsed > 0 && old(self).rate() == 0) {
                    &&& final(self).rate() == blended_rate(old(self).rate(), instant_rate(since, elapsed))
                    &&& final(self).sample_start() == now_ms
                    &&& final(self).sample_bytes() == 0
                } else {
                    &&& final(self).rate() == old(self).rate()
                    &&& final(self).sample_start() == old(self).sample_start()
                    &&& final(self).sample_bytes() == since
                }
            }),
    {
        self.processed_bytes = self.processed_bytes.saturating_add(data);
        self.downloaded_since_last_check = self.downloaded_since_last_check.saturating_add(data);
        let elapsed = now_ms.saturating_sub(self.last_rate_check_ms);
        if elapsed >= SAMPLE_INTERVAL_MS || (elapsed > 0 && self.bytes_per_sec == 0) {
            self.bytes_per_sec = next_rate(self.bytes_per_sec, self.downloaded_since_last_check, elapsed);
            self.downloaded_since_last_check = 0;
            self.last_rate_check_ms = now_ms;
        }
    }

    pub fn total_bytes(&self) -> (r: u64)
        ensures
            r == self.total(),
    {
        self.total_bytes
    }

    pub fn processed_bytes(&self) -> (r: u64)
        ensures
            r == self.processed(),
    {
        self.processed_bytes
    }

    pub fn bytes_per_sec(&self) -> (r: u64)
        ensures
            r == self.rate(),
    {
        self.bytes_per_sec
    }

    /// `processed · 100 / total`; a sync with nothing to fetch is complete.
    pub fn percent_complete(&self) -> (r: u64)
        ensures
            self.total() == 0 ==> r == 100,
            self.total() > 0 ==> r == min(
                self.processed() as int * 100 / self.total() as int,
                u64::MAX as int,
            ),
    {
        if self.total_bytes == 0 {
            return 100;
        }
        let num = (self.processed_bytes as u128) * 100;
        let p = num / (self.total_bytes as u128);
        let ghost t = self.total_bytes as int;
        assert(p <= num) by (nonlinear_arith)
            requires
                p == num as int / t,
                t > 0,
                num >= 0,
        ;
        if p > u64::MAX as u128 {
            return u64::MAX;
        }
        p as u64
    }

    /// Seconds left at the current rate: `(total − processed) / max(rate, 1)`.
    pub fn time_remaining(&self) -> (r: u64)
        ensures
            r == (if self.total() >= self.processed() { self.total() - self.processed() } else { 0 })
                / (if self.rate() > 1 { self.rate() as int } else { 1int }),
    {
        let left = self.total_bytes.saturating_sub(self.processed_bytes);
        let rate = if self.bytes_per_sec > 1 { self.bytes_per_sec } else { 1 };
        left / rate
    }
}


/// What a step of the older, per-file download flow works on.
#[derive(Clone, Debug)]
pub enum UpdateContent {
    DownloadFile(String),
    Decompress(String),
}

impl UpdateContent {
    /// The file name the step is about.
    pub fn show(&self) -> (r: &str)
        ensures
            r@ == match self {
                UpdateContent::DownloadFile(x) => x@,
                UpdateContent::Decompress(x) => x@,
            },
    {
        match self {
            UpdateContent::DownloadFile(x) => x.as_str(),
            UpdateContent::Decompress(x) => x.as_str(),
        }
    }
}

/// Progress of one step; bytes counted here are also buffered until the
/// overall counter takes them.
#[derive(Clone, Debug)]
pub struct StepProgress {
    pub total_bytes: u64,
    pub processed_bytes: u64,
    buf_processed_bytes: u64,
    pub content: UpdateContent,
}

impl StepProgress {
    pub closed spec fn total(&self) -> u64 {
        self.total_bytes
    }

    pub closed spec fn processed(&self) -> u64 {
        self.processed_bytes
    }

    pub closed spec fn what(&self) -> UpdateContent {
        self.content
    }

    /// Bytes counted but not yet taken by the overall counter.
    pub closed spec fn buffered(&self) -> u64 {
        self.buf_processed_bytes
    }

    pub fn new(total_bytes: u64, content: UpdateContent) -> (r: Self)
        ensures
            r.total() == total_bytes,
            r.processed() == 0,
            r.buffered() == 0,
            r.what() == content,
    {
        StepProgress { total_bytes, processed_bytes: 0, buf_processed_bytes: 0, content }
    }

    pub fn add_chunk(&mut self, data: u64)
        ensures
            final(self).total() == old(self).total(),
            final(self).what() == old(self).what(),
            final(self).processed() == sat_add(old(self).processed(), data),
            final(self).buffered() == sat_add(old(self).buffered(), data),
    {
        self.processed_bytes = self.processed_bytes.saturating_add(data);
        self.buf_processed_bytes = self.buf_processed_bytes.saturating_add(data);
    }

    /// `processed · 100 / total`; a step with nothing to do is complete.
    pub fn percent_complete(&self) -> (r: u64)
        ensures
            self.total() == 0 ==> r == 100,
            self.total() > 0 ==> r == min(
                self.processed() as int * 100 / self.total() as int,
                u64::MAX as int,
            ),
    {
        if self.total_bytes == 0 {
            return 100;
        }
        let num = (self.processed_bytes as u128) * 100;
        let p = num / (self.total_bytes as u128);
        let ghost t = self.total_bytes as int;
        assert(p <= num) by (nonlinear_arith)
            requires
                p == num as int / t,
                t > 0,
                num >= 0,
        ;
        if p > u64::MAX as u128 {
            return u64::MAX;
        }
        p as u64
    }

    /// Hands the buffered bytes over and clears the buffer.
    fn take_buffered(&mut self) -> (r: u64)
        ensures
            r == old(self).buffered(),
            final(self).buffered() == 0,
            final(self).total() == old(self).total(),
            final(self).processed() == old(self).processed(),
            final(self).what() == old(self).what(),
    {
        let data = self.buf_processed_bytes;
        self.buf_processed_bytes = 0;
        data
    }
}

/// Throughput over all steps of the older, per-file download flow.
#[derive(Clone, Debug)]
pub struct OverallProgress {
    last_rate_check_ms: u64,
    downloaded_since_last_check: u64,
    bytes_per_sec: u64,
}

impl OverallProgress {
    pub closed spec fn rate(&self) -> u64 {
        self.bytes_per_sec
    }

    pub closed spec fn sample_start(&self) -> u64 {
        self.last_rate_check_ms
    }

    pub closed spec fn sample_bytes(&self) -> u64 {
        self.downloaded_since_last_check
    }

    pub fn new(now_ms: u64) -> (r: Self)
        ensures
            r.rate() == 0,
            r.sample_start() == now_ms,
            r.sample_bytes() == 0,
    {
        OverallProgress { last_rate_check_ms: now_ms, downloaded_since_last_check: 0, bytes_per_sec: 0 }
    }

    /// Takes the bytes that `step` buffered, updates the rate as
    /// `ProgressDetails::add_chunk` does, and returns the bytes taken.
    pub fn add_from_step(&mut self, step: &mut StepProgress, now_ms: u64) -> (r: u64)
        ensures
            r == old(step).buffered(),
            final(step).buffered() == 0,
            final(step).processed() == old(step).processed(),
            final(step).total() == old(step).total(),
            final(step).what() == old(step).what(),
            ({
                let since = sat_add(old(self).sample_bytes(), r);
                let elapsed = if now_ms >= old(self).sample_start() {
                    (now_ms - old(self).sample_start()) as u64
                } else {
                    0u64
                };
                if elapsed >= SAMPLE_INTERVAL_MS || (elapsed > 0 && old(self).rate() == 0) {
                    &&& final(self).rate() == blended_rate(old(self).rate(), instant_rate(since, elapsed))
                    &&& final(self).sample_start() == now_ms
                    &&& final(self).sample_bytes() == 0
                } else {
                    &&& final(self).rate() == old(self).rate()
                    &&& final(self).sample_start() == old(self).sample_start()
                    &&& final(self).sample_bytes() == since
                }
            }),
    {
        let data = step.take_buffered();
        self.downloaded_since_last_check = self.downloaded_since_last_check.saturating_add(data);
        let elapsed = now_ms.saturating_sub(self.last_rate_check_ms);
        if elapsed >= SAMPLE_INTERVAL_MS || (elapsed > 0 && self.bytes_per_sec == 0) {
            self.bytes_per_sec = next_rate(self.bytes_per_sec, self.downloaded_since_last_check, elapsed);
            self.downloaded_since_last_check = 0;
            self.last_rate_check_ms = now_ms;
        }
        data
    }

    pub fn bytes_per_sec(&self) -> (r: u64)
        ensures
            r == self.rate(),
    {
        self.bytes_per_sec
    }
}

} // verus!
