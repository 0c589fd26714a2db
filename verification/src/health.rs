//! SP 800-90B inspired health monitoring of raw entropy samples.
//!
//! Three checks run on each sample:
//! 1. repetition count test, per byte (SP 800-90B 4.4.1);
//! 2. adaptive proportion test over a sliding window of recent bytes (4.4.2);
//! 3. entropy degradation: too few distinct byte values in a long sample.
//!
//! Recovery from `Failed` needs `RECOVERY_THRESHOLD` consecutive healthy rounds.
use vstd::prelude::*;

verus! {

/// Health of the entropy source.
#[derive(Clone, Copy, Debug, PartialEq, Eq, Structural)]
pub enum HealthStatus {
    Healthy,
    Warning,
    Failed,
}

impl HealthStatus {
    /// Lower-case name, as shown to operators ("healthy", "warning", "failed").
    pub fn label(&self) -> (s: &'static str)
        ensures
            s@ == health_label(*self),
    {
        match self {
            HealthStatus::Healthy => "healthy",
            HealthStatus::Warning => "warning",
            HealthStatus::Failed => "failed",
        }
    }
}

/// Text of `HealthStatus::label`.
pub open spec fn health_label(s: HealthStatus) -> Seq<char> {
    match s {
        HealthStatus::Healthy => "healthy"@,
        HealthStatus::Warning => "warning"@,
        HealthStatus::Failed => "failed"@,
    }
}

/// Identical consecutive bytes that make the repetition count test fail.
pub const REPETITION_CUTOFF: usize = 20;

/// Bytes kept in the adaptive proportion window.
pub const PROPORTION_WINDOW_SIZE: usize = 4096;

/// Percentage of the window that one byte value must stay below.
pub const PROPORTION_CUTOFF_PCT: u8 = 50;

/// Consecutive healthy observations required to recover from `Failed`.
pub const RECOVERY_THRESHOLD: usize = 5;

/// At most this many bytes of one sample enter the proportion window.
pub const MAX_SAMPLE_SIZE: usize = 65536;

/// Samples shorter than this are not checked for degradation.
pub const DEGRADATION_MIN_LEN: usize = 64;

/// Distinct byte values a sample must show (25% of the 256 possible).
pub const DEGRADATION_MIN_DISTINCT: usize = 64;

/// Abstract state of a `HealthMonitor`.
pub struct HealthMonitorView {
    pub last_byte: Option<u8>,
    pub run: nat,
    pub window: Seq<u8>,
    pub consecutive_healthy: nat,
    pub total_observations: nat,
    pub status: HealthStatus,
}

/// Number of occurrences of `v` in `s`.
pub open spec fn count_of(s: Seq<u8>, v: u8) -> nat
    decreases s.len(),
{
    if s.len() == 0 {
        0
    } else {
        count_of(s.drop_last(), v) + if s.last() == v { 1nat } else { 0nat }
    }
}

/// Number of byte values below `n` that occur in `s`.
pub open spec fn distinct_below(s: Seq<u8>, n: nat) -> nat
    decreases n,
{
    if n == 0 {
        0
    } else {
        distinct_below(s, (n - 1) as nat) + if s.contains((n - 1) as u8) { 1nat } else { 0nat }
    }
}

/// Number of distinct byte values in `s`.
pub open spec fn distinct_values(s: Seq<u8>) -> nat {
    distinct_below(s, 256)
}

/// Repetition scan: the last byte, the length of its current run, and whether a
/// run of `REPETITION_CUTOFF` identical bytes was reached while scanning `s`.
pub open spec fn repetition_scan(last: Option<u8>, run: nat, s: Seq<u8>) -> (Option<u8>, nat, bool)
    decreases s.len(),
{
    if s.len() == 0 {
        (last, run, false)
    } else {
        let prev = repetition_scan(last, run, s.drop_last());
        let b = s.last();
        let repeated = prev.0 == Some(b);
        let r = if repeated { prev.1 + 1 } else { 1nat };
        (Some(b), r, prev.2 || (repeated && r >= REPETITION_CUTOFF))
    }
}

/// The proportion window after `sample` arrives: at most `MAX_SAMPLE_SIZE` bytes of
/// the sample are appended, and only the most recent `PROPORTION_WINDOW_SIZE` kept.
pub open spec fn slide_window(window: Seq<u8>, sample: Seq<u8>) -> Seq<u8> {
    let effective = if sample.len() > MAX_SAMPLE_SIZE { sample.take(MAX_SAMPLE_SIZE as int) } else { sample };
    let w = window + effective;
    if w.len() > PROPORTION_WINDOW_SIZE {
        w.skip(w.len() - PROPORTION_WINDOW_SIZE)
    } else {
        w
    }
}

/// Adaptive proportion verdict on a window: passes while the window is under half
/// full, and otherwise fails only when some byte value makes up more than the
/// cutoff share of it.
pub open spec fn proportion_ok(w: Seq<u8>) -> bool {
    w.len() < PROPORTION_WINDOW_SIZE / 2 || forall|v: u8|
        #[trigger] count_of(w, v) * 100 <= w.len() * (PROPORTION_CUTOFF_PCT as nat)
}

/// Degradation verdict on a sample: a sample long enough to judge is degraded
/// when fewer than 25% of the 256 byte values appear in it.
pub open spec fn degradation_ok(sample: Seq<u8>) -> bool {
    sample.len() < DEGRADATION_MIN_LEN || distinct_values(sample) >= DEGRADATION_MIN_DISTINCT
}

/// Status transition of one observation round: the new status and count of
/// consecutive healthy rounds.
pub open spec fn next_status(
    status: HealthStatus,
    consecutive: nat,
    rep_ok: bool,
    prop_ok: bool,
    degrade_ok: bool,
) -> (HealthStatus, nat) {
    let healthy = rep_ok && prop_ok && degrade_ok;
    match status {
        HealthStatus::Failed => {
            if healthy {
                if consecutive + 1 >= RECOVERY_THRESHOLD {
                    (HealthStatus::Healthy, 0nat)
                } else {
                    (HealthStatus::Failed, consecutive + 1)
                }
            } else {
                (HealthStatus::Failed, 0nat)
            }
        },
        _ => {
            if !rep_ok || !prop_ok {
                (HealthStatus::Failed, 0nat)
            } else if !degrade_ok {
                (HealthStatus::Warning, 0nat)
            } else {
                (HealthStatus::Healthy, consecutive)
            }
        },
    }
}

impl HealthMonitorView {
    /// The state after observing `sample`.
    pub open spec fn observed(self, sample: Seq<u8>) -> HealthMonitorView {
        let scan = repetition_scan(self.last_byte, self.run, sample);
        let w = slide_window(self.window, sample);
        let next = next_status(
            self.status,
            self.consecutive_healthy,
            !scan.2,
            proportion_ok(w),
            degradation_ok(sample),
        );
        HealthMonitorView {
            last_byte: scan.0,
            run: scan.1,
            window: w,
            consecutive_healthy: next.1,
            total_observations: self.total_observations + 1,
            status: next.0,
        }
    }

    /// Counters stay within machine range while observing a sample of `len` bytes.
    pub open spec fn can_observe(self, len: nat) -> bool {
        &&& self.run + len <= usize::MAX
        &&& self.total_observations < u64::MAX
    }

    /// State of a freshly created monitor.
    pub open spec fn initial() -> HealthMonitorView {
        HealthMonitorView {
            last_byte: None,
            run: 0,
            window: Seq::empty(),
            consecutive_healthy: 0,
            total_observations: 0,
            status: HealthStatus::Healthy,
        }
    }
}

/// Health monitor for raw entropy samples.
pub struct HealthMonitor {
    last_byte: Option<u8>,
    byte_repetition_count: usize,
    byte_repetition_cutoff: usize,
    sample_repetition_failed: bool,
    proportion_window: Vec<u8>,
    proportion_window_size: usize,
    proportion_cutoff_pct: u8,
    consecutive_healthy: usize,
    total_observations: u64,
    current_status: HealthStatus,
}

impl View for HealthMonitor {
    type V = HealthMonitorView;

    closed spec fn view(&self) -> HealthMonitorView {
        HealthMonitorView {
            last_byte: self.last_byte,
            run: self.byte_repetition_count as nat,
            window: self.proportion_window@,
            consecutive_healthy: self.consecutive_healthy as nat,
            total_observations: self.total_observations as nat,
            status: self.current_status,
        }
    }
}

proof fn lemma_count_of_push(s: Seq<u8>, b: u8, v: u8)
    ensures
        count_of(s.push(b), v) == count_of(s, v) + if b == v { 1nat } else { 0nat },
{
    assert(s.push(b).drop_last() =~= s);
}

proof fn lemma_count_of_bound(s: Seq<u8>, v: u8)
    ensures
        count_of(s, v) <= s.len(),
    decreases s.len(),
{
    if s.len() > 0 {
        lemma_count_of_bound(s.drop_last(), v);
    }
}

proof fn lemma_contains_take(s: Seq<u8>, i: int, v: u8)
    requires
        0 <= i < s.len(),
    ensures
        s.take(i + 1).contains(v) <==> (s.take(i).contains(v) || s[i] == v),
{
    if s.take(i + 1).contains(v) {
        let k = choose|k: int| 0 <= k < s.take(i + 1).len() && #[trigger] s.take(i + 1)[k] == v;
        if k < i {
            assert(s.take(i)[k] == v);
        }
    }
    if s.take(i).contains(v) {
        let k = choose|k: int| 0 <= k < s.take(i).len() && #[trigger] s.take(i)[k] == v;
        assert(s.take(i + 1)[k] == v);
    }
    if s[i] == v {
        assert(s.take(i + 1)[i] == v);
    }
}

impl HealthMonitor {
    /// Internal consistency of the monitor.
    pub closed spec fn wf(&self) -> bool {
        &&& self.byte_repetition_cutoff == REPETITION_CUTOFF
        &&& self.proportion_window_size == PROPORTION_WINDOW_SIZE
        &&& self.proportion_cutoff_pct == PROPORTION_CUTOFF_PCT
        &&& self.proportion_window@.len() <= PROPORTION_WINDOW_SIZE
        &&& self.consecutive_healthy < RECOVERY_THRESHOLD
    }

    /// A monitor in the `Healthy` state with no history.
    pub fn new() -> (m: Self)
        ensures
            m.wf(),
            m@ == HealthMonitorView::initial(),
    {
        let m = HealthMonitor {
            last_byte: None,
            byte_repetition_count: 0,
            byte_repetition_cutoff: REPETITION_CUTOFF,
            sample_repetition_failed: false,
            proportion_window: Vec::new(),
            proportion_window_size: PROPORTION_WINDOW_SIZE,
            proportion_cutoff_pct: PROPORTION_CUTOFF_PCT,
            consecutive_healthy: 0,
            total_observations: 0,
            current_status: HealthStatus::Healthy,
        };
        assert(m@.window =~= Seq::<u8>::empty());
        m
    }

    /// Feed a new entropy sample into the monitor.
    pub fn observe(&mut self, sample: &[u8])
        requires
            old(self).wf(),
            old(self)@.can_observe(sample@.len()),
        ensures
            final(self).wf(),
            final(self)@ == old(self)@.observed(sample@),
    {
        let ghost old_view = self@;
        self.total_observations = self.total_observations + 1;

        let rep_ok = self.repetition_count_test(sample);
        let prop_ok = self.adaptive_proportion_test(sample);
        let degrade_ok = Self::check_degradation(sample);

        let this_round_healthy = rep_ok && prop_ok && degrade_ok;
        let this_round_warning = rep_ok && prop_ok && !degrade_ok;

        match self.current_status {
            HealthStatus::Failed => {
                if this_round_healthy {
                    self.consecutive_healthy = self.consecutive_healthy + 1;
                    if self.consecutive_healthy >= RECOVERY_THRESHOLD {
                        self.current_status = HealthStatus::Healthy;
                        self.consecutive_healthy = 0;
                    }
                } else {
                    self.consecutive_healthy = 0;
                }
            },
            _ => {
                if !rep_ok || !prop_ok {
                    self.current_status = HealthStatus::Failed;
                    self.consecutive_healthy = 0;
                } else if this_round_warning {
                    self.current_status = HealthStatus::Warning;
                    self.consecutive_healthy = 0;
                } else {
                    self.current_status = HealthStatus::Healthy;
                }
            },
        }
        assert(self@ == old_view.observed(sample@));
    }

    /// Current health status.
    pub fn status(&self) -> (s: HealthStatus)
        ensures
            s == self@.status,
    {
        self.current_status
    }

    /// Whether the current status is `Healthy`.
    pub fn is_healthy(&self) -> (b: bool)
        ensures
            b == (self@.status == HealthStatus::Healthy),
    {
        self.current_status == HealthStatus::Healthy
    }

    /// Whether observing a sample of `len` bytes keeps the counters in range.
    pub fn can_observe(&self, len: usize) -> (b: bool)
        ensures
            b == self@.can_observe(len as nat),
    {
        (self.byte_repetition_count as u128) + (len as u128) <= (usize::MAX as u128)
            && self.total_observations < u64::MAX
    }

    /// Repetition count test, per byte: fails when a byte value repeats
    /// `REPETITION_CUTOFF` times in a row (runs continue across samples).
    fn repetition_count_test(&mut self, sample: &[u8]) -> (ok: bool)
        requires
            old(self).byte_repetition_count + sample@.len() <= usize::MAX,
            old(self).byte_repetition_cutoff == REPETITION_CUTOFF,
        ensures
            ({
                let scan = repetition_scan(old(self).last_byte, old(self).byte_repetition_count as nat, sample@);
                &&& final(self).last_byte == scan.0
                &&& final(self).byte_repetition_count == scan.1
                &&& ok == !scan.2
            }),
            final(self).byte_repetition_cutoff == old(self).byte_repetition_cutoff,
            final(self).proportion_window == old(self).proportion_window,
            final(self).proportion_window_size == old(self).proportion_window_size,
            final(self).proportion_cutoff_pct == old(self).proportion_cutoff_pct,
            final(self).consecutive_healthy == old(self).consecutive_healthy,
            final(self).total_observations == old(self).total_observations,
            final(self).current_status == old(self).current_status,
    {
        self.sample_repetition_failed = false;
        let ghost last0 = self.last_byte;
        let ghost run0 = self.byte_repetition_count as nat;
        let mut i: usize = 0;
        while i < sample.len()
            invariant
                0 <= i <= sample@.len(),
                self.byte_repetition_cutoff == old(self).byte_repetition_cutoff,
                self.byte_repetition_cutoff == REPETITION_CUTOFF,
                last0 == old(self).last_byte,
                run0 == old(self).byte_repetition_count,
                run0 + sample@.len() <= usize::MAX,
                self.byte_repetition_count <= run0 + i,
                ({
                    let scan = repetition_scan(last0, run0, sample@.take(i as int));
                    &&& self.last_byte == scan.0
                    &&& self.byte_repetition_count == scan.1
                    &&& self.sample_repetition_failed == scan.2
                }),
                self.proportion_window == old(self).proportion_window,
                self.proportion_window_size == old(self).proportion_window_size,
                self.proportion_cutoff_pct == old(self).proportion_cutoff_pct,
                self.consecutive_healthy == old(self).consecutive_healthy,
                self.total_observations == old(self).total_observations,
                self.current_status == old(self).current_status,
            decreases sample@.len() - i,
        {
            let byte = sample[i];
            assert(sample@.take(i as int + 1).drop_last() =~= sample@.take(i as int));
            assert(sample@.take(i as int + 1).last() == byte);
            let same = match self.last_byte {
                Some(b) => b == byte,
                None => false,
            };
            if same {
                self.byte_repetition_count = self.byte_repetition_count + 1;
                if self.byte_repetition_count >= self.byte_repetition_cutoff {
                    self.sample_repetition_failed = true;
                }
            } else {
                self.byte_repetition_count = 1;
            }
            self.last_byte = Some(byte);
            i = i + 1;
        }
        assert(sample@.take(sample@.len() as int) =~= sample@);
        !self.sample_repetition_failed
    }

    /// Adaptive proportion test over the sliding window of recent bytes.
    fn adaptive_proportion_test(&mut self, sample: &[u8]) -> (ok: bool)
        requires
            old(self).proportion_window_size == PROPORTION_WINDOW_SIZE,
            old(self).proportion_cutoff_pct == PROPORTION_CUTOFF_PCT,
            old(self).proportion_window@.len() <= PROPORTION_WINDOW_SIZE,
        ensures
            final(self).proportion_window@ == slide_window(old(self).proportion_window@, sample@),
            ok == proportion_ok(final(self).proportion_window@),
            final(self).last_byte == old(self).last_byte,
            final(self).byte_repetition_count == old(self).byte_repetition_count,
            final(self).byte_repetition_cutoff == old(self).byte_repetition_cutoff,
            final(self).proportion_window_size == old(self).proportion_window_size,
            final(self).proportion_cutoff_pct == old(self).proportion_cutoff_pct,
            final(self).consecutive_healthy == old(self).consecutive_healthy,
            final(self).total_observations == old(self).total_observations,
            final(self).current_status == old(self).current_status,
    {
        let effective_len = if sample.len() > MAX_SAMPLE_SIZE {
            MAX_SAMPLE_SIZE
        } else {
            sample.len()
        };
        let old_len = self.proportion_window.len();
        let total = old_len + effective_len;
        let start = if total > self.proportion_window_size {
            total - self.proportion_window_size
        } else {
            0
        };
        let ghost effective = if sample@.len() > MAX_SAMPLE_SIZE {
            sample@.take(MAX_SAMPLE_SIZE as int)
        } else {
            sample@
        };
        let ghost joined = self.proportion_window@ + effective;
        assert(joined.len() == total);

        let mut window: Vec<u8> = Vec::new();
        let mut k: usize = start;
        while k < total
            invariant
                start <= k <= total,
                total == joined.len(),
                old_len == self.proportion_window@.len(),
                self.proportion_window == old(self).proportion_window,
                joined == self.proportion_window@ + effective,
                effective.len() == effective_len,
                effective_len <= sample@.len(),
                forall|j: int| 0 <= j < effective_len ==> effective[j] == sample@[j],
                window@ =~= joined.subrange(start as int, k as int),
            decreases total - k,
        {
            let b = if k < old_len {
                self.proportion_window[k]
            } else {
                sample[k - old_len]
            };
            window.push(b);
            k = k + 1;
        }
        assert(window@ =~= slide_window(old(self).proportion_window@, sample@));
        self.proportion_window = window;

        let len = self.proportion_window.len();
        if len < self.proportion_window_size / 2 {
            return true;
        }

        let mut counts: Vec<u32> = Vec::new();
        let mut v: usize = 0;
        while v < 256
            invariant
                v <= 256,
                counts@.len() == v,
                forall|j: int| 0 <= j < v ==> counts@[j] == 0,
            decreases 256 - v,
        {
            counts.push(0);
            v = v + 1;
        }
        let mut i: usize = 0;
        while i < len
            invariant
                i <= len,
                len == self.proportion_window@.len(),
                len <= PROPORTION_WINDOW_SIZE,
                counts@.len() == 256,
                forall|x: u8| #[trigger] counts@[x as int] == count_of(self.proportion_window@.take(i as int), x),
            decreases len - i,
        {
            let b = self.proportion_window[i];
            proof {
                assert(self.proportion_window@.take(i as int + 1) =~= self.proportion_window@.take(i as int).push(b));
                assert forall|x: u8| count_of(self.proportion_window@.take(i as int + 1), x)
                    == count_of(self.proportion_window@.take(i as int), x) + if b == x { 1nat } else { 0nat } by {
                    lemma_count_of_push(self.proportion_window@.take(i as int), b, x);
                }
                lemma_count_of_bound(self.proportion_window@.take(i as int), b);
            }
            let ghost prev = counts@;
            let c = counts[b as usize];
            counts.set(b as usize, c + 1);
            proof {
                assert forall|x: u8| #[trigger] counts@[x as int] == count_of(self.proportion_window@.take(i as int + 1), x) by {
                    if x != b {
                        assert(counts@[x as int] == prev[x as int]);
                    }
                }
            }
            i = i + 1;
        }
        assert(self.proportion_window@.take(len as int) =~= self.proportion_window@);
        let limit: u32 = (len as u32) * (self.proportion_cutoff_pct as u32);

        let mut x: usize = 0;
        while x < 256
            invariant
                x <= 256,
                counts@.len() == 256,
                len == self.proportion_window@.len(),
                limit == len * (PROPORTION_CUTOFF_PCT as nat),
                self.proportion_window@ == slide_window(old(self).proportion_window@, sample@),
                len >= PROPORTION_WINDOW_SIZE / 2,
                self.last_byte == old(self).last_byte,
                self.byte_repetition_count == old(self).byte_repetition_count,
                self.byte_repetition_cutoff == old(self).byte_repetition_cutoff,
                self.proportion_window_size == old(self).proportion_window_size,
                self.proportion_cutoff_pct == old(self).proportion_cutoff_pct,
                self.consecutive_healthy == old(self).consecutive_healthy,
                self.total_observations == old(self).total_observations,
                self.current_status == old(self).current_status,
                forall|y: u8| #[trigger] counts@[y as int] == count_of(self.proportion_window@, y),
                forall|y: u8| (y as int) < x ==> #[trigger] count_of(self.proportion_window@, y) * 100 <= limit,
            decreases 256 - x,
        {
            proof {
                lemma_count_of_bound(self.proportion_window@, x as u8);
            }
            if counts[x] * 100 > limit {
                assert(counts@[(x as u8) as int] == count_of(self.proportion_window@, x as u8));
                return false;
            }
            assert(counts@[(x as u8) as int] == count_of(self.proportion_window@, x as u8));
            x = x + 1;
        }
        true
    }

    /// Degradation check: a sample of at least 64 bytes must show at least 64
    /// distinct byte values.
    fn check_degradation(sample: &[u8]) -> (ok: bool)
        ensures
            ok == degradation_ok(sample@),
    {
        if sample.len() < DEGRADATION_MIN_LEN {
            return true;
        }
        let mut seen: Vec<bool> = Vec::new();
        let mut v: usize = 0;
        while v < 256
            invariant
                v <= 256,
                seen@.len() == v,
                forall|j: int| 0 <= j < v ==> !seen@[j],
            decreases 256 - v,
        {
            seen.push(false);
            v = v + 1;
        }
        let mut i: usize = 0;
        while i < sample.len()
            invariant
                i <= sample@.len(),
                seen@.len() == 256,
                forall|x: u8| #[trigger] seen@[x as int] == sample@.take(i as int).contains(x),
            decreases sample@.len() - i,
        {
            let b = sample[i];
            seen.set(b as usize, true);
            proof {
                assert forall|x: u8| #[trigger] seen@[x as int] == sample@.take(i as int + 1).contains(x) by {
                    lemma_contains_take(sample@, i as int, x);
                }
            }
            i = i + 1;
        }
        assert(sample@.take(sample@.len() as int) =~= sample@);

        let mut unique: usize = 0;
        let mut x: usize = 0;
        while x < 256
            invariant
                x <= 256,
                seen@.len() == 256,
                forall|y: u8| #[trigger] seen@[y as int] == sample@.contains(y),
                unique == distinct_below(sample@, x as nat),
                unique <= x,
            decreases 256 - x,
        {
            assert(seen@[(x as u8) as int] == sample@.contains(x as u8));
            if seen[x] {
                unique = unique + 1;
            }
            x = x + 1;
        }
        unique >= DEGRADATION_MIN_DISTINCT
    }
}

impl Default for HealthMonitor {
    /// A fresh monitor, as `new` gives.
    fn default() -> (m: Self)
        ensures
            m.wf(),
            m@ == HealthMonitorView::initial(),
    {
        HealthMonitor::new()
    }
}

impl HealthMonitorView {
    /// The state after observing each of `samples` in turn.
    pub open spec fn observed_all(self, samples: Seq<Seq<u8>>) -> HealthMonitorView
        decreases samples.len(),
    {
        if samples.len() == 0 {
            self
        } else {
            self.observed_all(samples.drop_last()).observed(samples.last())
        }
    }
}

/// Whether `s` holds `REPETITION_CUTOFF` identical consecutive bytes starting at `start`.
pub open spec fn has_run_at(s: Seq<u8>, start: int) -> bool {
    &&& 0 <= start
    &&& start + REPETITION_CUTOFF <= s.len()
    &&& forall|k: int| start <= k < start + REPETITION_CUTOFF ==> #[trigger] s[k] == s[start]
}

proof fn lemma_scan_run_grows(last: Option<u8>, run: nat, s: Seq<u8>, start: int, j: int)
    requires
        has_run_at(s, start),
        start < j <= start + REPETITION_CUTOFF,
    ensures
        repetition_scan(last, run, s.take(j)).0 == Some(s[start]),
        repetition_scan(last, run, s.take(j)).1 >= j - start,
        j >= start + 2 ==> (repetition_scan(last, run, s.take(j)).1 >= REPETITION_CUTOFF
            ==> repetition_scan(last, run, s.take(j)).2),
    decreases j - start,
{
    assert(s.take(j).drop_last() =~= s.take(j - 1));
    assert(s.take(j).last() == s[j - 1]);
    assert(s[j - 1] == s[start]);
    if j > start + 1 {
        lemma_scan_run_grows(last, run, s, start, j - 1);
    }
}

proof fn lemma_scan_flag_persists(last: Option<u8>, run: nat, s: Seq<u8>, i: int, j: int)
    requires
        0 <= i <= j <= s.len(),
        repetition_scan(last, run, s.take(i)).2,
    ensures
        repetition_scan(last, run, s.take(j)).2,
    decreases j - i,
{
    if j > i {
        lemma_scan_flag_persists(last, run, s, i, j - 1);
        assert(s.take(j).drop_last() =~= s.take(j - 1));
    }
}

/// Any sample holding `REPETITION_CUTOFF` identical consecutive bytes fails the
/// repetition count test: the monitor is `Failed` after observing it, whatever
/// its state before.
pub proof fn lemma_repetition_fails(m: HealthMonitorView, sample: Seq<u8>, start: int)
    requires
        has_run_at(sample, start),
    ensures
        m.observed(sample).status == HealthStatus::Failed,
{
    let end = start + REPETITION_CUTOFF;
    lemma_scan_run_grows(m.last_byte, m.run, sample, start, end);
    lemma_scan_flag_persists(m.last_byte, m.run, sample, end, sample.len() as int);
    assert(sample.take(sample.len() as int) =~= sample);
}

/// Recovery from `Failed` is never quick: while fewer observations than
/// `RECOVERY_THRESHOLD` (counting the healthy streak already under way) follow,
/// the monitor stays `Failed`, whatever the samples hold.
pub proof fn lemma_no_quick_recovery(m: HealthMonitorView, samples: Seq<Seq<u8>>)
    requires
        m.status == HealthStatus::Failed,
        m.consecutive_healthy + samples.len() < RECOVERY_THRESHOLD,
    ensures
        m.observed_all(samples).status == HealthStatus::Failed,
        m.observed_all(samples).consecutive_healthy <= m.consecutive_healthy + samples.len(),
    decreases samples.len(),
{
    if samples.len() > 0 {
        lemma_no_quick_recovery(m, samples.drop_last());
    }
}

impl HealthMonitorView {
    /// Whether all three checks pass on `sample` in this state: no run of
    /// repeated bytes, the proportion window after it, and its diversity.
    pub open spec fn round_ok(self, sample: Seq<u8>) -> bool {
        &&& !repetition_scan(self.last_byte, self.run, sample).2
        &&& proportion_ok(slide_window(self.window, sample))
        &&& degradation_ok(sample)
    }
}

/// Outside `Failed`, one observation fails on a repetition or proportion
/// failure, warns on degradation alone, and is healthy otherwise; inside
/// `Failed`, a round that does not pass every check keeps it failed.
pub proof fn lemma_observe_status(m: HealthMonitorView, sample: Seq<u8>)
    ensures
        m.status != HealthStatus::Failed ==> m.observed(sample).status == (if repetition_scan(
            m.last_byte,
            m.run,
            sample,
        ).2 || !proportion_ok(slide_window(m.window, sample)) {
            HealthStatus::Failed
        } else if !degradation_ok(sample) {
            HealthStatus::Warning
        } else {
            HealthStatus::Healthy
        }),
        m.status == HealthStatus::Failed && !m.round_ok(sample) ==> m.observed(sample).status
            == HealthStatus::Failed,
{
}

proof fn lemma_observed_all_step(m: HealthMonitorView, samples: Seq<Seq<u8>>, i: int)
    requires
        0 <= i < samples.len(),
    ensures
        m.observed_all(samples.take(i + 1)) == m.observed_all(samples.take(i)).observed(samples[i]),
{
    assert(samples.take(i + 1).drop_last() =~= samples.take(i));
    assert(samples.take(i + 1).last() == samples[i]);
}

proof fn lemma_streak_prefix(m: HealthMonitorView, samples: Seq<Seq<u8>>, i: int)
    requires
        m.status == HealthStatus::Failed,
        0 < i <= samples.len(),
        forall|j: int| 0 <= j < samples.len() ==> #[trigger] m.observed_all(samples.take(j)).round_ok(samples[j]),
    ensures
        ({
            let st = m.observed_all(samples.take(i));
            ||| st.status == HealthStatus::Healthy
            ||| (st.status == HealthStatus::Failed && i <= st.consecutive_healthy < RECOVERY_THRESHOLD)
        }),
    decreases i,
{
    lemma_observed_all_step(m, samples, i - 1);
    assert(m.observed_all(samples.take(i - 1)).round_ok(samples[i - 1]));
    if i == 1 {
        assert(samples.take(0) =~= Seq::<Seq<u8>>::empty());
    } else {
        lemma_streak_prefix(m, samples, i - 1);
    }
}

/// From `Failed`, `RECOVERY_THRESHOLD` consecutive observations that each pass
/// every check bring the monitor back to `Healthy`.
pub proof fn lemma_streak_recovers(m: HealthMonitorView, samples: Seq<Seq<u8>>)
    requires
        m.status == HealthStatus::Failed,
        samples.len() == RECOVERY_THRESHOLD,
        forall|i: int| 0 <= i < samples.len() ==> #[trigger] m.observed_all(samples.take(i)).round_ok(samples[i]),
    ensures
        m.observed_all(samples).status == HealthStatus::Healthy,
{
    lemma_streak_prefix(m, samples, samples.len() as int);
    assert(samples.take(samples.len() as int) =~= samples);
}

/// A failing round resets recovery: from `Failed`, an observation that does not
/// pass every check leaves the monitor `Failed` with no healthy streak, and
/// fewer than `RECOVERY_THRESHOLD` observations after it cannot bring it back,
/// however healthy they are and however long the streak before it was.
pub proof fn lemma_failing_round_resets_recovery(m: HealthMonitorView, bad: Seq<u8>, after: Seq<Seq<u8>>)
    requires
        m.status == HealthStatus::Failed,
        !m.round_ok(bad),
        after.len() < RECOVERY_THRESHOLD,
    ensures
        m.observed(bad).status == HealthStatus::Failed,
        m.observed(bad).consecutive_healthy == 0,
        m.observed(bad).observed_all(after).status == HealthStatus::Failed,
{
    lemma_no_quick_recovery(m.observed(bad), after);
}

} // verus!
