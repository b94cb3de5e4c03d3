//! Mouse-shake gesture detection by counting horizontal direction reversals
//! inside a rolling time window.

use std::collections::VecDeque;
use vstd::prelude::*;

verus! {

/// One recorded cursor sample: x, y and the time it was seen, in nanoseconds
/// since the detector was created.
pub type Sample = (i32, i32, u64);

/// Nanoseconds in one millisecond.
pub open spec fn nanos_per_ms() -> int {
    1_000_000
}

/// Tuning of the shake gesture.
pub struct ShakeConfig {
    /// Number of direction reversals needed to trigger.
    pub reversal_threshold: usize,
    /// Length of the rolling window, in milliseconds.
    pub window_ms: u64,
    /// Minimum travel of a segment, in pixels, for it to count.
    pub min_displacement: i32,
    /// Minimum time between two triggers, in milliseconds.
    pub cooldown_ms: u64,
}

impl Default for ShakeConfig {
    fn default() -> (cfg: Self)
        ensures
            cfg.reversal_threshold == 3,
            cfg.window_ms == 600,
            cfg.min_displacement == 30,
            cfg.cooldown_ms == 2000,
    {
        ShakeConfig { reversal_threshold: 3, window_ms: 600, min_displacement: 30, cooldown_ms: 2000 }
    }
}

/// Abstract state of a detector: the samples inside the window and the time
/// of the last trigger.
pub struct ShakeState {
    pub config: ShakeConfig,
    pub history: Seq<Sample>,
    pub last_trigger: Option<u64>,
}

/// Time elapsed from `then` to `now`; zero when `then` is later, as
/// `Instant::duration_since` gives.
pub open spec fn elapsed(now: u64, then: u64) -> int {
    if now >= then {
        now - then
    } else {
        0
    }
}

/// A sample is outside the window when strictly more than the window has passed.
pub open spec fn is_expired(s: Sample, now: u64, window_ms: u64) -> bool {
    elapsed(now, s.2) > window_ms * nanos_per_ms()
}

/// Drop samples from the front while they are outside the window.
pub open spec fn trim_expired(h: Seq<Sample>, now: u64, window_ms: u64) -> Seq<Sample>
    decreases h.len(),
{
    if h.len() > 0 && is_expired(h[0], now, window_ms) {
        trim_expired(h.drop_first(), now, window_ms)
    } else {
        h
    }
}

/// The x coordinates of a sample sequence.
pub open spec fn xs_of(h: Seq<Sample>) -> Seq<i32> {
    h.map_values(|s: Sample| s.0)
}

pub open spec fn abs_int(v: int) -> int {
    if v < 0 {
        -v
    } else {
        v
    }
}

/// Direction of a move: 1 right, -1 left, 0 none.
pub open spec fn direction(delta: int) -> int {
    if delta > 0 {
        1
    } else if delta < 0 {
        -1
    } else {
        0
    }
}

/// Progress of the segment scan: where the open segment started, its
/// direction (0 before the first move), and the closed segments that were
/// long enough, each as its direction and travel.
pub struct SegmentScan {
    pub start: int,
    pub dir: int,
    pub segments: Seq<(int, int)>,
}

/// The segment scan after looking at the moves into points 1 .. i - 1.
/// A run of moves in one direction forms a segment; a move in the opposite
/// direction closes it at the turning point and opens the next one there.
pub open spec fn scan_segments(xs: Seq<i32>, min_displacement: int, i: int) -> SegmentScan
    decreases i,
{
    if i <= 1 {
        SegmentScan { start: xs[0] as int, dir: 0, segments: Seq::empty() }
    } else {
        let prev = scan_segments(xs, min_displacement, i - 1);
        let d = direction(xs[i - 1] - xs[i - 2]);
        if d == 0 || prev.dir == d {
            prev
        } else if prev.dir == 0 {
            SegmentScan { start: prev.start, dir: d, segments: prev.segments }
        } else {
            let disp = abs_int(xs[i - 2] - prev.start);
            SegmentScan {
                start: xs[i - 2] as int,
                dir: d,
                segments: if disp >= min_displacement {
                    prev.segments.push((prev.dir, disp))
                } else {
                    prev.segments
                },
            }
        }
    }
}

/// All segments of a path that travel at least `min_displacement`,
/// including the last, still open one, each as its direction and travel.
pub open spec fn path_segments(xs: Seq<i32>, min_displacement: int) -> Seq<(int, int)> {
    let scan = scan_segments(xs, min_displacement, xs.len() as int);
    let disp = abs_int(xs[xs.len() - 1] - scan.start);
    if scan.dir != 0 && disp >= min_displacement {
        scan.segments.push((scan.dir, disp))
    } else {
        scan.segments
    }
}

/// Number of places where a kept segment goes the other way than the kept
/// segment before it.
pub open spec fn direction_changes(segs: Seq<(int, int)>) -> nat
    decreases segs.len(),
{
    if segs.len() <= 1 {
        0
    } else {
        let rest = direction_changes(segs.drop_last());
        if segs.last().0 != segs[segs.len() - 2].0 {
            rest + 1
        } else {
            rest
        }
    }
}

/// Number of direction reversals: a change of direction between two
/// consecutive segments that each travel at least the minimum.
pub open spec fn reversal_count(xs: Seq<i32>, min_displacement: int) -> nat {
    direction_changes(path_segments(xs, min_displacement))
}

/// One step of the detector on a new cursor position seen at time `now`.
/// Returns the next state and whether a shake was recognised.
pub open spec fn shake_step(s: ShakeState, x: i32, y: i32, now: u64) -> (ShakeState, bool) {
    let cfg = s.config;
    let h = trim_expired(s.history.push((x, y, now)), now, cfg.window_ms);
    let cooling = match s.last_trigger {
        Some(last) => elapsed(now, last) < cfg.cooldown_ms * nanos_per_ms(),
        None => false,
    };
    if cooling || h.len() < 3 {
        (ShakeState { config: cfg, history: h, last_trigger: s.last_trigger }, false)
    } else if reversal_count(xs_of(h), cfg.min_displacement as int) >= cfg.reversal_threshold {
        (ShakeState { config: cfg, history: Seq::empty(), last_trigger: Some(now) }, true)
    } else {
        (ShakeState { config: cfg, history: h, last_trigger: s.last_trigger }, false)
    }
}

#[verifier::external_type_specification]
#[verifier::external_body]
pub struct ExInstant(std::time::Instant);

/// Calls `std::time::Instant::now`: the current reading of the monotonic
/// clock. Nothing is stated of it: it depends on the time.
#[verifier::external_body]
fn clock_start() -> std::time::Instant {
    std::time::Instant::now()
}

/// Calls `std::time::Instant::elapsed` on `start` and reads the duration in
/// whole nanoseconds. Nothing is stated of the value: it depends on the time.
#[verifier::external_body]
fn nanos_elapsed(start: &std::time::Instant) -> u128 {
    start.elapsed().as_nanos()
}

/// Detects a mouse shake from a stream of cursor positions.
pub struct ShakeDetector {
    history: VecDeque<Sample>,
    pub config: ShakeConfig,
    last_trigger: Option<u64>,
    clock: std::time::Instant,
}

impl View for ShakeDetector {
    type V = ShakeState;

    closed spec fn view(&self) -> ShakeState {
        ShakeState { config: self.config, history: self.history@, last_trigger: self.last_trigger }
    }
}

impl ShakeDetector {
    /// A detector with an empty window that has never triggered.
    pub fn new(config: ShakeConfig) -> (d: Self)
        ensures
            d@.config == config,
            d@.history.len() == 0,
            d@.last_trigger is None,
    {
        ShakeDetector { history: VecDeque::new(), config, last_trigger: None, clock: clock_start() }
    }

    /// Feeds the current cursor position, timestamped now. Returns whether a
    /// shake was recognised; the step taken is `shake_step` at the time read
    /// from the clock. The monotonic clock never goes back, and the time used
    /// is never earlier than any sample in the window or the last trigger.
    pub fn process(&mut self, x: i32, y: i32) -> (triggered: bool)
        ensures
            exists|now: u64|
                {
                    &&& (final(self)@, triggered) == shake_step(old(self)@, x, y, now)
                    &&& forall|i: int|
                        0 <= i < old(self)@.history.len() ==> (#[trigger] old(self)@.history[i]).2
                            <= now
                    &&& (old(self)@.last_trigger matches Some(l) ==> l <= now)
                },
    {
        let n = nanos_elapsed(&self.clock);
        let mut now: u64 = if n > u64::MAX as u128 {
            u64::MAX
        } else {
            n as u64
        };
        match self.last_trigger {
            Some(l) => if l > now {
                now = l;
            },
            None => {},
        }
        let len = self.history.len();
        let mut i: usize = 0;
        while i < len
            invariant
                len == self.history@.len(),
                i <= len,
                self@ == old(self)@,
                forall|k: int| 0 <= k < i ==> (#[trigger] self.history@[k]).2 <= now,
                self.last_trigger matches Some(l) ==> l <= now,
            decreases len - i,
        {
            if self.history[i].2 > now {
                now = self.history[i].2;
            }
            i += 1;
        }
        let ghost used = now;
        let r = self.process_at(x, y, now);
        assert((self@, r) == shake_step(old(self)@, x, y, used));
        r
    }

    /// Feeds a cursor position seen at time `now` (nanoseconds since the
    /// detector was created).
    pub fn process_at(&mut self, x: i32, y: i32, now: u64) -> (triggered: bool)
        ensures
            (final(self)@, triggered) == shake_step(old(self)@, x, y, now),
    {
        let ghost s0 = self@;
        self.history.push_back((x, y, now));
        self.trim(now);
        let cooling = match self.last_trigger {
            Some(last) => {
                let age: u64 = if now >= last { now - last } else { 0 };
                (age as u128) < (self.config.cooldown_ms as u128) * 1_000_000
            },
            None => false,
        };
        if cooling {
            return false;
        }
        if self.history.len() < 3 {
            return false;
        }
        let reversals = self.count_reversals();
        if reversals >= self.config.reversal_threshold {
            self.last_trigger = Some(now);
            self.history.clear();
            true
        } else {
            false
        }
    }

    /// Drops samples from the front of the window while they are expired.
    fn trim(&mut self, now: u64)
        ensures
            final(self).config == old(self).config,
            final(self).last_trigger == old(self).last_trigger,
            final(self).history@ == trim_expired(old(self).history@, now, old(self).config.window_ms),
    {
        let window = self.config.window_ms;
        loop
            invariant
                self.config == old(self).config,
                self.last_trigger == old(self).last_trigger,
                window == self.config.window_ms,
                trim_expired(self.history@, now, window) == trim_expired(old(self).history@, now, window),
            ensures
                self.config == old(self).config,
                self.last_trigger == old(self).last_trigger,
                self.history@ == trim_expired(old(self).history@, now, window),
            decreases self.history@.len(),
        {
            if self.history.len() == 0 {
                break;
            }
            let t = self.history[0].2;
            let age: u64 = if now >= t {
                now - t
            } else {
                0
            };
            if (age as u128) <= (window as u128) * 1_000_000 {
                break;
            }
            let ghost before = self.history@;
            self.history.pop_front();
            assert(self.history@ =~= before.drop_first());
        }
    }

    /// Number of horizontal direction reversals among the samples in the window.
    fn count_reversals(&self) -> (n: usize)
        requires
            self.history@.len() >= 1,
        ensures
            n == reversal_count(xs_of(self.history@), self.config.min_displacement as int),
    {
        let mut points: Vec<i32> = Vec::new();
        let len = self.history.len();
        let mut i: usize = 0;
        while i < len
            invariant
                len == self.history@.len(),
                i <= len,
                points@ =~= xs_of(self.history@.subrange(0, i as int)),
            decreases len - i,
        {
            points.push(self.history[i].0);
            i += 1;
        }
        assert(self.history@.subrange(0, len as int) =~= self.history@);
        count_reversals(&points, self.config.min_displacement)
    }
}

/// Counts the direction reversals along a path of x coordinates: the
/// changes of direction between consecutive segments that travel at least
/// `min_displacement`.
pub fn count_reversals(points: &Vec<i32>, min_displacement: i32) -> (n: usize)
    requires
        points@.len() >= 1,
    ensures
        n == reversal_count(points@, min_displacement as int),
{
    let xs = Ghost(points@);
    let min = Ghost(min_displacement as int);
    let mut segments: Vec<(i32, i64)> = Vec::new();
    let mut seg_start: i32 = points[0];
    let mut seg_dir: i32 = 0;
    let mut i: usize = 1;
    while i < points.len()
        invariant
            1 <= i <= points@.len(),
            xs@ == points@,
            min@ == min_displacement as int,
            seg_start as int == scan_segments(xs@, min@, i as int).start,
            seg_dir as int == scan_segments(xs@, min@, i as int).dir,
            segments@.len() == scan_segments(xs@, min@, i as int).segments.len(),
            forall|k: int|
                0 <= k < segments@.len() ==> (segments@[k].0 as int, segments@[k].1 as int)
                    == #[trigger] scan_segments(xs@, min@, i as int).segments[k],
        decreases points@.len() - i,
    {
        let ghost prev = scan_segments(xs@, min@, i as int);
        let delta: i64 = points[i] as i64 - points[i - 1] as i64;
        if delta != 0 {
            let dir: i32 = if delta > 0 {
                1
            } else {
                -1
            };
            if seg_dir == 0 {
                seg_dir = dir;
            } else if seg_dir != dir {
                let diff: i64 = points[i - 1] as i64 - seg_start as i64;
                let displacement: i64 = if diff < 0 {
                    -diff
                } else {
                    diff
                };
                if displacement >= min_displacement as i64 {
                    segments.push((seg_dir, displacement));
                }
                seg_start = points[i - 1];
                seg_dir = dir;
            }
        }
        i += 1;
        assert forall|k: int| 0 <= k < segments@.len() implies (
            segments@[k].0 as int,
            segments@[k].1 as int,
        ) == #[trigger] scan_segments(xs@, min@, i as int).segments[k] by {
            if k < prev.segments.len() {
            }
        }
    }
    if seg_dir != 0 {
        let diff: i64 = points[points.len() - 1] as i64 - seg_start as i64;
        let displacement: i64 = if diff < 0 {
            -diff
        } else {
            diff
        };
        if displacement >= min_displacement as i64 {
            segments.push((seg_dir, displacement));
        }
    }
    let ghost segs = path_segments(xs@, min@);
    assert(segments@.len() == segs.len());
    assert forall|k: int| 0 <= k < segments@.len() implies (
        segments@[k].0 as int,
        segments@[k].1 as int,
    ) == #[trigger] segs[k] by {
        if k < scan_segments(xs@, min@, points@.len() as int).segments.len() {
        }
    }
    let mut changes: usize = 0;
    let mut j: usize = 1;
    while j < segments.len()
        invariant
            1 <= j,
            segments@.len() == segs.len(),
            forall|k: int|
                0 <= k < segments@.len() ==> (segments@[k].0 as int, segments@[k].1 as int)
                    == #[trigger] segs[k],
            j <= segments@.len() || segments@.len() == 0,
            segments@.len() > 0 ==> changes == direction_changes(segs.take(j as int)),
            segments@.len() == 0 ==> changes == 0,
            changes < j,
        decreases segments@.len() - j,
    {
        proof {
            assert(segs.take(j + 1).drop_last() =~= segs.take(j as int));
            assert(segs[j as int] == (segments@[j as int].0 as int, segments@[j as int].1 as int));
            assert(segs[j - 1] == (segments@[j - 1].0 as int, segments@[j - 1].1 as int));
        }
        if segments[j].0 != segments[j - 1].0 {
            changes += 1;
        }
        j += 1;
    }
    proof {
        if segs.len() > 0 {
            assert(segs.take(segs.len() as int) =~= segs);
        }
    }
    changes
}

} // verus!

verus! {

/// Every move along the path goes in direction `sgn` or stays put.
pub open spec fn moves_one_way(xs: Seq<i32>, sgn: int) -> bool {
    forall|k: int| 1 <= k < xs.len() ==> #[trigger] direction(xs[k] - xs[k - 1]) != -sgn
}

proof fn lemma_scan_facts(xs: Seq<i32>, min: int, i: int)
    requires
        xs.len() >= 1,
        1 <= i <= xs.len(),
    ensures
        forall|k: int|
            0 <= k < scan_segments(xs, min, i).segments.len() ==> #[trigger] scan_segments(
                xs,
                min,
                i,
            ).segments[k].1 >= min,
        scan_segments(xs, min, i).segments.len() + (if scan_segments(xs, min, i).dir != 0 {
            1int
        } else {
            0int
        }) <= i - 1,
        exists|j: int| 0 <= j < i && scan_segments(xs, min, i).start == xs[j] as int,
    decreases i,
{
    if i > 1 {
        lemma_scan_facts(xs, min, i - 1);
        let prev = scan_segments(xs, min, i - 1);
        let cur = scan_segments(xs, min, i);
        assert forall|k: int| 0 <= k < cur.segments.len() implies #[trigger] cur.segments[k].1
            >= min by {
            if k < prev.segments.len() {
                assert(prev.segments[k].1 >= min);
            }
        }
        let j = choose|j: int| 0 <= j < i - 1 && prev.start == xs[j] as int;
        if cur.start == prev.start {
            assert(0 <= j < i && cur.start == xs[j] as int);
        } else {
            assert(cur.start == xs[i - 2] as int);
        }
    } else {
        assert(scan_segments(xs, min, i).start == xs[0] as int);
    }
}

/// Every segment that counts towards a reversal travels at least the
/// minimum displacement.
pub proof fn lemma_counted_segments_travel_enough(xs: Seq<i32>, min_displacement: int)
    requires
        xs.len() >= 1,
    ensures
        forall|k: int|
            0 <= k < path_segments(xs, min_displacement).len() ==> #[trigger] path_segments(
                xs,
                min_displacement,
            )[k].1 >= min_displacement,
{
    lemma_scan_facts(xs, min_displacement, xs.len() as int);
}

proof fn lemma_direction_changes_bound(segs: Seq<(int, int)>)
    ensures
        direction_changes(segs) == 0 || direction_changes(segs) + 1 <= segs.len(),
    decreases segs.len(),
{
    if segs.len() > 1 {
        lemma_direction_changes_bound(segs.drop_last());
    }
}

/// A path of `n` points has no reversal or at most `n - 2`: each reversal
/// needs a segment on either side, and each segment at least one move.
pub proof fn lemma_reversal_bound(xs: Seq<i32>, min_displacement: int)
    requires
        xs.len() >= 1,
    ensures
        reversal_count(xs, min_displacement) == 0 || reversal_count(xs, min_displacement) + 2
            <= xs.len(),
{
    lemma_scan_facts(xs, min_displacement, xs.len() as int);
    lemma_direction_changes_bound(path_segments(xs, min_displacement));
}

proof fn lemma_scan_jitter(xs: Seq<i32>, min: int, i: int)
    requires
        xs.len() >= 1,
        1 <= i <= xs.len(),
        forall|a: int, b: int|
            0 <= a < xs.len() && 0 <= b < xs.len() ==> abs_int(#[trigger] xs[a] - #[trigger] xs[b])
                < min,
    ensures
        scan_segments(xs, min, i).segments.len() == 0,
    decreases i,
{
    if i > 1 {
        lemma_scan_jitter(xs, min, i - 1);
        lemma_scan_facts(xs, min, i - 1);
        let prev = scan_segments(xs, min, i - 1);
        let j = choose|j: int| 0 <= j < i - 1 && prev.start == xs[j] as int;
        assert(abs_int(xs[i - 2] - xs[j]) < min);
    }
}

/// Jitter is no shake: when no two points of the path are the minimum
/// displacement apart, there is no reversal.
pub proof fn lemma_jitter_has_no_reversals(xs: Seq<i32>, min_displacement: int)
    requires
        xs.len() >= 1,
        forall|a: int, b: int|
            0 <= a < xs.len() && 0 <= b < xs.len() ==> abs_int(#[trigger] xs[a] - #[trigger] xs[b])
                < min_displacement,
    ensures
        reversal_count(xs, min_displacement) == 0,
{
    let n = xs.len() as int;
    lemma_scan_jitter(xs, min_displacement, n);
    lemma_scan_facts(xs, min_displacement, n);
    let scan = scan_segments(xs, min_displacement, n);
    let j = choose|j: int| 0 <= j < n && scan.start == xs[j] as int;
    assert(abs_int(xs[n - 1] - xs[j]) < min_displacement);
}

/// Samples are in time order and none is later than `now`.
pub open spec fn timestamps_ordered_until(h: Seq<Sample>, now: u64) -> bool {
    &&& forall|i: int, j: int| 0 <= i <= j < h.len() ==> h[i].2 <= h[j].2
    &&& forall|i: int| 0 <= i < h.len() ==> h[i].2 <= now
}

proof fn lemma_scan_one_way(xs: Seq<i32>, min: int, sgn: int, i: int)
    requires
        sgn == 1 || sgn == -1,
        xs.len() >= 1,
        1 <= i <= xs.len(),
        moves_one_way(xs, sgn),
    ensures
        scan_segments(xs, min, i).dir == 0 || scan_segments(xs, min, i).dir == sgn,
        scan_segments(xs, min, i).segments.len() == 0,
    decreases i,
{
    if i > 1 {
        lemma_scan_one_way(xs, min, sgn, i - 1);
        let k = i - 1;
        assert(direction(xs[k] - xs[k - 1]) != -sgn);
        assert(k - 1 == i - 2);
    }
}

/// A path that only ever moves one way (or stays put) has no reversals.
pub proof fn lemma_one_way_path_has_no_reversals(xs: Seq<i32>, min_displacement: int, sgn: int)
    requires
        sgn == 1 || sgn == -1,
        xs.len() >= 1,
        moves_one_way(xs, sgn),
    ensures
        reversal_count(xs, min_displacement) == 0,
{
    lemma_scan_one_way(xs, min_displacement, sgn, xs.len() as int);
}

proof fn lemma_trim_is_suffix(h: Seq<Sample>, now: u64, window_ms: u64)
    ensures
        trim_expired(h, now, window_ms).len() <= h.len(),
        trim_expired(h, now, window_ms) == h.subrange(
            h.len() - trim_expired(h, now, window_ms).len(),
            h.len() as int,
        ),
        trim_expired(h, now, window_ms).len() > 0 ==> !is_expired(
            trim_expired(h, now, window_ms)[0],
            now,
            window_ms,
        ),
    decreases h.len(),
{
    if h.len() > 0 && is_expired(h[0], now, window_ms) {
        lemma_trim_is_suffix(h.drop_first(), now, window_ms);
        let t = trim_expired(h.drop_first(), now, window_ms);
        assert(h.drop_first().subrange(h.len() - 1 - t.len(), h.len() - 1) =~= h.subrange(
            h.len() - t.len(),
            h.len() as int,
        ));
    } else {
        assert(h.subrange(0, h.len() as int) =~= h);
    }
}

/// While the cooldown after a trigger runs, no position triggers and the
/// time of the last trigger is kept.
pub proof fn lemma_cooldown_blocks_triggers(s: ShakeState, x: i32, y: i32, now: u64, last: u64)
    requires
        s.last_trigger == Some(last),
        elapsed(now, last) < s.config.cooldown_ms * nanos_per_ms(),
    ensures
        !shake_step(s, x, y, now).1,
        shake_step(s, x, y, now).0.last_trigger == Some(last),
{
}

/// A trigger is recorded at the time it happens, empties the window, and only
/// comes once the cooldown since the previous trigger has passed and the
/// window (with the new position) holds at least three samples and at least
/// the configured number of reversals; a step that does not trigger keeps
/// the time of the last trigger. The configuration never changes.
pub proof fn lemma_trigger_bookkeeping(s: ShakeState, x: i32, y: i32, now: u64)
    ensures
        shake_step(s, x, y, now).0.config == s.config,
        shake_step(s, x, y, now).1 ==> {
            let h = trim_expired(s.history.push((x, y, now)), now, s.config.window_ms);
            &&& h.len() >= 3
            &&& reversal_count(xs_of(h), s.config.min_displacement as int)
                >= s.config.reversal_threshold
            &&& shake_step(s, x, y, now).0.last_trigger == Some(now)
            &&& shake_step(s, x, y, now).0.history.len() == 0
            &&& (s.last_trigger matches Some(last) ==> elapsed(now, last) >= s.config.cooldown_ms
                * nanos_per_ms())
        },
        !shake_step(s, x, y, now).1 ==> shake_step(s, x, y, now).0.last_trigger == s.last_trigger,
{
}

/// Moving the cursor only one way along x never triggers, whatever the
/// window holds, as long as at least one reversal is required.
pub proof fn lemma_straight_movement_never_triggers(s: ShakeState, x: i32, y: i32, now: u64, sgn: int)
    requires
        sgn == 1 || sgn == -1,
        s.config.reversal_threshold >= 1,
        moves_one_way(xs_of(s.history.push((x, y, now))), sgn),
    ensures
        !shake_step(s, x, y, now).1,
{
    let full = s.history.push((x, y, now));
    let h = trim_expired(full, now, s.config.window_ms);
    lemma_trim_is_suffix(full, now, s.config.window_ms);
    if h.len() >= 3 {
        let off = full.len() - h.len();
        assert forall|k: int| 1 <= k < xs_of(h).len() implies #[trigger] direction(
            xs_of(h)[k] - xs_of(h)[k - 1],
        ) != -sgn by {
            assert(xs_of(h)[k] == xs_of(full)[k + off]);
            assert(xs_of(h)[k - 1] == xs_of(full)[k + off - 1]);
        }
        lemma_one_way_path_has_no_reversals(xs_of(h), s.config.min_displacement as int, sgn);
    }
}

/// When samples arrive in time order, after every step the window holds only
/// samples in time order, none later than now and none older than the window.
pub proof fn lemma_window_stays_fresh(s: ShakeState, x: i32, y: i32, now: u64)
    requires
        timestamps_ordered_until(s.history, now),
    ensures
        timestamps_ordered_until(shake_step(s, x, y, now).0.history, now),
        forall|i: int|
            0 <= i < shake_step(s, x, y, now).0.history.len() ==> !is_expired(
                #[trigger] shake_step(s, x, y, now).0.history[i],
                now,
                s.config.window_ms,
            ),
{
    let full = s.history.push((x, y, now));
    let h = trim_expired(full, now, s.config.window_ms);
    lemma_trim_is_suffix(full, now, s.config.window_ms);
    let off = full.len() - h.len();
    assert(timestamps_ordered_until(full, now));
    assert(timestamps_ordered_until(h, now)) by {
        assert forall|i: int, j: int| 0 <= i <= j < h.len() implies h[i].2 <= h[j].2 by {
            assert(h[i] == full[i + off]);
            assert(h[j] == full[j + off]);
        }
        assert forall|i: int| 0 <= i < h.len() implies h[i].2 <= now by {
            assert(h[i] == full[i + off]);
        }
    }
    assert forall|i: int| 0 <= i < h.len() implies !is_expired(h[i], now, s.config.window_ms) by {
        assert(h[0].2 <= h[i].2);
    }
}


/// The detector's state after a run of calls, each a cursor position and
/// the time it was seen.
pub open spec fn run_state(s: ShakeState, inputs: Seq<Sample>) -> ShakeState
    decreases inputs.len(),
{
    if inputs.len() == 0 {
        s
    } else {
        let i = inputs.last();
        shake_step(run_state(s, inputs.drop_last()), i.0, i.1, i.2).0
    }
}

/// Whether call `k` of a run triggers.
pub open spec fn run_result(s: ShakeState, inputs: Seq<Sample>, k: int) -> bool {
    let i = inputs[k];
    shake_step(run_state(s, inputs.take(k)), i.0, i.1, i.2).1
}

/// The times of a run never go back.
pub open spec fn times_nondecreasing(inputs: Seq<Sample>) -> bool {
    forall|a: int, b: int| 0 <= a <= b < inputs.len() ==> inputs[a].2 <= inputs[b].2
}

proof fn lemma_run_append(s: ShakeState, a: Seq<Sample>, b: Seq<Sample>)
    ensures
        run_state(s, a + b) == run_state(run_state(s, a), b),
    decreases b.len(),
{
    if b.len() == 0 {
        assert(a + b =~= a);
    } else {
        lemma_run_append(s, a, b.drop_last());
        assert((a + b).drop_last() =~= a + b.drop_last());
        assert((a + b).last() == b.last());
    }
}

proof fn lemma_run_keeps_config(s: ShakeState, inputs: Seq<Sample>)
    ensures
        run_state(s, inputs).config == s.config,
    decreases inputs.len(),
{
    if inputs.len() > 0 {
        lemma_run_keeps_config(s, inputs.drop_last());
    }
}

proof fn lemma_run_in_cooldown(s: ShakeState, inputs: Seq<Sample>, last: u64)
    requires
        s.last_trigger == Some(last),
        forall|m: int|
            0 <= m < inputs.len() ==> elapsed(#[trigger] inputs[m].2, last)
                < s.config.cooldown_ms * nanos_per_ms(),
    ensures
        run_state(s, inputs).last_trigger == Some(last),
        run_state(s, inputs).config == s.config,
    decreases inputs.len(),
{
    if inputs.len() > 0 {
        let p = inputs.drop_last();
        assert forall|m: int| 0 <= m < p.len() implies elapsed(#[trigger] p[m].2, last)
            < s.config.cooldown_ms * nanos_per_ms() by {
            assert(p[m] == inputs[m]);
        }
        lemma_run_in_cooldown(s, p, last);
        let i = inputs.last();
        assert(i == inputs[inputs.len() - 1]);
        lemma_cooldown_blocks_triggers(run_state(s, p), i.0, i.1, i.2, last);
    }
}

/// The cooldown holds over any number of calls: after a call triggers, no
/// later call less than the cooldown after it triggers, whatever came in
/// between, as long as time does not go back.
pub proof fn lemma_cooldown_over_a_run(s: ShakeState, inputs: Seq<Sample>, i: int, j: int)
    requires
        0 <= i < j < inputs.len(),
        times_nondecreasing(inputs),
        run_result(s, inputs, i),
        inputs[j].2 - inputs[i].2 < s.config.cooldown_ms * nanos_per_ms(),
    ensures
        !run_result(s, inputs, j),
{
    let ti = inputs[i];
    let s0 = run_state(s, inputs.take(i));
    lemma_run_keeps_config(s, inputs.take(i));
    lemma_trigger_bookkeeping(s0, ti.0, ti.1, ti.2);
    assert(inputs.take(i + 1).drop_last() =~= inputs.take(i));
    assert(inputs.take(i + 1).last() == ti);
    let s1 = run_state(s, inputs.take(i + 1));
    assert(s1.last_trigger == Some(ti.2));
    assert(s1.config == s.config);
    let mid = inputs.subrange(i + 1, j);
    assert forall|m: int| 0 <= m < mid.len() implies elapsed(#[trigger] mid[m].2, ti.2)
        < s1.config.cooldown_ms * nanos_per_ms() by {
        assert(mid[m] == inputs[i + 1 + m]);
        assert(inputs[i].2 <= inputs[i + 1 + m].2);
        assert(inputs[i + 1 + m].2 <= inputs[j].2);
    }
    lemma_run_in_cooldown(s1, mid, ti.2);
    lemma_run_append(s, inputs.take(i + 1), mid);
    assert(inputs.take(i + 1) + mid =~= inputs.take(j));
    let sj = run_state(s, inputs.take(j));
    let tj = inputs[j];
    assert(inputs[i].2 <= inputs[j].2);
    lemma_cooldown_blocks_triggers(sj, tj.0, tj.1, tj.2, ti.2);
}

/// `h2` is `h1` moved by `c` along x: same times, x coordinates `c` apart,
/// any y coordinates.
pub open spec fn shifted(h1: Seq<Sample>, h2: Seq<Sample>, c: int) -> bool {
    &&& h1.len() == h2.len()
    &&& forall|k: int|
        0 <= k < h1.len() ==> (#[trigger] h2[k]).0 == h1[k].0 + c && h2[k].2 == h1[k].2
}

/// Two detector states that differ only by a move of `c` along x (and in y).
pub open spec fn shifted_state(s1: ShakeState, s2: ShakeState, c: int) -> bool {
    &&& s1.config == s2.config
    &&& s1.last_trigger == s2.last_trigger
    &&& shifted(s1.history, s2.history, c)
}

proof fn lemma_trim_shifted(h1: Seq<Sample>, h2: Seq<Sample>, c: int, now: u64, w: u64)
    requires
        shifted(h1, h2, c),
    ensures
        shifted(trim_expired(h1, now, w), trim_expired(h2, now, w), c),
    decreases h1.len(),
{
    if h1.len() > 0 {
        assert(h2[0].2 == h1[0].2);
        if is_expired(h1[0], now, w) {
            let t1 = h1.drop_first();
            let t2 = h2.drop_first();
            assert forall|k: int| 0 <= k < t1.len() implies (#[trigger] t2[k]).0 == t1[k].0 + c
                && t2[k].2 == t1[k].2 by {
                assert(t2[k] == h2[k + 1]);
                assert(t1[k] == h1[k + 1]);
            }
            lemma_trim_shifted(t1, t2, c, now, w);
        }
    }
}

proof fn lemma_scan_shifted(xs1: Seq<i32>, xs2: Seq<i32>, c: int, min: int, i: int)
    requires
        xs1.len() == xs2.len(),
        xs1.len() >= 1,
        1 <= i <= xs1.len(),
        forall|k: int| 0 <= k < xs1.len() ==> (#[trigger] xs2[k]) as int == xs1[k] as int + c,
    ensures
        scan_segments(xs2, min, i) == (SegmentScan {
            start: scan_segments(xs1, min, i).start + c,
            dir: scan_segments(xs1, min, i).dir,
            segments: scan_segments(xs1, min, i).segments,
        }),
    decreases i,
{
    if i > 1 {
        lemma_scan_shifted(xs1, xs2, c, min, i - 1);
        assert(xs2[i - 1] as int == xs1[i - 1] as int + c);
        assert(xs2[i - 2] as int == xs1[i - 2] as int + c);
    } else {
        assert(xs2[0] as int == xs1[0] as int + c);
    }
}

/// Moving a path along x does not change its reversals.
pub proof fn lemma_reversals_ignore_translation(xs1: Seq<i32>, xs2: Seq<i32>, c: int, min_displacement: int)
    requires
        xs1.len() == xs2.len(),
        xs1.len() >= 1,
        forall|k: int| 0 <= k < xs1.len() ==> (#[trigger] xs2[k]) as int == xs1[k] as int + c,
    ensures
        reversal_count(xs2, min_displacement) == reversal_count(xs1, min_displacement),
{
    let n = xs1.len() as int;
    lemma_scan_shifted(xs1, xs2, c, min_displacement, n);
    assert(xs2[n - 1] as int == xs1[n - 1] as int + c);
    assert(path_segments(xs2, min_displacement) == path_segments(xs1, min_displacement));
}

/// One step on two states that differ by a move along x, with positions
/// that differ by the same move (and any y), gives the same answer and
/// states that still differ only by that move.
pub proof fn lemma_step_ignores_translation(
    s1: ShakeState,
    s2: ShakeState,
    c: int,
    x1: i32,
    y1: i32,
    x2: i32,
    y2: i32,
    now: u64,
)
    requires
        shifted_state(s1, s2, c),
        x2 as int == x1 as int + c,
    ensures
        shake_step(s1, x1, y1, now).1 == shake_step(s2, x2, y2, now).1,
        shifted_state(shake_step(s1, x1, y1, now).0, shake_step(s2, x2, y2, now).0, c),
{
    let f1 = s1.history.push((x1, y1, now));
    let f2 = s2.history.push((x2, y2, now));
    assert forall|k: int| 0 <= k < f1.len() implies (#[trigger] f2[k]).0 == f1[k].0 + c
        && f2[k].2 == f1[k].2 by {
        if k < s1.history.len() {
            assert(f1[k] == s1.history[k]);
            assert(f2[k] == s2.history[k]);
        }
    }
    let w = s1.config.window_ms;
    lemma_trim_shifted(f1, f2, c, now, w);
    let h1 = trim_expired(f1, now, w);
    let h2 = trim_expired(f2, now, w);
    if h1.len() >= 1 {
        assert forall|k: int| 0 <= k < xs_of(h1).len() implies (#[trigger] xs_of(h2)[k]) as int
            == xs_of(h1)[k] as int + c by {
            assert(h2[k].0 == h1[k].0 + c);
        }
        lemma_reversals_ignore_translation(
            xs_of(h1),
            xs_of(h2),
            c,
            s1.config.min_displacement as int,
        );
    }
    assert(shifted(Seq::<Sample>::empty(), Seq::<Sample>::empty(), c));
}

/// Only x moves matter, and only relative to each other: two detectors with
/// equal settings, fed at the same times with x coordinates `c` apart and
/// any y coordinates, give the same answer at every call.
pub proof fn lemma_run_ignores_translation(
    s1: ShakeState,
    s2: ShakeState,
    in1: Seq<Sample>,
    in2: Seq<Sample>,
    c: int,
    k: int,
)
    requires
        shifted_state(s1, s2, c),
        in1.len() == in2.len(),
        forall|m: int|
            0 <= m < in1.len() ==> (#[trigger] in2[m]).0 == in1[m].0 + c && in2[m].2 == in1[m].2,
        0 <= k < in1.len(),
    ensures
        run_result(s1, in1, k) == run_result(s2, in2, k),
    decreases k,
{
    lemma_run_prefix_shifted(s1, s2, in1, in2, c, k);
    let a = in1[k];
    let b = in2[k];
    lemma_step_ignores_translation(
        run_state(s1, in1.take(k)),
        run_state(s2, in2.take(k)),
        c,
        a.0,
        a.1,
        b.0,
        b.1,
        a.2,
    );
}

proof fn lemma_run_prefix_shifted(
    s1: ShakeState,
    s2: ShakeState,
    in1: Seq<Sample>,
    in2: Seq<Sample>,
    c: int,
    k: int,
)
    requires
        shifted_state(s1, s2, c),
        in1.len() == in2.len(),
        forall|m: int|
            0 <= m < in1.len() ==> (#[trigger] in2[m]).0 == in1[m].0 + c && in2[m].2 == in1[m].2,
        0 <= k <= in1.len(),
    ensures
        shifted_state(run_state(s1, in1.take(k)), run_state(s2, in2.take(k)), c),
    decreases k,
{
    if k == 0 {
        assert(in1.take(0) =~= Seq::<Sample>::empty());
        assert(in2.take(0) =~= Seq::<Sample>::empty());
    } else {
        lemma_run_prefix_shifted(s1, s2, in1, in2, c, k - 1);
        assert(in1.take(k).drop_last() =~= in1.take(k - 1));
        assert(in2.take(k).drop_last() =~= in2.take(k - 1));
        assert(in1.take(k).last() == in1[k - 1]);
        assert(in2.take(k).last() == in2[k - 1]);
        let a = in1[k - 1];
        let b = in2[k - 1];
        lemma_step_ignores_translation(
            run_state(s1, in1.take(k - 1)),
            run_state(s2, in2.take(k - 1)),
            c,
            a.0,
            a.1,
            b.0,
            b.1,
            a.2,
        );
    }
}

/// Index of the last call before call `k` of a run that triggered, or -1
/// when none did.
pub open spec fn last_trigger_index(s: ShakeState, inputs: Seq<Sample>, k: int) -> int
    decreases k,
{
    if k <= 0 {
        -1
    } else if run_result(s, inputs, k - 1) {
        k - 1
    } else {
        last_trigger_index(s, inputs, k - 1)
    }
}

/// The samples a run has gathered before call `k`: those since the last
/// trigger, without the ones that had left the window at the last call.
pub open spec fn gathered(s: ShakeState, inputs: Seq<Sample>, k: int) -> Seq<Sample> {
    let l = last_trigger_index(s, inputs, k);
    if k <= 0 {
        Seq::empty()
    } else {
        trim_expired(inputs.subrange(l + 1, k), inputs[k - 1].2, s.config.window_ms)
    }
}

/// The last trigger a run knows of before call `k`.
pub open spec fn known_trigger(s: ShakeState, inputs: Seq<Sample>, k: int) -> Option<u64> {
    let l = last_trigger_index(s, inputs, k);
    if l >= 0 {
        Some(inputs[l].2)
    } else {
        s.last_trigger
    }
}

proof fn lemma_expired_later(smp: Sample, t1: u64, t2: u64, w: u64)
    requires
        t1 <= t2,
        is_expired(smp, t1, w),
    ensures
        is_expired(smp, t2, w),
{
}

proof fn lemma_trim_twice(a: Seq<Sample>, x: Sample, t1: u64, t2: u64, w: u64)
    requires
        t1 <= t2,
    ensures
        trim_expired(trim_expired(a, t1, w).push(x), t2, w) == trim_expired(a.push(x), t2, w),
    decreases a.len(),
{
    if a.len() > 0 && is_expired(a[0], t1, w) {
        lemma_expired_later(a[0], t1, t2, w);
        lemma_trim_twice(a.drop_first(), x, t1, t2, w);
        assert(a.push(x)[0] == a[0]);
        assert(a.push(x).drop_first() =~= a.drop_first().push(x));
    }
}

proof fn lemma_run_tracks(s: ShakeState, inputs: Seq<Sample>, k: int)
    requires
        s.history.len() == 0,
        times_nondecreasing(inputs),
        0 <= k <= inputs.len(),
    ensures
        run_state(s, inputs.take(k)).config == s.config,
        run_state(s, inputs.take(k)).last_trigger == known_trigger(s, inputs, k),
        run_state(s, inputs.take(k)).history == gathered(s, inputs, k),
        -1 <= last_trigger_index(s, inputs, k) < k,
    decreases k,
{
    if k == 0 {
        assert(inputs.take(0) =~= Seq::<Sample>::empty());
    } else {
        lemma_run_tracks(s, inputs, k - 1);
        assert(inputs.take(k).drop_last() =~= inputs.take(k - 1));
        assert(inputs.take(k).last() == inputs[k - 1]);
        let st = run_state(s, inputs.take(k - 1));
        let inp = inputs[k - 1];
        let l = last_trigger_index(s, inputs, k - 1);
        let w = s.config.window_ms;
        let seg = inputs.subrange(l + 1, k);
        assert(seg =~= inputs.subrange(l + 1, k - 1).push(inp));
        if k - 1 == 0 {
            assert(st.history =~= Seq::<Sample>::empty());
            assert(inputs.subrange(l + 1, k - 1) =~= Seq::<Sample>::empty());
            assert(trim_expired(Seq::<Sample>::empty(), inp.2, w) == Seq::<Sample>::empty());
        } else {
            assert(inputs[k - 2].2 <= inputs[k - 1].2);
            lemma_trim_twice(inputs.subrange(l + 1, k - 1), inp, inputs[k - 2].2, inp.2, w);
        }
        assert(trim_expired(st.history.push(inp), inp.2, w) == trim_expired(seg, inp.2, w));
        if run_result(s, inputs, k - 1) {
            assert(inputs.subrange(k, k) =~= Seq::<Sample>::empty());
        }
    }
}

/// What any call of a run answers, from a detector with an empty window and
/// with time never going back: it triggers exactly when the cooldown since
/// the last trigger (of this run, or the one the detector knew) has passed
/// and the samples since that trigger that are still inside the window,
/// this one included, are at least three and hold at least the configured
/// number of reversals.
pub proof fn lemma_run_answer(s: ShakeState, inputs: Seq<Sample>, k: int)
    requires
        s.history.len() == 0,
        times_nondecreasing(inputs),
        0 <= k < inputs.len(),
    ensures
        run_result(s, inputs, k) == ({
            let l = last_trigger_index(s, inputs, k);
            let t = inputs[k].2;
            let cooling = match known_trigger(s, inputs, k) {
                Some(last) => elapsed(t, last) < s.config.cooldown_ms * nanos_per_ms(),
                None => false,
            };
            let window = trim_expired(inputs.subrange(l + 1, k + 1), t, s.config.window_ms);
            !cooling && window.len() >= 3 && reversal_count(
                xs_of(window),
                s.config.min_displacement as int,
            ) >= s.config.reversal_threshold
        }),
{
    lemma_run_tracks(s, inputs, k);
    let st = run_state(s, inputs.take(k));
    let inp = inputs[k];
    let l = last_trigger_index(s, inputs, k);
    let w = s.config.window_ms;
    let seg = inputs.subrange(l + 1, k + 1);
    assert(seg =~= inputs.subrange(l + 1, k).push(inp));
    if k == 0 {
        assert(inputs.subrange(l + 1, k) =~= Seq::<Sample>::empty());
        assert(st.history =~= Seq::<Sample>::empty());
    } else {
        assert(inputs[k - 1].2 <= inputs[k].2);
        lemma_trim_twice(inputs.subrange(l + 1, k), inp, inputs[k - 1].2, inp.2, w);
    }
    assert(trim_expired(st.history.push(inp), inp.2, w) == trim_expired(seg, inp.2, w));
}

proof fn lemma_scan_prefix_only(xs: Seq<i32>, min: int, i: int, j: int)
    requires
        1 <= i <= j <= xs.len(),
    ensures
        scan_segments(xs, min, i) == scan_segments(xs.take(j), min, i),
    decreases i,
{
    if i > 1 {
        lemma_scan_prefix_only(xs, min, i - 1, j);
        assert(xs.take(j)[i - 1] == xs[i - 1]);
        assert(xs.take(j)[i - 2] == xs[i - 2]);
    } else {
        assert(xs.take(j)[0] == xs[0]);
    }
}

proof fn lemma_scan_dir_after_move(xs: Seq<i32>, min: int, i: int)
    requires
        2 <= i <= xs.len(),
        direction(xs[i - 1] - xs[i - 2]) != 0,
    ensures
        scan_segments(xs, min, i).dir == direction(xs[i - 1] - xs[i - 2]),
{
}

proof fn lemma_scan_dir_stays(xs: Seq<i32>, min: int, i: int, j: int)
    requires
        1 <= i <= j <= xs.len(),
        scan_segments(xs, min, i).dir != 0,
    ensures
        scan_segments(xs, min, j).dir != 0,
    decreases j - i,
{
    if j > i {
        lemma_scan_dir_stays(xs, min, i, j - 1);
    }
}

/// A point where the path turns: the move into it and the move out of it
/// both go somewhere, in opposite directions.
pub open spec fn turns_at(xs: Seq<i32>, k: int) -> bool {
    &&& 1 <= k && k + 1 < xs.len()
    &&& direction(xs[k] - xs[k - 1]) != 0
    &&& direction(xs[k + 1] - xs[k]) == -direction(xs[k] - xs[k - 1])
}

proof fn lemma_scan_after_turn(xs: Seq<i32>, min: int, k: int, j: int)
    requires
        turns_at(xs, k),
        2 <= j <= xs.len() - k,
    ensures
        scan_segments(xs, min, k + j) == (SegmentScan {
            start: scan_segments(xs.skip(k), min, j).start,
            dir: scan_segments(xs.skip(k), min, j).dir,
            segments: path_segments(xs.take(k + 1), min) + scan_segments(xs.skip(k), min, j).segments,
        }),
    decreases j,
{
    let t = xs.take(k + 1);
    let sfx = xs.skip(k);
    if j == 2 {
        lemma_scan_prefix_only(xs, min, k + 1, k + 1);
        lemma_scan_dir_after_move(xs, min, k + 1);
        assert(t[k] == xs[k]);
        assert(t.len() == k + 1);
        assert(sfx[0] == xs[k]);
        assert(sfx[1] == xs[k + 1]);
        let prev = scan_segments(xs, min, k + 1);
        assert(prev == scan_segments(t, min, k + 1));
        assert(scan_segments(sfx, min, 1).segments =~= Seq::<(int, int)>::empty());
        assert(prev.segments + Seq::<(int, int)>::empty() =~= prev.segments);
        let disp = abs_int(xs[k] - prev.start);
        assert(prev.segments.push((prev.dir, disp)) + Seq::<(int, int)>::empty() =~= prev.segments.push(
            (prev.dir, disp),
        ));
    } else {
        lemma_scan_after_turn(xs, min, k, j - 1);
        assert(sfx[j - 1] == xs[k + j - 1]);
        assert(sfx[j - 2] == xs[k + j - 2]);
        let p = path_segments(t, min);
        let ps = scan_segments(sfx, min, j - 1);
        let disp = abs_int(xs[k + j - 2] - ps.start);
        assert((p + ps.segments).push((ps.dir, disp)) =~= p + ps.segments.push((ps.dir, disp)));
    }
}

/// Segments are measured run by run: at every turn of the path the next
/// segment starts at the turning point, whatever the travel of the segment
/// before it. So the kept segments of a path are those of the part up to a
/// turning point followed by those of the part from it.
pub proof fn lemma_segments_split_at_turn(xs: Seq<i32>, min_displacement: int, k: int)
    requires
        turns_at(xs, k),
    ensures
        path_segments(xs, min_displacement) == path_segments(xs.take(k + 1), min_displacement)
            + path_segments(xs.skip(k), min_displacement),
{
    let n = xs.len() as int;
    let sfx = xs.skip(k);
    lemma_scan_after_turn(xs, min_displacement, k, n - k);
    assert(sfx.len() == n - k);
    assert(sfx[n - k - 1] == xs[n - 1]);
    let p = path_segments(xs.take(k + 1), min_displacement);
    let sc = scan_segments(sfx, min_displacement, n - k);
    let disp = abs_int(xs[n - 1] - sc.start);
    assert((p + sc.segments).push((sc.dir, disp)) =~= p + sc.segments.push((sc.dir, disp)));
}

proof fn lemma_scan_one_run(xs: Seq<i32>, min: int, sgn: int, i: int)
    requires
        sgn == 1 || sgn == -1,
        1 <= i <= xs.len(),
        moves_one_way(xs, sgn),
    ensures
        scan_segments(xs, min, i).start == xs[0] as int,
        scan_segments(xs, min, i).segments.len() == 0,
        scan_segments(xs, min, i).dir == if xs[i - 1] == xs[0] {
            0
        } else {
            sgn
        },
        sgn * (xs[i - 1] - xs[0]) >= 0,
    decreases i,
{
    if i > 1 {
        lemma_scan_one_run(xs, min, sgn, i - 1);
        assert(direction(xs[i - 1] - xs[i - 2]) != -sgn);
    }
}

/// A path that runs one way is a single segment measured from its first
/// point to its last: kept when it travels at least the minimum, with that
/// direction and travel.
pub proof fn lemma_one_run_is_one_segment(xs: Seq<i32>, min_displacement: int, sgn: int)
    requires
        sgn == 1 || sgn == -1,
        xs.len() >= 1,
        moves_one_way(xs, sgn),
    ensures
        path_segments(xs, min_displacement) == if xs[xs.len() - 1] != xs[0] && abs_int(
            xs[xs.len() - 1] - xs[0],
        ) >= min_displacement {
            seq![(sgn, abs_int(xs[xs.len() - 1] - xs[0]))]
        } else {
            Seq::empty()
        },
{
    lemma_scan_one_run(xs, min_displacement, sgn, xs.len() as int);
    let sc = scan_segments(xs, min_displacement, xs.len() as int);
    assert(sc.segments.push((sgn, abs_int(xs[xs.len() - 1] - xs[0]))) =~= seq![
        (sgn, abs_int(xs[xs.len() - 1] - xs[0])),
    ]);
}

proof fn lemma_direction_changes_append(a: Seq<(int, int)>, b: Seq<(int, int)>)
    ensures
        direction_changes(a + b) == direction_changes(a) + direction_changes(b) + if a.len() > 0
            && b.len() > 0 && a.last().0 != b[0].0 {
            1nat
        } else {
            0nat
        },
    decreases b.len(),
{
    if b.len() == 0 {
        assert(a + b =~= a);
    } else if b.len() == 1 {
        if a.len() == 0 {
            assert(a + b =~= b);
        } else {
            assert((a + b).drop_last() =~= a);
            assert((a + b)[(a + b).len() - 2] == a.last());
        }
    } else {
        lemma_direction_changes_append(a, b.drop_last());
        assert((a + b).drop_last() =~= a + b.drop_last());
        assert((a + b).last() == b.last());
        assert((a + b)[(a + b).len() - 2] == b[b.len() - 2]);
        assert(b.drop_last()[0] == b[0]);
    }
}

/// Reversals add up across a turning point: those before it, those after
/// it, and one more when the last kept segment before it and the first kept
/// segment after it go opposite ways.
pub proof fn lemma_reversals_split_at_turn(xs: Seq<i32>, min_displacement: int, k: int)
    requires
        turns_at(xs, k),
    ensures
        ({
            let a = path_segments(xs.take(k + 1), min_displacement);
            let b = path_segments(xs.skip(k), min_displacement);
            reversal_count(xs, min_displacement) == reversal_count(xs.take(k + 1), min_displacement)
                + reversal_count(xs.skip(k), min_displacement) + if a.len() > 0 && b.len() > 0
                && a.last().0 != b[0].0 {
                1nat
            } else {
                0nat
            }
        }),
{
    lemma_segments_split_at_turn(xs, min_displacement, k);
    lemma_direction_changes_append(
        path_segments(xs.take(k + 1), min_displacement),
        path_segments(xs.skip(k), min_displacement),
    );
}

} // verus!
