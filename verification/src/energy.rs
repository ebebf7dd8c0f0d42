//! Frame energy (RMS) and the static-threshold Schmitt trigger detector.
use vstd::prelude::*;

verus! {

/// Sum of the squares of the samples.
pub open spec fn sum_squares(s: Seq<i16>) -> int
    decreases s.len(),
{
    if s.len() == 0 {
        0
    } else {
        sum_squares(s.drop_last()) + (s.last() as int) * (s.last() as int)
    }
}

/// Whether `r` is the integer square root of `m`: the largest `r` with `r * r <= m`.
pub open spec fn is_isqrt(m: int, r: int) -> bool {
    0 <= r && r * r <= m && m < (r + 1) * (r + 1)
}

/// The mean square of a frame: the sum of squares divided by the sample count, rounded
/// down; zero for an empty frame.
pub open spec fn mean_square(s: Seq<i16>) -> int {
    if s.len() == 0 {
        0
    } else {
        sum_squares(s) / (s.len() as int)
    }
}

/// The RMS of a frame: the integer square root of its mean square.
pub open spec fn rms_of(s: Seq<i16>) -> u16 {
    choose|r: u16| is_isqrt(mean_square(s), r as int)
}

/// A sample's square is at most `32768 * 32768`.
proof fn lemma_square_bound(x: i16)
    ensures
        0 <= (x as int) * (x as int) <= 32768 * 32768,
{
    assert(0 <= (x as int) * (x as int) <= 32768 * 32768) by (nonlinear_arith)
        requires
            -32768 <= x <= 32767,
    ;
}

/// The sum of squares is at most `32768 * 32768` per sample.
proof fn lemma_sum_squares_bound(s: Seq<i16>)
    ensures
        0 <= sum_squares(s) <= s.len() * 1073741824,
    decreases s.len(),
{
    if s.len() > 0 {
        lemma_sum_squares_bound(s.drop_last());
        lemma_square_bound(s.last());
        assert(s.drop_last().len() * 1073741824 + 1073741824 == s.len() * 1073741824);
    }
}

/// The mean square is at most `32768 * 32768`.
proof fn lemma_mean_square_bound(s: Seq<i16>)
    ensures
        0 <= mean_square(s) <= 32768 * 32768,
{
    if s.len() > 0 {
        lemma_sum_squares_bound(s);
        let n = s.len() as int;
        assert(sum_squares(s) / n <= (1073741824 * n) / n) by {
            vstd::arithmetic::div_mod::lemma_div_is_ordered(sum_squares(s), 1073741824 * n, n);
        }
        assert((1073741824 * n) / n == 1073741824) by {
            vstd::arithmetic::div_mod::lemma_div_by_multiple(1073741824, n);
        }
        assert(0 <= sum_squares(s) / n) by {
            vstd::arithmetic::div_mod::lemma_div_pos_is_pos(sum_squares(s), n);
        }
    }
}

/// The integer square root of a value of at most `32768 * 32768`.
pub fn isqrt(m: u64) -> (r: u16)
    requires
        m <= 32768 * 32768,
    ensures
        is_isqrt(m as int, r as int),
{
    let mut lo: u64 = 0;
    let mut hi: u64 = 32769;
    while hi - lo > 1
        invariant
            lo < hi <= 32769,
            lo * lo <= m,
            m < hi * hi,
        decreases hi - lo,
    {
        let mid = lo + (hi - lo) / 2;
        assert(mid * mid <= 32769 * 32769) by (nonlinear_arith)
            requires
                mid < 32769,
        ;
        if mid * mid <= m {
            lo = mid;
        } else {
            hi = mid;
        }
    }
    lo as u16
}

/// Root mean square of the samples, in the range 0..=32768; 0 for an empty frame.
pub fn compute_rms(samples: &[i16]) -> (r: u16)
    ensures
        is_isqrt(mean_square(samples@), r as int),
        r == rms_of(samples@),
        r <= 32768,
{
    if samples.len() == 0 {
        assert(is_isqrt(0, 0));
        proof {
            lemma_isqrt_unique(0, 0, rms_of(samples@) as int);
        }
        return 0;
    }
    let mut acc: u128 = 0;
    let mut i: usize = 0;
    while i < samples.len()
        invariant
            i <= samples@.len(),
            acc == sum_squares(samples@.subrange(0, i as int)),
            acc <= i * 1073741824,
        decreases samples@.len() - i,
    {
        let x = samples[i];
        proof {
            lemma_square_bound(x);
            assert(samples@.subrange(0, i + 1).drop_last() =~= samples@.subrange(0, i as int));
        }
        let sq = (x as i64) * (x as i64);
        assert(acc + sq <= (i + 1) * 1073741824);
        acc = acc + sq as u128;
        i = i + 1;
    }
    proof {
        assert(samples@.subrange(0, samples@.len() as int) =~= samples@);
        lemma_mean_square_bound(samples@);
    }
    let mean = acc / (samples.len() as u128);
    let r = isqrt(mean as u64);
    proof {
        assert(r * r <= 32768 * 32768);
        if r > 32768 {
            assert(r * r > 32768 * 32768) by (nonlinear_arith)
                requires
                    r > 32768,
            ;
        }
        lemma_isqrt_unique(mean_square(samples@), r as int, rms_of(samples@) as int);
    }
    r
}

/// The detector's observable state.
pub struct DetectorView {
    pub attack_threshold: u16,
    pub sustain_threshold: u16,
    pub last_rms: u16,
    pub sustaining: bool,
}

/// One frame through the Schmitt trigger: the frame triggers when its RMS reaches the
/// sustain threshold while sustaining and the attack threshold otherwise; the detector
/// sustains exactly while frames trigger.
pub open spec fn detector_step(d: DetectorView, rms: u16) -> (DetectorView, bool) {
    let threshold = if d.sustaining {
        d.sustain_threshold
    } else {
        d.attack_threshold
    };
    let triggered = rms >= threshold;
    (DetectorView { last_rms: rms, sustaining: triggered, ..d }, triggered)
}

/// Static-threshold Schmitt trigger energy detector.
///
/// Uses separate attack (onset) and sustain (hold) thresholds for hysteresis-based voice
/// activity detection. Once RMS crosses the attack threshold, detection switches to the
/// lower sustain threshold, preventing rapid toggling near the boundary.
pub struct EnergyDetector {
    attack_threshold: u16,
    sustain_threshold: u16,
    last_rms: u16,
    sustaining: bool,
}

impl View for EnergyDetector {
    type V = DetectorView;

    closed spec fn view(&self) -> DetectorView {
        DetectorView {
            attack_threshold: self.attack_threshold,
            sustain_threshold: self.sustain_threshold,
            last_rms: self.last_rms,
            sustaining: self.sustaining,
        }
    }
}

/// The sustain threshold in effect: half the attack threshold when none is given.
pub open spec fn effective_sustain(attack_threshold: u16, sustain_threshold: u16) -> u16 {
    if sustain_threshold == 0 {
        (attack_threshold / 2) as u16
    } else {
        sustain_threshold
    }
}

impl EnergyDetector {
    /// A detector in the attack phase; a sustain threshold of 0 means half the attack
    /// threshold.
    pub fn new(attack_threshold: u16, sustain_threshold: u16) -> (r: EnergyDetector)
        ensures
            r@ == (DetectorView {
                attack_threshold,
                sustain_threshold: effective_sustain(attack_threshold, sustain_threshold),
                last_rms: 0,
                sustaining: false,
            }),
    {
        let effective = if sustain_threshold == 0 {
            attack_threshold / 2
        } else {
            sustain_threshold
        };
        EnergyDetector { attack_threshold, sustain_threshold: effective, last_rms: 0, sustaining: false }
    }

    /// Run one frame through the detector; true when the frame triggers. The samples are
    /// left as they are.
    pub fn process(&mut self, samples: &mut [i16]) -> (r: bool)
        ensures
            final(samples)@ == old(samples)@,
            (final(self)@, r) == detector_step(old(self)@, rms_of(old(samples)@)),
    {
        let rms = compute_rms(samples);
        let threshold = if self.sustaining {
            self.sustain_threshold
        } else {
            self.attack_threshold
        };
        let triggered = rms >= threshold;
        self.last_rms = rms;
        self.sustaining = triggered;
        triggered
    }

    /// Back to the attack phase, thresholds kept.
    pub fn reset(&mut self)
        ensures
            final(self)@ == (DetectorView { last_rms: 0, sustaining: false, ..old(self)@ }),
    {
        self.last_rms = 0;
        self.sustaining = false;
    }

    /// The stage name.
    pub fn name(&self) -> (r: &'static str)
        ensures
            r@ == "energy_detector"@,
    {
        "energy_detector"
    }

    /// The RMS of the last frame.
    pub fn last_rms(&self) -> (r: u16)
        ensures
            r == self@.last_rms,
    {
        self.last_rms
    }

    /// Whether the detector is in the sustain phase.
    pub fn is_sustaining(&self) -> (r: bool)
        ensures
            r == self@.sustaining,
    {
        self.sustaining
    }

    /// The onset threshold.
    pub fn attack_threshold(&self) -> (r: u16)
        ensures
            r == self@.attack_threshold,
    {
        self.attack_threshold
    }

    /// The hold threshold.
    pub fn sustain_threshold(&self) -> (r: u16)
        ensures
            r == self@.sustain_threshold,
    {
        self.sustain_threshold
    }
}

/// The integer square root is unique: the RMS of a frame is determined by its samples.
pub proof fn lemma_isqrt_unique(m: int, a: int, b: int)
    requires
        is_isqrt(m, a),
        is_isqrt(m, b),
    ensures
        a == b,
{
    if a < b {
        assert((a + 1) * (a + 1) <= b * b) by (nonlinear_arith)
            requires
                0 <= a < b,
        ;
    }
    if b < a {
        assert((b + 1) * (b + 1) <= a * a) by (nonlinear_arith)
            requires
                0 <= b < a,
        ;
    }
}

/// Hysteresis: a frame whose RMS lies between the sustain and the attack thresholds
/// triggers exactly when the detector was sustaining, so it neither starts nor ends a
/// detection.
pub proof fn lemma_hysteresis_band(d: DetectorView, rms: u16)
    requires
        d.sustain_threshold <= rms < d.attack_threshold,
    ensures
        detector_step(d, rms).1 == d.sustaining,
        detector_step(d, rms).0.sustaining == d.sustaining,
{
}

/// A frame at or above the attack threshold triggers in either phase (when the sustain
/// threshold is not above the attack threshold), and one below the sustain threshold
/// never does (when the sustain threshold is not above the attack threshold).
pub proof fn lemma_threshold_extremes(d: DetectorView, rms: u16)
    requires
        d.sustain_threshold <= d.attack_threshold,
    ensures
        rms >= d.attack_threshold ==> detector_step(d, rms).1,
        rms < d.sustain_threshold ==> !detector_step(d, rms).1,
{
}

/// Every number up to `32768 * 32768` has an integer square root, and it fits in a `u16`.
proof fn lemma_isqrt_exists(m: int)
    requires
        0 <= m <= 32768 * 32768,
    ensures
        exists|r: u16| #[trigger] is_isqrt(m, r as int),
    decreases m,
{
    if m == 0 {
        assert(is_isqrt(0, 0u16 as int));
    } else {
        lemma_isqrt_exists(m - 1);
        let r = choose|r: u16| #[trigger] is_isqrt(m - 1, r as int);
        let ri = r as int;
        if m < (ri + 1) * (ri + 1) {
            assert(is_isqrt(m, r as int));
        } else {
            assert(is_isqrt(m, ri + 1)) by (nonlinear_arith)
                requires
                    m == (ri + 1) * (ri + 1),
                    ri >= 0,
            ;
            assert(ri + 1 <= 32768) by (nonlinear_arith)
                requires
                    (ri + 1) * (ri + 1) <= 32768 * 32768,
                    ri >= 0,
            ;
            let r1 = (ri + 1) as u16;
            assert(is_isqrt(m, r1 as int));
        }
    }
}

/// A frame through the detector leaves, whether it triggers or not, the RMS of that frame
/// (the integer square root of its mean square) as the last RMS; the thresholds do not
/// move, and the detector sustains exactly when the frame triggers.
pub proof fn lemma_step_reports_frame_rms(d: DetectorView, s: Seq<i16>)
    ensures
        is_isqrt(mean_square(s), detector_step(d, rms_of(s)).0.last_rms as int),
        detector_step(d, rms_of(s)).0.attack_threshold == d.attack_threshold,
        detector_step(d, rms_of(s)).0.sustain_threshold == d.sustain_threshold,
        detector_step(d, rms_of(s)).0.sustaining == detector_step(d, rms_of(s)).1,
{
    lemma_mean_square_bound(s);
    lemma_isqrt_exists(mean_square(s));
}

// ============================================================================
// Adaptive detector decisions
// ============================================================================

/// Whether a frame of RMS `rms` triggers a Schmitt trigger in the given phase: it must reach
/// the sustain threshold while sustaining and the attack threshold otherwise.
pub open spec fn schmitt_triggers(sustaining: bool, rms: u16, attack: u16, sustain: u16) -> bool {
    rms >= if sustaining {
        sustain
    } else {
        attack
    }
}

/// Whether a frame triggers, given the detector's phase and its two thresholds.
pub fn schmitt_step(sustaining: bool, rms: u16, attack: u16, sustain: u16) -> (r: bool)
    ensures
        r == schmitt_triggers(sustaining, rms, attack, sustain),
{
    let threshold = if sustaining {
        sustain
    } else {
        attack
    };
    rms >= threshold
}

/// The hold counter after a frame: one more (saturating) for a triggered frame, zero
/// otherwise.
pub open spec fn hold_counter_after(counter: u16, triggered: bool) -> u16 {
    if !triggered {
        0
    } else if counter == u16::MAX {
        u16::MAX
    } else {
        (counter + 1) as u16
    }
}

/// What the detector reports once the hold counter is `counter`: with no hold, whether the
/// frame triggered; with a hold of `hold_frames`, whether that many frames in a row
/// triggered.
pub open spec fn hold_output(counter: u16, hold_frames: u16, triggered: bool) -> bool {
    if hold_frames == 0 {
        triggered
    } else {
        counter >= hold_frames
    }
}

/// Advance the hold counter by one frame and decide what to report.
pub fn hold_step(counter: u16, hold_frames: u16, triggered: bool) -> (r: (u16, bool))
    ensures
        r.0 == hold_counter_after(counter, triggered),
        r.1 == hold_output(r.0, hold_frames, triggered),
{
    let next = if triggered {
        counter.saturating_add(1)
    } else {
        0
    };
    let output = if hold_frames == 0 {
        triggered
    } else {
        next >= hold_frames
    };
    (next, output)
}

/// The hold counter after the frames of `flags`, starting from zero.
pub open spec fn hold_counter_all(flags: Seq<bool>) -> u16
    decreases flags.len(),
{
    if flags.len() == 0 {
        0
    } else {
        hold_counter_after(hold_counter_all(flags.drop_last()), flags.last())
    }
}

/// The number of triggered frames at the end of `flags`, in a row.
pub open spec fn trailing_run(flags: Seq<bool>) -> nat
    decreases flags.len(),
{
    if flags.len() == 0 || !flags.last() {
        0
    } else {
        trailing_run(flags.drop_last()) + 1
    }
}

/// With a hold of `hold_frames` frames, the detector reports a frame exactly when the last
/// `hold_frames` frames (this one included) all triggered: the counter is the length of the
/// trailing run of triggered frames, capped at `u16::MAX`.
pub proof fn lemma_hold_counts_run(flags: Seq<bool>, hold_frames: u16)
    requires
        hold_frames > 0,
        flags.len() > 0,
    ensures
        hold_counter_all(flags) == if trailing_run(flags) > u16::MAX {
            u16::MAX as nat
        } else {
            trailing_run(flags)
        },
        hold_output(hold_counter_all(flags), hold_frames, flags.last()) == (trailing_run(flags) >= hold_frames),
{
    lemma_hold_counter_run(flags);
}

proof fn lemma_hold_counter_run(flags: Seq<bool>)
    ensures
        hold_counter_all(flags) == if trailing_run(flags) > u16::MAX {
            u16::MAX as nat
        } else {
            trailing_run(flags)
        },
    decreases flags.len(),
{
    if flags.len() > 0 {
        lemma_hold_counter_run(flags.drop_last());
    }
}

} // verus!
