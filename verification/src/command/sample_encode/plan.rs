//! Where samples are taken from the input.
use crate::duration::{lemma_duration_ext, Duration, MAX_NANOS};
use crate::float::Double;
use vstd::prelude::*;

verus! {

broadcast use lemma_duration_ext;

/// A number of samples, one at least.
#[derive(Debug, Clone, Copy, PartialEq, Eq, Structural)]
pub struct SampleCount(u64);

impl SampleCount {
    /// The number.
    pub closed spec fn n(self) -> u64 {
        self.0
    }

    #[verifier::type_invariant]
    closed spec fn some(self) -> bool {
        self.0 >= 1
    }

    /// That many samples, or one.
    pub fn new(samples: u64) -> (r: Self)
        ensures
            r.n() == (if samples == 0 {
                1
            } else {
                samples
            }),
    {
        if samples == 0 {
            Self(1)
        } else {
            Self(samples)
        }
    }

    /// The number.
    pub fn get(self) -> (r: u64)
        ensures
            r == self.n(),
            r >= 1,
    {
        proof {
            use_type_invariant(&self);
        }
        self.0
    }
}

/// The place of a sample among the others, from 0.
#[derive(Debug, Clone, Copy, PartialEq, Eq, Structural)]
pub struct SampleIndex(u64);

impl SampleIndex {
    /// The place.
    pub closed spec fn i(self) -> u64 {
        self.0
    }

    /// The place.
    pub fn get(self) -> (r: u64)
        ensures
            r == self.i(),
    {
        self.0
    }
}

/// A number of frames, one at least.
#[derive(Debug, Clone, Copy, PartialEq, Eq, Structural)]
pub struct FrameCount(u32);

/// Why there is no such number of frames.
#[derive(Debug, Clone, Copy, PartialEq, Eq, Structural)]
pub enum FrameCountError {
    Overflow,
}

impl FrameCountError {
    /// What went wrong.
    pub fn message(&self) -> (r: &'static str)
        ensures
            r@ == "sample frame count exceeds u32::MAX"@,
    {
        "sample frame count exceeds u32::MAX"
    }
}

impl FrameCount {
    /// The number.
    pub closed spec fn n(self) -> u32 {
        self.0
    }

    #[verifier::type_invariant]
    closed spec fn some(self) -> bool {
        self.0 >= 1
    }

    /// That many frames, or one, if 32 bits hold the number.
    pub fn try_new(frames: u64) -> (r: Result<Self, FrameCountError>)
        ensures
            match r {
                Ok(c) => frames <= u32::MAX && c.n() == (if frames == 0 {
                    1
                } else {
                    frames
                }),
                Err(_) => frames > u32::MAX,
            },
    {
        if frames > u32::MAX as u64 {
            Err(FrameCountError::Overflow)
        } else if frames == 0 {
            Ok(Self(1))
        } else {
            Ok(Self(frames as u32))
        }
    }

    /// The number.
    pub fn get(self) -> (r: u32)
        ensures
            r == self.n(),
            r >= 1,
    {
        proof {
            use_type_invariant(&self);
        }
        self.0
    }
}

/// A number of frames per second that is finite and positive.
#[derive(Debug, Clone, Copy, PartialEq, Eq, Structural)]
pub struct FrameRate {
    fps: Double,
}

/// Why there is no such frame rate.
#[derive(Debug, Clone, Copy, PartialEq, Eq, Structural)]
pub enum FrameRateError {
    Invalid,
}

impl FrameRateError {
    /// What went wrong.
    pub fn message(&self) -> (r: &'static str)
        ensures
            r@ == "frame rate must be finite and positive"@,
    {
        "frame rate must be finite and positive"
    }
}

impl FrameRate {
    /// The rate.
    pub closed spec fn rate(self) -> Double {
        self.fps
    }

    /// Whether frames can come at this rate.
    pub open spec fn valid(fps: Double) -> bool {
        fps.is_finite() && (Double { bits: 0 }).lt(fps)
    }

    #[verifier::type_invariant]
    closed spec fn usable(self) -> bool {
        Self::valid(self.fps)
    }

    /// The rate, if it is finite and positive.
    pub fn try_new(fps: Double) -> (r: Result<Self, FrameRateError>)
        ensures
            match r {
                Ok(rate) => Self::valid(fps) && rate.rate() == fps,
                Err(_) => !Self::valid(fps),
            },
    {
        if fps.finite() && Double::from_bits(0).less_than(fps) {
            Ok(Self { fps })
        } else {
            Err(FrameRateError::Invalid)
        }
    }

    /// The number of frames per second.
    pub fn frames_per_second(self) -> (r: Double)
        ensures
            r == self.rate(),
            Self::valid(r),
    {
        proof {
            use_type_invariant(&self);
        }
        self.fps
    }
}

/// A sample that is to be cut out of the input.
#[derive(Debug, Clone, Copy, PartialEq, Eq, Structural)]
pub struct SampleWindow {
    index: SampleIndex,
    start: Duration,
    duration: Duration,
    frames: FrameCount,
    floor_to_sec: bool,
}

/// The start of a sample: the gaps before, between and behind the samples are
/// of one length.
pub open spec fn window_start(input: nat, sample: nat, samples: nat, i: nat) -> nat {
    let gap: nat = if input >= sample * samples {
        (input - sample * samples) as nat
    } else {
        0
    };
    (gap / (samples + 1)) * (i + 1) + sample * i
}

impl SampleWindow {
    /// The place among the samples.
    pub closed spec fn at(self) -> u64 {
        self.index.i()
    }

    /// Where the sample starts, in nanoseconds.
    pub closed spec fn starts(self) -> nat {
        self.start@
    }

    /// How long the sample is, in nanoseconds.
    pub closed spec fn lasts(self) -> nat {
        self.duration@
    }

    /// How many frames the sample has.
    pub closed spec fn frame_count(self) -> FrameCount {
        self.frames
    }

    /// Whether the start is moved to a whole second.
    pub closed spec fn floors(self) -> bool {
        self.floor_to_sec
    }

    /// The place among the samples.
    pub fn index(self) -> (r: SampleIndex)
        ensures
            r.i() == self.at(),
    {
        self.index
    }

    /// Where the sample starts.
    pub fn start(self) -> (r: Duration)
        ensures
            r@ == self.starts(),
    {
        self.start
    }

    /// How many frames the sample has.
    pub fn frames(self) -> (r: FrameCount)
        ensures
            r == self.frame_count(),
    {
        self.frames
    }

    /// Whether the start is moved to a whole second.
    pub fn floor_to_sec(self) -> (r: bool)
        ensures
            r == self.floors(),
    {
        self.floor_to_sec
    }
}

/// Into how many gaps the samples part the input.
#[derive(Debug, Clone, Copy, PartialEq, Eq, Structural)]
struct SampleGrid {
    divisor: u32,
}

/// Why samples cannot be laid out.
#[derive(Debug, Clone, Copy, PartialEq, Eq, Structural)]
pub enum SampleGridError {
    TooManySamples,
}

impl SampleGridError {
    /// What went wrong.
    pub fn message(&self) -> (r: &'static str)
        ensures
            r@ == "sample count is too large for grid planning"@,
    {
        "sample count is too large for grid planning"
    }
}

impl SampleGrid {
    fn try_new(samples: SampleCount) -> (r: Result<Self, SampleGridError>)
        ensures
            match r {
                Ok(grid) => grid.divisor == samples.n() + 1,
                Err(_) => samples.n() >= u32::MAX,
            },
    {
        let n: u64 = samples.get();
        if n >= u32::MAX as u64 {
            Err(SampleGridError::TooManySamples)
        } else {
            Ok(Self { divisor: n as u32 + 1 })
        }
    }
}

/// Why there is no plan.
#[derive(Debug, Clone, Copy, PartialEq, Eq, Structural)]
pub enum SamplePlanError {
    FrameRate(FrameRateError),
    FrameCount(FrameCountError),
    SampleGrid(SampleGridError),
}

impl SamplePlanError {
    /// What went wrong.
    pub fn message(&self) -> (r: &'static str)
        ensures
            r@ == (match *self {
                SamplePlanError::FrameRate(_) => "frame rate must be finite and positive"@,
                SamplePlanError::FrameCount(_) => "sample frame count exceeds u32::MAX"@,
                SamplePlanError::SampleGrid(_) => "sample count is too large for grid planning"@,
            }),
    {
        match self {
            Self::FrameRate(e) => e.message(),
            Self::FrameCount(e) => e.message(),
            Self::SampleGrid(e) => e.message(),
        }
    }
}

/// The longer of the duration that was asked for and that of one frame.
pub open spec fn effective(requested: nat, one_frame: nat) -> nat {
    if requested < one_frame {
        one_frame
    } else {
        requested
    }
}

/// How long samples are to be: no shorter than one frame.
pub fn effective_sample_duration(requested: Duration, one_frame: Duration) -> (r: Duration)
    ensures
        r@ == effective(requested@, one_frame@),
{
    requested.longer(one_frame)
}

/// What follows from the frame rate and the input's duration: how long one
/// frame lasts, how many frames an effective sample duration has, and the
/// length of samples (85 percent of the input) from which on they are no
/// quicker than the whole input.
#[derive(Debug, Clone, Copy, PartialEq, Eq, Structural)]
pub struct Timing {
    pub one_frame: Duration,
    pub sample_frames: u64,
    pub full_pass_from: Duration,
}

/// Which samples are encoded.
#[derive(Debug, Clone, Copy, PartialEq, Eq, Structural)]
pub struct SamplePlan {
    input_duration: Duration,
    sample_duration: Duration,
    sample_count: SampleCount,
    frame_count: FrameCount,
    grid: SampleGrid,
    full_pass: bool,
}

/// `n`, one at least.
pub open spec fn at_least_one(n: u64) -> u64 {
    if n == 0 {
        1
    } else {
        n
    }
}

/// Whether the whole input is encoded as one sample.
pub open spec fn is_full_pass(samples: u64, requested: nat, image: bool, timing: Timing) -> bool {
    image || requested == 0 || effective(requested, timing.one_frame@) * samples as nat
        >= timing.full_pass_from@
}

impl SamplePlan {
    /// The duration of the input in nanoseconds.
    pub closed spec fn input(self) -> nat {
        self.input_duration@
    }

    /// The duration of a sample in nanoseconds.
    pub closed spec fn sample(self) -> nat {
        self.sample_duration@
    }

    /// The number of samples.
    pub closed spec fn samples(self) -> u64 {
        self.sample_count.n()
    }

    /// The number of frames of a sample.
    pub closed spec fn frames(self) -> FrameCount {
        self.frame_count
    }

    /// Whether the whole input is the one sample.
    pub closed spec fn whole(self) -> bool {
        self.full_pass
    }

    #[verifier::type_invariant]
    closed spec fn fits(self) -> bool {
        &&& self.full_pass ==> self.sample_count.n() == 1
        &&& !self.full_pass ==> self.grid.divisor == self.sample_count.n() + 1
            && self.sample_duration@ * self.sample_count.n() as nat <= MAX_NANOS
    }

    /// What a plan holds: one sample, as long as the input, where the whole
    /// input is encoded; else the samples that were asked for, all of the same
    /// length and number of frames.
    pub open spec fn is_plan_of(
        self,
        input: nat,
        samples: u64,
        requested: nat,
        image: bool,
        timing: Timing,
    ) -> bool {
        let full = is_full_pass(samples, requested, image, timing);
        &&& self.input() == input
        &&& self.whole() == full
        &&& self.samples() == (if full {
            1
        } else {
            samples
        })
        &&& self.frames().n() == (if full {
            1
        } else {
            at_least_one(timing.sample_frames)
        })
        &&& self.sample() == (if !full {
            effective(requested, timing.one_frame@)
        } else if image && input < 1_000_000_000 {
            1_000_000_000
        } else {
            input
        })
    }

    /// What the samples to cut are: none where the whole input is encoded.
    pub open spec fn cut_by(self, windows: Seq<SampleWindow>) -> bool {
        &&& windows.len() == (if self.whole() {
            0
        } else {
            self.samples() as int
        })
        &&& forall|i: int|
            0 <= i < windows.len() ==> {
                let w = #[trigger] windows[i];
                &&& w.at() == i
                &&& w.starts() == window_start(
                    self.input(),
                    self.sample(),
                    self.samples() as nat,
                    i as nat,
                )
                &&& w.lasts() == self.sample()
                &&& w.frame_count() == self.frames()
                &&& w.floors() == (self.sample() >= 2_000_000_000)
            }
    }

    /// Plans the samples of an input: an image and an input that the samples
    /// would cover almost whole are encoded in one pass.
    pub fn try_new(
        input_duration: Duration,
        fps: Double,
        sample_count: SampleCount,
        requested_sample_duration: Duration,
        input_is_image: bool,
        timing: Timing,
    ) -> (r: Result<Self, SamplePlanError>)
        requires
            FrameRate::valid(fps) && !input_is_image && sample_count.n() < u32::MAX
                && requested_sample_duration@ > 0 ==> effective(
                requested_sample_duration@,
                timing.one_frame@,
            ) * sample_count.n() as nat <= MAX_NANOS,
        ensures
            match r {
                Ok(plan) => {
                    &&& FrameRate::valid(fps)
                    &&& plan.is_plan_of(
                        input_duration@,
                        sample_count.n(),
                        requested_sample_duration@,
                        input_is_image,
                        timing,
                    )
                    &&& !input_is_image ==> sample_count.n() < u32::MAX
                },
                Err(SamplePlanError::FrameRate(_)) => !FrameRate::valid(fps),
                Err(SamplePlanError::SampleGrid(_)) => FrameRate::valid(fps) && !input_is_image
                    && sample_count.n() >= u32::MAX,
                Err(SamplePlanError::FrameCount(_)) => FrameRate::valid(fps) && sample_count.n()
                    < u32::MAX && !is_full_pass(
                    sample_count.n(),
                    requested_sample_duration@,
                    input_is_image,
                    timing,
                ) && timing.sample_frames > u32::MAX,
            },
    {
        if let Err(e) = FrameRate::try_new(fps) {
            return Err(SamplePlanError::FrameRate(e));
        }
        let one_frame_count = FrameCount(1);
        if input_is_image {
            return Ok(
                Self {
                    input_duration,
                    sample_duration: input_duration.longer(Duration::from_secs(1)),
                    sample_count: SampleCount::new(1),
                    frame_count: one_frame_count,
                    grid: SampleGrid { divisor: 1 },
                    full_pass: true,
                },
            );
        }
        let sample_duration = effective_sample_duration(
            requested_sample_duration,
            timing.one_frame,
        );
        let grid = match SampleGrid::try_new(sample_count) {
            Ok(grid) => grid,
            Err(e) => return Err(SamplePlanError::SampleGrid(e)),
        };
        let total = sample_duration.saturating_mul(sample_count.get() as u32);
        if requested_sample_duration.is_zero() || timing.full_pass_from.at_most(&total) {
            return Ok(
                Self {
                    input_duration,
                    sample_duration: input_duration,
                    sample_count: SampleCount::new(1),
                    frame_count: one_frame_count,
                    grid: SampleGrid { divisor: 1 },
                    full_pass: true,
                },
            );
        }
        let frame_count = match FrameCount::try_new(timing.sample_frames) {
            Ok(count) => count,
            Err(e) => return Err(SamplePlanError::FrameCount(e)),
        };
        Ok(
            Self {
                input_duration,
                sample_duration,
                sample_count,
                frame_count,
                grid,
                full_pass: false,
            },
        )
    }

    /// How long a sample is.
    pub fn sample_duration(self) -> (r: Duration)
        ensures
            r@ == self.sample(),
    {
        self.sample_duration
    }

    /// How many samples there are.
    pub fn sample_count(self) -> (r: SampleCount)
        ensures
            r.n() == self.samples(),
            r.n() < u32::MAX,
            self.whole() ==> r.n() == 1,
    {
        proof {
            use_type_invariant(&self);
        }
        self.sample_count
    }

    /// Whether the whole input is the one sample.
    pub fn full_pass(self) -> (r: bool)
        ensures
            r == self.whole(),
    {
        self.full_pass
    }

    /// The samples to cut, in order. There are none where the whole input is
    /// the one sample.
    pub fn windows(self) -> (r: Vec<SampleWindow>)
        ensures
            self.cut_by(r@),
    {
        proof {
            use_type_invariant(&self);
        }
        let mut out: Vec<SampleWindow> = Vec::new();
        if self.full_pass {
            return out;
        }
        let samples: u64 = self.sample_count.get();
        let divisor: u128 = self.grid.divisor as u128;
        let sample: u128 = self.sample_duration.as_nanos();
        let input: u128 = self.input_duration.as_nanos();
        let total: u128 = sample * samples as u128;
        let gap: u128 = if input >= total {
            input - total
        } else {
            0
        };
        let step: u128 = gap / divisor;
        let floor_to_sec = Duration::from_secs(2).at_most(&self.sample_duration);
        let mut i: u64 = 0;
        while i < samples
            invariant
                i <= samples,
                samples == self.samples(),
                divisor == samples + 1,
                sample == self.sample(),
                input == self.input(),
                input <= MAX_NANOS,
                total == sample * samples,
                total <= MAX_NANOS,
                gap == (if input >= total {
                    input - total
                } else {
                    0
                }),
                step == gap / divisor,
                floor_to_sec == (self.sample() >= 2_000_000_000),
                out@.len() == i,
                forall|j: int|
                    0 <= j < i ==> {
                        let w = #[trigger] out@[j];
                        &&& w.at() == j
                        &&& w.starts() == window_start(
                            self.input(),
                            self.sample(),
                            self.samples() as nat,
                            j as nat,
                        )
                        &&& w.lasts() == self.sample()
                        &&& w.frame_count() == self.frames()
                        &&& w.floors() == (self.sample() >= 2_000_000_000)
                    },
            decreases samples - i,
        {
            proof {
                lemma_grid(
                    input as int,
                    sample as int,
                    samples as int,
                    gap as int,
                    step as int,
                    i as int,
                );
            }
            let nanos: u128 = step * (i as u128 + 1) + sample * i as u128;
            let start = Duration::new(
                (nanos / 1_000_000_000) as u64,
                (nanos % 1_000_000_000) as u32,
            );
            out.push(
                SampleWindow {
                    index: SampleIndex(i),
                    start,
                    duration: self.sample_duration,
                    frames: self.frame_count,
                    floor_to_sec,
                },
            );
            i += 1;
        }
        out
    }
}

/// No sample starts later than any span lasts.
proof fn lemma_grid(input: int, sample: int, samples: int, gap: int, step: int, i: int)
    requires
        0 <= input,
        0 <= sample,
        1 <= samples,
        0 <= i < samples,
        gap == (if input >= sample * samples {
            input - sample * samples
        } else {
            0
        }),
        step == gap / (samples + 1),
    ensures
        0 <= step * (i + 1),
        0 <= sample * i,
        step * (i + 1) + sample * (i + 1) <= (if input >= sample * samples {
            input
        } else {
            sample * samples
        }),
        sample * i <= sample * (i + 1),
{
    assert(step * (samples + 1) <= gap && step >= 0) by (nonlinear_arith)
        requires
            step == gap / (samples + 1),
            gap >= 0,
            samples >= 1,
    ;
    assert(0 <= step * (i + 1) <= step * (samples + 1)) by (nonlinear_arith)
        requires
            step >= 0,
            0 <= i < samples,
    ;
    assert(0 <= sample * i <= sample * (i + 1) <= sample * samples) by (nonlinear_arith)
        requires
            sample >= 0,
            0 <= i < samples,
    ;
}

/// Samples follow one another without overlapping, and the last one ends
/// within the input, wherever the input is long enough for all of them.
pub proof fn law_windows_in_order(input: nat, sample: nat, samples: nat, i: nat)
    requires
        i < samples,
        sample * samples <= input,
    ensures
        window_start(input, sample, samples, i) + sample <= input,
        i + 1 < samples ==> window_start(input, sample, samples, i) + sample <= window_start(
            input,
            sample,
            samples,
            (i + 1) as nat,
        ),
{
    let gap = (input - sample * samples) as nat;
    let step = gap / (samples + 1);
    lemma_grid(
        input as int,
        sample as int,
        samples as int,
        gap as int,
        step as int,
        i as int,
    );
    assert(sample * (i + 1) == sample * i + sample) by (nonlinear_arith);
    assert(step * (i + 1) <= step * (i + 2)) by (nonlinear_arith)
        requires
            step >= 0,
    ;
}

/// Samples are spread evenly over an input that is long enough for all of them:
/// the first one starts as far behind the beginning as each next one starts
/// behind the end of the one before it, and behind the end of the last one there
/// is no less left, and more only by what cannot be shared out in whole
/// nanoseconds.
pub proof fn law_samples_spread_evenly(input: nat, sample: nat, samples: nat)
    requires
        1 <= samples,
        sample * samples <= input,
    ensures
        ({
            let gap = (input - sample * samples) / (samples as int + 1);
            let left = input - (window_start(input, sample, samples, (samples - 1) as nat)
                + sample);
            &&& window_start(input, sample, samples, 0) == gap
            &&& forall|i: nat|
                i + 1 < samples ==> #[trigger] window_start(input, sample, samples, i) + sample
                    + gap == window_start(input, sample, samples, i + 1)
            &&& gap <= left <= gap + samples
        }),
{
    let all = sample * samples;
    let gap: int = (input - all) / (samples as int + 1);
    let step: nat = ((input - all) as nat) / (samples + 1);
    assert(step == gap);
    assert(step * (0 + 1) == step) by (nonlinear_arith);
    assert(sample * 0 == 0) by (nonlinear_arith);
    assert forall|i: nat| i + 1 < samples implies #[trigger] window_start(
        input,
        sample,
        samples,
        i,
    ) + sample + gap == window_start(input, sample, samples, i + 1) by {
        assert(step * (i + 1 + 1) == step * (i + 1) + step) by (nonlinear_arith);
        assert(sample * (i + 1) == sample * i + sample) by (nonlinear_arith);
    }
    let last = (samples - 1) as nat;
    assert(last + 1 == samples);
    assert(sample * last + sample == all) by (nonlinear_arith)
        requires
            last + 1 == samples,
            all == sample * samples,
    ;
    vstd::arithmetic::div_mod::lemma_fundamental_div_mod(input - all, samples as int + 1);
    vstd::arithmetic::div_mod::lemma_mod_bound(input - all, samples as int + 1);
    assert((samples as int + 1) * gap == step * (last + 1) + gap) by (nonlinear_arith)
        requires
            step == gap,
            last + 1 == samples,
    ;
}

/// Of two inputs that the same samples are asked of, the longer one never gets
/// fewer samples than the shorter one, and is not encoded in one pass where the
/// shorter one is not.
pub proof fn law_longer_input_has_no_fewer_samples(
    shorter: SamplePlan,
    longer: SamplePlan,
    short_input: nat,
    long_input: nat,
    samples: u64,
    requested: nat,
    image: bool,
    short_timing: Timing,
    long_timing: Timing,
)
    requires
        samples >= 1,
        short_input <= long_input,
        short_timing.one_frame@ == long_timing.one_frame@,
        short_timing.full_pass_from@ <= long_timing.full_pass_from@,
        shorter.is_plan_of(short_input, samples, requested, image, short_timing),
        longer.is_plan_of(long_input, samples, requested, image, long_timing),
    ensures
        shorter.input() <= longer.input(),
        longer.whole() ==> shorter.whole(),
        shorter.samples() <= longer.samples(),
{
}

/// All samples that are cut have one length, the requested one made long enough
/// for a frame, and one number of frames: that of this length, one at least.
pub proof fn law_windows_share_frames(
    plan: SamplePlan,
    windows: Seq<SampleWindow>,
    input: nat,
    samples: u64,
    requested: nat,
    image: bool,
    timing: Timing,
    i: int,
)
    requires
        plan.is_plan_of(input, samples, requested, image, timing),
        plan.cut_by(windows),
        0 <= i < windows.len(),
    ensures
        windows.len() == samples,
        windows[i].lasts() == effective(requested, timing.one_frame@),
        windows[i].frame_count().n() == at_least_one(timing.sample_frames),
{
}

/// A sample is no shorter than a frame and than what is asked for, and no longer
/// than it has to be for that.
pub proof fn law_sample_holds_a_frame(requested: nat, one_frame: nat)
    ensures
        effective(requested, one_frame) >= requested,
        effective(requested, one_frame) >= one_frame,
        effective(requested, one_frame) == requested || effective(requested, one_frame)
            == one_frame,
{
}

/// Samples are taken as many and as long as they are asked for; where they would
/// make up the input, where it is an image, or where they have no length, the
/// input is encoded once and whole.
pub proof fn law_samples_or_the_whole_input(
    plan: SamplePlan,
    input: nat,
    samples: u64,
    requested: nat,
    image: bool,
    timing: Timing,
)
    requires
        plan.is_plan_of(input, samples, requested, image, timing),
    ensures
        image ==> plan.whole(),
        requested == 0 ==> plan.whole(),
        plan.sample() * samples as nat >= timing.full_pass_from@ && !plan.whole() ==> false,
        plan.whole() ==> plan.samples() == 1 && plan.sample() >= input,
        plan.whole() && !image ==> plan.sample() == input,
        !plan.whole() ==> plan.samples() == samples && plan.sample() >= requested && plan.sample()
            >= timing.one_frame@,
        plan.whole() && !image && requested > 0 ==> effective(requested, timing.one_frame@)
            * samples as nat >= timing.full_pass_from@,
{
}

/// A sample has as many frames as its time gives, and one at least.
pub proof fn law_at_least_one_frame(n: u64)
    ensures
        at_least_one(n) >= 1,
        n >= 1 ==> at_least_one(n) == n,
        at_least_one(0) == 1,
{
}

/// A plan is cut into one window for each sample, in order, each as long as a
/// sample; they do not overlap, and the last one ends within the input where all
/// of them fit. An input that is encoded whole is not cut. Windows of two seconds
/// or more may start at a whole second.
pub proof fn law_plan_is_cut_into_its_samples(plan: SamplePlan, windows: Seq<SampleWindow>, i: int)
    requires
        plan.cut_by(windows),
        0 <= i < windows.len(),
    ensures
        !plan.whole(),
        windows.len() == plan.samples(),
        windows[i].at() == i,
        windows[i].lasts() == plan.sample(),
        windows[i].frame_count() == plan.frames(),
        windows[i].floors() <==> plan.sample() >= 2_000_000_000,
        plan.sample() * plan.samples() as nat <= plan.input() ==> windows[i].starts()
            + windows[i].lasts() <= plan.input(),
        i + 1 < windows.len() && plan.sample() * plan.samples() as nat <= plan.input()
            ==> windows[i].starts() + windows[i].lasts() <= windows[i + 1].starts(),
{
    if plan.sample() * plan.samples() as nat <= plan.input() {
        law_windows_in_order(plan.input(), plan.sample(), plan.samples() as nat, i as nat);
        if i + 1 < windows.len() {
            assert(windows[i + 1].starts() == window_start(
                plan.input(),
                plan.sample(),
                plan.samples() as nat,
                (i + 1) as nat,
            ));
        }
    }
}

} // verus!
