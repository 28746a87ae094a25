//! Encoding samples of an input to predict how a full encode would go.
pub mod cache;
pub mod plan;
pub mod result;

use crate::command::args::encode::PixelFormat;
use crate::command::args::vmaf::{Vmaf, VmafConfig};
use crate::command::args::{ScoreArgs, ScoreConfig, Xpsnr, XpsnrConfig};
use crate::command::sample_encode::plan::SamplePlan;
use crate::command::sample_encode::result::{EncodeResult, Means, Output, ScoreKind};
use crate::duration;
use crate::duration::Duration;
use crate::ffmpeg;
use crate::ffmpeg::FfmpegEncodeArgs;
use crate::float::Single;
use crate::text;
use vstd::pervasive::unreached;
use vstd::prelude::*;

verus! {

broadcast use vstd::string::group_string_axioms;

// ---- configuration ----

/// How samples are scored.
#[derive(Debug, PartialEq, Eq, Hash)]
pub struct ScoringConfig {
    pub score: ScoreConfig,
    pub vmaf: VmafConfig,
    pub xpsnr: bool,
    pub xpsnr_opts: XpsnrConfig,
}

impl ScoringConfig {
    /// The configuration with these arguments.
    pub fn from_args(score: ScoreArgs, vmaf: Vmaf, xpsnr: bool, xpsnr_opts: Xpsnr) -> (r: Self)
        ensures
            r.score.reference_vfilter == score.reference_vfilter,
            r.vmaf.and_vmaf == vmaf.and_vmaf,
            r.vmaf.vmaf_args == vmaf.vmaf_args,
            r.vmaf.vmaf_scale == vmaf.vmaf_scale,
            r.vmaf.vmaf_fps == vmaf.vmaf_fps,
            r.xpsnr == xpsnr,
            r.xpsnr_opts.xpsnr_fps == xpsnr_opts.xpsnr_fps,
            r.xpsnr_opts.xpsnr_pix_format == xpsnr_opts.xpsnr_pix_format,
    {
        Self {
            score: ScoreConfig::from_args(score),
            vmaf: VmafConfig::from_args(vmaf),
            xpsnr,
            xpsnr_opts: XpsnrConfig::from_args(xpsnr_opts),
        }
    }

    /// Whether VMAF is calculated: where it is asked for, and by default where
    /// XPSNR is not.
    pub open spec fn wants_vmaf(self) -> bool {
        match self.vmaf.and_vmaf {
            Some(and) => and,
            None => !self.xpsnr,
        }
    }

    /// Whether VMAF is calculated.
    pub fn do_vmaf(&self) -> (r: bool)
        ensures
            r == self.wants_vmaf(),
    {
        match self.vmaf.and_vmaf {
            Some(and) => and,
            None => !self.xpsnr,
        }
    }

    /// The filter of the reference: the one for scoring, else that of the
    /// encode.
    pub fn reference_filter(&self, vfilter: &Option<String>) -> (r: Option<String>)
        ensures
            match (self.score.reference_vfilter, *vfilter) {
                (Some(f), _) => r matches Some(x) && x@ == f@,
                (None, Some(f)) => r matches Some(x) && x@ == f@,
                (None, None) => r is None,
            },
    {
        match &self.score.reference_vfilter {
            Some(f) => Some(f.clone()),
            None => text::owned_opt(vfilter),
        }
    }

    /// The pixel format of the XPSNR analysis: the one that was asked for, else
    /// the better one of the encode and the input.
    pub fn xpsnr_format(&self, encode: Option<PixelFormat>, input: Option<PixelFormat>) -> (r: Option<
        PixelFormat,
    >)
        ensures
            r == (match self.xpsnr_opts.xpsnr_pix_format {
                Some(f) => Some(f),
                None => PixelFormat::best(encode, input),
            }),
    {
        match self.xpsnr_opts.xpsnr_pix_format {
            Some(f) => Some(f),
            None => PixelFormat::opt_max(encode, input),
        }
    }
}

/// The arguments with which samples are encoded: the frame rate mode that was
/// asked for does not apply, as samples are always passed through.
pub fn sample_args(args: FfmpegEncodeArgs) -> (r: FfmpegEncodeArgs)
    ensures
        text::views(r.output_args@) == ffmpeg::without_arg(
            ffmpeg::without_arg(text::views(args.output_args@), "-fps_mode"@),
            "-vsync"@,
        ),
        r == (FfmpegEncodeArgs { output_args: r.output_args, ..args }),
{
    let FfmpegEncodeArgs {
        input,
        vcodec,
        vfilter,
        pix_fmt,
        crf,
        preset,
        output_args,
        input_args,
        video_only,
    } = args;
    let mut kept = output_args;
    ffmpeg::remove_arg(&mut kept, "-fps_mode");
    ffmpeg::remove_arg(&mut kept, "-vsync");
    FfmpegEncodeArgs {
        input,
        vcodec,
        vfilter,
        pix_fmt,
        crf,
        preset,
        output_args: kept,
        input_args,
        video_only,
    }
}

/// The size of a sample that was cut, unless it is so small that cutting must
/// have failed.
pub fn check_sample_size(size: u64) -> (r: Result<u64, &'static str>)
    ensures
        match r {
            Ok(n) => size > 1024 && n == size,
            Err(e) => size <= 1024 && e@ == "ffmpeg copy failed: encoded sample too small"@,
        },
{
    // ffmpeg copy may fail successfully and give us a small/empty output
    if size > 1024 {
        Ok(size)
    } else {
        Err("ffmpeg copy failed: encoded sample too small")
    }
}

// ---- status ----

/// Kinds of sample-encode work.
#[derive(Debug, Clone, Copy, PartialEq, Eq, Structural)]
pub enum Work {
    Encode,
    Score(ScoreKind),
}

impl Default for Work {
    fn default() -> (r: Self)
        ensures
            r == Work::Encode,
    {
        Self::Encode
    }
}

impl Work {
    /// The label beside the frame rate.
    pub open spec fn label(self) -> Seq<char> {
        match self {
            Work::Encode => "enc"@,
            Work::Score(kind) => kind.label(),
        }
    }

    /// Display label for fps in progress bar.
    pub fn fps_label(&self) -> (r: &'static str)
        ensures
            r@ == self.label(),
    {
        match self {
            Self::Encode => "enc",
            Self::Score(kind) => kind.fps_label(),
        }
    }
}

/// How much of all the work is done: `part` of `whole`.
#[derive(Debug, Clone, Copy, PartialEq, Eq, Structural)]
pub struct Progress {
    pub part: u128,
    pub whole: u64,
}

/// What is being done.
#[derive(Debug, Clone, Copy, PartialEq, Eq, Structural)]
pub struct Status {
    /// Kind of work being performed
    pub work: Work,
    /// fps, zero may be interpreted as "unknown"
    pub fps: Single,
    /// sample progress
    pub progress: Progress,
    /// Sample number `1,....,n`
    pub sample: u64,
    /// Total samples
    pub samples: u64,
    /// Encoding the entire input video
    pub full_pass: bool,
}

impl Status {
    /// What stands before the progress bar.
    pub fn prefix(&self) -> (r: String)
        ensures
            r@ == (if self.full_pass {
                "Full pass"@
            } else {
                "Sample "@ + text::dec(self.sample as nat) + "/"@ + text::dec(self.samples as nat)
            }),
    {
        if self.full_pass {
            "Full pass".to_owned()
        } else {
            let n = text::dec_string(self.sample);
            let of = text::dec_string(self.samples);
            text::cat4("Sample ", n.as_str(), "/", of.as_str())
        }
    }

    /// What stands behind the progress bar. `fps` is the frame rate as text.
    pub fn message(&self, fps: &str) -> (r: String)
        ensures
            r@ == (if (Single { bits: 0 }).ge(self.fps) {
                if self.work == Work::Encode {
                    "encoding,  "@
                } else {
                    self.work.label() + ",       "@
                }
            } else {
                self.work.label() + " "@ + fps@ + " fps, "@
            }),
    {
        let label = self.work.fps_label();
        if Single::from_bits(0).at_least(self.fps) {
            match self.work {
                Work::Encode => "encoding,  ".to_owned(),
                Work::Score(_) => text::cat2(label, ",       "),
            }
        } else {
            text::cat4(label, " ", fps, " fps, ")
        }
    }
}

/// What is told of the work while it goes on.
#[derive(Debug, Clone, Copy, PartialEq, Eq, Structural)]
pub enum Update {
    Status(Status),
    SampleResult {
        /// Sample number `1,....,n`
        sample: u64,
        result: EncodeResult,
    },
    Done(Output),
}

// ---- the work ----

/// What is done with the samples.
#[derive(Debug, Clone, Copy, PartialEq, Eq, Structural)]
pub enum Phase {
    /// The next sample is waited for.
    Waiting,
    /// A result is searched for in the cache.
    LookingUp { idx: u64, size: u64 },
    /// The sample is encoded.
    Encoding { idx: u64, size: u64 },
    /// The encoded sample is scored.
    Scoring { idx: u64, kind: ScoreKind, result: EncodeResult },
}

/// What is to be done next with a sample.
#[derive(Debug, Clone, Copy, PartialEq, Eq, Structural)]
pub enum Next {
    /// A score is to be calculated.
    Score { kind: ScoreKind, status: Status },
    /// The result is complete: it may be stored, and it is reported.
    Report { sample: u64, result: EncodeResult },
}

/// The samples of one run: which of them are done and what is done with the
/// present one.
#[derive(Debug, PartialEq, Eq)]
pub struct SampleRun {
    pub samples: u64,
    pub sample_duration: Duration,
    pub full_pass: bool,
    pub xpsnr: bool,
    pub vmaf: bool,
    pub phase: Phase,
    pub results: Vec<EncodeResult>,
}

/// The microseconds of a sample, one at least.
pub open spec fn sample_micros(nanos: nat) -> nat {
    let us = duration::least(nanos / 1_000, u64::MAX as nat);
    if us == 0 {
        1
    } else {
        us
    }
}

/// The whole of the work: twice the samples' microseconds, once for encoding
/// and once for scoring, as far as 64 bits hold it.
pub open spec fn work_total(sample: nat, samples: nat) -> nat {
    duration::least(
        duration::least(sample_micros(sample) * samples, u64::MAX as nat) * 2,
        u64::MAX as nat,
    )
}

/// The work that is done when the encoder has come to `time` of a sample.
pub open spec fn encode_part(sample: nat, idx: nat, time: nat) -> nat {
    duration::least(time / 1_000, u64::MAX as nat) + idx * sample_micros(sample) * 2
}

/// The work that is done when a score has come to `time` of a sample. Two
/// scores share the work of scoring.
pub open spec fn score_part(sample: nat, idx: nat, kind: ScoreKind, both: bool, time: nat) -> nat {
    let us = duration::least(time / 1_000, u64::MAX as nat);
    let unit = sample_micros(sample);
    let within = if !both {
        us
    } else if kind == ScoreKind::Xpsnr {
        us / 2
    } else {
        unit / 2 + us / 2
    };
    unit + within + idx * unit * 2
}

impl SampleRun {
    /// The index of the sample that is worked on, if there is one.
    pub open spec fn present(self) -> Option<u64> {
        match self.phase {
            Phase::Waiting => None,
            Phase::LookingUp { idx, .. } => Some(idx),
            Phase::Encoding { idx, .. } => Some(idx),
            Phase::Scoring { idx, .. } => Some(idx),
        }
    }

    /// Whether the numbers are in range, no more than the samples are done, and
    /// the present sample is the one behind those that are done.
    pub open spec fn wf(self) -> bool {
        &&& 1 <= self.samples < u32::MAX
        &&& self.results@.len() <= self.samples
        &&& self.present() matches Some(idx) ==> idx < self.samples && idx == self.results@.len()
        &&& match self.phase {
            Phase::Waiting => true,
            Phase::LookingUp { .. } => true,
            Phase::Encoding { .. } => true,
            Phase::Scoring { kind, result, .. } => {
                &&& kind == ScoreKind::Xpsnr ==> self.xpsnr && result.xpsnr_score is None
                &&& kind == ScoreKind::Vmaf ==> self.vmaf
                &&& result.vmaf_score is None
                &&& !result.from_cache
            },
        }
    }

    /// Only what is done with the present sample differs.
    pub open spec fn same_run(self, other: Self) -> bool {
        &&& self.samples == other.samples
        &&& self.sample_duration == other.sample_duration
        &&& self.full_pass == other.full_pass
        &&& self.xpsnr == other.xpsnr
        &&& self.vmaf == other.vmaf
    }

    /// `next` is what one step makes of this: the sample behind those that are
    /// done is begun, the work on a sample goes on, or its result is added to
    /// the others.
    pub open spec fn follows(self, next: Self) -> bool {
        &&& self.wf()
        &&& next.wf()
        &&& next.same_run(self)
        &&& match next.present() {
            Some(idx) => {
                &&& next.results@ == self.results@
                &&& match self.present() {
                    Some(before) => before == idx,
                    None => idx == self.results@.len(),
                }
            },
            None => {
                &&& self.present() is Some
                &&& next.results@.len() == self.results@.len() + 1
                &&& next.results@.drop_last() == self.results@
            },
        }
    }

    /// The status of some work on a sample.
    pub open spec fn status_of(self, work: Work, fps: Single, idx: u64, part: nat, whole: nat, s: Status) -> bool {
        &&& s.work == work
        &&& s.fps == fps
        &&& s.progress.part == part
        &&& s.progress.whole == whole
        &&& s.sample == idx + 1
        &&& s.samples == self.samples
        &&& s.full_pass == self.full_pass
    }

    /// The samples of a plan, none of which is done.
    pub fn new(plan: &SamplePlan, scoring: &ScoringConfig) -> (r: Self)
        ensures
            r.wf(),
            r.samples == plan.samples(),
            r.sample_duration@ == plan.sample(),
            r.full_pass == plan.whole(),
            r.xpsnr == scoring.xpsnr,
            r.vmaf == scoring.wants_vmaf(),
            r.phase == Phase::Waiting,
            r.results@.len() == 0,
    {
        let count = plan.sample_count();
        Self {
            samples: count.get(),
            sample_duration: plan.sample_duration(),
            full_pass: plan.full_pass(),
            xpsnr: scoring.xpsnr,
            vmaf: scoring.do_vmaf(),
            phase: Phase::Waiting,
            results: Vec::new(),
        }
    }

    fn unit(&self) -> (r: u64)
        ensures
            r == sample_micros(self.sample_duration@),
    {
        let us: u64 = self.sample_duration.as_micros_u64();
        if us == 0 {
            1
        } else {
            us
        }
    }

    fn total(&self) -> (r: u64)
        requires
            self.wf(),
        ensures
            r == work_total(self.sample_duration@, self.samples as nat),
    {
        let unit: u128 = self.unit() as u128;
        assert(unit * self.samples <= u64::MAX * u32::MAX) by (nonlinear_arith)
            requires
                unit <= u64::MAX,
                self.samples <= u32::MAX,
        ;
        let all: u128 = unit * self.samples as u128;
        let once: u128 = if all > u64::MAX as u128 {
            u64::MAX as u128
        } else {
            all
        };
        let twice: u128 = once * 2;
        if twice > u64::MAX as u128 {
            u64::MAX
        } else {
            twice as u64
        }
    }

    fn done_before(&self, idx: u64) -> (r: u128)
        requires
            self.wf(),
            idx < self.samples,
        ensures
            r == idx * sample_micros(self.sample_duration@) * 2,
            r <= 0x2_0000_0000_0000_0000_0000_0000,
    {
        let unit: u128 = self.unit() as u128;
        assert(idx * unit <= u32::MAX * u64::MAX) by (nonlinear_arith)
            requires
                unit <= u64::MAX,
                idx <= u32::MAX,
        ;
        idx as u128 * unit * 2
    }

    /// The index of the sample that comes behind those that are done, if one is
    /// left.
    pub fn next_index(&self) -> (r: Option<u64>)
        requires
            self.wf(),
        ensures
            match r {
                Some(idx) => idx == self.results@.len() && idx < self.samples,
                None => self.results@.len() == self.samples,
            },
    {
        let done: u64 = self.results.len() as u64;
        if done < self.samples {
            Some(done)
        } else {
            None
        }
    }

    /// The next sample is there: its result is searched for.
    pub fn start_sample(&mut self, idx: u64, size: u64) -> (r: Status)
        requires
            old(self).wf(),
            old(self).phase == Phase::Waiting,
            idx < old(self).samples,
            idx == old(self).results@.len(),
        ensures
            old(self).follows(*final(self)),
            final(self).results == old(self).results,
            final(self).phase == (Phase::LookingUp { idx, size }),
            old(self).status_of(
                Work::Encode,
                Single { bits: 0 },
                idx,
                idx as nat,
                old(self).samples as nat,
                r,
            ),
    {
        self.phase = Phase::LookingUp { idx, size };
        Status {
            work: Work::Encode,
            fps: Single::from_bits(0),
            progress: Progress { part: idx as u128, whole: self.samples },
            sample: idx + 1,
            samples: self.samples,
            full_pass: self.full_pass,
        }
    }

    /// The result was in the cache: it is reported as it is.
    pub fn cache_hit(&mut self, result: EncodeResult) -> (r: Update)
        requires
            old(self).wf(),
            old(self).phase is LookingUp,
        ensures
            old(self).follows(*final(self)),
            final(self).phase == Phase::Waiting,
            final(self).results@ == old(self).results@.push(result),
            r == (Update::SampleResult {
                sample: (old(self).phase->LookingUp_idx + 1) as u64,
                result,
            }),
    {
        let sample: u64 = match self.phase {
            Phase::LookingUp { idx, .. } => idx + 1,
            _ => unreached(),
        };
        self.phase = Phase::Waiting;
        self.results.push(result);
        assert(self.results@.drop_last() =~= old(self).results@);
        Update::SampleResult { sample, result }
    }

    /// No result was in the cache: the sample is encoded.
    pub fn cache_miss(&mut self)
        requires
            old(self).wf(),
            old(self).phase is LookingUp,
        ensures
            old(self).follows(*final(self)),
            final(self).results == old(self).results,
            final(self).phase == (Phase::Encoding {
                idx: old(self).phase->LookingUp_idx,
                size: old(self).phase->LookingUp_size,
            }),
    {
        if let Phase::LookingUp { idx, size } = self.phase {
            self.phase = Phase::Encoding { idx, size };
        }
    }

    /// The encoder has come to `time`.
    pub fn encode_progress(&self, time: Duration, fps: Single) -> (r: Status)
        requires
            self.wf(),
            self.phase is Encoding,
        ensures
            self.status_of(
                Work::Encode,
                fps,
                self.phase->Encoding_idx,
                encode_part(self.sample_duration@, self.phase->Encoding_idx as nat, time@),
                work_total(self.sample_duration@, self.samples as nat),
                r,
            ),
    {
        let idx: u64 = match self.phase {
            Phase::Encoding { idx, .. } => idx,
            _ => unreached(),
        };
        let part: u128 = time.as_micros_u64() as u128 + self.done_before(idx);
        Status {
            work: Work::Encode,
            fps,
            progress: Progress { part, whole: self.total() },
            sample: idx + 1,
            samples: self.samples,
            full_pass: self.full_pass,
        }
    }

    /// The part of the work at which a score begins, in quarters of a sample:
    /// half of it lies behind, and three quarters where another score came
    /// first.
    pub open spec fn score_begin(self, idx: u64, kind: ScoreKind) -> nat {
        if kind == ScoreKind::Vmaf && self.xpsnr {
            4 * idx as nat + 3
        } else {
            4 * idx as nat + 2
        }
    }

    fn begin_score(&self, idx: u64, kind: ScoreKind) -> (r: Status)
        requires
            self.wf(),
            idx < self.samples,
        ensures
            self.status_of(
                Work::Score(kind),
                Single { bits: 0 },
                idx,
                self.score_begin(idx, kind),
                4 * self.samples as nat,
                r,
            ),
    {
        let quarters: u128 = match kind {
            ScoreKind::Vmaf => if self.xpsnr {
                3
            } else {
                2
            },
            ScoreKind::Xpsnr => 2,
        };
        Status {
            work: Work::Score(kind),
            fps: Single::from_bits(0),
            progress: Progress { part: 4 * idx as u128 + quarters, whole: 4 * self.samples },
            sample: idx + 1,
            samples: self.samples,
            full_pass: self.full_pass,
        }
    }

    /// The result of a sample that was encoded, without scores. A duration
    /// that was found in the encoded file is preferred.
    pub open spec fn fresh_result(
        self,
        encoded_size: u64,
        encode_time: Duration,
        probed: Option<Duration>,
    ) -> EncodeResult {
        EncodeResult {
            sample_size: self.phase->Encoding_size,
            encoded_size,
            vmaf_score: None,
            xpsnr_score: None,
            encode_time,
            sample_duration: match probed {
                Some(d) => if d@ > 0 {
                    d
                } else {
                    self.sample_duration
                },
                None => self.sample_duration,
            },
            from_cache: false,
        }
    }

    /// The kind of the score that comes first, if one is wanted.
    pub open spec fn first_score(self) -> Option<ScoreKind> {
        if self.xpsnr {
            Some(ScoreKind::Xpsnr)
        } else if self.vmaf {
            Some(ScoreKind::Vmaf)
        } else {
            None
        }
    }

    /// The kind of the score that follows one of this kind, if one does.
    pub open spec fn score_after(self, kind: ScoreKind) -> Option<ScoreKind> {
        if kind == ScoreKind::Xpsnr && self.vmaf {
            Some(ScoreKind::Vmaf)
        } else {
            None
        }
    }

    /// The sample is encoded: it is scored, by XPSNR first, or its result is
    /// complete.
    pub fn encoded(&mut self, encoded_size: u64, encode_time: Duration, probed: Option<Duration>) -> (r:
        Next)
        requires
            old(self).wf(),
            old(self).phase is Encoding,
        ensures
            old(self).follows(*final(self)),
            ({
                let idx = old(self).phase->Encoding_idx;
                let result = old(self).fresh_result(encoded_size, encode_time, probed);
                match old(self).first_score() {
                    Some(kind) => {
                        &&& final(self).phase == (Phase::Scoring { idx, kind, result })
                        &&& final(self).results == old(self).results
                        &&& r is Score && r->Score_kind == kind
                        &&& old(self).status_of(
                            Work::Score(kind),
                            Single { bits: 0 },
                            idx,
                            old(self).score_begin(idx, kind),
                            4 * old(self).samples as nat,
                            r->status,
                        )
                    },
                    None => {
                        &&& final(self).phase == Phase::Waiting
                        &&& final(self).results@ == old(self).results@.push(result)
                        &&& r == (Next::Report { sample: (idx + 1) as u64, result })
                    },
                }
            }),
    {
        let (idx, size): (u64, u64) = match self.phase {
            Phase::Encoding { idx, size } => (idx, size),
            _ => unreached(),
        };
        let sample_duration = match probed {
            Some(d) => if d.is_zero() {
                self.sample_duration
            } else {
                d
            },
            None => self.sample_duration,
        };
        let result = EncodeResult {
            sample_size: size,
            encoded_size,
            vmaf_score: None,
            xpsnr_score: None,
            encode_time,
            sample_duration,
            from_cache: false,
        };
        if self.xpsnr || self.vmaf {
            let kind = if self.xpsnr {
                ScoreKind::Xpsnr
            } else {
                ScoreKind::Vmaf
            };
            let status = self.begin_score(idx, kind);
            self.phase = Phase::Scoring { idx, kind, result };
            Next::Score { kind, status }
        } else {
            self.phase = Phase::Waiting;
            self.results.push(result);
            assert(self.results@.drop_last() =~= old(self).results@);
            Next::Report { sample: idx + 1, result }
        }
    }

    /// A score has come to `time`.
    pub fn score_progress(&self, time: Duration, fps: Single) -> (r: Status)
        requires
            self.wf(),
            self.phase is Scoring,
        ensures
            self.status_of(
                Work::Score(self.phase->Scoring_kind),
                fps,
                self.phase->Scoring_idx,
                score_part(
                    self.sample_duration@,
                    self.phase->Scoring_idx as nat,
                    self.phase->Scoring_kind,
                    self.xpsnr && self.vmaf,
                    time@,
                ),
                work_total(self.sample_duration@, self.samples as nat),
                r,
            ),
    {
        let (idx, kind): (u64, ScoreKind) = match self.phase {
            Phase::Scoring { idx, kind, .. } => (idx, kind),
            _ => unreached(),
        };
        let us: u128 = time.as_micros_u64() as u128;
        let unit: u128 = self.unit() as u128;
        let within: u128 = if !(self.xpsnr && self.vmaf) {
            us
        } else {
            match kind {
                ScoreKind::Xpsnr => us / 2,
                ScoreKind::Vmaf => unit / 2 + us / 2,
            }
        };
        let part: u128 = unit + within + self.done_before(idx);
        Status {
            work: Work::Score(kind),
            fps,
            progress: Progress { part, whole: self.total() },
            sample: idx + 1,
            samples: self.samples,
            full_pass: self.full_pass,
        }
    }

    /// The result with a score of one kind, if there came one.
    pub open spec fn with_score(result: EncodeResult, kind: ScoreKind, score: Option<Single>) -> EncodeResult {
        match kind {
            ScoreKind::Xpsnr => EncodeResult { xpsnr_score: score, ..result },
            ScoreKind::Vmaf => EncodeResult { vmaf_score: score, ..result },
        }
    }

    /// A score is calculated: VMAF follows XPSNR where both are wanted, else
    /// the result is complete.
    pub fn scored(&mut self, score: Option<Single>) -> (r: Next)
        requires
            old(self).wf(),
            old(self).phase is Scoring,
        ensures
            old(self).follows(*final(self)),
            ({
                let idx = old(self).phase->Scoring_idx;
                let kind = old(self).phase->Scoring_kind;
                let result = Self::with_score(old(self).phase->result, kind, score);
                match old(self).score_after(kind) {
                    Some(next) => {
                        &&& final(self).phase == (Phase::Scoring { idx, kind: next, result })
                        &&& final(self).results == old(self).results
                        &&& r is Score && r->Score_kind == next
                        &&& old(self).status_of(
                            Work::Score(next),
                            Single { bits: 0 },
                            idx,
                            old(self).score_begin(idx, next),
                            4 * old(self).samples as nat,
                            r->status,
                        )
                    },
                    None => {
                        &&& final(self).phase == Phase::Waiting
                        &&& final(self).results@ == old(self).results@.push(result)
                        &&& r == (Next::Report { sample: (idx + 1) as u64, result })
                    },
                }
            }),
    {
        let (idx, kind, unscored): (u64, ScoreKind, EncodeResult) = match self.phase {
            Phase::Scoring { idx, kind, result } => (idx, kind, result),
            _ => unreached(),
        };
        let result = match kind {
            ScoreKind::Xpsnr => EncodeResult { xpsnr_score: score, ..unscored },
            ScoreKind::Vmaf => EncodeResult { vmaf_score: score, ..unscored },
        };
        if matches!(kind, ScoreKind::Xpsnr) && self.vmaf {
            let status = self.begin_score(idx, ScoreKind::Vmaf);
            self.phase = Phase::Scoring { idx, kind: ScoreKind::Vmaf, result };
            Next::Score { kind: ScoreKind::Vmaf, status }
        } else {
            self.phase = Phase::Waiting;
            self.results.push(result);
            assert(self.results@.drop_last() =~= old(self).results@);
            Next::Report { sample: idx + 1, result }
        }
    }

    /// All samples are done.
    pub fn finish(&self, means: Means) -> (r: Update)
        requires
            self.wf(),
            self.phase == Phase::Waiting,
            self.results@.len() == self.samples,
        ensures
            r matches Update::Done(out) && out == (Output {
                vmaf_score: means.vmaf_score,
                xpsnr_score: means.xpsnr_score,
                predicted_encode_size: result::likely_size(
                    means.size_by_duration,
                    means.size_by_file_percent,
                ),
                encode_percent: means.encode_percent,
                predicted_encode_time: means.encode_time,
                from_cache: forall|i: int|
                    0 <= i < self.samples ==> (#[trigger] self.results@[i]).from_cache,
            }),
    {
        Update::Done(Output::new(self.results.as_slice(), means))
    }
}

/// The work on a sample lies within the sample's share of the whole, and
/// scoring comes behind encoding, whatever the encoder and the scores report up
/// to the end of the sample.
pub proof fn law_progress_in_share(
    sample: nat,
    idx: nat,
    kind: ScoreKind,
    both: bool,
    encoded: nat,
    scored: nat,
)
    requires
        encoded / 1_000 <= sample_micros(sample),
        scored / 1_000 <= sample_micros(sample),
    ensures
        2 * idx * sample_micros(sample) <= encode_part(sample, idx, encoded),
        encode_part(sample, idx, encoded) <= score_part(sample, idx, kind, both, scored),
        score_part(sample, idx, kind, both, scored) <= 2 * (idx + 1) * sample_micros(sample),
{
    let unit = sample_micros(sample);
    assert(idx * unit * 2 == 2 * idx * unit) by (nonlinear_arith);
    assert(2 * (idx + 1) * unit == 2 * idx * unit + 2 * unit) by (nonlinear_arith);
}

/// The step behind state `i` adds the result of sample `k` as the last state
/// has it.
pub open spec fn done_at(states: Seq<SampleRun>, i: int, k: int) -> bool {
    &&& 0 <= i < states.len() - 1
    &&& states[i].present() matches Some(idx) && idx == k
    &&& states[i + 1].results@ == states[i].results@.push(states.last().results@[k])
}

/// Some step adds the result of sample `k` as the last state has it.
pub open spec fn is_done(states: Seq<SampleRun>, k: int) -> bool {
    exists|i: int| done_at(states, i, k)
}

/// The states of a run: it begins with nothing done, and each state comes from
/// the one before by one step.
pub open spec fn is_run(states: Seq<SampleRun>) -> bool {
    &&& states.len() > 0
    &&& states[0].wf()
    &&& states[0].results@.len() == 0
    &&& forall|i: int|
        0 <= i < states.len() - 1 ==> (#[trigger] states[i]).follows(states[i + 1])
}

proof fn lemma_results_grow(states: Seq<SampleRun>, i: int, j: int)
    requires
        is_run(states),
        0 <= i <= j < states.len(),
    ensures
        states[j].wf(),
        states[j].same_run(states[0]),
        states[i].results@.len() <= states[j].results@.len(),
        states[i].results@ == states[j].results@.take(states[i].results@.len() as int),
    decreases j,
{
    if j > 0 {
        if i < j {
            lemma_results_grow(states, i, j - 1);
        } else {
            lemma_results_grow(states, j - 1, j - 1);
        }
        assert(states[j - 1].follows(states[j - 1 + 1]));
    }
    let a = states[i].results@;
    if i < j {
        let b = states[j - 1].results@;
        let c = states[j].results@;
        assert(forall|k: int| 0 <= k < b.len() ==> c[k] == b[k]) by {
            if states[j].present() is None {
                assert(forall|k: int| 0 <= k < b.len() ==> c.drop_last()[k] == c[k]);
            }
        }
        assert(forall|k: int| 0 <= k < a.len() ==> b.take(a.len() as int)[k] == b[k]);
    }
    assert(a =~= states[j].results@.take(a.len() as int));
}

proof fn lemma_done_somewhere(states: Seq<SampleRun>, j: int, k: int) -> (i: int)
    requires
        is_run(states),
        0 <= j < states.len(),
        0 <= k < states[j].results@.len(),
    ensures
        done_at(states, i, k),
    decreases j,
{
    lemma_results_grow(states, 0, j);
    assert(states[j - 1].follows(states[j - 1 + 1]));
    if k < states[j - 1].results@.len() {
        lemma_done_somewhere(states, j - 1, k)
    } else {
        let end = states.len() - 1;
        lemma_results_grow(states, j, end);
        let c = states[j].results@;
        assert(c.last() == states[end].results@.take(c.len() as int)[k]);
        assert(c =~= states[j - 1].results@.push(states.last().results@[k]));
        j - 1
    }
}

/// In a run whose samples are all done, each sample was done once, in order,
/// and the results are theirs, each in the place of its sample.
pub proof fn law_every_sample_done_once(states: Seq<SampleRun>)
    requires
        is_run(states),
        states.last().results@.len() == states.last().samples,
    ensures
        states.last().samples == states[0].samples,
        forall|k: int| 0 <= k < states[0].samples ==> #[trigger] is_done(states, k),
        forall|i: int, j: int, k: int, l: int|
            #[trigger] done_at(states, i, k) && #[trigger] done_at(states, j, l) ==> ((i == j)
                == (k == l) && (i < j) == (k < l)),
{
    lemma_results_grow(states, 0, states.len() - 1);
    assert forall|k: int| 0 <= k < states[0].samples implies #[trigger] is_done(states, k) by {
        let i = lemma_done_somewhere(states, states.len() - 1, k);
    }
    assert forall|i: int, j: int, k: int, l: int|
        #[trigger] done_at(states, i, k) && #[trigger] done_at(states, j, l) implies ((i == j)
        == (k == l) && (i < j) == (k < l)) by {
        lemma_results_grow(states, 0, i);
        lemma_results_grow(states, 0, j);
        if i < j {
            lemma_results_grow(states, i + 1, j);
        } else if j < i {
            lemma_results_grow(states, j + 1, i);
        }
    }
}

/// Half of a sample's share is for encoding and half for scoring, which two
/// scores share alike: encoding starts where the sample before it ended, scoring
/// starts at the half, VMAF behind XPSNR where both are wanted, and the last
/// score ends where the next sample starts.
pub proof fn law_progress_without_gaps(sample: nat, idx: nat)
    requires
        1_000 <= sample <= u64::MAX,
    ensures
        ({
            let unit = sample / 1_000;
            let none: nat = 0;
            &&& encode_part(sample, idx, none) == 2 * idx * unit
            &&& encode_part(sample, idx, sample) == 2 * idx * unit + unit
            &&& score_part(sample, idx, ScoreKind::Vmaf, false, none) == encode_part(
                sample,
                idx,
                sample,
            )
            &&& score_part(sample, idx, ScoreKind::Xpsnr, true, none) == encode_part(
                sample,
                idx,
                sample,
            )
            &&& score_part(sample, idx, ScoreKind::Vmaf, true, none) == score_part(
                sample,
                idx,
                ScoreKind::Xpsnr,
                true,
                sample,
            )
            &&& score_part(sample, idx, ScoreKind::Vmaf, false, sample) == encode_part(
                sample,
                idx + 1,
                none,
            )
            &&& score_part(sample, idx, ScoreKind::Xpsnr, false, sample) == encode_part(
                sample,
                idx + 1,
                none,
            )
            &&& 0 <= encode_part(sample, idx + 1, none) - score_part(
                sample,
                idx,
                ScoreKind::Vmaf,
                true,
                sample,
            ) <= 1
        }),
{
    let unit = sample / 1_000;
    assert(sample_micros(sample) == unit);
    assert(idx * unit * 2 == 2 * idx * unit) by (nonlinear_arith);
    assert((idx + 1) * unit * 2 == 2 * idx * unit + 2 * unit) by (nonlinear_arith);
}

/// The whole of the work is the share of all samples.
pub proof fn law_whole_is_all_shares(sample: nat, samples: nat)
    requires
        2 * sample_micros(sample) * samples <= u64::MAX,
    ensures
        work_total(sample, samples) == encode_part(sample, samples, 0),
        1_000 <= sample <= u64::MAX ==> sample_micros(sample) == sample / 1_000,
        sample < 1_000 ==> sample_micros(sample) == 1,
{
    let unit = sample_micros(sample);
    assert(samples * unit * 2 == 2 * unit * samples) by (nonlinear_arith);
    assert(unit * samples * 2 == 2 * unit * samples) by (nonlinear_arith);
    assert(unit * samples <= 2 * unit * samples) by (nonlinear_arith)
        requires
            unit >= 0,
            samples >= 0,
    ;
}

/// A score begins in the middle of its sample's share, and VMAF behind XPSNR
/// where both are wanted.
pub proof fn law_scores_begin_in_order(run: SampleRun, idx: u64)
    ensures
        4 * idx < run.score_begin(idx, ScoreKind::Xpsnr) < 4 * (idx + 1),
        run.score_begin(idx, ScoreKind::Xpsnr) - 4 * idx == 4 * (idx + 1) - run.score_begin(
            idx,
            ScoreKind::Xpsnr,
        ),
        run.xpsnr ==> run.score_begin(idx, ScoreKind::Xpsnr) < run.score_begin(idx, ScoreKind::Vmaf)
            < 4 * (idx + 1),
        !run.xpsnr ==> run.score_begin(idx, ScoreKind::Vmaf) == run.score_begin(
            idx,
            ScoreKind::Xpsnr,
        ),
{
}

/// VMAF is calculated as it is asked for; where nothing is asked, it is unless
/// XPSNR is.
pub proof fn law_vmaf_unless_xpsnr(config: ScoringConfig)
    ensures
        config.vmaf.and_vmaf is Some ==> config.wants_vmaf() == config.vmaf.and_vmaf->0,
        config.vmaf.and_vmaf is None ==> (config.wants_vmaf() <==> !config.xpsnr),
        config.vmaf.and_vmaf is None ==> config.wants_vmaf() || config.xpsnr,
{
}

/// A sample that was encoded has its own sizes and times and no score yet; its
/// duration is the one found in it, where there is one.
pub proof fn law_fresh_result_is_unscored(
    run: SampleRun,
    encoded_size: u64,
    encode_time: Duration,
    probed: Option<Duration>,
)
    requires
        run.phase is Encoding,
    ensures
        ({
            let r = run.fresh_result(encoded_size, encode_time, probed);
            &&& r.vmaf_score is None && r.xpsnr_score is None && !r.from_cache
            &&& r.sample_size == run.phase->Encoding_size
            &&& r.encoded_size == encoded_size
            &&& r.encode_time == encode_time
            &&& probed is Some && probed->0@ > 0 ==> r.sample_duration == probed->0
            &&& probed is None || probed->0@ == 0 ==> r.sample_duration == run.sample_duration
        }),
{
}

/// A score is added in its own place, whatever the order, and changes nothing
/// else.
pub proof fn law_scores_are_kept_apart(r: EncodeResult, vmaf: Option<Single>, xpsnr: Option<Single>)
    ensures
        ({
            let both = SampleRun::with_score(
                SampleRun::with_score(r, ScoreKind::Xpsnr, xpsnr),
                ScoreKind::Vmaf,
                vmaf,
            );
            &&& both == SampleRun::with_score(
                SampleRun::with_score(r, ScoreKind::Vmaf, vmaf),
                ScoreKind::Xpsnr,
                xpsnr,
            )
            &&& both.vmaf_score == vmaf
            &&& both.xpsnr_score == xpsnr
            &&& both == (EncodeResult { vmaf_score: vmaf, xpsnr_score: xpsnr, ..r })
        }),
{
}

/// A status tells the number of its sample from one on, of how many, and how far
/// the work is.
pub proof fn law_status_counts_from_one(
    run: SampleRun,
    work: Work,
    fps: Single,
    idx: u64,
    part: nat,
    whole: nat,
    s: Status,
)
    requires
        run.status_of(work, fps, idx, part, whole, s),
    ensures
        s.sample == idx + 1,
        s.samples == run.samples,
        s.full_pass == run.full_pass,
        s.work == work,
        s.fps == fps,
        s.progress.part == part && s.progress.whole == whole,
{
}

/// Each score that is wanted is calculated once and no other is, XPSNR before
/// VMAF.
pub proof fn law_wanted_scores_once_each(run: SampleRun)
    ensures
        run.first_score() is None <==> !run.xpsnr && !run.vmaf,
        run.xpsnr <==> run.first_score() == Some(ScoreKind::Xpsnr),
        run.vmaf && !run.xpsnr <==> run.first_score() == Some(ScoreKind::Vmaf),
        run.first_score() matches Some(first) ==> match run.score_after(first) {
            Some(second) => {
                &&& first == ScoreKind::Xpsnr && second == ScoreKind::Vmaf
                &&& run.xpsnr && run.vmaf
                &&& run.score_after(second) is None
            },
            None => !(run.xpsnr && run.vmaf),
        },
{
}

} // verus!
