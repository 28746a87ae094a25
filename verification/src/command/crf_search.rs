//! Interpolated binary search for the best crf value that delivers a minimum
//! score and a maximum size.
pub mod decision;
pub mod err;

use crate::command::args::encode as encode_args;
use crate::command::args::encode::Encode;
use crate::command::args::vmaf::Vmaf;
use crate::command::args::{Sample as SampleArgs, ScoreArgs, Xpsnr};
use crate::command::crf_search::decision::{SearchDecision, SearchTransition, MAX_Q};
use crate::command::crf_search::err::Error;
use crate::command::rules::{CrfSearchRules, PositionalVmafScore, ValidationError};
use crate::command::sample_encode::result::{EncodeResult, Output};
use crate::command::sample_encode::{result, Progress, ScoringConfig, Status};
use crate::float::{Double, Single};
use crate::outside;
use crate::style;
use crate::style::{Segment, Tone};
use crate::text;
use vstd::prelude::*;

verus! {

broadcast use vstd::string::group_string_axioms;

/// The length of the progress bar.
pub const BAR_LEN: u64 = 0x4000_0000;

/// The bits of 95, the minimum VMAF score by default.
pub const DEFAULT_MIN_VMAF_BITS: u32 = 0x42be_0000;

/// The bits of the least step between crf values.
pub const MIN_STEP_BITS: u32 = 0x3a83_126f;

// ---- scores ----

/// The score by which a search decides: the one that is asked for, else the
/// other one, else zero.
pub open spec fn search_score(enc: Output, use_xpsnr: bool) -> Single {
    let (first, second) = if use_xpsnr {
        (enc.xpsnr_score, enc.vmaf_score)
    } else {
        (enc.vmaf_score, enc.xpsnr_score)
    };
    match first {
        Some(s) => s,
        None => match second {
            Some(s) => s,
            None => Single { bits: 0 },
        },
    }
}

/// Score used for CRF search threshold decisions.
///
/// When the user targets XPSNR, search must use XPSNR even if VMAF is also
/// present.
pub fn output_search_score(enc: &Output, use_xpsnr: bool) -> (r: Single)
    ensures
        r == search_score(*enc, use_xpsnr),
{
    let (first, second) = if use_xpsnr {
        (enc.xpsnr_score, enc.vmaf_score)
    } else {
        (enc.vmaf_score, enc.xpsnr_score)
    };
    match first {
        Some(s) => s,
        None => match second {
            Some(s) => s,
            None => Single::from_bits(0),
        },
    }
}

// ---- checked numbers ----

/// The largest size that an encode may have, in percent of the input.
#[derive(Debug, Clone, Copy, PartialEq, Eq, Structural)]
pub struct MaxEncodedPercent(Double);

impl MaxEncodedPercent {
    /// The percentage.
    pub closed spec fn percent(self) -> Double {
        self.0
    }

    #[verifier::type_invariant]
    closed spec fn positive(self) -> bool {
        self.0.is_finite() && (Double { bits: 0 }).lt(self.0)
    }

    /// The percentage, if it is finite and positive.
    pub fn new(percent: Double) -> (r: Result<Self, ValidationError>)
        ensures
            match r {
                Ok(max) => percent.is_finite() && (Double { bits: 0 }).lt(percent) && max.percent()
                    == percent,
                Err(e) => !(percent.is_finite() && (Double { bits: 0 }).lt(percent)) && e
                    == ValidationError::NonPositiveMaxEncodedPercent,
            },
    {
        if percent.finite() && Double::from_bits(0).less_than(percent) {
            Ok(Self(percent))
        } else {
            Err(ValidationError::NonPositiveMaxEncodedPercent)
        }
    }

    /// The percentage.
    pub fn get(self) -> (r: Double)
        ensures
            r == self.percent(),
            r.is_finite() && (Double { bits: 0 }).lt(r),
    {
        proof {
            use_type_invariant(&self);
        }
        self.0
    }
}

/// Why a number is no crf or no step between crf values.
#[derive(Debug, Clone, Copy, PartialEq, Eq, Structural)]
pub enum CrfValueError {
    InvalidCrf,
    InvalidStep,
}

impl CrfValueError {
    /// What went wrong.
    pub fn message(&self) -> (r: &'static str)
        ensures
            r@ == (match *self {
                CrfValueError::InvalidCrf => "CRF value must be finite"@,
                CrfValueError::InvalidStep => "CRF step must be finite and positive"@,
            }),
    {
        match self {
            Self::InvalidCrf => "CRF value must be finite",
            Self::InvalidStep => "CRF step must be finite and positive",
        }
    }
}

/// A finite crf value.
#[derive(Debug, Clone, Copy, PartialEq, Eq, Structural)]
pub struct Crf(Single);

impl Crf {
    /// The value.
    pub closed spec fn value(self) -> Single {
        self.0
    }

    #[verifier::type_invariant]
    closed spec fn finite(self) -> bool {
        self.0.is_finite()
    }

    /// The value, if it is finite.
    pub fn try_new(crf: Single) -> (r: Result<Self, CrfValueError>)
        ensures
            match r {
                Ok(c) => crf.is_finite() && c.value() == crf,
                Err(e) => !crf.is_finite() && e == CrfValueError::InvalidCrf,
            },
    {
        if crf.finite() {
            Ok(Self(crf))
        } else {
            Err(CrfValueError::InvalidCrf)
        }
    }

    /// The value.
    pub fn get(self) -> (r: Single)
        ensures
            r == self.value(),
            r.is_finite(),
    {
        proof {
            use_type_invariant(&self);
        }
        self.0
    }
}

/// A finite, positive step between crf values.
#[derive(Debug, Clone, Copy, PartialEq, Eq, Structural)]
pub struct CrfStep(Single);

impl CrfStep {
    /// The step.
    pub closed spec fn value(self) -> Single {
        self.0
    }

    /// Whether a number can be a step.
    pub open spec fn valid(step: Single) -> bool {
        step.is_finite() && (Single { bits: 0 }).lt(step)
    }

    #[verifier::type_invariant]
    closed spec fn usable(self) -> bool {
        Self::valid(self.0)
    }

    /// The step, if it is finite and positive.
    pub fn try_new(step: Single) -> (r: Result<Self, CrfValueError>)
        ensures
            match r {
                Ok(s) => Self::valid(step) && s.value() == step,
                Err(e) => !Self::valid(step) && e == CrfValueError::InvalidStep,
            },
    {
        if step.finite() && Single::from_bits(0).less_than(step) {
            Ok(Self(step))
        } else {
            Err(CrfValueError::InvalidStep)
        }
    }

    /// The step.
    pub fn get(self) -> (r: Single)
        ensures
            r == self.value(),
            Self::valid(r),
    {
        proof {
            use_type_invariant(&self);
        }
        self.0
    }
}

// ---- configuration ----

/// What a crf search is asked for.
#[derive(Debug, PartialEq, Eq)]
pub struct CrfSearchConfig {
    pub args: Encode,
    pub min_vmaf: Option<Single>,
    pub min_xpsnr: Option<Single>,
    pub max_encoded_percent: MaxEncodedPercent,
    pub min_crf: Option<Single>,
    pub max_crf: Option<Single>,
    pub thorough: bool,
    pub crf_increment: Option<CrfStep>,
    pub high_crf_means_hq: Option<bool>,
    pub cache: bool,
    pub sample: SampleArgs,
    pub scoring: ScoringConfig,
}

/// The score arguments of a crf search.
#[derive(Debug, PartialEq, Eq)]
pub struct ScoreOptions {
    pub vmaf: Vmaf,
    pub score: ScoreArgs,
    pub xpsnr: Xpsnr,
}

/// What a search starts from, with all defaults resolved.
#[derive(Debug, PartialEq, Eq)]
pub struct SearchSetup {
    pub min_crf: Single,
    pub max_crf: Single,
    pub default_min_crf: Single,
    pub default_max_crf: Single,
    pub min_score: Single,
    pub use_xpsnr: bool,
    pub crf_increment: CrfStep,
    pub high_crf_means_hq: bool,
}

/// The greatest of a step and the least step.
pub open spec fn clamped_step(step: Single) -> Single {
    if step.lt(Single { bits: MIN_STEP_BITS }) {
        Single { bits: MIN_STEP_BITS }
    } else {
        step
    }
}

impl CrfSearchConfig {
    /// The minimum score: that of XPSNR before that of VMAF, and 95 by default.
    pub open spec fn min(self) -> Single {
        match self.min_xpsnr {
            Some(s) => s,
            None => match self.min_vmaf {
                Some(s) => s,
                None => Single { bits: DEFAULT_MIN_VMAF_BITS },
            },
        }
    }

    /// The scoring of a search: XPSNR is calculated where it has a minimum.
    pub fn scoring_for(min_xpsnr: Option<Single>, options: ScoreOptions) -> (r: ScoringConfig)
        ensures
            r.score.reference_vfilter == options.score.reference_vfilter,
            r.vmaf.and_vmaf == options.vmaf.and_vmaf,
            r.vmaf.vmaf_args == options.vmaf.vmaf_args,
            r.vmaf.vmaf_scale == options.vmaf.vmaf_scale,
            r.vmaf.vmaf_fps == options.vmaf.vmaf_fps,
            r.xpsnr == min_xpsnr is Some,
            r.xpsnr_opts.xpsnr_fps == options.xpsnr.xpsnr_fps,
            r.xpsnr_opts.xpsnr_pix_format == options.xpsnr.xpsnr_pix_format,
    {
        ScoringConfig::from_args(options.score, options.vmaf, min_xpsnr.is_some(), options.xpsnr)
    }

    /// The minimum score.
    pub fn min_score(&self) -> (r: Single)
        ensures
            r == self.min(),
    {
        match self.min_xpsnr {
            Some(s) => s,
            None => match self.min_vmaf {
                Some(s) => s,
                None => Single::from_bits(DEFAULT_MIN_VMAF_BITS),
            },
        }
    }

    /// What the rules look at. `positional` is the first VMAF argument that is
    /// a number.
    pub open spec fn rules(self, positional: Option<PositionalVmafScore>) -> CrfSearchRules {
        CrfSearchRules {
            min_vmaf: self.min_vmaf,
            min_xpsnr: self.min_xpsnr,
            min_crf: self.min_crf,
            max_crf: self.max_crf,
            positional_vmaf_score: positional,
        }
    }

    /// Reports the first rule that is broken.
    pub fn validate(&self, positional: Option<PositionalVmafScore>) -> (r: Result<
        (),
        ValidationError,
    >)
        ensures
            r == (match self.rules(positional).broken() {
                Some(e) => Err::<(), ValidationError>(e),
                None => Ok(()),
            }),
    {
        CrfSearchRules {
            min_vmaf: self.min_vmaf,
            min_xpsnr: self.min_xpsnr,
            min_crf: self.min_crf,
            max_crf: self.max_crf,
            positional_vmaf_score: positional,
        }.validate()
    }

    /// The least crf of the search.
    pub open spec fn least_crf(self) -> Single {
        match self.min_crf {
            Some(c) => c,
            None => Single { bits: encode_args::min_crf_bits(self.args.encoder@) },
        }
    }

    /// The greatest crf of the search.
    pub open spec fn greatest_crf(self) -> Single {
        match self.max_crf {
            Some(c) => c,
            None => Single { bits: encode_args::max_crf_bits(self.args.encoder@) },
        }
    }

    /// The step between crf values.
    pub open spec fn step(self) -> Single {
        clamped_step(
            match self.crf_increment {
                Some(step) => step.value(),
                None => Single { bits: encode_args::increment_bits(self.args.encoder@) },
            },
        )
    }

    /// Whether a high crf means high quality.
    pub open spec fn high_is_good(self) -> bool {
        match self.high_crf_means_hq {
            Some(b) => b,
            None => self.args.encoder@ == "hevc_videotoolbox"@,
        }
    }

    /// Resolves the defaults, if the least crf is less than the greatest.
    pub fn setup(&self) -> (r: Result<SearchSetup, Error>)
        ensures
            ({
                let vcodec = self.args.encoder@;
                let default_min = Single { bits: encode_args::min_crf_bits(vcodec) };
                let default_max = Single { bits: encode_args::max_crf_bits(vcodec) };
                match r {
                    Ok(s) => {
                        &&& self.least_crf().lt(self.greatest_crf())
                        &&& s.min_crf == self.least_crf() && s.max_crf == self.greatest_crf()
                        &&& s.default_min_crf == default_min && s.default_max_crf == default_max
                        &&& s.min_score == self.min()
                        &&& s.use_xpsnr == self.min_xpsnr is Some
                        &&& s.crf_increment.value() == self.step()
                        &&& s.high_crf_means_hq == self.high_is_good()
                    },
                    Err(e) => !self.least_crf().lt(self.greatest_crf()) && (e matches Error::Other(m) && m@
                        == "Invalid --min-crf & --max-crf"@),
                }
            }),
    {
        let default_max_crf = self.args.encoder.default_max_crf();
        let default_min_crf = self.args.encoder.default_min_crf();
        let max_crf = match self.max_crf {
            Some(c) => c,
            None => default_max_crf,
        };
        let min_crf = match self.min_crf {
            Some(c) => c,
            None => default_min_crf,
        };
        if let Err(e) = Error::ensure_other(
            min_crf.less_than(max_crf),
            "Invalid --min-crf & --max-crf",
        ) {
            return Err(e);
        }
        let step = match self.crf_increment {
            Some(step) => step.get(),
            None => self.args.encoder.default_crf_increment(),
        };
        let least = Single::from_bits(MIN_STEP_BITS);
        let step = if step.less_than(least) {
            least
        } else {
            step
        };
        let crf_increment = CrfStep(step);
        let high_crf_means_hq = match self.high_crf_means_hq {
            Some(b) => b,
            None => self.args.encoder.high_crf_means_hq(),
        };
        Ok(
            SearchSetup {
                min_crf,
                max_crf,
                default_min_crf,
                default_max_crf,
                min_score: self.min_score(),
                use_xpsnr: self.min_xpsnr.is_some(),
                crf_increment,
                high_crf_means_hq,
            },
        )
    }
}

// ---- q values ----

/// Conversion logic for integer "q" values used in the crf search.
///
/// "q" values are
/// * integers
/// * low q means higher quality
/// * they can be converted to/from crf, as so many steps
#[derive(Debug, Clone, Copy, PartialEq, Eq, Structural)]
pub struct QualityConverter {
    pub high_crf_means_hq: bool,
    pub crf_increment: CrfStep,
}

impl QualityConverter {
    /// The q value of a crf of so many steps.
    pub open spec fn q_of(self, steps: int) -> int {
        if self.high_crf_means_hq {
            -steps
        } else {
            steps
        }
    }

    /// How many steps the crf of a q value is.
    pub open spec fn steps_of(self, q: int) -> int {
        if self.high_crf_means_hq {
            -q
        } else {
            q
        }
    }

    /// The converter for this step.
    pub fn new(crf_increment: CrfStep, high_crf_means_hq: bool) -> (r: Self)
        ensures
            r.crf_increment == crf_increment,
            r.high_crf_means_hq == high_crf_means_hq,
    {
        Self { high_crf_means_hq, crf_increment }
    }

    /// Calculate "q" as an integer quality value related to crf, given how many
    /// steps the crf is.
    ///
    /// # Example
    /// * crf=33.5, inc=0.1, 335 steps -> q=335
    /// * crf=27, inc=1, 27 steps -> q=27
    ///
    /// # Example: encoders for which a high crf means high quality
    /// * crf=33.5, inc=0.1, 335 steps -> q=-335
    /// * crf=27, inc=1, 27 steps -> q=-27
    pub fn quality_index(&self, steps: i64) -> (r: i64)
        requires
            steps > i64::MIN,
        ensures
            r == self.q_of(steps as int),
    {
        if self.high_crf_means_hq {
            -steps
        } else {
            steps
        }
    }

    /// Calculate back from "q" how many steps the crf is.
    pub fn crf_steps(&self, q: i64) -> (r: i64)
        requires
            q > i64::MIN,
        ensures
            r == self.steps_of(q as int),
    {
        if self.high_crf_means_hq {
            -q
        } else {
            q
        }
    }

    /// The least and the greatest q for the least and the greatest crf, each
    /// given in steps.
    pub fn min_max_q(&self, min_steps: i64, max_steps: i64) -> (r: (i64, i64))
        requires
            min_steps > i64::MIN,
            max_steps > i64::MIN,
        ensures
            r.0 == (if self.high_crf_means_hq {
                self.q_of(max_steps as int)
            } else {
                self.q_of(min_steps as int)
            }),
            r.1 == (if self.high_crf_means_hq {
                self.q_of(min_steps as int)
            } else {
                self.q_of(max_steps as int)
            }),
            min_steps < max_steps <==> r.0 < r.1,
    {
        if self.high_crf_means_hq {
            (self.quality_index(max_steps), self.quality_index(min_steps))
        } else {
            (self.quality_index(min_steps), self.quality_index(max_steps))
        }
    }
}

/// A higher q means no higher quality: more steps where a high crf means low
/// quality, and fewer steps where it means high quality.
pub proof fn law_q_orders_quality(conv: QualityConverter, a: int, b: int)
    ensures
        conv.q_of(a) < conv.q_of(b) <==> (if conv.high_crf_means_hq {
            b < a
        } else {
            a < b
        }),
{
}

/// Converting to q and back gives the same number of steps, and converting from
/// q and back gives the same q. Between steps and crf values stands a product
/// with the increment, which is floating point.
pub proof fn law_q_round_trip(conv: QualityConverter, steps: int, q: int)
    ensures
        conv.steps_of(conv.q_of(steps)) == steps,
        conv.q_of(conv.steps_of(q)) == q,
{
}

// ---- attempts ----

/// An attempt: the result of encoding samples with a crf.
#[derive(Debug, Clone, Copy, PartialEq, Eq, Structural)]
pub struct Sample {
    pub enc: Output,
    pub crf: Single,
    pub q: i64,
}

/// The numbers of an attempt as they are shown.
pub struct ShownAttempt<'a> {
    pub crf: &'a str,
    pub score: &'a str,
    pub percent: &'a str,
}

/// The tone of a number that is not good enough, or of one that is.
pub open spec fn tone_if(bad: bool) -> Tone {
    if bad {
        Tone::BrightRed
    } else {
        Tone::Plain
    }
}

impl Sample {
    /// The line that is logged of an attempt.
    pub fn log_line(&self, shown: &ShownAttempt) -> (r: String)
        ensures
            r@ == "crf "@ + shown.crf@ + " "@ + self.enc.one_kind().name() + " "@ + shown.score@
                + " ("@ + shown.percent@ + "%)"@ + result::cache_text(self.enc.from_cache),
    {
        let kind = self.enc.single_score_kind();
        let mut out = text::cat4("crf ", shown.crf, " ", kind.display_str());
        out.append(" ");
        out.append(shown.score);
        out.append(" (");
        out.append(shown.percent);
        out.append("%)");
        if self.enc.from_cache {
            out.append(" (cache)");
        } else {
            assert(out@ + Seq::<char>::empty() =~= out@);
        }
        out
    }

    /// What is printed of an attempt. What is not good enough is red.
    pub fn print_attempt(
        &self,
        min_score: Single,
        max_encoded_percent: MaxEncodedPercent,
        shown: &ShownAttempt,
    ) -> (r: Vec<Segment>)
        ensures
            ({
                let low = self.enc.one_score().lt(min_score);
                let large = max_encoded_percent.percent().lt(self.enc.encode_percent);
                style::shown(r@) == seq![
                    ("- crf"@, Tone::Dim),
                    (" "@, Tone::Plain),
                    (shown.crf@, tone_if(low || large)),
                    (" "@, Tone::Plain),
                    (self.enc.one_kind().name(), Tone::Dim),
                    (" "@, Tone::Plain),
                    (shown.score@, tone_if(low)),
                    (" "@, Tone::Plain),
                    ("("@, Tone::Dim),
                    (shown.percent@ + "%"@, tone_if(large)),
                    (")"@, Tone::Dim),
                    (
                        result::cache_text(self.enc.from_cache),
                        if self.enc.from_cache {
                            Tone::Dim
                        } else {
                            Tone::Plain
                        },
                    ),
                ]
            }),
    {
        let low = self.enc.single_score().less_than(min_score);
        let large = max_encoded_percent.get().less_than(self.enc.encode_percent);
        let kind = self.enc.single_score_kind();
        let score_tone = if low {
            Tone::BrightRed
        } else {
            Tone::Plain
        };
        let percent_tone = if large {
            Tone::BrightRed
        } else {
            Tone::Plain
        };
        let crf_tone = if low || large {
            Tone::BrightRed
        } else {
            Tone::Plain
        };
        let mut out: Vec<Segment> = Vec::new();
        assert(style::shown(out@) =~= Seq::empty());
        style::add_segment(&mut out, "- crf", Tone::Dim);
        style::add_segment(&mut out, " ", Tone::Plain);
        style::add_segment(&mut out, shown.crf, crf_tone);
        style::add_segment(&mut out, " ", Tone::Plain);
        style::add_segment(&mut out, kind.display_str(), Tone::Dim);
        style::add_segment(&mut out, " ", Tone::Plain);
        style::add_segment(&mut out, shown.score, score_tone);
        style::add_segment(&mut out, " ", Tone::Plain);
        style::add_segment(&mut out, "(", Tone::Dim);
        let percent = text::cat2(shown.percent, "%");
        style::add_segment(&mut out, percent.as_str(), percent_tone);
        style::add_segment(&mut out, ")", Tone::Dim);
        if self.enc.from_cache {
            style::add_segment(&mut out, " (cache)", Tone::Dim);
        } else {
            let none = String::new();
            style::add_segment(&mut out, none.as_str(), Tone::Plain);
        }
        out
    }
}

/// How the result of a search is written to the standard output.
#[derive(Debug, Clone, Copy, PartialEq, Eq, Structural)]
pub enum StdoutFormat {
    Human,
}

impl StdoutFormat {
    /// What is printed of the result.
    pub fn print_result(self, sample: &Sample, image: bool, shown: &ShownAttempt) -> (r: Vec<Segment>)
        ensures
            style::shown(r@) == seq![
                ("crf "@, Tone::Plain),
                (shown.crf@, Tone::BoldGreen),
                (" "@ + sample.enc.one_kind().name() + " "@, Tone::Plain),
                (shown.score@, Tone::BoldGreen),
                (" predicted "@ + result::subject(image) + " size "@, Tone::Plain),
                (outside::bytes_text(sample.enc.predicted_encode_size), Tone::BoldGreen),
                (" ("@, Tone::Plain),
                (shown.percent@ + "%"@, Tone::BoldGreen),
                (") taking "@, Tone::Plain),
                (outside::human_span_text(sample.enc.predicted_encode_time@), Tone::Bold),
            ],
    {
        let kind = sample.enc.single_score_kind();
        let mut out: Vec<Segment> = Vec::new();
        assert(style::shown(out@) =~= Seq::empty());
        style::add_segment(&mut out, "crf ", Tone::Plain);
        style::add_segment(&mut out, shown.crf, Tone::BoldGreen);
        let label = text::cat3(" ", kind.display_str(), " ");
        style::add_segment(&mut out, label.as_str(), Tone::Plain);
        style::add_segment(&mut out, shown.score, Tone::BoldGreen);
        let lead = text::cat3(" predicted ", result::subject_str(image), " size ");
        style::add_segment(&mut out, lead.as_str(), Tone::Plain);
        let size = outside::human_bytes(sample.enc.predicted_encode_size);
        style::add_segment(&mut out, size.as_str(), Tone::BoldGreen);
        style::add_segment(&mut out, " (", Tone::Plain);
        let percent = text::cat2(shown.percent, "%");
        style::add_segment(&mut out, percent.as_str(), Tone::BoldGreen);
        style::add_segment(&mut out, ") taking ", Tone::Plain);
        let time = outside::human_duration(sample.enc.predicted_encode_time);
        style::add_segment(&mut out, time.as_str(), Tone::Bold);
        out
    }
}

// ---- progress ----

/// How many runs a search is guessed to take.
pub open spec fn runs_guess(run: int, thorough: bool) -> int {
    if thorough && run < 7 {
        6
    } else if run < 6 {
        5
    } else {
        run
    }
}

/// The least of two numbers.
pub open spec fn lesser(a: int, b: int) -> int {
    if a <= b {
        a
    } else {
        b
    }
}

/// The position of the progress bar when a part of a run is done.
pub open spec fn guessed_position(run: int, part: int, whole: int, thorough: bool) -> int {
    lesser(
        (((run - 1) * whole + lesser(part, whole)) * BAR_LEN) / (whole * runs_guess(run, thorough)),
        BAR_LEN as int,
    )
}

/// The position of the progress bar in a run of the search.
pub fn guess_progress(run: usize, sample_progress: Progress, thorough: bool) -> (r: u64)
    requires
        1 <= run <= u32::MAX,
        sample_progress.whole > 0,
    ensures
        r == guessed_position(
            run as int,
            sample_progress.part as int,
            sample_progress.whole as int,
            thorough,
        ),
        r <= BAR_LEN,
{
    let guess: u128 = if thorough && run < 7 {
        // Guess 6 iterations for a "thorough" search
        6
    } else if run < 6 {
        // Guess 5 iterations initially
        5
    } else {
        // Otherwise guess next will work
        run as u128
    };
    let whole: u128 = sample_progress.whole as u128;
    let part: u128 = if sample_progress.part <= whole {
        sample_progress.part
    } else {
        whole
    };
    let before: u128 = run as u128 - 1;
    assert(0 <= before * whole <= u32::MAX * u64::MAX) by (nonlinear_arith)
        requires
            0 <= before <= u32::MAX,
            0 <= whole <= u64::MAX,
    ;
    assert(0 < whole * guess <= u64::MAX * u32::MAX) by (nonlinear_arith)
        requires
            0 < guess <= u32::MAX,
            0 < whole <= u64::MAX,
    ;
    let runs: u128 = before * whole + part;
    assert(runs * BAR_LEN <= (u32::MAX * u64::MAX + u64::MAX) * 0x4000_0000) by (nonlinear_arith)
        requires
            runs <= u32::MAX * u64::MAX + u64::MAX,
            BAR_LEN == 0x4000_0000,
    ;
    let done: u128 = runs * BAR_LEN as u128;
    let position: u128 = done / (whole * guess);
    if position > BAR_LEN as u128 {
        BAR_LEN
    } else {
        position as u64
    }
}

/// The progress bar does not go back when one of the guessed runs ends and the
/// next one starts.
pub proof fn law_progress_at_run_boundary(run: int, end: int, next: int, thorough: bool)
    requires
        1 <= run < (if thorough {
            6int
        } else {
            5int
        }),
        end > 0,
        next > 0,
    ensures
        guessed_position(run, end, end, thorough) <= guessed_position(run + 1, 0, next, thorough),
{
    let guess = runs_guess(run, thorough);
    assert(runs_guess(run + 1, thorough) == guess);
    let b = BAR_LEN as int;
    assert(((run - 1) * end + end) * b == end * (run * b)) by (nonlinear_arith);
    assert((run * next + 0) * b == next * (run * b)) by (nonlinear_arith);
    assert((end * (run * b)) / (end * guess) == (run * b) / guess) by {
        lemma_cancel(run * b, end, guess);
    }
    assert((next * (run * b)) / (next * guess) == (run * b) / guess) by {
        lemma_cancel(run * b, next, guess);
    }
}

/// A common factor does not change a quotient.
proof fn lemma_cancel(n: int, f: int, d: int)
    requires
        f > 0,
        d > 0,
        n >= 0,
    ensures
        (f * n) / (f * d) == n / d,
{
    vstd::arithmetic::div_mod::lemma_div_denominator(f * n, f, d);
    vstd::arithmetic::div_mod::lemma_div_by_multiple(n, f);
    assert(n * f == f * n) by (nonlinear_arith);
}

/// What is told of a search while it goes on.
#[allow(inconsistent_fields)]
#[derive(Debug, Clone, Copy, PartialEq, Eq, Structural)]
pub enum Update {
    Status {
        /// run number starting from `1`.
        crf_run: usize,
        /// crf of this run
        crf: Single,
        sample: Status,
    },
    SampleResult {
        crf: Single,
        /// Sample number `1,....,n`
        sample: u64,
        result: EncodeResult,
    },
    /// Run result (excludes successful final runs)
    RunResult(Sample),
    Done(Sample),
}

/// What stands before the progress bar. `crf` is the crf as text.
pub fn status_prefix(status: &Status, crf: &str) -> (r: String)
    ensures
        r@ == (if status.full_pass {
            "crf "@ + crf@ + " full pass"@
        } else {
            "crf "@ + crf@ + " "@ + text::dec(status.sample as nat) + "/"@ + text::dec(
                status.samples as nat,
            )
        }),
{
    if status.full_pass {
        text::cat3("crf ", crf, " full pass")
    } else {
        let n = text::dec_string(status.sample);
        let of = text::dec_string(status.samples);
        let mut out = text::cat4("crf ", crf, " ", n.as_str());
        out.append("/");
        out.append(of.as_str());
        out
    }
}

// ---- the search ----

/// What a search keeps to.
#[derive(Debug, Clone, Copy, PartialEq, Eq, Structural)]
pub struct SearchSettings {
    pub min_score: Single,
    pub thorough: bool,
    /// Whether to make the 2nd iteration on the ~20%/~80% crf point instead of the min/max to
    /// improve interpolation by narrowing the crf range a 20% (or 30%) subrange.
    pub cut_on_iter2: bool,
    pub min_q: i64,
    pub max_q: i64,
    pub use_xpsnr: bool,
    pub max_encoded_percent: MaxEncodedPercent,
}

/// What a search waits for.
#[derive(Debug, Clone, Copy, PartialEq, Eq, Structural)]
pub enum SearchPhase {
    /// The output of encoding samples with the present q.
    Trying,
    /// The q between two attempts.
    Interpolating { worse: Sample, better: Sample },
    /// The q towards a bound.
    Cutting { from_q: i64, to_q: i64 },
    /// Nothing: the search is over.
    Finished,
}

/// Whether `q` lies behind `from` on the way to `to`, or at its end.
pub open spec fn behind(q: int, from: int, to: int) -> bool {
    from < q <= to || to <= q < from
}

/// A search: what was tried and what is tried next.
#[derive(Debug, PartialEq, Eq)]
pub struct CrfSearch {
    pub settings: SearchSettings,
    pub q: i64,
    pub attempts: Vec<Sample>,
    pub phase: SearchPhase,
}

impl CrfSearch {
    /// Whether all numbers are such that sums of two fit.
    pub open spec fn wf(self) -> bool {
        &&& decision::small(self.settings.min_q as int)
        &&& decision::small(self.settings.max_q as int)
        &&& self.settings.min_q < self.settings.max_q
        &&& self.phase is Trying ==> decision::small(self.q as int)
        &&& forall|i: int|
            0 <= i < self.attempts@.len() ==> decision::small((#[trigger] self.attempts@[i]).q as int)
        &&& match self.phase {
            SearchPhase::Interpolating { worse, better } => self.attempts@.contains(worse)
                && self.attempts@.contains(better),
            _ => true,
        }
    }

    /// Whether `q` is within the bounds of the search.
    pub open spec fn bounded(self, q: int) -> bool {
        self.settings.min_q <= q <= self.settings.max_q
    }

    /// Whether an attempt has the score.
    pub open spec fn scored(self, s: Sample) -> bool {
        search_score(s.enc, self.settings.use_xpsnr).ge(self.settings.min_score)
    }

    /// Whether `q` lies above all attempts that have the score and below all
    /// that lack it.
    pub open spec fn divides(self, q: int) -> bool {
        forall|i: int|
            0 <= i < self.attempts@.len() ==> if self.scored(#[trigger] self.attempts@[i]) {
                self.attempts@[i].q < q
            } else {
                q < self.attempts@[i].q
            }
    }

    /// What holds of a search as long as every q that is cut lies behind the
    /// last attempt and within the bounds: no q was tried twice, and the
    /// attempts that have the score lie below those that lack it, with what is
    /// tried next between them.
    pub open spec fn sound(self) -> bool {
        &&& forall|i: int|
            0 <= i < self.attempts@.len() ==> self.bounded((#[trigger] self.attempts@[i]).q as int)
        &&& forall|i: int, j: int|
            0 <= i < j < self.attempts@.len() ==> (#[trigger] self.attempts@[i]).q != (
            #[trigger] self.attempts@[j]).q
        &&& match self.phase {
            SearchPhase::Trying => self.bounded(self.q as int) && self.divides(self.q as int),
            SearchPhase::Interpolating { worse, better } => better.q + 1 < worse.q && (forall|q: int|
                better.q < q < worse.q ==> #[trigger] self.divides(q)),
            SearchPhase::Cutting { from_q, to_q } => forall|q: int| #[trigger]
                behind(q, from_q as int, to_q as int) ==> self.divides(q) && self.bounded(q),
            SearchPhase::Finished => true,
        }
    }

    /// A search that starts in the middle of its bounds.
    pub fn new(settings: SearchSettings) -> (r: Self)
        requires
            decision::small(settings.min_q as int),
            decision::small(settings.max_q as int),
            settings.min_q < settings.max_q,
        ensures
            r.wf(),
            r.sound(),
            r.settings == settings,
            r.q == decision::half(settings.min_q + settings.max_q),
            r.attempts@.len() == 0,
            r.phase is Trying,
    {
        let sum: i64 = settings.min_q + settings.max_q;
        let q: i64 = if sum >= 0 {
            sum / 2
        } else {
            -((-sum) / 2)
        };
        Self { settings, q, attempts: Vec::new(), phase: SearchPhase::Trying }
    }

    /// What the decision after the present run depends on.
    pub open spec fn decision(self, tolerance_top: Single, band_top: Single) -> SearchDecision {
        SearchDecision {
            min_score: self.settings.min_score,
            tolerance_top,
            band_top,
            thorough: self.settings.thorough,
            cut_on_iter2: self.settings.cut_on_iter2,
            run: (self.attempts@.len() + 1) as usize,
            min_q: self.settings.min_q,
            max_q: self.settings.max_q,
            use_xpsnr: self.settings.use_xpsnr,
            max_encoded_percent: self.settings.max_encoded_percent,
        }
    }

    /// The number of the present run, from 1.
    pub fn run(&self) -> (r: usize)
        requires
            self.attempts@.len() < usize::MAX,
        ensures
            r == self.attempts@.len() + 1,
    {
        self.attempts.len() + 1
    }

    /// The samples were encoded with the present q: decides how to go on.
    pub fn on_output(&mut self, crf: Single, enc: Output, tolerance_top: Single, band_top: Single) -> (r:
        Result<SearchTransition, Error>)
        requires
            old(self).wf(),
            old(self).phase is Trying,
            old(self).attempts@.len() < usize::MAX,
        ensures
            final(self).wf(),
            final(self).settings == old(self).settings,
            ({
                let sample = Sample { enc, crf, q: old(self).q };
                let score = search_score(enc, old(self).settings.use_xpsnr);
                let attempts = old(self).attempts@.push(sample);
                let d = old(self).decision(tolerance_top, band_top);
                &&& final(self).attempts@ == attempts
                &&& r == decision::transition(sample, score, attempts, d)
                &&& match r {
                    Ok(SearchTransition::Continue { next_q }) => final(self).phase is Trying
                        && final(self).q == next_q,
                    Ok(SearchTransition::Interpolate { worse, better }) => final(self).phase == (
                    SearchPhase::Interpolating { worse, better }),
                    Ok(SearchTransition::Cut { from_q, to_q }) => final(self).phase == (
                    SearchPhase::Cutting { from_q, to_q }),
                    Ok(SearchTransition::Done(s)) => final(self).phase is Finished
                        && decision::acceptable(s, d),
                    Ok(SearchTransition::RunResultThenDone { done, .. }) => final(self).phase is Finished && decision::acceptable(
                        done,
                        d,
                    ),
                    Err(_) => final(self).phase is Finished,
                }
            }),
            old(self).sound() ==> final(self).sound(),
    {
        let run: usize = self.run();
        let sample = Sample { enc, crf, q: self.q };
        let score = output_search_score(&enc, self.settings.use_xpsnr);
        let ghost before = self.attempts@;
        self.attempts.push(sample);
        let decision = SearchDecision {
            min_score: self.settings.min_score,
            tolerance_top,
            band_top,
            thorough: self.settings.thorough,
            cut_on_iter2: self.settings.cut_on_iter2,
            run,
            min_q: self.settings.min_q,
            max_q: self.settings.max_q,
            use_xpsnr: self.settings.use_xpsnr,
            max_encoded_percent: self.settings.max_encoded_percent,
        };
        let ghost attempts = self.attempts@;
        proof {
            decision::law_bounds_are_nearest(attempts, sample.q as int);
            decision::law_found_is_acceptable(sample, attempts, decision);
            assert(attempts[before.len() as int] == sample);
            assert(attempts.contains(sample));
            assert forall|i: int| 0 <= i < before.len() implies attempts[i] == before[i] by {}
        }
        let r = decision::decide_next_transition(
            &sample,
            score,
            self.attempts.as_slice(),
            decision,
        );
        match &r {
            Ok(SearchTransition::Continue { next_q }) => {
                self.q = *next_q;
                self.phase = SearchPhase::Trying;
            },
            Ok(SearchTransition::Interpolate { worse, better }) => {
                self.phase = SearchPhase::Interpolating { worse: *worse, better: *better };
            },
            Ok(SearchTransition::Cut { from_q, to_q }) => {
                self.phase = SearchPhase::Cutting { from_q: *from_q, to_q: *to_q };
            },
            Ok(SearchTransition::Done(_)) => {
                self.phase = SearchPhase::Finished;
            },
            Ok(SearchTransition::RunResultThenDone { .. }) => {
                self.phase = SearchPhase::Finished;
            },
            Err(_) => {
                self.phase = SearchPhase::Finished;
            },
        }
        r
    }

    /// The line through two attempts meets the minimum score at `lerp`: the next
    /// q lies there, if that is between them.
    pub fn interpolated(&mut self, lerp: i64)
        requires
            old(self).wf(),
            old(self).phase is Interpolating,
        ensures
            final(self).wf() || final(self).q < -MAX_Q,
            final(self).settings == old(self).settings,
            final(self).attempts == old(self).attempts,
            final(self).phase is Trying,
            ({
                let worse = old(self).phase->worse;
                let better = old(self).phase->better;
                &&& final(self).q == decision::lerp_q(
                    old(self).settings.min_score,
                    worse,
                    better,
                    old(self).settings.use_xpsnr,
                    lerp,
                )
                &&& old(self).sound() ==> final(self).wf() && final(self).sound()
            }),
    {
        if let SearchPhase::Interpolating { worse, better } = self.phase {
            proof {
                let wi = choose|i: int| 0 <= i < self.attempts@.len() && self.attempts@[i] == worse;
                let bi = choose|i: int| 0 <= i < self.attempts@.len() && self.attempts@[i] == better;
                assert(decision::small(self.attempts@[wi].q as int));
                assert(decision::small(self.attempts@[bi].q as int));
                if better.q + 1 < worse.q {
                    decision::law_lerp_between(
                        self.settings.min_score,
                        worse,
                        better,
                        self.settings.use_xpsnr,
                        lerp,
                    );
                }
            }
            self.q = decision::vmaf_lerp_q(
                self.settings.min_score,
                &worse,
                &better,
                self.settings.use_xpsnr,
                lerp,
            );
            self.phase = SearchPhase::Trying;
            proof {
                if old(self).sound() {
                    assert(old(self).bounded(worse.q as int) && old(self).bounded(better.q as int));
                    assert(old(self).divides(self.q as int));
                    assert(self.divides(self.q as int)) by {
                        assert forall|i: int| 0 <= i < self.attempts@.len() implies self.scored(
                            #[trigger] self.attempts@[i],
                        ) == old(self).scored(old(self).attempts@[i]) by {}
                    }
                }
            }
        }
    }

    /// The next q is the one that was cut towards a bound.
    pub fn cut(&mut self, q: i64)
        requires
            old(self).wf(),
            old(self).phase is Cutting,
            decision::small(q as int),
        ensures
            final(self).wf(),
            final(self).settings == old(self).settings,
            final(self).attempts == old(self).attempts,
            final(self).phase is Trying,
            final(self).q == q,
            old(self).sound() && behind(
                q as int,
                old(self).phase->from_q as int,
                old(self).phase->to_q as int,
            ) ==> final(self).sound(),
    {
        self.q = q;
        self.phase = SearchPhase::Trying;
    }
}

/// A search ends: it tries no q twice, so there are no more runs than there are
/// q values between its bounds.
pub proof fn law_search_ends(search: CrfSearch)
    requires
        search.sound(),
        search.settings.min_q < search.settings.max_q,
    ensures
        search.attempts@.len() <= search.settings.max_q - search.settings.min_q + 1,
        search.phase is Trying ==> search.attempts@.len() <= search.settings.max_q
            - search.settings.min_q,
{
    let attempts = search.attempts@;
    let qs = Seq::new(attempts.len(), |i: int| attempts[i].q as int);
    let all = if search.phase is Trying {
        qs.push(search.q as int)
    } else {
        qs
    };
    let range = vstd::set_lib::set_int_range(
        search.settings.min_q as int,
        search.settings.max_q + 1,
    );
    assert(all.no_duplicates()) by {
        assert forall|i: int, j: int| 0 <= i < all.len() && 0 <= j < all.len() && i != j implies all[i]
            != all[j] by {
            let (low, high) = if i < j {
                (i, j)
            } else {
                (j, i)
            };
            if high < attempts.len() {
                assert(attempts[low].q != attempts[high].q);
            } else {
                assert(search.divides(search.q as int));
                assert(search.scored(attempts[low]) || !search.scored(attempts[low]));
            }
        }
    }
    assert(all.to_set().subset_of(range)) by {
        assert forall|q: int| all.to_set().contains(q) implies range.contains(q) by {
            let i = choose|i: int| 0 <= i < all.len() && all[i] == q;
            if i < attempts.len() {
                assert(search.bounded(attempts[i].q as int));
            }
        }
    }
    all.unique_seq_to_set();
    vstd::set_lib::lemma_int_range(search.settings.min_q as int, search.settings.max_q + 1);
    vstd::set_lib::lemma_len_subset(all.to_set(), range);
}

/// What a search tries next lies within its bounds, and no attempt was made
/// with it.
pub proof fn law_search_tries_anew(search: CrfSearch, i: int)
    requires
        search.sound(),
        search.phase is Trying,
        0 <= i < search.attempts@.len(),
    ensures
        search.settings.min_q <= search.q <= search.settings.max_q,
        search.attempts@[i].q != search.q,
        search.scored(search.attempts@[i]) <==> search.attempts@[i].q < search.q,
{
    assert(search.divides(search.q as int));
}

/// A search goes by the score that it asks for, by the other one where that is
/// missing, and by nought where both are.
pub proof fn law_search_goes_by_the_asked_score(enc: Output)
    ensures
        enc.xpsnr_score is Some ==> search_score(enc, true) == enc.xpsnr_score->0,
        enc.vmaf_score is Some ==> search_score(enc, false) == enc.vmaf_score->0,
        enc.xpsnr_score is None && enc.vmaf_score is Some ==> search_score(enc, true)
            == enc.vmaf_score->0,
        enc.vmaf_score is None && enc.xpsnr_score is Some ==> search_score(enc, false)
            == enc.xpsnr_score->0,
        enc.vmaf_score is None && enc.xpsnr_score is None ==> forall|x: bool|
            (#[trigger] search_score(enc, x)).bits == 0,
{
}

/// The minimum score is the one that is asked for, by XPSNR or by VMAF, and a
/// VMAF score of 95 where none is.
pub proof fn law_min_score_as_asked(config: CrfSearchConfig)
    ensures
        config.min_xpsnr is Some ==> config.min() == config.min_xpsnr->0,
        config.min_xpsnr is None && config.min_vmaf is Some ==> config.min() == config.min_vmaf->0,
        config.min_xpsnr is None && config.min_vmaf is None ==> config.min() == (Single {
            bits: 0x42be_0000,
        }),
{
}

/// A step is taken as it is, unless it is less than a thousandth.
pub proof fn law_step_is_not_too_small(step: Single)
    requires
        CrfStep::valid(step),
    ensures
        clamped_step(step).ge(Single { bits: 0x3a83_126f }),
        step.ge(Single { bits: 0x3a83_126f }) ==> clamped_step(step) == step,
        !step.ge(Single { bits: 0x3a83_126f }) ==> clamped_step(step) == (Single {
            bits: 0x3a83_126f,
        }),
{
}

/// One step of the crf is one q, and no steps are a q of nought.
pub proof fn law_one_step_is_one_q(conv: QualityConverter, steps: int)
    ensures
        conv.q_of(0) == 0,
        conv.q_of(steps + 1) - conv.q_of(steps) == (if conv.high_crf_means_hq {
            -1int
        } else {
            1int
        }),
{
}

/// The middle of two bounds is as far from the one as from the other, but for
/// one at most, and lies between them.
pub proof fn law_half_is_the_middle(min: int, max: int)
    requires
        min < max,
    ensures
        min <= decision::half(min + max) <= max,
        -1 <= (max - decision::half(min + max)) - (decision::half(min + max) - min) <= 1,
{
}

/// A number is shown in red exactly where it is not good enough.
pub proof fn law_red_where_not_good_enough(bad: bool)
    ensures
        tone_if(bad) == Tone::BrightRed <==> bad,
        tone_if(bad) == Tone::Plain <==> !bad,
{
}

/// The progress bar starts empty, never goes back within a run, gives each of
/// the guessed runs an equal share, and is full at the end of the last one.
pub proof fn law_progress_in_equal_shares(
    run: int,
    part: int,
    later: int,
    whole: int,
    thorough: bool,
)
    requires
        1 <= run,
        0 <= part <= later,
        0 < whole,
    ensures
        guessed_position(1, 0, whole, thorough) == 0,
        guessed_position(run, part, whole, thorough) <= guessed_position(
            run,
            later,
            whole,
            thorough,
        ),
        run <= 5 && !thorough ==> guessed_position(run, whole, whole, thorough) == (run
            * 0x4000_0000) / 5,
        run <= 6 && thorough ==> guessed_position(run, whole, whole, thorough) == (run
            * 0x4000_0000) / 6,
        run >= 7 ==> guessed_position(run, whole, whole, thorough) == 0x4000_0000,
{
    let guess = runs_guess(run, thorough);
    assert(1 <= run <= guess);
    let b = BAR_LEN as int;
    let x = ((run - 1) * whole + lesser(part, whole)) * b;
    let y = ((run - 1) * whole + lesser(later, whole)) * b;
    assert(x <= y) by (nonlinear_arith)
        requires
            x == ((run - 1) * whole + lesser(part, whole)) * b,
            y == ((run - 1) * whole + lesser(later, whole)) * b,
            lesser(part, whole) <= lesser(later, whole),
            b > 0,
    ;
    assert(whole * guess > 0) by (nonlinear_arith)
        requires
            whole > 0,
            guess > 0,
    ;
    vstd::arithmetic::div_mod::lemma_div_is_ordered(x, y, whole * guess);
    assert(((run - 1) * whole + whole) * b == whole * (run * b)) by (nonlinear_arith);
    lemma_cancel(run * b, whole, guess);
    assert((run * b) / guess <= b) by (nonlinear_arith)
        requires
            0 < run <= guess,
            b > 0,
    ;
    let first = runs_guess(1, thorough);
    assert(((1 - 1) * whole + 0) * b == 0) by (nonlinear_arith);
    assert(whole * first > 0) by (nonlinear_arith)
        requires
            whole > 0,
            first > 0,
    ;
    assert(0int / (whole * first) == 0) by {
        vstd::arithmetic::div_mod::lemma_div_basics(whole * first);
    }
    if run >= 7 {
        assert(guess == run);
        assert((run * b) / run == b) by (nonlinear_arith)
            requires
                run > 0,
        ;
    }
}

/// A decision goes by the settings of its search and by which run it is, the
/// first one being run one.
pub proof fn law_decision_is_of_its_search(
    search: CrfSearch,
    tolerance_top: Single,
    band_top: Single,
)
    requires
        search.attempts@.len() < usize::MAX,
    ensures
        ({
            let d = search.decision(tolerance_top, band_top);
            &&& d.run == search.attempts@.len() + 1
            &&& d.min_score == search.settings.min_score
            &&& d.min_q == search.settings.min_q && d.max_q == search.settings.max_q
            &&& d.thorough == search.settings.thorough
            &&& d.cut_on_iter2 == search.settings.cut_on_iter2
            &&& d.use_xpsnr == search.settings.use_xpsnr
            &&& d.max_encoded_percent == search.settings.max_encoded_percent
            &&& d.tolerance_top == tolerance_top && d.band_top == band_top
        }),
{
}

/// A search takes the bounds, the step and the direction that are asked for, and
/// those of its encoder where none are; the bounds of an encoder always hold crf
/// values between them.
pub proof fn law_setup_as_asked(config: CrfSearchConfig)
    ensures
        config.min_crf is Some ==> config.least_crf() == config.min_crf->0,
        config.max_crf is Some ==> config.greatest_crf() == config.max_crf->0,
        config.min_crf is None && config.max_crf is None ==> config.least_crf().lt(
            config.greatest_crf(),
        ),
        config.min_crf is None ==> config.least_crf().bits == encode_args::min_crf_bits(
            config.args.encoder@,
        ),
        config.max_crf is None ==> config.greatest_crf().bits == encode_args::max_crf_bits(
            config.args.encoder@,
        ),
        config.crf_increment is Some && config.crf_increment->0.value().ge(
            Single { bits: 0x3a83_126f },
        ) ==> config.step() == config.crf_increment->0.value(),
        config.crf_increment is None ==> config.step().bits == encode_args::increment_bits(
            config.args.encoder@,
        ),
        config.high_crf_means_hq is Some ==> config.high_is_good() == config.high_crf_means_hq->0,
        config.high_crf_means_hq is None ==> (config.high_is_good() <==> config.args.encoder@
            == "hevc_videotoolbox"@),
{
    encode_args::law_default_crf_bounds(config.args.encoder@);
}

} // verus!
