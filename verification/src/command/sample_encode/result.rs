//! Results of encoded samples and what they predict of the full encode.
use crate::duration::{Duration, MAX_NANOS};
use crate::float::{Double, Single};
use crate::outside;
use crate::style;
use crate::style::{Segment, Tone};
use crate::text;
use vstd::prelude::*;

verus! {

broadcast use vstd::string::group_string_axioms;

// ---- kinds of score ----

/// What a score measures.
#[derive(Debug, Clone, Copy, PartialEq, Eq, Structural)]
pub enum ScoreKind {
    Vmaf,
    Xpsnr,
}

impl ScoreKind {
    /// The label beside the frame rate.
    pub open spec fn label(self) -> Seq<char> {
        match self {
            ScoreKind::Vmaf => "vmaf"@,
            ScoreKind::Xpsnr => "xpsnr"@,
        }
    }

    /// The name.
    pub open spec fn name(self) -> Seq<char> {
        match self {
            ScoreKind::Vmaf => "VMAF"@,
            ScoreKind::Xpsnr => "XPSNR"@,
        }
    }

    /// Display label for fps in progress bar.
    pub fn fps_label(&self) -> (r: &'static str)
        ensures
            r@ == self.label(),
    {
        match self {
            Self::Vmaf => "vmaf",
            Self::Xpsnr => "xpsnr",
        }
    }

    /// General display name.
    pub fn display_str(&self) -> (r: &'static str)
        ensures
            r@ == self.name(),
    {
        match self {
            Self::Vmaf => "VMAF",
            Self::Xpsnr => "XPSNR",
        }
    }
}

// ---- one sample ----

/// The result of encoding and scoring one sample.
#[derive(Debug, Clone, Copy, PartialEq, Eq, Structural)]
pub struct EncodeResult {
    pub sample_size: u64,
    pub encoded_size: u64,
    pub vmaf_score: Option<Single>,
    pub xpsnr_score: Option<Single>,
    pub encode_time: Duration,
    /// Duration of the sample.
    ///
    /// This should be close to the sample duration that was asked for but may
    /// deviate due to how samples are cut.
    pub sample_duration: Duration,
    /// Result read from cache.
    pub from_cache: bool,
}

/// A part of a whole that is not zero.
#[derive(Debug, Clone, Copy, PartialEq, Eq, Structural)]
pub struct Fraction {
    pub part: u64,
    pub whole: u64,
}

/// A score behind its name, or nothing.
pub open spec fn score_text(name: Seq<char>, score: Option<Single>, shown: Seq<char>) -> Seq<char> {
    match score {
        Some(_) => " "@ + name + " "@ + shown,
        None => Seq::empty(),
    }
}

/// The note on a result that was read from the cache, or nothing.
pub open spec fn cache_text(from_cache: bool) -> Seq<char> {
    if from_cache {
        " (cache)"@
    } else {
        Seq::empty()
    }
}

fn push_score(out: &mut String, name: &str, score: Option<Single>, shown: &str)
    ensures
        final(out)@ == old(out)@ + score_text(name@, score, shown@),
{
    let ghost before = out@;
    match score {
        Some(_) => {
            out.append(" ");
            out.append(name);
            out.append(" ");
            out.append(shown);
            assert(out@ =~= before + (" "@ + name@ + " "@ + shown@));
        },
        None => {
            assert(before + Seq::<char>::empty() =~= before);
        },
    }
}

fn push_cache_note(out: &mut String, from_cache: bool)
    ensures
        final(out)@ == old(out)@ + cache_text(from_cache),
{
    if from_cache {
        out.append(" (cache)");
    } else {
        assert(out@ + Seq::<char>::empty() =~= out@);
    }
}

/// The numbers of a result as they are shown: the percentage without decimals
/// and each score with two.
pub struct ShownResult<'a> {
    pub percent: &'a str,
    pub vmaf: &'a str,
    pub xpsnr: &'a str,
}

impl EncodeResult {
    /// The encoded size as a part of the sample's, if that is not empty.
    pub fn size_ratio(&self) -> (r: Option<Fraction>)
        ensures
            r == (if self.sample_size == 0 {
                None
            } else {
                Some(Fraction { part: self.encoded_size, whole: self.sample_size })
            }),
    {
        if self.sample_size == 0 {
            None
        } else {
            Some(Fraction { part: self.encoded_size, whole: self.sample_size })
        }
    }

    /// The line that is printed of a sample's result.
    pub fn attempt_line(&self, sample_n: u64, crf: Option<&str>, shown: &ShownResult) -> (r: String)
        ensures
            r@ == "- "@ + (match crf {
                Some(c) => "crf "@ + c@ + ": "@,
                None => Seq::empty(),
            }) + "Sample "@ + text::dec(sample_n as nat) + " ("@ + shown.percent@ + "%)"@
                + score_text("VMAF"@, self.vmaf_score, shown.vmaf@) + score_text(
                "XPSNR"@,
                self.xpsnr_score,
                shown.xpsnr@,
            ) + cache_text(self.from_cache),
    {
        let prefix = match crf {
            Some(c) => text::cat3("crf ", c, ": "),
            None => String::new(),
        };
        let n = text::dec_string(sample_n);
        let mut out = text::cat4("- ", prefix.as_str(), "Sample ", n.as_str());
        out.append(" (");
        out.append(shown.percent);
        out.append("%)");
        push_score(&mut out, "VMAF", self.vmaf_score, shown.vmaf);
        push_score(&mut out, "XPSNR", self.xpsnr_score, shown.xpsnr);
        push_cache_note(&mut out, self.from_cache);
        out
    }

    /// The line that is logged of a sample's result.
    pub fn log_line(&self, sample_n: u64, samples: u64, crf: &str, shown: &ShownResult) -> (r: String)
        ensures
            r@ == "sample "@ + text::dec(sample_n as nat) + "/"@ + text::dec(samples as nat)
                + " crf "@ + crf@ + score_text("VMAF"@, self.vmaf_score, shown.vmaf@) + score_text(
                "XPSNR"@,
                self.xpsnr_score,
                shown.xpsnr@,
            ) + " ("@ + shown.percent@ + "%)"@ + cache_text(self.from_cache),
    {
        let n = text::dec_string(sample_n);
        let of = text::dec_string(samples);
        let mut out = text::cat4("sample ", n.as_str(), "/", of.as_str());
        out.append(" crf ");
        out.append(crf);
        push_score(&mut out, "VMAF", self.vmaf_score, shown.vmaf);
        push_score(&mut out, "XPSNR", self.xpsnr_score, shown.xpsnr);
        out.append(" (");
        out.append(shown.percent);
        out.append("%)");
        push_cache_note(&mut out, self.from_cache);
        out
    }
}

// ---- all samples ----

/// The sum of the encoded sizes.
pub open spec fn encoded_total(v: Seq<EncodeResult>) -> nat
    decreases v.len(),
{
    if v.len() == 0 {
        0
    } else {
        encoded_total(v.drop_last()) + v.last().encoded_size as nat
    }
}

/// The sum of the samples' sizes.
pub open spec fn sample_total(v: Seq<EncodeResult>) -> nat
    decreases v.len(),
{
    if v.len() == 0 {
        0
    } else {
        sample_total(v.drop_last()) + v.last().sample_size as nat
    }
}

/// The sum of the samples' durations in nanoseconds.
pub open spec fn duration_total(v: Seq<EncodeResult>) -> nat
    decreases v.len(),
{
    if v.len() == 0 {
        0
    } else {
        duration_total(v.drop_last()) + v.last().sample_duration@
    }
}

/// The sum of the encode times in nanoseconds.
pub open spec fn time_total(v: Seq<EncodeResult>) -> nat
    decreases v.len(),
{
    if v.len() == 0 {
        0
    } else {
        time_total(v.drop_last()) + v.last().encode_time@
    }
}

/// Sums of the front are no greater than those of the whole.
proof fn lemma_totals_grow(v: Seq<EncodeResult>, i: int)
    requires
        0 <= i <= v.len(),
    ensures
        encoded_total(v.take(i)) <= encoded_total(v),
        sample_total(v.take(i)) <= sample_total(v),
        duration_total(v.take(i)) <= duration_total(v),
        time_total(v.take(i)) <= time_total(v),
    decreases v.len() - i,
{
    if i < v.len() {
        lemma_totals_grow(v, i + 1);
        assert(v.take(i + 1).drop_last() =~= v.take(i));
    } else {
        assert(v.take(i) =~= v);
    }
}

/// The encoded sizes as a part of the samples' sizes. `None` stands for zero
/// percent: there are no samples, or only empty ones.
pub fn encoded_percent_size(results: &[EncodeResult]) -> (r: Option<Fraction>)
    requires
        encoded_total(results@) <= u64::MAX,
        sample_total(results@) <= u64::MAX,
    ensures
        match r {
            Some(f) => f.part == encoded_total(results@) && f.whole == sample_total(results@)
                && f.whole > 0,
            None => sample_total(results@) == 0,
        },
{
    let mut encoded: u64 = 0;
    let mut sample: u64 = 0;
    let mut i: usize = 0;
    while i < results.len()
        invariant
            i <= results.len(),
            encoded == encoded_total(results@.take(i as int)),
            sample == sample_total(results@.take(i as int)),
            encoded_total(results@) <= u64::MAX,
            sample_total(results@) <= u64::MAX,
        decreases results.len() - i,
    {
        proof {
            lemma_totals_grow(results@, i + 1);
            assert(results@.take(i + 1).drop_last() =~= results@.take(i as int));
        }
        encoded += results[i].encoded_size;
        sample += results[i].sample_size;
        i += 1;
    }
    assert(results@.take(i as int) =~= results@);
    if sample == 0 {
        None
    } else {
        Some(Fraction { part: encoded, whole: sample })
    }
}

/// The sum of the samples' durations.
pub fn total_sample_duration(results: &[EncodeResult]) -> (r: Duration)
    requires
        duration_total(results@) <= MAX_NANOS,
    ensures
        r@ == duration_total(results@),
{
    let mut total = Duration::zero();
    let mut i: usize = 0;
    while i < results.len()
        invariant
            i <= results.len(),
            total@ == duration_total(results@.take(i as int)),
            duration_total(results@) <= MAX_NANOS,
        decreases results.len() - i,
    {
        proof {
            lemma_totals_grow(results@, i + 1);
            assert(results@.take(i + 1).drop_last() =~= results@.take(i as int));
        }
        if let Some(sum) = total.checked_add(results[i].sample_duration) {
            total = sum;
        }
        i += 1;
    }
    assert(results@.take(i as int) =~= results@);
    total
}

/// The sum of the encode times.
pub fn total_encode_time(results: &[EncodeResult]) -> (r: Duration)
    requires
        time_total(results@) <= MAX_NANOS,
    ensures
        r@ == time_total(results@),
{
    let mut total = Duration::zero();
    let mut i: usize = 0;
    while i < results.len()
        invariant
            i <= results.len(),
            total@ == time_total(results@.take(i as int)),
            time_total(results@) <= MAX_NANOS,
        decreases results.len() - i,
    {
        proof {
            lemma_totals_grow(results@, i + 1);
            assert(results@.take(i + 1).drop_last() =~= results@.take(i as int));
        }
        if let Some(sum) = total.checked_add(results[i].encode_time) {
            total = sum;
        }
        i += 1;
    }
    assert(results@.take(i as int) =~= results@);
    total
}

/// The scores of one kind that are finite numbers, in order.
pub open spec fn finite_of(v: Seq<EncodeResult>, kind: ScoreKind) -> Seq<Single>
    decreases v.len(),
{
    if v.len() == 0 {
        Seq::empty()
    } else {
        let score = match kind {
            ScoreKind::Vmaf => v.last().vmaf_score,
            ScoreKind::Xpsnr => v.last().xpsnr_score,
        };
        match score {
            Some(s) => if s.is_finite() {
                finite_of(v.drop_last(), kind).push(s)
            } else {
                finite_of(v.drop_last(), kind)
            },
            None => finite_of(v.drop_last(), kind),
        }
    }
}

/// The scores whose mean is the score of all samples. A score that is missing
/// or no finite number has no part in it.
pub fn finite_scores(results: &[EncodeResult], kind: ScoreKind) -> (r: Vec<Single>)
    ensures
        r@ == finite_of(results@, kind),
{
    let mut out: Vec<Single> = Vec::new();
    let mut i: usize = 0;
    while i < results.len()
        invariant
            i <= results.len(),
            out@ == finite_of(results@.take(i as int), kind),
        decreases results.len() - i,
    {
        proof {
            assert(results@.take(i + 1).drop_last() =~= results@.take(i as int));
        }
        let score = match kind {
            ScoreKind::Vmaf => results[i].vmaf_score,
            ScoreKind::Xpsnr => results[i].xpsnr_score,
        };
        if let Some(s) = score {
            if s.finite() {
                out.push(s);
            }
        }
        i += 1;
    }
    assert(results@.take(i as int) =~= results@);
    out
}

/// How a quantity of the full encode follows from the samples.
#[derive(Debug, PartialEq, Eq)]
pub enum Estimate<T> {
    /// It is known.
    Exact(T),
    /// It is the samples' sum times the input's duration over this one, which
    /// is not empty.
    ByDuration(Duration),
}

/// Estimated encoded **video stream** size by multiplying sample size by duration.
pub fn estimate_encode_size_by_duration(results: &[EncodeResult], single_full_pass: bool) -> (r:
    Estimate<u64>)
    requires
        !single_full_pass ==> duration_total(results@) <= MAX_NANOS,
    ensures
        results@.len() == 0 ==> r == Estimate::<u64>::Exact(0),
        results@.len() > 0 && single_full_pass ==> r == Estimate::Exact(results@[0].encoded_size),
        results@.len() > 0 && !single_full_pass ==> match r {
            Estimate::Exact(n) => n == 0 && duration_total(results@) == 0,
            Estimate::ByDuration(d) => d@ == duration_total(results@) && d@ > 0,
        },
{
    if results.len() == 0 {
        return Estimate::Exact(0);
    }
    if single_full_pass {
        return Estimate::Exact(results[0].encoded_size);
    }
    let sample_duration = total_sample_duration(results);
    if sample_duration.is_zero() {
        Estimate::Exact(0)
    } else {
        Estimate::ByDuration(sample_duration)
    }
}

/// Estimated time of the full encode.
pub fn estimate_encode_time(results: &[EncodeResult], single_full_pass: bool) -> (r: Estimate<
    Duration,
>)
    requires
        !single_full_pass ==> duration_total(results@) <= MAX_NANOS,
    ensures
        results@.len() == 0 ==> (r matches Estimate::Exact(t) && t@ == 0),
        results@.len() > 0 && single_full_pass ==> r == Estimate::Exact(results@[0].encode_time),
        results@.len() > 0 && !single_full_pass ==> match r {
            Estimate::Exact(t) => t@ == 0 && duration_total(results@) == 0,
            Estimate::ByDuration(d) => d@ == duration_total(results@) && d@ > 0,
        },
{
    if results.len() == 0 {
        return Estimate::Exact(Duration::zero());
    }
    if single_full_pass {
        return Estimate::Exact(results[0].encode_time);
    }
    let sample_duration = total_sample_duration(results);
    if sample_duration.is_zero() {
        Estimate::Exact(Duration::zero())
    } else {
        Estimate::ByDuration(sample_duration)
    }
}

/// How the size of the full encode follows from the size of the input file.
#[derive(Debug, Clone, Copy, PartialEq, Eq, Structural)]
pub enum FileEstimate {
    /// It is known.
    Exact(u64),
    /// It is this part of the input file.
    OfFile(Fraction),
}

/// Return estimated encoded **video stream** size by applying the sample percentage
/// change to the input file size.
///
/// This can over-estimate the larger the non-video proportion of the input.
pub fn estimate_encode_size_by_file_percent(results: &[EncodeResult], single_full_pass: bool) -> (r:
    FileEstimate)
    requires
        encoded_total(results@) <= u64::MAX,
        sample_total(results@) <= u64::MAX,
    ensures
        results@.len() == 0 ==> r == FileEstimate::Exact(0),
        results@.len() > 0 && single_full_pass ==> r == FileEstimate::Exact(
            results@[0].encoded_size,
        ),
        results@.len() > 0 && !single_full_pass ==> match r {
            FileEstimate::Exact(n) => n == 0 && sample_total(results@) == 0,
            FileEstimate::OfFile(f) => f.part == encoded_total(results@) && f.whole == sample_total(
                results@,
            ) && f.whole > 0,
        },
{
    if results.len() == 0 {
        return FileEstimate::Exact(0);
    }
    if single_full_pass {
        return FileEstimate::Exact(results[0].encoded_size);
    }
    match encoded_percent_size(results) {
        Some(f) => FileEstimate::OfFile(f),
        None => FileEstimate::Exact(0),
    }
}

/// Whether all results were read from the cache.
pub fn all_from_cache(results: &[EncodeResult]) -> (r: bool)
    ensures
        r == (forall|i: int| 0 <= i < results@.len() ==> (#[trigger] results@[i]).from_cache),
{
    let mut i: usize = 0;
    while i < results.len()
        invariant
            i <= results.len(),
            forall|j: int| 0 <= j < i ==> (#[trigger] results@[j]).from_cache,
        decreases results.len() - i,
    {
        if !results[i].from_cache {
            return false;
        }
        i += 1;
    }
    true
}

// ---- the output ----

/// Sample encode result.
#[derive(Debug, Clone, Copy, PartialEq, Eq, Structural)]
pub struct Output {
    /// Sample mean VMAF score.
    pub vmaf_score: Option<Single>,
    /// Sample mean XPSNR score.
    pub xpsnr_score: Option<Single>,
    /// Estimated full encoded **video stream** size.
    ///
    /// Encoded sample size multiplied by duration.
    pub predicted_encode_size: u64,
    /// Sample mean encoded percentage.
    pub encode_percent: Double,
    /// Estimated full encode time.
    ///
    /// Sample encode time multiplied by duration.
    pub predicted_encode_time: Duration,
    /// All sample results were read from the cache.
    pub from_cache: bool,
}

/// What the samples' results give once the divisions are made.
#[derive(Debug, PartialEq, Eq)]
pub struct Means {
    pub vmaf_score: Option<Single>,
    pub xpsnr_score: Option<Single>,
    pub size_by_duration: u64,
    pub size_by_file_percent: u64,
    pub encode_percent: Double,
    pub encode_time: Duration,
}

/// Which of two estimates of the size is told: the one by duration or the one by
/// the size of the file.
pub open spec fn likely_size(by_duration: u64, by_file_percent: u64) -> u64 {
    if by_duration <= by_file_percent {
        by_duration
    } else {
        by_file_percent
    }
}

impl Output {
    /// The output of all samples. Of the two estimates of the size the lower
    /// one holds: the one by file size can be too high, but where it is not it
    /// may be more accurate.
    pub fn new(results: &[EncodeResult], means: Means) -> (r: Self)
        ensures
            r.vmaf_score == means.vmaf_score,
            r.xpsnr_score == means.xpsnr_score,
            r.predicted_encode_size == likely_size(
                means.size_by_duration,
                means.size_by_file_percent,
            ),
            r.encode_percent == means.encode_percent,
            r.predicted_encode_time == means.encode_time,
            r.from_cache == (forall|i: int|
                0 <= i < results@.len() ==> (#[trigger] results@[i]).from_cache),
    {
        Self {
            vmaf_score: means.vmaf_score,
            xpsnr_score: means.xpsnr_score,
            predicted_encode_size: if means.size_by_duration <= means.size_by_file_percent {
                means.size_by_duration
            } else {
                means.size_by_file_percent
            },
            encode_percent: means.encode_percent,
            predicted_encode_time: means.encode_time,
            from_cache: all_from_cache(results),
        }
    }

    /// The score of an output that has only one: VMAF if there is one, else
    /// XPSNR, else no number.
    pub open spec fn one_score(self) -> Single {
        match self.vmaf_score {
            Some(s) => s,
            None => match self.xpsnr_score {
                Some(s) => s,
                None => Single { bits: 0x7fc0_0000 },
            },
        }
    }

    /// The kind of that score.
    pub open spec fn one_kind(self) -> ScoreKind {
        if self.vmaf_score is None && self.xpsnr_score is Some {
            ScoreKind::Xpsnr
        } else {
            ScoreKind::Vmaf
        }
    }

    /// Extract vmaf or xpsnr score. Use when it is expected to have only 1 of these.
    pub fn single_score(&self) -> (r: Single)
        ensures
            r == self.one_score(),
    {
        match self.vmaf_score {
            Some(s) => s,
            None => match self.xpsnr_score {
                Some(s) => s,
                None => Single::from_bits(0x7fc0_0000),
            },
        }
    }

    /// Extract vmaf or xpsnr kind. Use when it is expected to have only 1 of these.
    pub fn single_score_kind(&self) -> (r: ScoreKind)
        ensures
            r == self.one_kind(),
    {
        match (self.vmaf_score, self.xpsnr_score) {
            (Some(_), _) => ScoreKind::Vmaf,
            (None, Some(_)) => ScoreKind::Xpsnr,
            (None, None) => ScoreKind::Vmaf,
        }
    }

    /// The line that is logged of the output.
    pub fn log_line(&self, crf: &str, shown: &ShownResult) -> (r: String)
        ensures
            r@ == "crf "@ + crf@ + score_text("VMAF"@, self.vmaf_score, shown.vmaf@) + score_text(
                "XPSNR"@,
                self.xpsnr_score,
                shown.xpsnr@,
            ) + " predicted video stream size "@ + outside::bytes_text(self.predicted_encode_size)
                + " ("@ + shown.percent@ + "%) taking "@ + outside::human_span_text(
                self.predicted_encode_time@,
            ) + cache_text(self.from_cache),
    {
        let mut out = text::cat2("crf ", crf);
        push_score(&mut out, "VMAF", self.vmaf_score, shown.vmaf);
        push_score(&mut out, "XPSNR", self.xpsnr_score, shown.xpsnr);
        out.append(" predicted video stream size ");
        let size = outside::human_bytes(self.predicted_encode_size);
        out.append(size.as_str());
        out.append(" (");
        out.append(shown.percent);
        out.append("%) taking ");
        let time = outside::human_duration(self.predicted_encode_time);
        out.append(time.as_str());
        push_cache_note(&mut out, self.from_cache);
        out
    }
}

/// How results are written to the standard output.
#[derive(Debug, Clone, Copy, PartialEq, Eq, Structural)]
pub enum StdoutFormat {
    Human,
    Json,
}

/// The tone of a VMAF score: green from 95 up, red below 80.
pub open spec fn vmaf_tone(score: Single) -> Tone {
    if score.ge(Single { bits: 0x42be_0000 }) {
        Tone::BoldGreen
    } else if score.lt(Single { bits: 0x42a0_0000 }) {
        Tone::BoldRed
    } else {
        Tone::Bold
    }
}

/// The tone of a percentage of the input's size: green below 80, red from 100
/// up.
pub open spec fn percent_tone(percent: Double) -> Tone {
    if percent.lt(Double { bits: 0x4054_0000_0000_0000 }) {
        Tone::BoldGreen
    } else if percent.ge(Double { bits: 0x4059_0000_0000_0000 }) {
        Tone::BoldRed
    } else {
        Tone::Bold
    }
}

/// What is encoded.
pub open spec fn subject(image: bool) -> Seq<char> {
    if image {
        "image"@
    } else {
        "video stream"@
    }
}

/// What is encoded.
pub fn subject_str(image: bool) -> (r: &'static str)
    ensures
        r@ == subject(image),
{
    if image {
        "image"
    } else {
        "video stream"
    }
}

/// A score in front of the prediction, or nothing.
pub open spec fn score_segments(name: Seq<char>, shown: Option<(Seq<char>, Tone)>) -> Seq<
    (Seq<char>, Tone),
> {
    match shown {
        Some((s, tone)) => seq![(name + " "@, Tone::Plain), (s, tone), (" "@, Tone::Plain)],
        None => Seq::empty(),
    }
}

fn push_score_segments(out: &mut Vec<Segment>, name: &str, shown: &str, tone: Tone)
    ensures
        style::shown(final(out)@) == style::shown(old(out)@) + score_segments(
            name@,
            Some((shown@, tone)),
        ),
{
    let ghost before = style::shown(out@);
    let label = text::cat2(name, " ");
    style::add_segment(out, label.as_str(), Tone::Plain);
    style::add_segment(out, shown, tone);
    style::add_segment(out, " ", Tone::Plain);
    assert(style::shown(out@) =~= before + score_segments(name@, Some((shown@, tone))));
}

/// The prediction for people to read. `rounded` is the percentage without
/// decimals, which `shown` holds as text.
pub fn human_result(output: &Output, image: bool, rounded: Double, shown: &ShownResult) -> (r: Vec<
    Segment,
>)
    ensures
        style::shown(r@) == score_segments(
            "VMAF"@,
            match output.vmaf_score {
                Some(s) => Some((shown.vmaf@, vmaf_tone(s))),
                None => None,
            },
        ) + score_segments(
            "XPSNR"@,
            match output.xpsnr_score {
                Some(s) => Some((shown.xpsnr@, Tone::Bold)),
                None => None,
            },
        ) + seq![
            ("predicted "@ + subject(image) + " size "@, Tone::Plain),
            (outside::bytes_text(output.predicted_encode_size), percent_tone(rounded)),
            (" ("@, Tone::Plain),
            (shown.percent@ + "%"@, percent_tone(rounded)),
            (") taking "@, Tone::Plain),
            (outside::human_span_text(output.predicted_encode_time@), Tone::Bold),
        ],
{
    let mut out: Vec<Segment> = Vec::new();
    assert(style::shown(out@) =~= Seq::empty());
    let ghost empty = Seq::<(Seq<char>, Tone)>::empty();
    if let Some(s) = output.vmaf_score {
        let tone = if s.at_least(Single::from_bits(0x42be_0000)) {
            Tone::BoldGreen
        } else if s.less_than(Single::from_bits(0x42a0_0000)) {
            Tone::BoldRed
        } else {
            Tone::Bold
        };
        push_score_segments(&mut out, "VMAF", shown.vmaf, tone);
        assert(style::shown(out@) =~= score_segments("VMAF"@, Some((shown.vmaf@, vmaf_tone(s)))));
    }
    let ghost first = style::shown(out@);
    if output.xpsnr_score.is_some() {
        push_score_segments(&mut out, "XPSNR", shown.xpsnr, Tone::Bold);
    } else {
        assert(first + empty =~= first);
    }
    let ghost scores = style::shown(out@);
    let tone = if rounded.less_than(Double::from_bits(0x4054_0000_0000_0000)) {
        Tone::BoldGreen
    } else if rounded.at_least(Double::from_bits(0x4059_0000_0000_0000)) {
        Tone::BoldRed
    } else {
        Tone::Bold
    };
    let lead = text::cat3("predicted ", subject_str(image), " size ");
    style::add_segment(&mut out, lead.as_str(), Tone::Plain);
    let size = outside::human_bytes(output.predicted_encode_size);
    style::add_segment(&mut out, size.as_str(), tone);
    style::add_segment(&mut out, " (", Tone::Plain);
    let percent = text::cat2(shown.percent, "%");
    style::add_segment(&mut out, percent.as_str(), tone);
    style::add_segment(&mut out, ") taking ", Tone::Plain);
    let time = outside::human_duration(output.predicted_encode_time);
    style::add_segment(&mut out, time.as_str(), Tone::Bold);
    assert(style::shown(out@) =~= scores + seq![
        (lead@, Tone::Plain),
        (size@, tone),
        (" ("@, Tone::Plain),
        (percent@, tone),
        (") taking "@, Tone::Plain),
        (time@, Tone::Bold),
    ]);
    out
}

/// A number of the prediction for programs to read.
#[derive(Debug, Clone, Copy, PartialEq, Eq, Structural)]
pub enum JsonNumber {
    Whole(u64),
    Percent(Double),
    /// The seconds of a span.
    Seconds(Duration),
    Score(Single),
}

/// A score of the prediction under its name, or nothing.
pub open spec fn score_field(name: Seq<char>, score: Option<Single>) -> Seq<
    (Seq<char>, JsonNumber),
> {
    match score {
        Some(s) => seq![(name, JsonNumber::Score(s))],
        None => Seq::empty(),
    }
}

/// The names as character sequences, each with its number.
pub open spec fn field_views(fields: Seq<(&'static str, JsonNumber)>) -> Seq<
    (Seq<char>, JsonNumber),
> {
    fields.map_values(|f: (&'static str, JsonNumber)| (f.0@, f.1))
}

/// The prediction for programs to read: its numbers under their names. A score
/// that there is none of is left out.
pub fn json_result(output: &Output) -> (r: Vec<(&'static str, JsonNumber)>)
    ensures
        field_views(r@) == seq![
            ("predicted_encode_size"@, JsonNumber::Whole(output.predicted_encode_size)),
            ("predicted_encode_percent"@, JsonNumber::Percent(output.encode_percent)),
            ("predicted_encode_seconds"@, JsonNumber::Seconds(output.predicted_encode_time)),
        ] + score_field("vmaf"@, output.vmaf_score) + score_field("xpsnr"@, output.xpsnr_score),
{
    let mut out: Vec<(&'static str, JsonNumber)> = Vec::new();
    out.push(("predicted_encode_size", JsonNumber::Whole(output.predicted_encode_size)));
    out.push(("predicted_encode_percent", JsonNumber::Percent(output.encode_percent)));
    out.push(("predicted_encode_seconds", JsonNumber::Seconds(output.predicted_encode_time)));
    if let Some(score) = output.vmaf_score {
        out.push(("vmaf", JsonNumber::Score(score)));
    }
    if let Some(score) = output.xpsnr_score {
        out.push(("xpsnr", JsonNumber::Score(score)));
    }
    out
}

/// Sums are made of every result once: those of two lists together are the sums
/// of each added up, and those of one result are its own numbers.
pub proof fn law_totals_add_up(a: Seq<EncodeResult>, b: Seq<EncodeResult>, one: EncodeResult)
    ensures
        encoded_total(a + b) == encoded_total(a) + encoded_total(b),
        sample_total(a + b) == sample_total(a) + sample_total(b),
        duration_total(a + b) == duration_total(a) + duration_total(b),
        time_total(a + b) == time_total(a) + time_total(b),
        encoded_total(seq![one]) == one.encoded_size,
        sample_total(seq![one]) == one.sample_size,
        duration_total(seq![one]) == one.sample_duration@,
        time_total(seq![one]) == one.encode_time@,
    decreases b.len(),
{
    reveal_with_fuel(encoded_total, 2);
    reveal_with_fuel(sample_total, 2);
    reveal_with_fuel(duration_total, 2);
    reveal_with_fuel(time_total, 2);
    assert(seq![one].drop_last() =~= Seq::empty());
    assert(seq![one].last() == one);
    if b.len() == 0 {
        assert(a + b =~= a);
    } else {
        law_totals_add_up(a, b.drop_last(), one);
        assert((a + b).drop_last() =~= a + b.drop_last());
        assert((a + b).last() == b.last());
    }
}

/// A mean is made of the scores of its own kind that are finite numbers, each
/// once and in order.
pub proof fn law_means_of_finite_scores(
    a: Seq<EncodeResult>,
    b: Seq<EncodeResult>,
    one: EncodeResult,
    kind: ScoreKind,
)
    ensures
        finite_of(a + b, kind) == finite_of(a, kind) + finite_of(b, kind),
        ({
            let score = match kind {
                ScoreKind::Vmaf => one.vmaf_score,
                ScoreKind::Xpsnr => one.xpsnr_score,
            };
            &&& score is Some && score->0.is_finite() ==> finite_of(seq![one], kind) == seq![
                score->0,
            ]
            &&& !(score is Some && score->0.is_finite()) ==> finite_of(seq![one], kind).len() == 0
        }),
    decreases b.len(),
{
    reveal_with_fuel(finite_of, 2);
    assert(seq![one].drop_last() =~= Seq::empty());
    assert(seq![one].last() == one);
    assert(finite_of(Seq::empty(), kind) =~= Seq::empty());
    if b.len() == 0 {
        assert(a + b =~= a);
        assert(finite_of(a, kind) + finite_of(b, kind) =~= finite_of(a, kind));
    } else {
        law_means_of_finite_scores(a, b.drop_last(), one, kind);
        assert((a + b).drop_last() =~= a + b.drop_last());
        assert((a + b).last() == b.last());
        assert(finite_of(a + b, kind) =~= finite_of(a, kind) + finite_of(b, kind));
    }
    assert(finite_of(seq![one], kind) =~= finite_of(Seq::empty(), kind) + finite_of(
        seq![one],
        kind,
    ));
}

/// The one score that is shown is VMAF's where there is one, XPSNR's where that
/// is the only one, and no number where there is none; its kind says which.
pub proof fn law_one_score_and_its_kind(out: Output)
    ensures
        out.vmaf_score is Some ==> out.one_score() == out.vmaf_score->0 && out.one_kind()
            == ScoreKind::Vmaf,
        out.vmaf_score is None && out.xpsnr_score is Some ==> out.one_score() == out.xpsnr_score->0
            && out.one_kind() == ScoreKind::Xpsnr,
        out.vmaf_score is None && out.xpsnr_score is None ==> out.one_score().is_nan(),
{
}

/// A VMAF score of 95 or more is shown as good and one below 80 as bad, a size
/// of less than 80 percent as good and one of 100 or more as bad, and a better
/// number never looks worse.
pub proof fn law_tones_follow_numbers(a: Single, b: Single, x: Double, y: Double)
    ensures
        vmaf_tone(a) == Tone::BoldGreen <==> a.ge(Single { bits: 0x42be_0000 }),
        vmaf_tone(a) == Tone::BoldRed <==> a.lt(Single { bits: 0x42a0_0000 }),
        percent_tone(x) == Tone::BoldGreen <==> x.lt(Double { bits: 0x4054_0000_0000_0000 }),
        percent_tone(x) == Tone::BoldRed <==> x.ge(Double { bits: 0x4059_0000_0000_0000 }),
        a.ge(b) && vmaf_tone(b) == Tone::BoldGreen ==> vmaf_tone(a) == Tone::BoldGreen,
        a.ge(b) && vmaf_tone(a) == Tone::BoldRed ==> vmaf_tone(b) == Tone::BoldRed,
        y.ge(x) && percent_tone(y) == Tone::BoldGreen ==> percent_tone(x) == Tone::BoldGreen,
        y.ge(x) && percent_tone(x) == Tone::BoldRed ==> percent_tone(y) == Tone::BoldRed,
{
}

/// Of two estimates the lower one is told: no estimate is below it, and it is
/// one of them.
pub proof fn law_lower_estimate_is_told(by_duration: u64, by_file_percent: u64)
    ensures
        likely_size(by_duration, by_file_percent) <= by_duration,
        likely_size(by_duration, by_file_percent) <= by_file_percent,
        likely_size(by_duration, by_file_percent) == by_duration || likely_size(
            by_duration,
            by_file_percent,
        ) == by_file_percent,
{
}

} // verus!
