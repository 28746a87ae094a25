//! A crf search followed by an encode with the crf that it finds.
use crate::command::args;
use crate::command::args::EncodeToOutput;
use crate::command::crf_search;
use crate::command::crf_search::{CrfSearchConfig, MaxEncodedPercent, Sample, ShownAttempt};
use crate::command::encode::error::EncodePlanError;
use crate::command::encode::preflight;
use crate::command::rules::{PositionalVmafScore, ValidationError};
use crate::ffprobe::Ffprobe;
use crate::float::Single;
use crate::path;
use crate::style;
use crate::style::{Segment, Tone};
use crate::text;
use vstd::prelude::*;

verus! {

broadcast use vstd::string::group_string_axioms;

/// What an automatic encode is asked for.
#[derive(Debug, PartialEq, Eq)]
pub struct AutoEncodeConfig {
    pub search: CrfSearchConfig,
    pub encode: EncodeToOutput,
}

/// Why an automatic encode does not start.
#[derive(Debug, PartialEq, Eq)]
pub enum AutoEncodeError {
    Plan(EncodePlanError),
    Rule(ValidationError),
}

/// Where the output goes, and whether no output was asked for.
#[derive(Debug, PartialEq, Eq)]
pub struct AutoPlan {
    pub output: String,
    pub defaulting_output: bool,
}

impl AutoEncodeConfig {
    /// Checks all that can be checked before the search, and has the samples
    /// encoded to the kind of file that the output is. `same_file` says whether
    /// the output and the input are one file; `positional` is the first VMAF
    /// argument that is a number.
    pub fn prepare(
        &mut self,
        probe: &Ffprobe,
        same_file: bool,
        positional: Option<PositionalVmafScore>,
    ) -> (r: Result<AutoPlan, AutoEncodeError>)
        ensures
            final(self).encode == old(self).encode,
            final(self).search == (CrfSearchConfig {
                sample: final(self).search.sample,
                ..old(self).search
            }),
            final(self).search.sample == (args::Sample {
                extension: final(self).search.sample.extension,
                ..old(self).search.sample
            }),
            r matches Err(AutoEncodeError::Plan(_)) ==> *final(self) == *old(self),
            ({
                let output = preflight::chosen_output(
                    old(self).search.args.input@,
                    old(self).search.args.encoder,
                    old(self).encode,
                    probe.is_image,
                );
                if !old(self).encode.overwrite_input && same_file {
                    r matches Err(AutoEncodeError::Plan(EncodePlanError::SameInputOutput))
                } else if preflight::downmixes_copy(old(self).encode) {
                    r matches Err(AutoEncodeError::Plan(EncodePlanError::StereoDownmixWithCopy))
                } else {
                    &&& final(self).search.sample.extension matches Some(ext) && ext@ == (
                    match path::extension(output) {
                        Some(e) => e,
                        None => "mkv"@,
                    })
                    &&& match old(self).search.rules(positional).broken() {
                        Some(e) => r matches Err(AutoEncodeError::Rule(b)) && b == e,
                        None => r matches Ok(plan) && plan.output@ == output
                            && plan.defaulting_output == old(self).encode.output is None,
                    }
                }
            }),
    {
        let resolved = match preflight::resolve_output(
            self.search.args.input.as_str(),
            &self.search.args.encoder,
            &self.encode,
            probe,
            same_file,
        ) {
            Ok(resolved) => resolved,
            Err(e) => return Err(AutoEncodeError::Plan(e)),
        };
        if let Err(e) = preflight::audio_config(&self.encode, probe) {
            return Err(AutoEncodeError::Plan(e));
        }
        let output = resolved.planned.path().to_owned();
        self.search.sample.set_extension_from_output(output.as_str());
        if let Err(e) = self.search.validate(positional) {
            return Err(AutoEncodeError::Rule(e));
        }
        Ok(AutoPlan { output, defaulting_output: resolved.defaulting_output })
    }
}

/// The output arguments of the encode: those of the whole, with the output that
/// was resolved before the search.
pub fn encode_to(encode: EncodeToOutput, output: String) -> (r: EncodeToOutput)
    ensures
        r == (EncodeToOutput { output: Some(output), ..encode }),
{
    EncodeToOutput { output: Some(output), ..encode }
}

/// What is left of the search when it ends: the attempt that it found, which
/// has a crf to encode with.
pub fn search_result(best: Option<Sample>) -> (r: Result<Sample, &'static str>)
    ensures
        match (best, r) {
            (None, Err(e)) => e@ == "no crf-search best?"@,
            (Some(s), Ok(found)) => s.crf.is_finite() && found == s,
            (Some(s), Err(e)) => !s.crf.is_finite() && e@ == "crf-search returned invalid CRF"@,
            _ => false,
        },
{
    match best {
        None => Err("no crf-search best?"),
        Some(s) => match crf_search::Crf::try_new(s.crf) {
            Ok(_) => Ok(s),
            Err(_) => Err("crf-search returned invalid CRF"),
        },
    }
}

/// What the progress bar says of an attempt, with the tones of the score and of
/// the size.
pub open spec fn outcome(kind: Seq<char>, score: Seq<char>, score_tone: Tone, percent: Seq<char>, percent_tone: Tone) -> Seq<
    (Seq<char>, Tone),
> {
    seq![
        (kind + " "@, Tone::Plain),
        (score, score_tone),
        (", size "@, Tone::Plain),
        (percent + "%"@, percent_tone),
    ]
}

fn outcome_segments(sample: &Sample, shown: &ShownAttempt, score_tone: Tone, percent_tone: Tone) -> (r:
    Vec<Segment>)
    ensures
        style::shown(r@) == outcome(
            sample.enc.one_kind().name(),
            shown.score@,
            score_tone,
            shown.percent@,
            percent_tone,
        ),
{
    let kind = sample.enc.single_score_kind();
    let mut out: Vec<Segment> = Vec::new();
    assert(style::shown(out@) =~= Seq::empty());
    let label = text::cat2(kind.display_str(), " ");
    style::add_segment(&mut out, label.as_str(), Tone::Plain);
    style::add_segment(&mut out, shown.score, score_tone);
    style::add_segment(&mut out, ", size ", Tone::Plain);
    let percent = text::cat2(shown.percent, "%");
    style::add_segment(&mut out, percent.as_str(), percent_tone);
    out
}

/// What the progress bar says of the last attempt of a search that failed: what
/// is not good enough is red.
pub fn failed_segments(
    last: &Sample,
    min_score: Single,
    max_encoded_percent: MaxEncodedPercent,
    shown: &ShownAttempt,
) -> (r: Vec<Segment>)
    ensures
        style::shown(r@) == outcome(
            last.enc.one_kind().name(),
            shown.score@,
            if last.enc.one_score().lt(min_score) {
                Tone::Red
            } else {
                Tone::Plain
            },
            shown.percent@,
            if max_encoded_percent.percent().lt(last.enc.encode_percent) {
                Tone::Red
            } else {
                Tone::Plain
            },
        ),
{
    let score_tone = if last.enc.single_score().less_than(min_score) {
        Tone::Red
    } else {
        Tone::Plain
    };
    let percent_tone = if max_encoded_percent.get().less_than(last.enc.encode_percent) {
        Tone::Red
    } else {
        Tone::Plain
    };
    outcome_segments(last, shown, score_tone, percent_tone)
}

/// What the progress bar says of the attempt that the search found.
pub fn found_segments(best: &Sample, shown: &ShownAttempt) -> (r: Vec<Segment>)
    ensures
        style::shown(r@) == outcome(
            best.enc.one_kind().name(),
            shown.score@,
            Tone::Green,
            shown.percent@,
            Tone::Green,
        ),
{
    outcome_segments(best, shown, Tone::Green, Tone::Green)
}

} // verus!
