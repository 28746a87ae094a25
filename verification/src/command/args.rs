//! Shared argument logic.
pub mod encode;
pub mod vmaf;

use crate::command::args::encode::{Encoder, PixelFormat};
use crate::command::encode::default_output_ext;
use crate::command::encode as encode_command;
use crate::command::rules;
use crate::command::rules::SampleCountRules;
use crate::duration;
use crate::duration::Duration;
use crate::ffprobe::Ffprobe;
use crate::float::Single;
use crate::path;
use vstd::prelude::*;

verus! {

broadcast use vstd::string::group_string_axioms;

/// Encoding args that apply when encoding to an output.
#[derive(Debug, PartialEq, Eq)]
pub struct EncodeToOutput {
    /// Output file, by default the same as input with `.av1` before the extension.
    ///
    /// E.g. if unspecified: -i vid.mkv --> vid.av1.mkv
    pub output: Option<String>,
    /// The ffmpeg codec of the output's audio. By default 'copy' is used, or
    /// 'libopus' where the audio has to be encoded again.
    pub audio_codec: Option<String>,
    /// Downmix input audio streams to stereo if input streams use greater than
    /// 3 channels.
    pub downmix_to_stereo: bool,
    /// Only process the main video stream, drop all other streams.
    pub video_only: bool,
    /// Allows the input to be overwritten.
    pub overwrite_input: bool,
}

/// Sampling arguments.
#[derive(Debug, PartialEq, Eq)]
pub struct Sample {
    /// Number of samples to use across the input video. Overrides `sample_every`.
    pub samples: Option<u64>,
    /// Calculate number of samples by dividing the input duration by this value.
    /// So "12m" would mean with an input 25-36 minutes long, 3 samples would be used.
    pub sample_every: Duration,
    /// Minimum number of samples. So at least this many samples will be used.
    pub min_samples: Option<u64>,
    /// Duration of each sample.
    pub sample_duration: Duration,
    /// Keep temporary files after exiting.
    pub keep: bool,
    /// Directory to store temporary sample data in.
    pub temp_dir: Option<String>,
    /// Extension preference for encoded samples.
    pub extension: Option<String>,
}

/// How often `every` fits into `input`, a part counting as a whole, as far as
/// 64 bits hold it. An empty span counts as one that fits once.
pub open spec fn parts(input: nat, every: nat) -> nat {
    if every == 0 {
        1
    } else {
        duration::least(((input + every - 1) as nat) / every, u64::MAX as nat)
    }
}

/// The number of parts of a span.
fn count_parts(input: Duration, every: Duration) -> (r: u64)
    ensures
        r == parts(input@, every@),
{
    let n: u128 = input.as_nanos();
    let d: u128 = every.as_nanos();
    if d == 0 {
        return 1;
    }
    let q: u128 = (n + d - 1) / d;
    if q > u64::MAX as u128 {
        u64::MAX
    } else {
        q as u64
    }
}

impl Sample {
    /// The number of samples for an input of `input` nanoseconds: the one that
    /// was asked for, but no less than the minimum, else one for each started
    /// `sample_every`, but no less than the minimum and than one.
    pub open spec fn count_for(self, input: nat) -> int {
        match self.samples {
            Some(n) => rules::greatest(
                n as int,
                match self.min_samples {
                    Some(m) => m as int,
                    None => 0,
                },
            ),
            None => rules::greatest(
                rules::greatest(
                    parts(input, self.sample_every@) as int,
                    match self.min_samples {
                        Some(m) => m as int,
                        None => 1,
                    },
                ),
                1,
            ),
        }
    }

    /// Calculate the desired sample count using `samples` or `sample_every` & `min_samples`.
    pub fn sample_count(&self, input_duration: Duration) -> (r: u64)
        ensures
            r == self.count_for(input_duration@),
    {
        SampleCountRules {
            samples: self.samples,
            computed_samples: count_parts(input_duration, self.sample_every),
            min_samples: self.min_samples,
        }.sample_count()
    }

    /// Samples get the extension that the output of the input would have.
    pub fn set_extension_from_input(&mut self, input: &str, encoder: &Encoder, probe: &Ffprobe)
        ensures
            final(self).extension matches Some(ext) && ext@ == encode_command::output_ext(
                input@,
                *encoder,
                probe.is_image,
            ),
            *final(self) == (Sample { extension: final(self).extension, ..*old(self) }),
    {
        self.extension = Some(default_output_ext(input, encoder, probe.is_image).to_owned());
    }

    /// Samples get the extension of the output, or `mkv`.
    pub fn set_extension_from_output(&mut self, output: &str)
        ensures
            final(self).extension matches Some(ext) && ext@ == (match path::extension(output@) {
                Some(e) => e,
                None => "mkv"@,
            }),
            *final(self) == (Sample { extension: final(self).extension, ..*old(self) }),
    {
        self.extension = match path::path_extension(output) {
            Some(e) => Some(e),
            None => Some("mkv".to_owned()),
        };
    }
}

/// A longer input has no fewer samples.
pub proof fn law_sample_count_monotonic(args: Sample, shorter: nat, longer: nat)
    requires
        shorter <= longer,
    ensures
        args.count_for(shorter) <= args.count_for(longer),
{
    let every = args.sample_every@;
    if every > 0 {
        assert(((shorter + every - 1) as nat) / every <= ((longer + every - 1) as nat) / every)
            by (nonlinear_arith)
            requires
                shorter <= longer,
                every > 0,
        ;
    }
}

/// There is one sample for each started `sample_every`: so many spans cover the
/// input, and one fewer would not.
pub proof fn law_one_sample_for_each_started_span(input: nat, every: nat)
    requires
        0 < every,
        input + every <= u64::MAX,
    ensures
        input <= parts(input, every) * every < input + every,
{
    let n = (input + every - 1) as nat;
    vstd::arithmetic::div_mod::lemma_fundamental_div_mod(n as int, every as int);
    vstd::arithmetic::div_mod::lemma_mod_bound(n as int, every as int);
    let q = n / every;
    assert(every as int * (n as int / every as int) == q * every) by (nonlinear_arith)
        requires
            q == n / every,
            every > 0,
    ;
    assert(q <= n) by (nonlinear_arith)
        requires
            q == n / every,
            every > 0,
    ;
}

/// A number of samples that is asked for is taken, and so is the number that
/// the duration gives, each unless the minimum is greater.
pub proof fn law_sample_count_as_asked(args: Sample, input: nat)
    ensures
        ({
            let n = args.count_for(input);
            let least: int = match args.min_samples {
                Some(m) => m as int,
                None => 0,
            };
            let wanted: int = match args.samples {
                Some(n) => n as int,
                None => parts(input, args.sample_every@) as int,
            };
            &&& n >= least
            &&& n >= wanted
            &&& n == least || n == wanted || n == 1 && args.samples is None && wanted == 0
        }),
{
}

/// Without a number of samples that was asked for there is one at least.
pub proof fn law_sample_count_positive(args: Sample, input: nat)
    requires
        args.samples is None,
    ensures
        args.count_for(input) >= 1,
{
}

/// Args for when VMAF/XPSNR are used to score ref vs distorted.
#[derive(Debug, PartialEq, Eq)]
pub struct ScoreArgs {
    /// Ffmpeg video filter applied to the VMAF/XPSNR reference before analysis.
    /// E.g. "scale=1280:-1,fps=24".
    pub reference_vfilter: Option<String>,
}

/// Normalized score configuration.
#[derive(Debug, PartialEq, Eq, Hash)]
pub struct ScoreConfig {
    pub reference_vfilter: Option<String>,
}

impl ScoreConfig {
    /// The configuration with these arguments.
    pub fn from_args(score: ScoreArgs) -> (r: Self)
        ensures
            r.reference_vfilter == score.reference_vfilter,
    {
        Self { reference_vfilter: score.reference_vfilter }
    }
}

/// A frame rate to use in place of the inputs' own, if it is a positive number.
#[derive(Debug, Clone, Copy, PartialEq, Eq, Hash, Structural)]
pub struct FrameRateOverride(Option<Single>);

impl FrameRateOverride {
    /// The rate, if there is one.
    pub closed spec fn rate(self) -> Option<Single> {
        self.0
    }

    #[verifier::type_invariant]
    closed spec fn usable(self) -> bool {
        self.0 matches Some(fps) ==> fps.is_finite() && (Single { bits: 0 }).lt(fps)
    }

    /// Keeps a positive, finite rate and drops any other.
    pub fn new(fps: Single) -> (r: Self)
        ensures
            r.rate() == (if fps.is_finite() && (Single { bits: 0 }).lt(fps) {
                Some(fps)
            } else {
                None
            }),
    {
        if Single::from_bits(0).less_than(fps) && fps.finite() {
            Self(Some(fps))
        } else {
            Self(None)
        }
    }

    /// The rate, if there is one.
    pub fn fps(self) -> (r: Option<Single>)
        ensures
            r == self.rate(),
            r matches Some(fps) ==> fps.is_finite() && (Single { bits: 0 }).lt(fps),
    {
        proof {
            use_type_invariant(&self);
        }
        self.0
    }
}

/// Common xpsnr options.
#[derive(Debug, Clone, Copy, PartialEq, Eq, Hash, Structural)]
pub struct Xpsnr {
    /// Frame rate override used to analyse both reference & distorted videos.
    /// Maps to ffmpeg `-r` input arg.
    ///
    /// Setting to 0 disables use.
    pub xpsnr_fps: FrameRateOverride,
    /// Pixel format used in xpsnr analysis only. By default this is inferred from sources.
    pub xpsnr_pix_format: Option<PixelFormat>,
}

impl Xpsnr {
    /// The frame rate override, if any.
    pub fn fps(&self) -> (r: Option<Single>)
        ensures
            r == self.xpsnr_fps.rate(),
    {
        self.xpsnr_fps.fps()
    }
}

impl Default for Xpsnr {
    /// Both videos are analysed at 60 frames per second.
    fn default() -> (r: Self)
        ensures
            r.xpsnr_fps.rate() == Some(Single { bits: 0x4270_0000 }),
            r.xpsnr_pix_format is None,
    {
        Self { xpsnr_fps: FrameRateOverride::new(Single::from_bits(0x4270_0000)), xpsnr_pix_format: None }
    }
}

/// Normalized xpsnr configuration.
#[derive(Debug, Clone, Copy, PartialEq, Eq, Hash, Structural)]
pub struct XpsnrConfig {
    pub xpsnr_fps: FrameRateOverride,
    pub xpsnr_pix_format: Option<PixelFormat>,
}

impl XpsnrConfig {
    /// The configuration with these options.
    pub fn from_args(xpsnr: Xpsnr) -> (r: Self)
        ensures
            r.xpsnr_fps == xpsnr.xpsnr_fps,
            r.xpsnr_pix_format == xpsnr.xpsnr_pix_format,
    {
        Self { xpsnr_fps: xpsnr.xpsnr_fps, xpsnr_pix_format: xpsnr.xpsnr_pix_format }
    }

    /// The frame rate override, if any.
    pub fn fps(&self) -> (r: Option<Single>)
        ensures
            r == self.xpsnr_fps.rate(),
    {
        self.xpsnr_fps.fps()
    }
}

} // verus!
