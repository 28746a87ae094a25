//! The plan of an encode.
use crate::command::args::encode::Encode;
use crate::command::args::EncodeToOutput;
use crate::command::encode::error::EncodePlanError;
use crate::command::encode::lifecycle::{PartialOutput, PlannedOutput};
use crate::command::encode::preflight;
use crate::command::rules;
use crate::command::rules::ValidationError;
use crate::ffmpeg::{Crf, EncodeTarget, FfmpegEncodeArgs};
use crate::ffprobe::{Ffprobe, ProbeError};
use crate::text;
use crate::temporary::{TempFiles, TempKind};
use vstd::prelude::*;

verus! {

broadcast use vstd::string::group_string_axioms;

/// Validated encode inputs.
#[derive(Debug, PartialEq, Eq)]
pub struct EncodeConfig {
    pub encode: Encode,
    pub crf: Crf,
    pub encode_to: EncodeToOutput,
}

/// Spawn-time ffmpeg and audio configuration derived during plan build.
#[derive(Debug, PartialEq, Eq)]
pub struct SpawnConfig {
    pub has_audio: bool,
    pub stereo_downmix: bool,
    pub audio_codec: Option<String>,
    pub video_only: bool,
    pub encode: Encode,
    pub crf: Crf,
    /// The interval between keyframes in frames.
    pub keyint: Option<i32>,
}

impl SpawnConfig {
    /// Whether ffmpeg arguments can be made.
    pub open spec fn valid(self) -> bool {
        !self.encode.misuses_svt() && self.encode.broken_rule(
            self.crf.display@,
            self.keyint,
        ) is None
    }
}

/// Preflight encode configuration: validation and ffmpeg args before any spawn or cleanup.
#[derive(Debug, PartialEq, Eq)]
pub struct EncodePlan {
    input: String,
    planned: PlannedOutput,
    defaulting_output: bool,
    probe: Ffprobe,
    spawn: SpawnConfig,
}

/// Remaining plan state after output cleanup is armed at the spawn boundary.
#[derive(Debug, PartialEq, Eq)]
pub struct EncodeSession {
    input: String,
    probe: Ffprobe,
    spawn: SpawnConfig,
}

/// Whether an encode can be planned, or why not.
pub open spec fn plan_error(
    config: EncodeConfig,
    same_file: bool,
    keyint: Result<Option<i32>, ProbeError>,
) -> bool {
    ||| !config.encode_to.overwrite_input && same_file
    ||| preflight::downmixes_copy(config.encode_to)
    ||| config.encode.misuses_svt()
    ||| keyint is Err
    ||| config.encode.broken_rule(config.crf.display@, keyint->Ok_0) is Some
}

/// Whether this is the message on the first rule that the arguments break.
pub open spec fn args_error(
    config: EncodeConfig,
    keyint: Result<Option<i32>, ProbeError>,
    message: Seq<char>,
) -> bool {
    if config.encode.misuses_svt() {
        message == ValidationError::SvtArgsOnNonSvtAv1.text(Seq::empty())
    } else {
        match keyint {
            Err(e) => message == e@,
            Ok(frames) => match config.encode.broken_rule(config.crf.display@, frames) {
                Some(broken) => exists|e: ValidationError| #[trigger]
                    rules::error_is(e, broken) && message == e.text(Seq::empty()),
                None => false,
            },
        }
    }
}

impl EncodePlan {
    /// The input.
    pub closed spec fn input_path(self) -> Seq<char> {
        self.input@
    }

    /// Where the output goes.
    pub closed spec fn output(self) -> Seq<char> {
        self.planned@
    }

    /// Whether no output was asked for.
    pub closed spec fn defaults(self) -> bool {
        self.defaulting_output
    }

    /// What is known of the input.
    pub closed spec fn probed(self) -> Ffprobe {
        self.probe
    }

    /// The configuration of the process.
    pub closed spec fn config(self) -> SpawnConfig {
        self.spawn
    }

    #[verifier::type_invariant]
    closed spec fn checked(self) -> bool {
        self.spawn.valid()
    }

    /// Plans an encode. `same_file` says whether the output and the input are
    /// one file; `keyint` is the interval between keyframes, or why it is not
    /// known. Of several errors the first in the order of the checks is told.
    pub fn build(
        config: EncodeConfig,
        probe: Ffprobe,
        same_file: bool,
        keyint: Result<Option<i32>, ProbeError>,
    ) -> (r: Result<Self, EncodePlanError>)
        ensures
            r is Err <==> plan_error(config, same_file, keyint),
            match r {
                Ok(plan) => {
                    &&& plan.input_path() == config.encode.input@
                    &&& plan.output() == preflight::chosen_output(
                        config.encode.input@,
                        config.encode.encoder,
                        config.encode_to,
                        probe.is_image,
                    )
                    &&& plan.defaults() == config.encode_to.output is None
                    &&& plan.probed() == probe
                    &&& plan.config().has_audio == probe.has_audio
                    &&& plan.config().stereo_downmix == (config.encode_to.downmix_to_stereo && (
                    probe.max_audio_channels matches Some(c) && c > 3))
                    &&& match (plan.config().audio_codec, config.encode_to.audio_codec) {
                        (Some(a), Some(b)) => a@ == b@,
                        (None, None) => true,
                        _ => false,
                    }
                    &&& plan.config().video_only == config.encode_to.video_only
                    &&& plan.config().encode == config.encode
                    &&& plan.config().crf == config.crf
                    &&& keyint == Ok::<Option<i32>, ProbeError>(plan.config().keyint)
                },
                Err(EncodePlanError::SameInputOutput) => !config.encode_to.overwrite_input
                    && same_file,
                Err(EncodePlanError::StereoDownmixWithCopy) => (config.encode_to.overwrite_input
                    || !same_file) && preflight::downmixes_copy(config.encode_to),
                Err(EncodePlanError::FfmpegArgs(m)) => {
                    &&& config.encode_to.overwrite_input || !same_file
                    &&& !preflight::downmixes_copy(config.encode_to)
                    &&& args_error(config, keyint, m@)
                },
            },
    {
        let EncodeConfig { encode, crf, encode_to } = config;
        let resolved = match preflight::resolve_output(
            encode.input.as_str(),
            &encode.encoder,
            &encode_to,
            &probe,
            same_file,
        ) {
            Ok(resolved) => resolved,
            Err(e) => return Err(e),
        };
        let audio = match preflight::audio_config(&encode_to, &probe) {
            Ok(audio) => audio,
            Err(e) => return Err(e),
        };
        let known = match &keyint {
            Ok(frames) => *frames,
            Err(_) => None,
        };
        // Validate ffmpeg arg construction during preflight.
        if let Err(e) = encode.to_ffmpeg_args(&crf, keyint) {
            return Err(EncodePlanError::FfmpegArgs(e.message()));
        }
        Ok(
            Self {
                input: encode.input.clone(),
                planned: resolved.planned,
                defaulting_output: resolved.defaulting_output,
                probe,
                spawn: SpawnConfig {
                    has_audio: audio.has_audio,
                    stereo_downmix: audio.stereo_downmix,
                    audio_codec: audio.audio_codec,
                    video_only: encode_to.video_only,
                    encode,
                    crf,
                    keyint: known,
                },
            },
        )
    }

    /// What is known of the input.
    pub fn probe(&self) -> (r: &Ffprobe)
        ensures
            *r == self.probed(),
    {
        &self.probe
    }

    /// Whether no output was asked for.
    pub fn defaulting_output(&self) -> (r: bool)
        ensures
            r == self.defaults(),
    {
        self.defaulting_output
    }

    /// Where the output goes.
    pub fn output_path(&self) -> (r: &str)
        ensures
            r@ == self.output(),
    {
        self.planned.path()
    }

    /// The configuration of the process.
    pub fn spawn_config(&self) -> (r: &SpawnConfig)
        ensures
            *r == self.config(),
    {
        &self.spawn
    }

    /// From now on ffmpeg may write the output: it is cleaned up unless it is
    /// committed.
    pub fn begin(self, temps: &mut TempFiles) -> (r: (PartialOutput, EncodeSession))
        requires
            old(temps).well_formed(),
        ensures
            final(temps).well_formed(),
            final(temps)@ == old(temps)@.insert(self.output(), TempKind::NotKeepable),
            r.0@ == self.output(),
            r.1.input_path() == self.input_path(),
            r.1.probed() == self.probed(),
            r.1.config() == self.config(),
    {
        proof {
            use_type_invariant(&self);
        }
        let partial = self.planned.begin(temps);
        let session = EncodeSession { input: self.input, probe: self.probe, spawn: self.spawn };
        (partial, session)
    }
}

impl EncodeSession {
    /// The input.
    pub closed spec fn input_path(self) -> Seq<char> {
        self.input@
    }

    /// What is known of the input.
    pub closed spec fn probed(self) -> Ffprobe {
        self.probe
    }

    /// The configuration of the process.
    pub closed spec fn config(self) -> SpawnConfig {
        self.spawn
    }

    #[verifier::type_invariant]
    closed spec fn checked(self) -> bool {
        self.spawn.valid()
    }

    /// The input.
    pub fn input(&self) -> (r: &str)
        ensures
            r@ == self.input_path(),
    {
        self.input.as_str()
    }

    /// What is known of the input.
    pub fn probe(&self) -> (r: &Ffprobe)
        ensures
            *r == self.probed(),
    {
        &self.probe
    }

    /// The arguments for ffmpeg. They were checked when the encode was planned,
    /// so there always are some.
    pub fn ffmpeg_args(&self) -> (r: Result<FfmpegEncodeArgs, EncodePlanError>)
        ensures
            r matches Ok(args) && args.video_only == self.config().video_only
                && self.config().encode.lowers_to(
                &self.config().crf,
                self.config().keyint,
                (FfmpegEncodeArgs { video_only: false, ..args }),
            ),
    {
        proof {
            use_type_invariant(self);
        }
        match self.spawn.encode.to_ffmpeg_args(&self.spawn.crf, Ok(self.spawn.keyint)) {
            Ok(args) => Ok(FfmpegEncodeArgs { video_only: self.spawn.video_only, ..args }),
            Err(e) => Err(EncodePlanError::FfmpegArgs(e.message())),
        }
    }

    /// Whether the input has audio.
    pub fn has_audio(&self) -> (r: bool)
        ensures
            r == self.config().has_audio,
    {
        self.spawn.has_audio
    }

    /// Whether the audio is mixed down.
    pub fn stereo_downmix(&self) -> (r: bool)
        ensures
            r == self.config().stereo_downmix,
    {
        self.spawn.stereo_downmix
    }

    /// The codec of the audio that was asked for.
    pub fn audio_codec(&self) -> (r: Option<&str>)
        ensures
            match (r, self.config().audio_codec) {
                (Some(a), Some(b)) => a@ == b@,
                (None, None) => true,
                _ => false,
            },
    {
        match &self.spawn.audio_codec {
            Some(codec) => Some(codec.as_str()),
            None => None,
        }
    }

    /// What ffmpeg writes, and how it treats the audio.
    pub fn target(&self, output: &PartialOutput) -> (r: EncodeTarget)
        ensures
            r.output@ == output@,
            r.has_audio == self.config().has_audio,
            r.downmix_to_stereo == self.config().stereo_downmix,
            match (r.audio_codec, self.config().audio_codec) {
                (Some(a), Some(b)) => a@ == b@,
                (None, None) => true,
                _ => false,
            },
    {
        EncodeTarget {
            output: output.path().to_owned(),
            has_audio: self.spawn.has_audio,
            audio_codec: text::owned_opt(&self.spawn.audio_codec),
            downmix_to_stereo: self.spawn.stereo_downmix,
        }
    }
}

/// An encode is planned exactly where it would not write over its input unasked,
/// does not mix audio down that it copies, gives svt-av1's parameters to no
/// other encoder, knows its interval between keyframes, and sets no option that
/// is reserved.
pub proof fn law_planned_iff_nothing_is_wrong(
    config: EncodeConfig,
    same_file: bool,
    keyint: Result<Option<i32>, ProbeError>,
)
    ensures
        !plan_error(config, same_file, keyint) <==> {
            &&& same_file ==> config.encode_to.overwrite_input
            &&& config.encode_to.downmix_to_stereo && config.encode_to.audio_codec is Some
                ==> config.encode_to.audio_codec->0@ != "copy"@
            &&& config.encode.encoder@ != "libsvtav1"@ ==> config.encode.svt_args@.len() == 0
            &&& keyint is Ok
            &&& config.encode.broken_rule(config.crf.display@, keyint->Ok_0) is None
        },
{
}

} // verus!
