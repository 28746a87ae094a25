//! Checks of an encode before anything is written.
use crate::command::args::encode::Encoder;
use crate::command::args::EncodeToOutput;
use crate::command::encode;
use crate::command::encode::error::EncodePlanError;
use crate::command::encode::lifecycle::PlannedOutput;
use crate::ffprobe::Ffprobe;
use crate::text;
use vstd::prelude::*;

verus! {

broadcast use vstd::string::group_string_axioms;

/// Resolved output path and whether no output was asked for.
#[derive(Debug, PartialEq, Eq)]
pub struct ResolvedOutput {
    pub planned: PlannedOutput,
    pub defaulting_output: bool,
}

/// Audio options derived from arguments and probe metadata.
#[derive(Debug, PartialEq, Eq)]
pub struct AudioConfig {
    pub has_audio: bool,
    pub stereo_downmix: bool,
    pub audio_codec: Option<String>,
}

/// Where the output goes: where it was asked for, else beside the input.
pub open spec fn chosen_output(
    input: Seq<char>,
    encoder: Encoder,
    encode_to: EncodeToOutput,
    is_image: bool,
) -> Seq<char> {
    match encode_to.output {
        Some(p) => p@,
        None => encode::output_name(input, encoder, is_image),
    }
}

/// Where the output goes.
pub fn output_path(input: &str, encoder: &Encoder, encode_to: &EncodeToOutput, probe: &Ffprobe) -> (r:
    String)
    ensures
        r@ == chosen_output(input@, *encoder, *encode_to, probe.is_image),
{
    match &encode_to.output {
        Some(p) => p.clone(),
        None => encode::default_output_name(input, encoder, probe.is_image),
    }
}

/// Resolves the output. `same_file` says whether the output and the input are
/// one file, which is an error unless overwriting is allowed.
pub fn resolve_output(
    input: &str,
    encoder: &Encoder,
    encode_to: &EncodeToOutput,
    probe: &Ffprobe,
    same_file: bool,
) -> (r: Result<ResolvedOutput, EncodePlanError>)
    ensures
        match r {
            Ok(out) => {
                &&& encode_to.overwrite_input || !same_file
                &&& out.planned@ == chosen_output(input@, *encoder, *encode_to, probe.is_image)
                &&& out.defaulting_output == encode_to.output is None
            },
            Err(e) => !encode_to.overwrite_input && same_file && e
                == EncodePlanError::SameInputOutput,
        },
{
    if !encode_to.overwrite_input && same_file {
        return Err(EncodePlanError::SameInputOutput);
    }
    let path = output_path(input, encoder, encode_to, probe);
    Ok(
        ResolvedOutput {
            planned: PlannedOutput::new(path),
            defaulting_output: encode_to.output.is_none(),
        },
    )
}

/// Whether the audio is to be mixed down but also to be copied as it is.
pub open spec fn downmixes_copy(encode_to: EncodeToOutput) -> bool {
    encode_to.downmix_to_stereo && (encode_to.audio_codec matches Some(c) && c@ == "copy"@)
}

/// Whether audio of so many channels, if that is known, is mixed down.
pub open spec fn mixes_down(encode_to: EncodeToOutput, channels: Option<i64>) -> bool {
    encode_to.downmix_to_stereo && (channels matches Some(c) && c > 3)
}

/// Audio is mixed down where it is asked for and has more than three channels,
/// and nowhere else.
pub proof fn law_only_surround_is_mixed_down(encode_to: EncodeToOutput, c: i64)
    ensures
        !mixes_down(encode_to, None),
        !encode_to.downmix_to_stereo ==> !mixes_down(encode_to, Some(c)),
        c <= 3 ==> !mixes_down(encode_to, Some(c)),
        encode_to.downmix_to_stereo && c > 3 ==> mixes_down(encode_to, Some(c)),
{
}

/// The audio options. Audio of 3 channels or fewer is never mixed down.
pub fn audio_config(encode_to: &EncodeToOutput, probe: &Ffprobe) -> (r: Result<
    AudioConfig,
    EncodePlanError,
>)
    ensures
        match r {
            Ok(audio) => {
                &&& !downmixes_copy(*encode_to)
                &&& audio.has_audio == probe.has_audio
                &&& audio.stereo_downmix == mixes_down(*encode_to, probe.max_audio_channels)
                &&& match (audio.audio_codec, encode_to.audio_codec) {
                    (Some(a), Some(b)) => a@ == b@,
                    (None, None) => true,
                    _ => false,
                }
            },
            Err(e) => downmixes_copy(*encode_to) && e == EncodePlanError::StereoDownmixWithCopy,
        },
{
    if encode_to.downmix_to_stereo {
        if let Some(codec) = &encode_to.audio_codec {
            if text::same(codec.as_str(), "copy") {
                return Err(EncodePlanError::StereoDownmixWithCopy);
            }
        }
    }
    let many = match probe.max_audio_channels {
        Some(c) => c > 3,
        None => false,
    };
    Ok(
        AudioConfig {
            has_audio: probe.has_audio,
            stereo_downmix: encode_to.downmix_to_stereo && many,
            audio_codec: text::owned_opt(&encode_to.audio_codec),
        },
    )
}

/// An output that is asked for is the one that is written; only where none is
/// asked for does the input's name decide.
pub proof fn law_asked_output_is_written(
    input: Seq<char>,
    encoder: Encoder,
    encode_to: EncodeToOutput,
    is_image: bool,
)
    ensures
        encode_to.output is Some ==> chosen_output(input, encoder, encode_to, is_image)
            == encode_to.output->0@,
        encode_to.output is None ==> chosen_output(input, encoder, encode_to, is_image)
            == encode::output_name(input, encoder, is_image),
{
}

/// Audio can be mixed down or copied as it is, and not both.
pub proof fn law_downmix_or_copy(encode_to: EncodeToOutput)
    ensures
        !encode_to.downmix_to_stereo ==> !downmixes_copy(encode_to),
        encode_to.audio_codec is None ==> !downmixes_copy(encode_to),
        encode_to.audio_codec is Some && encode_to.audio_codec->0@ != "copy"@ ==> !downmixes_copy(
            encode_to,
        ),
        encode_to.downmix_to_stereo && encode_to.audio_codec is Some
            && encode_to.audio_codec->0@ == "copy"@ ==> downmixes_copy(encode_to),
{
}

} // verus!
