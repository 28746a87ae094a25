//! Errors of planning an encode.
use vstd::prelude::*;

verus! {

broadcast use vstd::string::group_string_axioms;

/// Why an encode cannot be planned.
#[derive(Debug, PartialEq, Eq)]
pub enum EncodePlanError {
    SameInputOutput,
    StereoDownmixWithCopy,
    /// The arguments for ffmpeg are not valid, for this reason.
    FfmpegArgs(String),
}

impl EncodePlanError {
    /// What went wrong.
    pub open spec fn text(self) -> Seq<char> {
        match self {
            EncodePlanError::SameInputOutput =>
                "Input and Output are specified as the same file. Not proceeding. Pass in `--overwrite-input` to allow this."@,
            EncodePlanError::StereoDownmixWithCopy =>
                "--stereo-downmix cannot be used with --acodec copy"@,
            EncodePlanError::FfmpegArgs(e) => e@,
        }
    }

    /// What went wrong.
    pub fn message(&self) -> (r: String)
        ensures
            r@ == self.text(),
    {
        match self {
            Self::SameInputOutput =>
                "Input and Output are specified as the same file. Not proceeding. Pass in `--overwrite-input` to allow this.".to_owned(),
            Self::StereoDownmixWithCopy =>
                "--stereo-downmix cannot be used with --acodec copy".to_owned(),
            Self::FfmpegArgs(e) => e.clone(),
        }
    }
}

} // verus!
