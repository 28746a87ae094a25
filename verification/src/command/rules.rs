//! Rules on command configurations, free of how the configurations are read.
use crate::float::Single;
use crate::text;
use vstd::prelude::*;

verus! {

broadcast use vstd::string::group_string_axioms;

/// Why a configuration is not valid.
#[derive(Debug, Clone, Copy, PartialEq, Eq)]
pub enum ValidationError {
    BothMinScores,
    InvalidCrfBounds,
    InvalidMinScore,
    NonPositiveMaxEncodedPercent,
    PositionalVmafNumber { num: Single },
    SameInputOutput,
    StereoDownmixWithCopy,
    SvtArgsOnNonSvtAv1,
    ReservedEncoderArg { arg: &'static str, hint: &'static str },
    ReservedSvtArg { key: &'static str },
    Svtav1ParamsInEncoderArg,
}

impl ValidationError {
    /// The message of an error. `num` is how a mistaken number is written.
    pub open spec fn text(self, num: Seq<char>) -> Seq<char> {
        match self {
            ValidationError::BothMinScores =>
                "Only one of --min-vmaf and --min-xpsnr may be set"@,
            ValidationError::InvalidCrfBounds => "Invalid --min-crf & --max-crf"@,
            ValidationError::InvalidMinScore => "Minimum score must be finite"@,
            ValidationError::NonPositiveMaxEncodedPercent =>
                "--max-encoded-percent must be positive"@,
            ValidationError::PositionalVmafNumber { .. } =>
                "Invalid use of --vmaf NUMBER, did you mean: --min-vmaf "@ + num,
            ValidationError::SameInputOutput =>
                "Input and Output are specified as the same file. Not proceeding. Pass in `--overwrite-input` to allow this."@,
            ValidationError::StereoDownmixWithCopy =>
                "--stereo-downmix cannot be used with --acodec copy"@,
            ValidationError::SvtArgsOnNonSvtAv1 => "--svt may only be used with svt-av1"@,
            ValidationError::ReservedEncoderArg { arg, hint } => "Encoder argument `"@ + arg@
                + "` not allowed"@ + hint@,
            ValidationError::ReservedSvtArg { key } => "'"@ + key@ + "' cannot be used here"@,
            ValidationError::Svtav1ParamsInEncoderArg =>
                "'svtav1-params' cannot be set here, use `--svt`"@,
        }
    }

    /// The message of the error. `num` is how a mistaken number is written.
    pub fn message(&self, num: &str) -> (r: String)
        ensures
            r@ == self.text(num@),
    {
        match self {
            Self::BothMinScores => "Only one of --min-vmaf and --min-xpsnr may be set".to_owned(),
            Self::InvalidCrfBounds => "Invalid --min-crf & --max-crf".to_owned(),
            Self::InvalidMinScore => "Minimum score must be finite".to_owned(),
            Self::NonPositiveMaxEncodedPercent =>
                "--max-encoded-percent must be positive".to_owned(),
            Self::PositionalVmafNumber { .. } => text::cat2(
                "Invalid use of --vmaf NUMBER, did you mean: --min-vmaf ",
                num,
            ),
            Self::SameInputOutput =>
                "Input and Output are specified as the same file. Not proceeding. Pass in `--overwrite-input` to allow this.".to_owned(),
            Self::StereoDownmixWithCopy =>
                "--stereo-downmix cannot be used with --acodec copy".to_owned(),
            Self::SvtArgsOnNonSvtAv1 => "--svt may only be used with svt-av1".to_owned(),
            Self::ReservedEncoderArg { arg, hint } => text::cat4(
                "Encoder argument `",
                arg,
                "` not allowed",
                hint,
            ),
            Self::ReservedSvtArg { key } => text::cat3("'", key, "' cannot be used here"),
            Self::Svtav1ParamsInEncoderArg =>
                "'svtav1-params' cannot be set here, use `--svt`".to_owned(),
        }
    }
}

/// A number given to `--vmaf`, where it has no meaning.
#[derive(Debug, Clone, Copy, PartialEq, Eq, Structural)]
pub struct PositionalVmafScore(Single);

impl PositionalVmafScore {
    pub closed spec fn value(self) -> Single {
        self.0
    }

    pub fn new(value: Single) -> (r: Self)
        ensures
            r.value() == value,
    {
        Self(value)
    }

    /// The number.
    pub fn get(self) -> (r: Single)
        ensures
            r == self.value(),
    {
        self.0
    }
}

/// What the rules on a crf search look at.
pub struct CrfSearchRules {
    pub min_vmaf: Option<Single>,
    pub min_xpsnr: Option<Single>,
    pub min_crf: Option<Single>,
    pub max_crf: Option<Single>,
    pub positional_vmaf_score: Option<PositionalVmafScore>,
}

impl CrfSearchRules {
    /// The first rule that is broken.
    pub open spec fn broken(&self) -> Option<ValidationError> {
        if self.min_vmaf is Some && self.min_xpsnr is Some {
            Some(ValidationError::BothMinScores)
        } else if self.min_crf is Some && self.max_crf is Some && self.min_crf->0.ge(
            self.max_crf->0,
        ) {
            Some(ValidationError::InvalidCrfBounds)
        } else if self.min_vmaf is None && self.positional_vmaf_score is Some {
            Some(
                (ValidationError::PositionalVmafNumber {
                    num: self.positional_vmaf_score->0.value(),
                }),
            )
        } else {
            None
        }
    }

    /// Reports the first rule that is broken.
    pub fn validate(&self) -> (r: Result<(), ValidationError>)
        ensures
            r == (match self.broken() {
                Some(e) => Err::<(), ValidationError>(e),
                None => Ok(()),
            }),
    {
        if self.min_vmaf.is_some() && self.min_xpsnr.is_some() {
            return Err(ValidationError::BothMinScores);
        }
        if let (Some(min_crf), Some(max_crf)) = (self.min_crf, self.max_crf) {
            if min_crf.at_least(max_crf) {
                return Err(ValidationError::InvalidCrfBounds);
            }
        }
        if self.min_vmaf.is_none() {
            if let Some(score) = self.positional_vmaf_score {
                return Err(ValidationError::PositionalVmafNumber { num: score.get() });
            }
        }
        Ok(())
    }
}

/// What the rules on an encode look at.
pub struct EncodeRules<'a> {
    pub overwrite_input: bool,
    pub same_input_output: bool,
    pub downmix_to_stereo: bool,
    pub audio_codec: Option<&'a str>,
}

impl<'a> EncodeRules<'a> {
    /// The first rule that is broken.
    pub open spec fn broken(&self) -> Option<ValidationError> {
        if !self.overwrite_input && self.same_input_output {
            Some(ValidationError::SameInputOutput)
        } else if self.downmix_to_stereo && self.audio_codec is Some && self.audio_codec->0@
            == "copy"@ {
            Some(ValidationError::StereoDownmixWithCopy)
        } else {
            None
        }
    }

    /// Reports the first rule that is broken.
    pub fn validate(&self) -> (r: Result<(), ValidationError>)
        ensures
            r == (match self.broken() {
                Some(e) => Err::<(), ValidationError>(e),
                None => Ok(()),
            }),
    {
        if !self.overwrite_input && self.same_input_output {
            return Err(ValidationError::SameInputOutput);
        }
        if self.downmix_to_stereo {
            if let Some(codec) = self.audio_codec {
                if text::same(codec, "copy") {
                    return Err(ValidationError::StereoDownmixWithCopy);
                }
            }
        }
        Ok(())
    }
}

/// The hint for an input argument that other options set, if `arg` is one.
pub open spec fn input_hint(arg: Seq<char>) -> Option<Seq<char>> {
    if arg == "-i"@ || arg == "-y"@ || arg == "-n"@ || arg == "-crf"@ {
        Some(""@)
    } else if arg == "-pix_fmt"@ {
        Some(" use --pix-format"@)
    } else if arg == "-preset"@ {
        Some(" use --preset"@)
    } else if arg == "-vf"@ || arg == "-filter:v"@ {
        Some(" use --vfilter"@)
    } else {
        None
    }
}

/// The hint for an output argument that other options set, if `arg` is one.
pub open spec fn output_hint(arg: Seq<char>) -> Option<Seq<char>> {
    match input_hint(arg) {
        Some(hint) => Some(hint),
        None => if arg == "-c:a"@ || arg == "-codec:a"@ || arg == "-acodec"@ {
            Some(" use --acodec"@)
        } else if arg == "-c:v"@ || arg == "-c:v:0"@ || arg == "-codec:v"@ || arg == "-codec:v:0"@
            || arg == "-vcodec"@ {
            Some(" use --encoder"@)
        } else {
            None
        },
    }
}

/// The reserved argument that `arg` is, and its hint.
pub fn reserved_input_arg(arg: &str) -> (r: Option<(&'static str, &'static str)>)
    ensures
        r is Some <==> input_hint(arg@) is Some,
        r matches Some((a, hint)) ==> a@ == arg@ && input_hint(arg@) == Some(hint@),
{
    if text::same(arg, "-i") {
        Some(("-i", ""))
    } else if text::same(arg, "-y") {
        Some(("-y", ""))
    } else if text::same(arg, "-n") {
        Some(("-n", ""))
    } else if text::same(arg, "-crf") {
        Some(("-crf", ""))
    } else if text::same(arg, "-pix_fmt") {
        Some(("-pix_fmt", " use --pix-format"))
    } else if text::same(arg, "-preset") {
        Some(("-preset", " use --preset"))
    } else if text::same(arg, "-vf") {
        Some(("-vf", " use --vfilter"))
    } else if text::same(arg, "-filter:v") {
        Some(("-filter:v", " use --vfilter"))
    } else {
        None
    }
}

/// The reserved argument that `arg` is, and its hint.
pub fn reserved_output_arg(arg: &str) -> (r: Option<(&'static str, &'static str)>)
    ensures
        r is Some <==> output_hint(arg@) is Some,
        r matches Some((a, hint)) ==> a@ == arg@ && output_hint(arg@) == Some(hint@),
{
    let input = reserved_input_arg(arg);
    if input.is_some() {
        input
    } else if text::same(arg, "-c:a") {
        Some(("-c:a", " use --acodec"))
    } else if text::same(arg, "-codec:a") {
        Some(("-codec:a", " use --acodec"))
    } else if text::same(arg, "-acodec") {
        Some(("-acodec", " use --acodec"))
    } else if text::same(arg, "-c:v") {
        Some(("-c:v", " use --encoder"))
    } else if text::same(arg, "-c:v:0") {
        Some(("-c:v:0", " use --encoder"))
    } else if text::same(arg, "-codec:v") {
        Some(("-codec:v", " use --encoder"))
    } else if text::same(arg, "-codec:v:0") {
        Some(("-codec:v:0", " use --encoder"))
    } else if text::same(arg, "-vcodec") {
        Some(("-vcodec", " use --encoder"))
    } else {
        None
    }
}

/// A broken rule on encoder arguments, as mathematical values.
pub enum BrokenArg {
    SvtArgs,
    Reserved(Seq<char>, Seq<char>),
    SvtParams,
}

/// The rule that an input argument breaks.
pub open spec fn broken_input(arg: Seq<char>) -> Option<BrokenArg> {
    match input_hint(arg) {
        Some(hint) => Some(BrokenArg::Reserved(arg, hint)),
        None => None,
    }
}

/// The rule that an output argument breaks.
pub open spec fn broken_output(svtav1: bool, arg: Seq<char>) -> Option<BrokenArg> {
    if !svtav1 && text::strip_start(arg, '-') == "svtav1-params"@ {
        Some(BrokenArg::SvtParams)
    } else {
        match output_hint(arg) {
            Some(hint) => Some(BrokenArg::Reserved(arg, hint)),
            None => None,
        }
    }
}

/// The first rule that one of the input arguments from `i` on breaks.
pub open spec fn first_broken_input(args: Seq<Seq<char>>, i: int) -> Option<BrokenArg>
    decreases args.len() - i,
{
    if i < 0 || i >= args.len() {
        None
    } else if broken_input(args[i]) is Some {
        broken_input(args[i])
    } else {
        first_broken_input(args, i + 1)
    }
}

/// The first rule that one of the output arguments from `i` on breaks.
pub open spec fn first_broken_output(svtav1: bool, args: Seq<Seq<char>>, i: int) -> Option<
    BrokenArg,
>
    decreases args.len() - i,
{
    if i < 0 || i >= args.len() {
        None
    } else if broken_output(svtav1, args[i]) is Some {
        broken_output(svtav1, args[i])
    } else {
        first_broken_output(svtav1, args, i + 1)
    }
}

/// The first rule that encoder arguments break: `--svt` without svt-av1, then
/// the input arguments in order, then the output arguments in order.
pub open spec fn first_broken_arg(
    svtav1: bool,
    has_svt_args: bool,
    input_args: Seq<Seq<char>>,
    output_args: Seq<Seq<char>>,
) -> Option<BrokenArg> {
    if !svtav1 && has_svt_args {
        Some(BrokenArg::SvtArgs)
    } else if first_broken_input(input_args, 0) is Some {
        first_broken_input(input_args, 0)
    } else {
        first_broken_output(svtav1, output_args, 0)
    }
}

/// Whether `e` says which rule was broken.
pub open spec fn error_is(e: ValidationError, broken: BrokenArg) -> bool {
    match broken {
        BrokenArg::SvtArgs => e == ValidationError::SvtArgsOnNonSvtAv1,
        BrokenArg::Reserved(a, h) => e matches ValidationError::ReservedEncoderArg { arg, hint }
            && arg@ == a && hint@ == h,
        BrokenArg::SvtParams => e == ValidationError::Svtav1ParamsInEncoderArg,
    }
}

/// Whether `r` reports what is broken, and nothing else.
pub open spec fn reports(r: Result<(), ValidationError>, broken: Option<BrokenArg>) -> bool {
    match broken {
        Some(b) => r matches Err(e) && error_is(e, b),
        None => r is Ok,
    }
}

/// Reports the first rule that encoder arguments break.
pub fn validate_encoder_passthrough(
    svtav1: bool,
    has_svt_args: bool,
    input_args: &[String],
    output_args: &[String],
) -> (r: Result<(), ValidationError>)
    ensures
        reports(
            r,
            first_broken_arg(
                svtav1,
                has_svt_args,
                text::views(input_args@),
                text::views(output_args@),
            ),
        ),
{
    if !svtav1 && has_svt_args {
        return Err(ValidationError::SvtArgsOnNonSvtAv1);
    }
    let mut i: usize = 0;
    while i < input_args.len()
        invariant
            i <= input_args.len(),
            first_broken_input(text::views(input_args@), 0) == first_broken_input(
                text::views(input_args@),
                i as int,
            ),
            !(!svtav1 && has_svt_args),
        decreases input_args.len() - i,
    {
        if let Some((arg, hint)) = reserved_input_arg(input_args[i].as_str()) {
            return Err(ValidationError::ReservedEncoderArg { arg, hint });
        }
        i += 1;
    }
    let mut i: usize = 0;
    while i < output_args.len()
        invariant
            i <= output_args.len(),
            first_broken_input(text::views(input_args@), 0) is None,
            first_broken_output(svtav1, text::views(output_args@), 0) == first_broken_output(
                svtav1,
                text::views(output_args@),
                i as int,
            ),
            !(!svtav1 && has_svt_args),
        decreases output_args.len() - i,
    {
        let arg = output_args[i].as_str();
        assert(text::views(output_args@)[i as int] == arg@);
        if !svtav1 && text::same(text::trim_start_char(arg, '-').as_str(), "svtav1-params") {
            return Err(ValidationError::Svtav1ParamsInEncoderArg);
        }
        if let Some((arg, hint)) = reserved_output_arg(arg) {
            return Err(ValidationError::ReservedEncoderArg { arg, hint });
        }
        i += 1;
    }
    Ok(())
}

/// The first reserved argument: the input arguments in order, then the output
/// arguments in order. Parameters for svt-av1 may be among these.
pub open spec fn first_reserved_arg(
    input_args: Seq<Seq<char>>,
    output_args: Seq<Seq<char>>,
) -> Option<BrokenArg> {
    if first_broken_input(input_args, 0) is Some {
        first_broken_input(input_args, 0)
    } else {
        first_broken_output(true, output_args, 0)
    }
}

/// Reports the first reserved argument.
pub fn validate_reserved_args(input_args: &[String], output_args: &[String]) -> (r: Result<
    (),
    ValidationError,
>)
    ensures
        reports(
            r,
            first_reserved_arg(text::views(input_args@), text::views(output_args@)),
        ),
{
    validate_encoder_passthrough(true, false, input_args, output_args)
}

/// How many samples are asked for, computed, and needed at least.
#[derive(Debug, PartialEq, Eq)]
pub struct SampleCountRules {
    pub samples: Option<u64>,
    pub computed_samples: u64,
    pub min_samples: Option<u64>,
}

/// The greatest of two numbers.
pub open spec fn greatest(a: int, b: int) -> int {
    if a >= b {
        a
    } else {
        b
    }
}

impl SampleCountRules {
    /// The number of samples: what was asked for, else what was computed but
    /// one at least; in both cases no fewer than the minimum.
    pub fn sample_count(self) -> (r: u64)
        ensures
            r == (match self.samples {
                Some(samples) => greatest(
                    samples as int,
                    match self.min_samples {
                        Some(m) => m as int,
                        None => 0,
                    },
                ),
                None => greatest(
                    greatest(
                        self.computed_samples as int,
                        match self.min_samples {
                            Some(m) => m as int,
                            None => 1,
                        },
                    ),
                    1,
                ),
            }),
    {
        match self.samples {
            Some(samples) => {
                let min: u64 = match self.min_samples {
                    Some(m) => m,
                    None => 0,
                };
                if samples >= min {
                    samples
                } else {
                    min
                }
            },
            None => {
                let min: u64 = match self.min_samples {
                    Some(m) => m,
                    None => 1,
                };
                let n: u64 = if self.computed_samples >= min {
                    self.computed_samples
                } else {
                    min
                };
                if n >= 1 {
                    n
                } else {
                    1
                }
            },
        }
    }
}

/// The directory that holds temporary files: the configured one, else the
/// default.
pub fn choose_temp_parent<'a>(
    configured: Option<&'a str>,
    default_parent: Option<&'a str>,
) -> (r: Option<&'a str>)
    ensures
        r == (if configured is Some {
            configured
        } else {
            default_parent
        }),
{
    match configured {
        Some(dir) => Some(dir),
        None => default_parent,
    }
}

/// The key that `--svt` may not set and with which `arg` starts.
pub open spec fn denied_svt_key(arg: Seq<char>) -> Option<Seq<char>> {
    if text::has_prefix(arg, "crf"@) {
        Some("crf"@)
    } else if text::has_prefix(arg, "preset"@) {
        Some("preset"@)
    } else if text::has_prefix(arg, "keyint"@) {
        Some("keyint"@)
    } else if text::has_prefix(arg, "scd"@) {
        Some("scd"@)
    } else if text::has_prefix(arg, "input-depth"@) {
        Some("input-depth"@)
    } else {
        None
    }
}

/// Rejects svt-av1 arguments that other options set.
pub fn validate_svt_arg(arg: &str) -> (r: Result<(), ValidationError>)
    ensures
        match denied_svt_key(arg@) {
            Some(k) => r matches Err(ValidationError::ReservedSvtArg { key }) && key@ == k,
            None => r is Ok,
        },
{
    if text::starts_with(arg, "crf") {
        Err(ValidationError::ReservedSvtArg { key: "crf" })
    } else if text::starts_with(arg, "preset") {
        Err(ValidationError::ReservedSvtArg { key: "preset" })
    } else if text::starts_with(arg, "keyint") {
        Err(ValidationError::ReservedSvtArg { key: "keyint" })
    } else if text::starts_with(arg, "scd") {
        Err(ValidationError::ReservedSvtArg { key: "scd" })
    } else if text::starts_with(arg, "input-depth") {
        Err(ValidationError::ReservedSvtArg { key: "input-depth" })
    } else {
        Ok(())
    }
}

/// Rejects encoder arguments that `--svt` sets.
pub fn validate_enc_arg(arg: &str) -> (r: Result<(), ValidationError>)
    ensures
        r == (if text::has_prefix(arg@, "-svtav1-params"@) {
            Err::<(), ValidationError>(ValidationError::Svtav1ParamsInEncoderArg)
        } else {
            Ok(())
        }),
{
    if text::starts_with(arg, "-svtav1-params") {
        Err(ValidationError::Svtav1ParamsInEncoderArg)
    } else {
        Ok(())
    }
}

/// Arguments that are all in order break no rule, and the other way round.
pub proof fn law_passthrough_ok_iff(
    svtav1: bool,
    has_svt_args: bool,
    input_args: Seq<Seq<char>>,
    output_args: Seq<Seq<char>>,
)
    ensures
        first_broken_arg(svtav1, has_svt_args, input_args, output_args) is None <==> {
            &&& svtav1 || !has_svt_args
            &&& forall|i: int| 0 <= i < input_args.len() ==> input_hint(#[trigger] input_args[i]) is None
            &&& forall|i: int|
                0 <= i < output_args.len() ==> broken_output(
                    svtav1,
                    #[trigger] output_args[i],
                ) is None
        },
{
    lemma_first_broken_input(input_args, 0);
    lemma_first_broken_output(svtav1, output_args, 0);
}

/// Whether an input argument is reserved.
pub open spec fn reserves_input(args: Seq<Seq<char>>) -> bool {
    exists|i: int| 0 <= i < args.len() && input_hint(#[trigger] args[i]) is Some
}

/// Whether an output argument is reserved.
pub open spec fn reserves_output(args: Seq<Seq<char>>) -> bool {
    exists|i: int| 0 <= i < args.len() && output_hint(#[trigger] args[i]) is Some
}

/// Arguments are refused exactly when one of them is reserved.
pub proof fn law_refused_iff_one_is_reserved(
    input_args: Seq<Seq<char>>,
    output_args: Seq<Seq<char>>,
)
    ensures
        first_reserved_arg(input_args, output_args) is Some <==> reserves_input(input_args)
            || reserves_output(output_args),
{
    lemma_first_broken_input(input_args, 0);
    lemma_first_broken_output(true, output_args, 0);
    assert forall|i: int| 0 <= i < output_args.len() implies (broken_output(
        true,
        #[trigger] output_args[i],
    ) is None) == (output_hint(output_args[i]) is None) by {}
}

/// What is reserved is a short option whose name begins with one of a few
/// letters.
pub proof fn lemma_reserved_shape(arg: Seq<char>)
    ensures
        input_hint(arg) is Some ==> output_hint(arg) is Some,
        output_hint(arg) is Some ==> {
            &&& 2 <= arg.len() <= 10
            &&& arg[0] == '-'
            &&& arg[1] == 'i' || arg[1] == 'y' || arg[1] == 'n' || arg[1] == 'c' || arg[1] == 'p'
                || arg[1] == 'v' || arg[1] == 'f' || arg[1] == 'a'
        },
{
    reveal_strlit("-i");
    reveal_strlit("-y");
    reveal_strlit("-n");
    reveal_strlit("-crf");
    reveal_strlit("-pix_fmt");
    reveal_strlit("-preset");
    reveal_strlit("-vf");
    reveal_strlit("-filter:v");
    reveal_strlit("-c:a");
    reveal_strlit("-codec:a");
    reveal_strlit("-acodec");
    reveal_strlit("-c:v");
    reveal_strlit("-c:v:0");
    reveal_strlit("-codec:v");
    reveal_strlit("-codec:v:0");
    reveal_strlit("-vcodec");
}

proof fn lemma_first_broken_input(args: Seq<Seq<char>>, i: int)
    requires
        0 <= i <= args.len(),
    ensures
        first_broken_input(args, i) is None <==> forall|j: int|
            i <= j < args.len() ==> input_hint(#[trigger] args[j]) is None,
    decreases args.len() - i,
{
    if i < args.len() {
        lemma_first_broken_input(args, i + 1);
        assert(broken_input(args[i]) is None <==> input_hint(args[i]) is None);
    }
}

proof fn lemma_first_broken_output(svtav1: bool, args: Seq<Seq<char>>, i: int)
    requires
        0 <= i <= args.len(),
    ensures
        first_broken_output(svtav1, args, i) is None <==> forall|j: int|
            i <= j < args.len() ==> broken_output(svtav1, #[trigger] args[j]) is None,
    decreases args.len() - i,
{
    if i < args.len() {
        lemma_first_broken_output(svtav1, args, i + 1);
    }
}

/// What may not be an input argument may not be an output argument either.
pub proof fn law_input_reserved_is_output_reserved(arg: Seq<char>)
    ensures
        input_hint(arg) is Some ==> output_hint(arg) == input_hint(arg),
{
}

/// A search is refused exactly where two minimum scores are asked for, where the
/// least crf is not below the greatest, or where a number stands for a VMAF
/// argument without a minimum; and it is told the first of these.
pub proof fn law_search_refused_iff(r: CrfSearchRules)
    ensures
        ({
            let both = r.min_vmaf is Some && r.min_xpsnr is Some;
            let bounds = r.min_crf is Some && r.max_crf is Some && r.min_crf->0.ge(r.max_crf->0);
            let number = r.min_vmaf is None && r.positional_vmaf_score is Some;
            &&& r.broken() is None <==> !both && !bounds && !number
            &&& r.broken() == Some(ValidationError::BothMinScores) <==> both
            &&& r.broken() == Some(ValidationError::InvalidCrfBounds) <==> bounds && !both
            &&& number && !bounds ==> r.broken() == Some(
                (ValidationError::PositionalVmafNumber {
                    num: r.positional_vmaf_score->0.value(),
                }),
            )
        }),
{
}

/// An encode is refused exactly where it would write over its input without
/// being told to, or would mix audio down that it copies.
pub proof fn law_encode_refused_iff(r: EncodeRules)
    ensures
        ({
            let over = r.same_input_output && !r.overwrite_input;
            let mixed = r.downmix_to_stereo && r.audio_codec is Some && r.audio_codec->0@
                == "copy"@;
            &&& r.broken() is None <==> !over && !mixed
            &&& r.broken() == Some(ValidationError::SameInputOutput) <==> over
            &&& r.broken() == Some(ValidationError::StereoDownmixWithCopy) <==> mixed && !over
        }),
{
}

/// Which options are reserved, and which option is named in place of each.
pub proof fn law_reserved_options(arg: Seq<char>)
    ensures
        input_hint(arg) == Some(" use --preset"@) <==> arg == "-preset"@,
        input_hint(arg) == Some(" use --pix-format"@) <==> arg == "-pix_fmt"@,
        input_hint(arg) == Some(" use --vfilter"@) <==> arg == "-vf"@ || arg == "-filter:v"@,
        input_hint(arg) == Some(""@) <==> arg == "-i"@ || arg == "-y"@ || arg == "-n"@ || arg
            == "-crf"@,
        output_hint(arg) == Some(" use --acodec"@) <==> arg == "-c:a"@ || arg == "-codec:a"@ || arg
            == "-acodec"@,
        output_hint(arg) == Some(" use --encoder"@) <==> arg == "-c:v"@ || arg == "-c:v:0"@ || arg
            == "-codec:v"@ || arg == "-codec:v:0"@ || arg == "-vcodec"@,
        input_hint(arg) is Some ==> output_hint(arg) == input_hint(arg),
        output_hint(arg) is None <==> {
            &&& arg != "-i"@ && arg != "-y"@ && arg != "-n"@ && arg != "-crf"@
            &&& arg != "-pix_fmt"@ && arg != "-preset"@ && arg != "-vf"@ && arg != "-filter:v"@
            &&& arg != "-c:a"@ && arg != "-codec:a"@ && arg != "-acodec"@
            &&& arg != "-c:v"@ && arg != "-c:v:0"@ && arg != "-codec:v"@ && arg != "-codec:v:0"@
                && arg != "-vcodec"@
        },
{
    reveal_strlit("");
    reveal_strlit(" use --preset");
    reveal_strlit(" use --pix-format");
    reveal_strlit(" use --vfilter");
    reveal_strlit(" use --acodec");
    reveal_strlit(" use --encoder");
    assert(" use --preset"@[7] == 'p' && " use --preset"@.len() == 13);
    assert(" use --pix-format"@.len() == 17);
    assert(" use --vfilter"@.len() == 14 && " use --encoder"@.len() == 14);
    assert(" use --vfilter"@[7] == 'v' && " use --encoder"@[7] == 'e');
    assert(" use --acodec"@[7] == 'a' && " use --acodec"@.len() == 13);
    assert(""@.len() == 0);
    reveal_strlit("-i");
    reveal_strlit("-y");
    reveal_strlit("-n");
    reveal_strlit("-crf");
    reveal_strlit("-pix_fmt");
    reveal_strlit("-preset");
    reveal_strlit("-vf");
    reveal_strlit("-filter:v");
    reveal_strlit("-c:a");
    reveal_strlit("-codec:a");
    reveal_strlit("-acodec");
    reveal_strlit("-c:v");
    reveal_strlit("-c:v:0");
    reveal_strlit("-codec:v");
    reveal_strlit("-codec:v:0");
    reveal_strlit("-vcodec");
    assert("-i"@.len() == 2 && "-y"@.len() == 2 && "-n"@.len() == 2 && "-crf"@.len() == 4);
    assert("-i"@[1] == 'i' && "-y"@[1] == 'y' && "-n"@[1] == 'n' && "-crf"@[2] == 'r');
    assert("-pix_fmt"@.len() == 8 && "-preset"@.len() == 7 && "-vf"@.len() == 3);
    assert("-filter:v"@.len() == 9 && "-c:a"@.len() == 4 && "-codec:a"@.len() == 8);
    assert("-pix_fmt"@[1] == 'p' && "-codec:a"@[1] == 'c' && "-codec:a"@[7] == 'a');
    assert("-acodec"@.len() == 7 && "-acodec"@[1] == 'a' && "-preset"@[1] == 'p');
    assert("-c:v"@.len() == 4 && "-c:a"@[3] == 'a' && "-c:v"@[3] == 'v' && "-c:a"@[2] == ':'
        && "-c:v"@[2] == ':');
    assert("-c:v:0"@.len() == 6 && "-codec:v"@.len() == 8 && "-codec:v"@[7] == 'v'
        && "-codec:v"@[1] == 'c');
    assert("-codec:v:0"@.len() == 10 && "-vcodec"@.len() == 7 && "-vcodec"@[1] == 'v');
}

/// A parameter of svt-av1 is denied exactly where it starts with one of the keys
/// that other options set, and the key that is named is one it starts with.
pub proof fn law_denied_svt_keys(arg: Seq<char>)
    ensures
        denied_svt_key(arg) is Some <==> text::has_prefix(arg, "crf"@) || text::has_prefix(
            arg,
            "preset"@,
        ) || text::has_prefix(arg, "keyint"@) || text::has_prefix(arg, "scd"@) || text::has_prefix(
            arg,
            "input-depth"@,
        ),
        denied_svt_key(arg) is Some ==> text::has_prefix(arg, denied_svt_key(arg)->0) && (
        denied_svt_key(arg)->0 == "crf"@ || denied_svt_key(arg)->0 == "preset"@ || denied_svt_key(
            arg,
        )->0 == "keyint"@ || denied_svt_key(arg)->0 == "scd"@ || denied_svt_key(arg)->0
            == "input-depth"@),
{
}

/// The first broken argument is reported: the one that breaks a rule and has
/// none before it that does.
pub proof fn law_first_broken_arg_is_reported(args: Seq<Seq<char>>, svtav1: bool, k: int)
    requires
        0 <= k < args.len(),
    ensures
        broken_input(args[k]) is Some && (forall|j: int|
            0 <= j < k ==> broken_input(#[trigger] args[j]) is None) ==> first_broken_input(args, 0)
            == broken_input(args[k]),
        broken_output(svtav1, args[k]) is Some && (forall|j: int|
            0 <= j < k ==> broken_output(svtav1, #[trigger] args[j]) is None)
            ==> first_broken_output(svtav1, args, 0) == broken_output(svtav1, args[k]),
        broken_input(args[k]) is Some <==> input_hint(args[k]) is Some,
        input_hint(args[k]) is Some ==> broken_input(args[k]) == Some(
            BrokenArg::Reserved(args[k], input_hint(args[k])->0),
        ),
        output_hint(args[k]) is Some && svtav1 ==> broken_output(svtav1, args[k]) == Some(
            BrokenArg::Reserved(args[k], output_hint(args[k])->0),
        ),
        broken_output(svtav1, args[k]) == Some(BrokenArg::SvtParams) <==> !svtav1
            && text::strip_start(args[k], '-') == "svtav1-params"@,
{
    if broken_input(args[k]) is Some && (forall|j: int|
        0 <= j < k ==> broken_input(#[trigger] args[j]) is None) {
        lemma_first_broken_input_at(args, 0, k);
    }
    if broken_output(svtav1, args[k]) is Some && (forall|j: int|
        0 <= j < k ==> broken_output(svtav1, #[trigger] args[j]) is None) {
        lemma_first_broken_output_at(svtav1, args, 0, k);
    }
}

proof fn lemma_first_broken_input_at(args: Seq<Seq<char>>, i: int, k: int)
    requires
        0 <= i <= k < args.len(),
        broken_input(args[k]) is Some,
        forall|j: int| i <= j < k ==> broken_input(#[trigger] args[j]) is None,
    ensures
        first_broken_input(args, i) == broken_input(args[k]),
    decreases k - i,
{
    if i < k {
        assert(broken_input(args[i]) is None);
        lemma_first_broken_input_at(args, i + 1, k);
    }
}

proof fn lemma_first_broken_output_at(svtav1: bool, args: Seq<Seq<char>>, i: int, k: int)
    requires
        0 <= i <= k < args.len(),
        broken_output(svtav1, args[k]) is Some,
        forall|j: int| i <= j < k ==> broken_output(svtav1, #[trigger] args[j]) is None,
    ensures
        first_broken_output(svtav1, args, i) == broken_output(svtav1, args[k]),
    decreases k - i,
{
    if i < k {
        assert(broken_output(svtav1, args[i]) is None);
        lemma_first_broken_output_at(svtav1, args, i + 1, k);
    }
}

} // verus!
