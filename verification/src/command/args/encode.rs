//! Arguments of the encoder.
use crate::command::rules;
use crate::command::rules::ValidationError;
use crate::duration::Duration;
use crate::ffmpeg;
use crate::ffmpeg::{Crf, FfmpegEncodeArgs};
use crate::ffprobe::{Ffprobe, ProbeError};
use crate::float::Single;
use crate::outside;
use crate::span;
use crate::text;
use vstd::prelude::*;

verus! {

broadcast use vstd::string::group_string_axioms;

// ---- pixel formats ----

/// Ordered by ascending quality.
#[derive(Clone, Copy, Debug, PartialEq, Eq, PartialOrd, Ord, Hash, Structural)]
pub enum PixelFormat {
    Yuv420p,
    Yuv420p10le,
    Yuv422p10le,
    Yuv444p10le,
}

impl PixelFormat {
    /// The place in the order of quality.
    pub open spec fn rank(self) -> int {
        match self {
            PixelFormat::Yuv420p => 0,
            PixelFormat::Yuv420p10le => 1,
            PixelFormat::Yuv422p10le => 2,
            PixelFormat::Yuv444p10le => 3,
        }
    }

    /// The name that ffmpeg uses.
    pub open spec fn name(self) -> Seq<char> {
        match self {
            PixelFormat::Yuv420p => "yuv420p"@,
            PixelFormat::Yuv420p10le => "yuv420p10le"@,
            PixelFormat::Yuv422p10le => "yuv422p10le"@,
            PixelFormat::Yuv444p10le => "yuv444p10le"@,
        }
    }

    /// The place in the order of quality.
    fn order(self) -> (r: u8)
        ensures
            r == self.rank(),
    {
        match self {
            Self::Yuv420p => 0,
            Self::Yuv420p10le => 1,
            Self::Yuv422p10le => 2,
            Self::Yuv444p10le => 3,
        }
    }

    /// The better one of two formats, as far as there are any.
    pub open spec fn best(a: Option<Self>, b: Option<Self>) -> Option<Self> {
        match (a, b) {
            (Some(x), Some(y)) => if x.rank() >= y.rank() {
                Some(x)
            } else {
                Some(y)
            },
            (Some(x), None) => Some(x),
            (None, y) => y,
        }
    }

    /// Returns the max quality pixel format, or None if both are None.
    pub fn opt_max(a: Option<Self>, b: Option<Self>) -> (r: Option<Self>)
        ensures
            r == Self::best(a, b),
    {
        match (a, b) {
            (Some(x), Some(y)) => if x.order() >= y.order() {
                Some(x)
            } else {
                Some(y)
            },
            (Some(x), None) => Some(x),
            (None, y) => y,
        }
    }

    /// The name that ffmpeg uses.
    pub fn as_str(self) -> (r: &'static str)
        ensures
            r@ == self.name(),
    {
        match self {
            Self::Yuv420p10le => "yuv420p10le",
            Self::Yuv422p10le => "yuv422p10le",
            Self::Yuv444p10le => "yuv444p10le",
            Self::Yuv420p => "yuv420p",
        }
    }

    /// The format of this name. Upper and lower case are the same.
    pub fn try_from_str(value: &str) -> (r: Result<Self, ()>)
        ensures
            r matches Ok(f) ==> text::ascii_lower(value@) == f.name(),
            forall|f: Self| text::ascii_lower(value@) == #[trigger] f.name() ==> r == Ok::<
                Self,
                (),
            >(f),
    {
        let lower = text::to_ascii_lower(value);
        proof {
            lemma_pixel_names_distinct();
            assert(PixelFormat::Yuv420p.name() == "yuv420p"@);
            assert(PixelFormat::Yuv420p10le.name() == "yuv420p10le"@);
            assert(PixelFormat::Yuv422p10le.name() == "yuv422p10le"@);
            assert(PixelFormat::Yuv444p10le.name() == "yuv444p10le"@);
        }
        if text::same(lower.as_str(), "yuv420p10le") {
            Ok(Self::Yuv420p10le)
        } else if text::same(lower.as_str(), "yuv422p10le") {
            Ok(Self::Yuv422p10le)
        } else if text::same(lower.as_str(), "yuv444p10le") {
            Ok(Self::Yuv444p10le)
        } else if text::same(lower.as_str(), "yuv420p") {
            Ok(Self::Yuv420p)
        } else {
            Err(())
        }
    }
}

/// Formats with the same name are the same.
pub proof fn lemma_pixel_names_distinct()
    ensures
        forall|a: PixelFormat, b: PixelFormat| #[trigger] a.name() == #[trigger] b.name() ==> a == b,
{
    reveal_strlit("yuv420p");
    reveal_strlit("yuv420p10le");
    reveal_strlit("yuv422p10le");
    reveal_strlit("yuv444p10le");
    assert forall|a: PixelFormat, b: PixelFormat| #[trigger] a.name() == #[trigger] b.name()
        implies a == b by {
        assert(a.name().len() == b.name().len());
        assert(a.name()[4] == b.name()[4]);
        assert(a.name()[5] == b.name()[5]);
    }
}

// ---- encoders ----

/// Video codec for encoding.
#[derive(Debug, PartialEq, Eq, Hash)]
pub struct Encoder(String);

impl View for Encoder {
    type V = Seq<char>;

    closed spec fn view(&self) -> Seq<char> {
        self.0@
    }
}

/// An ffmpeg option and its value.
#[derive(Debug, PartialEq, Eq)]
pub struct DefaultArg {
    pub name: &'static str,
    pub value: &'static str,
}

/// The names and values of default arguments.
pub open spec fn default_views(v: Seq<DefaultArg>) -> Seq<(Seq<char>, Seq<char>)> {
    v.map_values(|a: DefaultArg| (a.name@, a.value@))
}

/// The output arguments that an encoder has by default.
pub open spec fn output_defaults(vcodec: Seq<char>) -> Seq<(Seq<char>, Seq<char>)> {
    if vcodec == "libaom-av1"@ || vcodec == "libvpx-vp9"@ {
        seq![("-b:v"@, "0"@)]
    } else if vcodec == "av1_qsv"@ || vcodec == "hevc_qsv"@ || vcodec == "h264_qsv"@ {
        seq![("-look_ahead"@, "1"@), ("-extbrc"@, "1"@), ("-look_ahead_depth"@, "40"@)]
    } else {
        Seq::empty()
    }
}

/// The input arguments that an encoder has by default.
pub open spec fn input_defaults(vcodec: Seq<char>) -> Seq<(Seq<char>, Seq<char>)> {
    if text::has_suffix(vcodec, "_vaapi"@) {
        seq![("-hwaccel"@, "vaapi"@), ("-hwaccel_output_format"@, "vaapi"@)]
    } else if text::has_suffix(vcodec, "_vulkan"@) {
        seq![("-hwaccel"@, "vulkan"@), ("-hwaccel_output_format"@, "vulkan"@)]
    } else {
        Seq::empty()
    }
}

/// The bits of the default step between crf values.
pub open spec fn increment_bits(vcodec: Seq<char>) -> u32 {
    if vcodec == "libx264"@ || vcodec == "libx265"@ || vcodec == "libvpx-vp9"@ {
        0x3dcc_cccd
    } else if vcodec == "libsvtav1"@ {
        0x3e80_0000
    } else {
        0x3f80_0000
    }
}

/// The bits of the default least crf.
pub open spec fn min_crf_bits(vcodec: Seq<char>) -> u32 {
    if vcodec == "mpeg2video"@ {
        0x4000_0000
    } else if vcodec == "libsvtav1"@ {
        0x40a0_0000
    } else {
        0x4120_0000
    }
}

/// The bits of the default greatest crf.
pub open spec fn max_crf_bits(vcodec: Seq<char>) -> u32 {
    if vcodec == "librav1e"@ || vcodec == "av1_vaapi"@ {
        0x437f_0000
    } else if vcodec == "libx264"@ || vcodec == "libx265"@ {
        0x4238_0000
    } else if vcodec == "mpeg2video"@ {
        0x41f0_0000
    } else if vcodec == "hevc_videotoolbox"@ {
        0x42c8_0000
    } else if vcodec == "libsvtav1"@ {
        0x428c_0000
    } else {
        0x425c_0000
    }
}

/// Every encoder's default crf bounds hold crf values between them.
pub proof fn law_default_crf_bounds(vcodec: Seq<char>)
    ensures
        (Single { bits: min_crf_bits(vcodec) }).lt((Single { bits: max_crf_bits(vcodec) })),
{
}

impl Encoder {
    /// The encoder of this name.
    pub fn for_test(name: &str) -> (r: Self)
        ensures
            r@ == name@,
    {
        Self(name.to_owned())
    }

    /// The encoder of this name. `svt-av1` is another name of `libsvtav1`.
    pub fn from_str(s: &str) -> (r: Self)
        ensures
            r@ == (if s@ == "svt-av1"@ {
                "libsvtav1"@
            } else {
                s@
            }),
    {
        if text::same(s, "svt-av1") {
            Self("libsvtav1".to_owned())
        } else {
            Self(s.to_owned())
        }
    }

    /// A copy.
    pub fn copy(&self) -> (r: Self)
        ensures
            r@ == self@,
    {
        Self(self.0.clone())
    }

    /// vcodec name that would work if you used it as the -e argument.
    pub fn as_str(&self) -> (r: &str)
        ensures
            r@ == self@,
    {
        self.0.as_str()
    }

    /// Whether this is the encoder of this name.
    pub fn is(&self, name: &str) -> (r: bool)
        ensures
            r == (self@ == name@),
    {
        text::same(self.0.as_str(), name)
    }

    /// Returns:
    /// * `true`: Higher crf values mean higher quality.
    /// * `false`: Higher crf values mean lower quality.
    pub fn high_crf_means_hq(&self) -> (r: bool)
        ensures
            r == (self@ == "hevc_videotoolbox"@),
    {
        self.is("hevc_videotoolbox")
    }

    /// Returns default crf-increment.
    ///
    /// Generally 0.1 if codec supports decimal crf.
    pub fn default_crf_increment(&self) -> (r: Single)
        ensures
            r.bits == increment_bits(self@),
    {
        if self.is("libx264") || self.is("libx265") || self.is("libvpx-vp9") {
            Single { bits: 0x3dcc_cccd }
        } else if self.is("libsvtav1") {
            Single { bits: 0x3e80_0000 }
        } else {
            Single { bits: 0x3f80_0000 }
        }
    }

    /// The least crf that is searched by default.
    pub fn default_min_crf(&self) -> (r: Single)
        ensures
            r.bits == min_crf_bits(self@),
    {
        if self.is("mpeg2video") {
            Single { bits: 0x4000_0000 }
        } else if self.is("libsvtav1") {
            Single { bits: 0x40a0_0000 }
        } else {
            Single { bits: 0x4120_0000 }
        }
    }

    /// The greatest crf that is searched by default.
    pub fn default_max_crf(&self) -> (r: Single)
        ensures
            r.bits == max_crf_bits(self@),
    {
        if self.is("librav1e") || self.is("av1_vaapi") {
            Single { bits: 0x437f_0000 }
        } else if self.is("libx264") || self.is("libx265") {
            Single { bits: 0x4238_0000 }
        } else if self.is("mpeg2video") {
            Single { bits: 0x41f0_0000 }
        } else if self.is("hevc_videotoolbox") {
            Single { bits: 0x42c8_0000 }
        } else if self.is("libsvtav1") {
            Single { bits: 0x428c_0000 }
        } else {
            Single { bits: 0x425c_0000 }
        }
    }

    /// The extension of encoded images.
    pub fn default_image_ext(&self) -> (r: &'static str)
        ensures
            r@ == image_ext(self@),
    {
        // ffmpeg doesn't currently have good heif support,
        // these raw formats allow crf-search to work
        if self.is("libx264") {
            "264"
        } else if self.is("libx265") {
            "265"
        } else {
            // otherwise assume av1
            "avif"
        }
    }

    /// Additional encoder specific ffmpeg arg defaults.
    pub fn default_ffmpeg_args(&self) -> (r: Vec<DefaultArg>)
        ensures
            default_views(r@) == output_defaults(self@),
    {
        let mut out: Vec<DefaultArg> = Vec::new();
        if self.is("libaom-av1") || self.is("libvpx-vp9") {
            // add `-b:v 0` for aom & vp9 to use "constant quality" mode
            out.push(DefaultArg { name: "-b:v", value: "0" });
        } else if self.is("av1_qsv") || self.is("hevc_qsv") || self.is("h264_qsv") {
            // enable lookahead mode for qsv encoders
            out.push(DefaultArg { name: "-look_ahead", value: "1" });
            out.push(DefaultArg { name: "-extbrc", value: "1" });
            out.push(DefaultArg { name: "-look_ahead_depth", value: "40" });
        }
        assert(default_views(out@) =~= output_defaults(self@));
        out
    }

    /// Additional encoder specific ffmpeg input arg defaults.
    pub fn default_ffmpeg_input_args(&self) -> (r: Vec<DefaultArg>)
        ensures
            default_views(r@) == input_defaults(self@),
    {
        let mut out: Vec<DefaultArg> = Vec::new();
        if text::ends_with(self.as_str(), "_vaapi") {
            out.push(DefaultArg { name: "-hwaccel", value: "vaapi" });
            out.push(DefaultArg { name: "-hwaccel_output_format", value: "vaapi" });
        } else if text::ends_with(self.as_str(), "_vulkan") {
            out.push(DefaultArg { name: "-hwaccel", value: "vulkan" });
            out.push(DefaultArg { name: "-hwaccel_output_format", value: "vulkan" });
        }
        assert(default_views(out@) =~= input_defaults(self@));
        out
    }
}

/// The extension of images that an encoder makes.
pub open spec fn image_ext(vcodec: Seq<char>) -> Seq<char> {
    if vcodec == "libx264"@ {
        "264"@
    } else if vcodec == "libx265"@ {
        "265"@
    } else {
        "avif"@
    }
}

// ---- key intervals ----

/// Interval between keyframes: a number of frames, or a duration.
#[derive(Debug, Clone, Copy, PartialEq, Eq, Hash, Structural)]
pub enum KeyInterval {
    Frames(i32),
    Duration(Duration),
}

/// A [`KeyInterval`] as mathematical values.
pub enum IntervalView {
    Frames(i32),
    Nanos(nat),
}

impl View for KeyInterval {
    type V = IntervalView;

    open spec fn view(&self) -> IntervalView {
        match self {
            KeyInterval::Frames(n) => IntervalView::Frames(*n),
            KeyInterval::Duration(d) => IntervalView::Nanos(d@),
        }
    }
}

/// The interval that a text spells, or the message of the error: integer
/// frames before a duration.
pub open spec fn parsed_interval(s: Seq<char>) -> Result<IntervalView, Seq<char>> {
    match outside::parsed_i32(s) {
        Some(n) => Ok(IntervalView::Frames(n)),
        None => match outside::parsed_span(s) {
            Ok(nanos) => Ok(IntervalView::Nanos(nanos)),
            Err(e) => Err("frames: "@ + outside::int_error(s) + ", duration: "@ + e),
        },
    }
}

/// How an interval is written.
pub open spec fn interval_text(i: IntervalView) -> Seq<char> {
    match i {
        IntervalView::Frames(n) => text::dec_int(n as int),
        IntervalView::Nanos(nanos) => outside::span_text(nanos),
    }
}

impl KeyInterval {
    /// Parse as integer frames or a duration.
    pub fn from_str(s: &str) -> (r: Result<Self, String>)
        requires
            outside::parsed_i32(s@) is None ==> span::adds_up(s@),
        ensures
            match r {
                Ok(i) => parsed_interval(s@) == Ok::<IntervalView, Seq<char>>(i@),
                Err(e) => parsed_interval(s@) == Err::<IntervalView, Seq<char>>(e@),
            },
    {
        match outside::parse_i32(s) {
            Ok(f) => Ok(Self::Frames(f)),
            Err(frame_err) => Self::from_span(frame_err.as_str(), outside::parse_span(s)),
        }
    }

    /// The interval of a text that is no number of frames, which `frame_err`
    /// says, by what it is as a duration.
    pub fn from_span(frame_err: &str, span: Result<Duration, String>) -> (r: Result<Self, String>)
        ensures
            match span {
                Ok(d) => r == Ok::<Self, String>(Self::Duration(d)),
                Err(e) => r matches Err(m) && m@ == "frames: "@ + frame_err@ + ", duration: "@ + e@,
            },
    {
        match span {
            Ok(d) => Ok(Self::Duration(d)),
            Err(e) => Err(text::cat4("frames: ", frame_err, ", duration: ", e.as_str())),
        }
    }

    /// How the interval is written.
    pub fn to_text(&self) -> (r: String)
        ensures
            r@ == interval_text(self@),
            parsed_interval(r@) == Ok::<IntervalView, Seq<char>>(self@),
    {
        match self {
            Self::Frames(n) => {
                proof {
                    outside::law_int_round_trip(*n);
                }
                text::dec_int_string(*n as i64)
            },
            Self::Duration(d) => {
                let r = outside::format_span(*d);
                proof {
                    lemma_unit_is_no_integer(r@);
                }
                r
            },
        }
    }
}

proof fn lemma_unit_is_no_integer(s: Seq<char>)
    requires
        s.len() > 0,
        !text::is_digit(s.last()),
    ensures
        outside::parsed_i32(s) is None,
{
    if s.len() > 1 {
        assert(s.skip(1)[s.len() - 2] == s.last());
    }
    assert(s[s.len() - 1] == s.last());
}

// ---- the frame rate of a filter ----

/// The parts between commas.
pub open spec fn comma_parts(s: Seq<char>) -> Seq<Seq<char>>
    decreases s.len(),
{
    match text::index_of(s, ',') {
        Some(i) => if 0 <= i < s.len() {
            seq![s.take(i)] + comma_parts(s.skip(i + 1))
        } else {
            seq![s]
        },
        None => seq![s],
    }
}

/// The trimmed text behind the first `fps=` with which a part begins.
pub open spec fn first_fps(parts: Seq<Seq<char>>) -> Option<Seq<char>>
    decreases parts.len(),
{
    if parts.len() == 0 {
        None
    } else if text::has_prefix(text::trimmed(parts[0]), "fps="@) {
        Some(text::trimmed(text::trimmed(parts[0]).skip(4)))
    } else {
        first_fps(parts.skip(1))
    }
}

/// A frame rate that a filter sets.
#[derive(Debug, PartialEq, Eq)]
pub enum FilterFps {
    /// A numerator and a denominator.
    Ratio(u32, u32),
    /// A rate that is to be read as `x/y` or as a float.
    Text(String),
}

/// A [`FilterFps`] as mathematical values.
pub enum FpsView {
    Ratio(u32, u32),
    Text(Seq<char>),
}

impl View for FilterFps {
    type V = FpsView;

    open spec fn view(&self) -> FpsView {
        match self {
            FilterFps::Ratio(x, y) => FpsView::Ratio(*x, *y),
            FilterFps::Text(s) => FpsView::Text(s@),
        }
    }
}

/// The frame rate that a filter sets: by name, else by number.
pub open spec fn filter_fps(vfilter: Seq<char>) -> Option<FpsView> {
    match first_fps(comma_parts(vfilter)) {
        None => None,
        Some(fps) => Some(
            if fps == "ntsc"@ {
                FpsView::Ratio(30000, 1001)
            } else if fps == "pal"@ {
                FpsView::Ratio(25, 1)
            } else if fps == "film"@ {
                FpsView::Ratio(24, 1)
            } else if fps == "ntsc_film"@ {
                FpsView::Ratio(24000, 1001)
            } else {
                FpsView::Text(fps)
            },
        ),
    }
}

/// The frame rate that a filter sets, if it does.
pub fn try_parse_fps_vfilter(vfilter: &str) -> (r: Option<FilterFps>)
    ensures
        match r {
            Some(fps) => filter_fps(vfilter@) == Some(fps@),
            None => filter_fps(vfilter@) is None,
        },
{
    let v = text::chars_of(vfilter);
    let mut from: usize = 0;
    proof {
        assert(v@.skip(0) == vfilter@);
    }
    loop
        invariant
            from <= v.len(),
            v@ == vfilter@,
            first_fps(comma_parts(vfilter@)) == first_fps(comma_parts(v@.skip(from as int))),
        decreases v.len() - from,
    {
        let rest = vstd::slice::slice_subrange(v.as_slice(), from, v.len());
        let ghost tail = v@.skip(from as int);
        assert(rest@ == tail);
        let comma = text::find_char(rest, ',');
        let end: usize = match comma {
            Some(i) => i,
            None => rest.len(),
        };
        let part = text::slice_string(rest, 0, end);
        let trimmed = text::trim(part.as_str());
        proof {
            assert(part@ == tail.take(end as int));
            if comma is None {
                assert(tail.take(end as int) == tail);
                assert(comma_parts(tail) == seq![tail]);
                assert(comma_parts(tail).skip(1) == Seq::<Seq<char>>::empty());
            } else {
                let parts = comma_parts(tail);
                assert(parts.skip(1) == comma_parts(tail.skip(end + 1)));
            }
            assert(comma_parts(tail)[0] == part@);
        }
        if text::starts_with(trimmed.as_str(), "fps=") {
            let t = text::chars_of(trimmed.as_str());
            proof {
                reveal_strlit("fps=");
            }
            let fps = text::slice_string(t.as_slice(), 4, t.len());
            let fps = text::trim(fps.as_str());
            assert(trimmed@.subrange(4, trimmed@.len() as int) == trimmed@.skip(4));
            return Some(
                if text::same(fps.as_str(), "ntsc") {
                    FilterFps::Ratio(30000, 1001)
                } else if text::same(fps.as_str(), "pal") {
                    FilterFps::Ratio(25, 1)
                } else if text::same(fps.as_str(), "film") {
                    FilterFps::Ratio(24, 1)
                } else if text::same(fps.as_str(), "ntsc_film") {
                    FilterFps::Ratio(24000, 1001)
                } else {
                    FilterFps::Text(fps)
                },
            );
        }
        match comma {
            Some(i) => {
                assert(i < rest.len());
                assert(tail.skip(i + 1) == v@.skip(from + i + 1));
                from = from + i + 1;
            },
            None => {
                assert(first_fps(comma_parts(tail).skip(1)) is None);
                return None;
            },
        }
    }
}

// ---- passthrough arguments ----

/// An svt-av1 argument without leading dashes, unless another option sets it.
pub fn parse_svt_arg(arg: &str) -> (r: Result<String, ValidationError>)
    ensures
        match rules::denied_svt_key(text::strip_start(arg@, '-')) {
            Some(k) => r matches Err(ValidationError::ReservedSvtArg { key }) && key@ == k,
            None => r matches Ok(s) && s@ == text::strip_start(arg@, '-'),
        },
{
    let arg = text::trim_start_char(arg, '-');
    match rules::validate_svt_arg(arg.as_str()) {
        Ok(()) => Ok(arg),
        Err(e) => Err(e),
    }
}

/// `arg` with a dash before it, if it has none.
pub open spec fn with_dash(arg: Seq<char>) -> Seq<char> {
    if text::has_prefix(arg, "-"@) {
        arg
    } else {
        "-"@ + arg
    }
}

/// An encoder argument with a leading dash, unless `--svt` sets it.
pub fn parse_enc_arg(arg: &str) -> (r: Result<String, ValidationError>)
    ensures
        if text::has_prefix(with_dash(arg@), "-svtav1-params"@) {
            r matches Err(ValidationError::Svtav1ParamsInEncoderArg)
        } else {
            r matches Ok(s) && s@ == with_dash(arg@)
        },
{
    let arg = if text::starts_with(arg, "-") {
        arg.to_owned()
    } else {
        text::cat2("-", arg)
    };
    match rules::validate_enc_arg(arg.as_str()) {
        Ok(()) => Ok(arg),
        Err(e) => Err(e),
    }
}

/// An option and its value, as one argument `option=value` gives them.
#[derive(Debug, PartialEq, Eq)]
pub struct PassthroughArg {
    pub option: String,
    pub value: Option<String>,
}

/// The option of an argument: what stands before the first `=`.
pub open spec fn arg_option(raw: Seq<char>) -> Seq<char> {
    match text::split_at_first(raw, '=') {
        Some((option, _)) => option,
        None => raw,
    }
}

/// The option of an argument, and its value if it has one.
pub open spec fn arg_values(raw: Seq<char>) -> Seq<Seq<char>> {
    match text::split_at_first(raw, '=') {
        Some((option, value)) => seq![option, value],
        None => seq![raw],
    }
}

/// Whether an argument sets svt-av1's parameters.
pub open spec fn sets_svt_params(raw: Seq<char>) -> bool {
    text::strip_start(arg_option(raw), '-') == "svtav1-params"@
}

impl PassthroughArg {
    /// The option and value of an argument.
    pub fn parse(raw: &str) -> (r: Self)
        ensures
            r.option@ == arg_option(raw@),
            match text::split_at_first(raw@, '=') {
                Some((_, value)) => r.value matches Some(v) && v@ == value,
                None => r.value is None,
            },
    {
        match text::split_once(raw, '=') {
            Some((option, value)) => Self { option, value: Some(value) },
            None => Self { option: raw.to_owned(), value: None },
        }
    }

    /// The option, and the value if there is one.
    pub fn values(self) -> (r: Vec<String>)
        ensures
            text::views(r@) == (match self.value {
                Some(value) => seq![self.option@, value@],
                None => seq![self.option@],
            }),
    {
        let mut out: Vec<String> = Vec::new();
        let ghost option = self.option@;
        out.push(self.option);
        match self.value {
            Some(value) => {
                let ghost v = value@;
                out.push(value);
                assert(text::views(out@) =~= seq![option, v]);
            },
            None => {
                assert(text::views(out@) =~= seq![option]);
            },
        }
        out
    }

    /// Whether this sets svt-av1's parameters.
    pub fn is_svtav1_params(&self) -> (r: bool)
        ensures
            r == (text::strip_start(self.option@, '-') == "svtav1-params"@),
    {
        text::same(text::trim_start_char(self.option.as_str(), '-').as_str(), "svtav1-params")
    }
}

/// The options and values of the arguments, in order.
pub open spec fn passthrough(args: Seq<Seq<char>>) -> Seq<Seq<char>>
    decreases args.len(),
{
    if args.len() == 0 {
        Seq::empty()
    } else {
        passthrough(args.drop_last()) + arg_values(args.last())
    }
}

/// The arguments that do not set svt-av1's parameters, in order.
pub open spec fn without_svt_params(args: Seq<Seq<char>>) -> Seq<Seq<char>> {
    args.filter(|a: Seq<char>| !sets_svt_params(a))
}

/// The arguments that set svt-av1's parameters, in order.
pub open spec fn only_svt_params(args: Seq<Seq<char>>) -> Seq<Seq<char>> {
    args.filter(|a: Seq<char>| sets_svt_params(a))
}

proof fn lemma_take_next(args: Seq<Seq<char>>, i: int)
    requires
        0 <= i < args.len(),
    ensures
        args.take(i + 1).drop_last() == args.take(i),
        args.take(i + 1).last() == args[i],
        passthrough(args.take(i + 1)) == passthrough(args.take(i)) + arg_values(args[i]),
{
    assert(args.take(i + 1).drop_last() =~= args.take(i));
}

proof fn lemma_filter_next(args: Seq<Seq<char>>, p: spec_fn(Seq<char>) -> bool, i: int)
    requires
        0 <= i < args.len(),
    ensures
        args.take(i + 1).filter(p) == (if p(args[i]) {
            args.take(i).filter(p).push(args[i])
        } else {
            args.take(i).filter(p)
        }),
{
    reveal(Seq::filter);
    assert(args.take(i + 1).drop_last() =~= args.take(i));
    assert(args.take(i + 1).last() == args[i]);
}

/// Appends a list to another.
fn append_all(out: &mut Vec<String>, more: Vec<String>)
    ensures
        text::views(final(out)@) == text::views(old(out)@) + text::views(more@),
{
    let ghost added = text::views(more@);
    let mut more = more;
    out.append(&mut more);
    assert(text::views(out@) =~= text::views(old(out)@) + added);
}

/// The options and values of the arguments, in order.
pub fn collect_passthrough_args(args: &[String]) -> (r: Vec<String>)
    ensures
        text::views(r@) == passthrough(text::views(args@)),
{
    let mut out: Vec<String> = Vec::new();
    let ghost all = text::views(args@);
    let mut i: usize = 0;
    while i < args.len()
        invariant
            i <= args.len(),
            all == text::views(args@),
            text::views(out@) == passthrough(all.take(i as int)),
        decreases args.len() - i,
    {
        proof {
            lemma_take_next(all, i as int);
        }
        append_all(&mut out, PassthroughArg::parse(args[i].as_str()).values());
        i += 1;
    }
    assert(all.take(i as int) =~= all);
    out
}

/// `args`, with the default behind them unless its name is among them.
pub open spec fn with_default(args: Seq<Seq<char>>, d: (Seq<char>, Seq<char>)) -> Seq<Seq<char>> {
    if args.contains(d.0) {
        args
    } else {
        args.push(d.0).push(d.1)
    }
}

/// `args` with each default from the `i`th on, in order.
pub open spec fn with_defaults(
    args: Seq<Seq<char>>,
    defaults: Seq<(Seq<char>, Seq<char>)>,
    i: int,
) -> Seq<Seq<char>>
    decreases defaults.len() - i,
{
    if i < 0 || i >= defaults.len() {
        args
    } else {
        with_defaults(with_default(args, defaults[i]), defaults, i + 1)
    }
}

/// The first index from `i` on at which `name` stands before `none`.
pub open spec fn none_pair(args: Seq<Seq<char>>, name: Seq<char>, i: int) -> Option<int>
    decreases args.len() - i,
{
    if i < 0 || i + 1 >= args.len() {
        None
    } else if args[i] == name && args[i + 1] == "none"@ {
        Some(i)
    } else {
        none_pair(args, name, i + 1)
    }
}

/// `args` without the first pair of `name` and `none`.
pub open spec fn without_none(args: Seq<Seq<char>>, name: Seq<char>) -> Seq<Seq<char>> {
    match none_pair(args, name, 0) {
        Some(i) => args.take(i) + args.skip(i + 2),
        None => args,
    }
}

/// `args` without the pairs that switch a default from the `i`th on off.
pub open spec fn without_nones(
    args: Seq<Seq<char>>,
    defaults: Seq<(Seq<char>, Seq<char>)>,
    i: int,
) -> Seq<Seq<char>>
    decreases defaults.len() - i,
{
    if i < 0 || i >= defaults.len() {
        args
    } else {
        without_nones(without_none(args, defaults[i].0), defaults, i + 1)
    }
}

fn add_defaults(args: &mut Vec<String>, defaults: &Vec<DefaultArg>)
    ensures
        text::views(final(args)@) == with_defaults(
            text::views(old(args)@),
            default_views(defaults@),
            0,
        ),
{
    let ghost all = default_views(defaults@);
    let ghost start = text::views(args@);
    let mut i: usize = 0;
    while i < defaults.len()
        invariant
            i <= defaults.len(),
            all == default_views(defaults@),
            with_defaults(text::views(args@), all, i as int) == with_defaults(start, all, 0),
        decreases defaults.len() - i,
    {
        let ghost before = text::views(args@);
        if !text::list_contains(args.as_slice(), defaults[i].name) {
            args.push(defaults[i].name.to_owned());
            args.push(defaults[i].value.to_owned());
        }
        proof {
            assert(text::views(args@) =~= with_default(before, all[i as int]));
        }
        i += 1;
    }
}

fn remove_nones(args: &mut Vec<String>, defaults: &Vec<DefaultArg>)
    ensures
        text::views(final(args)@) == without_nones(
            text::views(old(args)@),
            default_views(defaults@),
            0,
        ),
{
    let ghost all = default_views(defaults@);
    let ghost start = text::views(args@);
    let mut i: usize = 0;
    while i < defaults.len()
        invariant
            i <= defaults.len(),
            all == default_views(defaults@),
            without_nones(text::views(args@), all, i as int) == without_nones(start, all, 0),
        decreases defaults.len() - i,
    {
        remove_none(args, defaults[i].name);
        i += 1;
    }
}

fn remove_none(args: &mut Vec<String>, name: &str)
    ensures
        text::views(final(args)@) == without_none(text::views(old(args)@), name@),
{
    let ghost all = text::views(args@);
    let mut i: usize = 0;
    while args.len() >= 2 && i < args.len() - 1
        invariant
            i <= args.len(),
            all == text::views(args@),
            args@ == old(args)@,
            none_pair(all, name@, 0) == none_pair(all, name@, i as int),
        decreases args.len() - i,
    {
        if text::same(args[i].as_str(), name) && text::same(args[i + 1].as_str(), "none") {
            args.remove(i);
            args.remove(i);
            assert(text::views(args@) =~= all.take(i as int) + all.skip(i + 2));
            return ;
        }
        i += 1;
    }
}

// ---- the arguments of an encode ----

/// Common svt-av1/ffmpeg input encoding arguments.
#[derive(Debug, PartialEq, Eq)]
pub struct Encode {
    /// Encoder override.
    pub encoder: Encoder,
    /// Input video file.
    pub input: String,
    /// Ffmpeg video filter applied to the input before encoding.
    pub vfilter: Option<String>,
    /// Pixel format. libsvtav1, libaom-av1 & librav1e default to yuv420p10le.
    pub pix_format: Option<PixelFormat>,
    /// Encoder preset.
    pub preset: Option<String>,
    /// Interval between keyframes. Defaults to 10s if the input duration is
    /// over 3m.
    pub keyint: Option<KeyInterval>,
    /// Svt-av1 scene change detection. Defaults on if using default keyint &
    /// the input duration is over 3m. Otherwise off.
    pub scd: Option<bool>,
    /// Additional svt-av1 arg(s).
    pub svt_args: Vec<String>,
    /// Additional ffmpeg encoder arg(s), as ffmpeg output file options.
    pub enc_args: Vec<String>,
    /// Additional ffmpeg input encoder arg(s), as ffmpeg input file options.
    pub enc_input_args: Vec<String>,
}

/// Where a frame rate comes from.
#[derive(Debug, Clone, Copy, PartialEq, Eq, Structural)]
pub enum FpsSource {
    Filter,
    Probe,
}

/// How the interval between keyframes is found.
#[derive(Debug, Clone, Copy, PartialEq, Eq, Structural)]
pub enum KeyintPlan {
    /// No interval is set.
    Unset,
    Frames(i32),
    /// A span, converted to frames with a frame rate.
    Scaled { span: Duration, fps: FpsSource },
}

/// A [`KeyintPlan`] as mathematical values.
pub enum PlanView {
    Unset,
    Frames(i32),
    Scaled(nat, FpsSource),
}

impl View for KeyintPlan {
    type V = PlanView;

    open spec fn view(&self) -> PlanView {
        match self {
            KeyintPlan::Unset => PlanView::Unset,
            KeyintPlan::Frames(n) => PlanView::Frames(*n),
            KeyintPlan::Scaled { span, fps } => PlanView::Scaled(span@, *fps),
        }
    }
}

/// Why there are no ffmpeg arguments.
#[derive(Debug, PartialEq, Eq)]
pub enum EncodeArgsError {
    Rule(ValidationError),
    Probe(ProbeError),
}

impl EncodeArgsError {
    /// What went wrong.
    pub open spec fn text(self) -> Seq<char> {
        match self {
            EncodeArgsError::Rule(e) => e.text(Seq::empty()),
            EncodeArgsError::Probe(e) => e@,
        }
    }

    /// What went wrong.
    pub fn message(&self) -> (r: String)
        ensures
            r@ == self.text(),
    {
        match self {
            Self::Rule(e) => {
                proof {
                    reveal_strlit("");
                    assert(""@ =~= Seq::empty());
                }
                e.message("")
            },
            Self::Probe(e) => e.0.clone(),
        }
    }
}

/// The shortest input for which keyframes are spaced by default, in seconds.
pub const KEYINT_DEFAULT_INPUT_MIN_SECS: u64 = 180;

/// The default spacing of keyframes, in seconds.
pub const KEYINT_DEFAULT_SECS: u64 = 10;

/// `prefix` and an optional value.
pub open spec fn opt_part(prefix: Seq<char>, value: Option<Seq<char>>) -> Seq<char> {
    match value {
        Some(v) => prefix + v,
        None => Seq::empty(),
    }
}

/// `prefix` and a value, for each value.
pub open spec fn list_part(prefix: Seq<char>, values: Seq<Seq<char>>) -> Seq<char>
    decreases values.len(),
{
    if values.len() == 0 {
        Seq::empty()
    } else {
        list_part(prefix, values.drop_last()) + prefix + values.last()
    }
}

/// The values without leading dashes.
pub open spec fn undashed(values: Seq<Seq<char>>) -> Seq<Seq<char>> {
    values.map_values(|v: Seq<char>| text::strip_start(v, '-'))
}

/// How a truth value is written.
pub open spec fn bool_text(b: bool) -> Seq<char> {
    if b {
        "true"@
    } else {
        "false"@
    }
}

/// The view of an optional string.
pub open spec fn opt_view(s: Option<String>) -> Option<Seq<char>> {
    match s {
        Some(s) => Some(s@),
        None => None,
    }
}

fn push_opt(out: &mut String, prefix: &str, value: &Option<String>)
    ensures
        final(out)@ == old(out)@ + opt_part(prefix@, opt_view(*value)),
{
    match value {
        Some(v) => {
            out.append(prefix);
            out.append(v.as_str());
            assert(out@ =~= old(out)@ + (prefix@ + v@));
        },
        None => {
            assert(out@ =~= old(out)@ + Seq::<char>::empty());
        },
    }
}

fn push_list(out: &mut String, prefix: &str, values: &[String], strip: bool)
    ensures
        final(out)@ == old(out)@ + list_part(
            prefix@,
            if strip {
                undashed(text::views(values@))
            } else {
                text::views(values@)
            },
        ),
{
    let ghost all = if strip {
        undashed(text::views(values@))
    } else {
        text::views(values@)
    };
    let mut i: usize = 0;
    while i < values.len()
        invariant
            i <= values.len(),
            all == (if strip {
                undashed(text::views(values@))
            } else {
                text::views(values@)
            }),
            out@ == old(out)@ + list_part(prefix@, all.take(i as int)),
        decreases values.len() - i,
    {
        proof {
            assert(all.take(i + 1).drop_last() =~= all.take(i as int));
            assert(all.take(i + 1).last() == all[i as int]);
        }
        out.append(prefix);
        if strip {
            out.append(text::trim_start_char(values[i].as_str(), '-').as_str());
        } else {
            out.append(values[i].as_str());
        }
        assert(out@ =~= old(out)@ + list_part(prefix@, all.take(i + 1)));
        i += 1;
    }
    assert(all.take(i as int) =~= all);
}

impl Encode {
    /// The encoder, where it is not the default one.
    pub open spec fn other_encoder(&self) -> Option<Seq<char>> {
        if self.encoder@ != "libsvtav1"@ {
            Some(self.encoder@)
        } else {
            None
        }
    }

    /// The command that encodes with these arguments, by how the crf, the
    /// input, the key frame interval and the filter are written.
    pub open spec fn hint_of(
        &self,
        crf: Seq<char>,
        input: Seq<char>,
        keyint: Option<Seq<char>>,
        vfilter: Option<Seq<char>>,
    ) -> Seq<char> {
        let scd = match self.scd {
            Some(b) => Some(bool_text(b)),
            None => None,
        };
        let pix_format = match self.pix_format {
            Some(p) => Some(p.name()),
            None => None,
        };
        "ab-av1 encode"@ + opt_part(" -e "@, self.other_encoder()) + " -i "@ + input + " --crf "@
            + crf + opt_part(" --preset "@, opt_view(self.preset)) + opt_part(" --keyint "@, keyint)
            + opt_part(" --scd "@, scd) + opt_part(" --pix-format "@, pix_format) + opt_part(
            " --vfilter "@,
            vfilter,
        ) + list_part(" --svt "@, text::views(self.svt_args@)) + list_part(
            " --enc-input "@,
            undashed(text::views(self.enc_input_args@)),
        ) + list_part(" --enc "@, undashed(text::views(self.enc_args@)))
    }

    /// The command that encodes with these arguments.
    pub open spec fn hint(&self, crf: Seq<char>) -> Seq<char> {
        let keyint = match self.keyint {
            Some(k) => Some(interval_text(k@)),
            None => None,
        };
        let vfilter = match self.vfilter {
            Some(f) => Some(outside::quoted(f@)),
            None => None,
        };
        self.hint_of(crf, outside::shell_word(self.input@), keyint, vfilter)
    }

    /// The command that encodes with these arguments.
    pub fn encode_hint(&self, crf: &Crf) -> (r: String)
        ensures
            r@ == self.hint(crf.terse@),
    {
        let input = outside::shell_escape_word(self.input.as_str());
        let keyint = match &self.keyint {
            Some(keyint) => Some(keyint.to_text()),
            None => None,
        };
        let vfilter = match &self.vfilter {
            Some(filter) => Some(outside::quote(filter.as_str())),
            None => None,
        };
        self.hint_with(crf, input.as_str(), &keyint, &vfilter)
    }

    /// The command that encodes with these arguments, by how the input, the
    /// key frame interval and the filter are written.
    pub fn hint_with(
        &self,
        crf: &Crf,
        input: &str,
        keyint: &Option<String>,
        vfilter: &Option<String>,
    ) -> (r: String)
        ensures
            r@ == self.hint_of(crf.terse@, input@, opt_view(*keyint), opt_view(*vfilter)),
    {
        let mut hint = "ab-av1 encode".to_owned();
        let encoder = if self.encoder.is("libsvtav1") {
            None
        } else {
            Some(self.encoder.as_str().to_owned())
        };
        push_opt(&mut hint, " -e ", &encoder);
        hint.append(" -i ");
        hint.append(input);
        hint.append(" --crf ");
        hint.append(crf.terse.as_str());
        push_opt(&mut hint, " --preset ", &self.preset);
        push_opt(&mut hint, " --keyint ", keyint);
        let scd = match self.scd {
            Some(true) => Some("true".to_owned()),
            Some(false) => Some("false".to_owned()),
            None => None,
        };
        push_opt(&mut hint, " --scd ", &scd);
        let pix_fmt = match self.pix_format {
            Some(f) => Some(f.as_str().to_owned()),
            None => None,
        };
        push_opt(&mut hint, " --pix-format ", &pix_fmt);
        push_opt(&mut hint, " --vfilter ", vfilter);
        push_list(&mut hint, " --svt ", self.svt_args.as_slice(), false);
        push_list(&mut hint, " --enc-input ", self.enc_input_args.as_slice(), true);
        push_list(&mut hint, " --enc ", self.enc_args.as_slice(), true);
        hint
    }

    /// How the interval between keyframes is found for an input.
    pub open spec fn keyint_plan(&self, probe: &Ffprobe, filter_fps: bool) -> PlanView {
        let fps = if filter_fps {
            FpsSource::Filter
        } else {
            FpsSource::Probe
        };
        match self.keyint {
            Some(KeyInterval::Frames(n)) => PlanView::Frames(n),
            Some(KeyInterval::Duration(span)) => PlanView::Scaled(span@, fps),
            None => match probe.duration {
                Ok(duration) => if duration@ > KEYINT_DEFAULT_INPUT_MIN_SECS * 1_000_000_000 && (
                filter_fps || probe.fps is Ok) {
                    PlanView::Scaled((KEYINT_DEFAULT_SECS * 1_000_000_000) as nat, fps)
                } else {
                    PlanView::Unset
                },
                Err(_) => PlanView::Unset,
            },
        }
    }

    /// How the interval between keyframes is found for an input. The frame
    /// rate of a filter goes before that of the input; `filter_fps` says
    /// whether the filter sets one.
    pub fn keyint(&self, probe: &Ffprobe, filter_fps: bool) -> (r: KeyintPlan)
        ensures
            r@ == self.keyint_plan(probe, filter_fps),
    {
        let fps = if filter_fps {
            FpsSource::Filter
        } else {
            FpsSource::Probe
        };
        match self.keyint {
            Some(KeyInterval::Frames(n)) => KeyintPlan::Frames(n),
            Some(KeyInterval::Duration(span)) => KeyintPlan::Scaled { span, fps },
            None => match &probe.duration {
                Ok(duration) => {
                    let least = Duration::from_secs(KEYINT_DEFAULT_INPUT_MIN_SECS);
                    if least.less_than(duration) && (filter_fps || probe.fps.is_ok()) {
                        KeyintPlan::Scaled { span: Duration::from_secs(KEYINT_DEFAULT_SECS), fps }
                    } else {
                        KeyintPlan::Unset
                    }
                },
                Err(_) => KeyintPlan::Unset,
            },
        }
    }

    /// Whether scene changes are detected: as asked for, by default where the
    /// interval between keyframes is a default.
    pub open spec fn detects_scenes(&self, keyint: Option<i32>) -> bool {
        match self.scd {
            Some(scd) => scd,
            None => self.keyint is None && keyint is Some,
        }
    }

    /// The parameters for svt-av1.
    pub open spec fn svt_params(&self, crf: Seq<char>, keyint: Option<i32>) -> Seq<Seq<char>> {
        let own = if self.encoder@ == "libsvtav1"@ {
            seq![
                if self.detects_scenes(keyint) {
                    "scd=1"@
                } else {
                    "scd=0"@
                },
                "crf="@ + crf,
            ] + text::views(self.svt_args@)
        } else {
            Seq::empty()
        };
        own + only_svt_params(text::views(self.enc_args@))
    }

    /// The output arguments before the encoder's defaults.
    pub open spec fn own_output_args(&self, crf: Seq<char>, keyint: Option<i32>) -> Seq<Seq<char>> {
        let args = passthrough(without_svt_params(text::views(self.enc_args@)));
        let params = self.svt_params(crf, keyint);
        let args = if params.len() > 0 {
            args.push("-svtav1-params"@).push(text::joined(params, ":"@))
        } else {
            args
        };
        match keyint {
            Some(n) => if args.contains("-g"@) {
                args
            } else {
                args.push("-g"@).push(text::dec_int(n as int))
            },
            None => args,
        }
    }

    /// The output arguments.
    pub open spec fn output_args(&self, crf: Seq<char>, keyint: Option<i32>) -> Seq<Seq<char>> {
        with_defaults(self.own_output_args(crf, keyint), output_defaults(self.encoder@), 0)
    }

    /// The input arguments. Those that are set to `none` switch defaults off.
    pub open spec fn input_args(&self) -> Seq<Seq<char>> {
        let defaults = input_defaults(self.encoder@);
        without_nones(
            with_defaults(passthrough(text::views(self.enc_input_args@)), defaults, 0),
            defaults,
            0,
        )
    }

    /// The pixel format, by default that of the AV1 encoders.
    pub open spec fn pix_fmt(&self) -> Option<PixelFormat> {
        if self.pix_format is Some {
            self.pix_format
        } else if self.encoder@ == "libsvtav1"@ || self.encoder@ == "libaom-av1"@ || self.encoder@
            == "librav1e"@ {
            Some(PixelFormat::Yuv420p10le)
        } else {
            None
        }
    }

    /// The preset, by default that of svt-av1.
    pub open spec fn preset_text(&self) -> Option<Seq<char>> {
        match self.preset {
            Some(p) => Some(p@),
            None => if self.encoder@ == "libsvtav1"@ {
                Some("8"@)
            } else {
                None
            },
        }
    }

    /// Whether the arguments for svt-av1 are given to another encoder.
    pub open spec fn misuses_svt(&self) -> bool {
        self.encoder@ != "libsvtav1"@ && self.svt_args@.len() > 0
    }

    /// The first of the resulting arguments that is reserved.
    pub open spec fn broken_rule(&self, crf: Seq<char>, keyint: Option<i32>) -> Option<
        rules::BrokenArg,
    > {
        rules::first_reserved_arg(self.input_args(), self.output_args(crf, keyint))
    }

    /// Whether `args` are the ffmpeg arguments for these arguments.
    pub open spec fn lowers_to(
        &self,
        crf: &Crf,
        keyint: Option<i32>,
        args: FfmpegEncodeArgs,
    ) -> bool {
        &&& args.input@ == self.input@
        &&& args.vcodec@ == self.encoder@
        &&& args.vfilter == self.vfilter
        &&& args.pix_fmt == self.pix_fmt()
        &&& args.crf == *crf
        &&& opt_view(args.preset) == self.preset_text()
        &&& text::views(args.output_args@) == self.output_args(crf.display@, keyint)
        &&& text::views(args.input_args@) == self.input_args()
        &&& !args.video_only
    }

    /// The ffmpeg arguments. `keyint` is the interval between keyframes in
    /// frames, or why it is not known. The first rule that is broken is the
    /// error: svt-av1 arguments for another encoder before an unknown
    /// interval, reserved input arguments before reserved output arguments.
    pub fn to_ffmpeg_args(&self, crf: &Crf, keyint: Result<Option<i32>, ProbeError>) -> (r: Result<
        FfmpegEncodeArgs,
        EncodeArgsError,
    >)
        ensures
            if self.misuses_svt() {
                r matches Err(EncodeArgsError::Rule(ValidationError::SvtArgsOnNonSvtAv1))
            } else {
                match keyint {
                    Err(e) => r matches Err(EncodeArgsError::Probe(p)) && p == e,
                    Ok(keyint) => match self.broken_rule(crf.display@, keyint) {
                        Some(b) => r matches Err(EncodeArgsError::Rule(e)) && rules::error_is(
                            e,
                            b,
                        ),
                        None => r matches Ok(args) && self.lowers_to(crf, keyint, args),
                    },
                }
            },
    {
        let svtav1 = self.encoder.is("libsvtav1");
        if !svtav1 && self.svt_args.len() > 0 {
            return Err(EncodeArgsError::Rule(ValidationError::SvtArgsOnNonSvtAv1));
        }
        let preset = match &self.preset {
            Some(n) => Some(n.clone()),
            None => if svtav1 {
                Some("8".to_owned())
            } else {
                None
            },
        };
        let keyint = match keyint {
            Ok(keyint) => keyint,
            Err(e) => return Err(EncodeArgsError::Probe(e)),
        };

        let args = self.build_output_args(crf.display.as_str(), keyint);
        let input_args = self.build_input_args();

        let pix_fmt = match self.pix_format {
            Some(f) => Some(f),
            None => if svtav1 || self.encoder.is("libaom-av1") || self.encoder.is("librav1e") {
                Some(PixelFormat::Yuv420p10le)
            } else {
                None
            },
        };

        // ban usage of the bits we already set via other args & logic
        match rules::validate_reserved_args(input_args.as_slice(), args.as_slice()) {
            Ok(()) => {},
            Err(e) => return Err(EncodeArgsError::Rule(e)),
        }

        Ok(
            FfmpegEncodeArgs {
                input: self.input.clone(),
                vcodec: self.encoder.as_str().to_owned(),
                vfilter: text::owned_opt(&self.vfilter),
                pix_fmt,
                crf: crf.copy(),
                preset,
                output_args: args,
                input_args,
                video_only: false,
            },
        )
    }

    fn build_output_args(&self, crf: &str, keyint: Option<i32>) -> (r: Vec<String>)
        ensures
            text::views(r@) == self.output_args(crf@, keyint),
    {
        let mut params: Vec<String> = Vec::new();
        if self.encoder.is("libsvtav1") {
            let scd = match self.scd {
                Some(scd) => scd,
                None => self.keyint.is_none() && keyint.is_some(),
            };
            params.push(
                if scd {
                    "scd=1".to_owned()
                } else {
                    "scd=0".to_owned()
                },
            );
            // include crf in svtav1-params to support quarter-steps
            params.push(text::cat2("crf=", crf));
            // add all --svt args
            append_all(&mut params, text::clone_list(self.svt_args.as_slice()));
        }
        let ghost own = text::views(params@);
        let ghost all = text::views(self.enc_args@);
        let ghost sets = |a: Seq<char>| sets_svt_params(a);
        let ghost keeps = |a: Seq<char>| !sets_svt_params(a);
        let mut args: Vec<String> = Vec::new();
        proof {
            reveal(Seq::filter);
            assert(all.take(0).filter(sets) =~= Seq::empty());
            assert(all.take(0).filter(keeps) =~= Seq::empty());
        }
        let mut i: usize = 0;
        while i < self.enc_args.len()
            invariant
                i <= self.enc_args.len(),
                all == text::views(self.enc_args@),
                sets == (|a: Seq<char>| sets_svt_params(a)),
                keeps == (|a: Seq<char>| !sets_svt_params(a)),
                text::views(params@) == own + all.take(i as int).filter(sets),
                text::views(args@) == passthrough(all.take(i as int).filter(keeps)),
            decreases self.enc_args.len() - i,
        {
            let parsed = PassthroughArg::parse(self.enc_args[i].as_str());
            proof {
                lemma_filter_next(all, sets, i as int);
                lemma_filter_next(all, keeps, i as int);
                assert(sets(all[i as int]) == sets_svt_params(all[i as int]));
                assert(keeps(all[i as int]) == !sets_svt_params(all[i as int]));
            }
            if parsed.is_svtav1_params() {
                let ghost before = text::views(params@);
                params.push(self.enc_args[i].clone());
                proof {
                    let kept = all.take(i as int).filter(sets);
                    assert(text::views(params@) =~= before.push(all[i as int]));
                    assert((own + kept).push(all[i as int]) =~= own + kept.push(all[i as int]));
                }
            } else {
                append_all(&mut args, parsed.values());
                proof {
                    let kept = all.take(i as int).filter(keeps);
                    assert(kept.push(all[i as int]).drop_last() =~= kept);
                }
            }
            i += 1;
        }
        assert(all.take(i as int) =~= all);

        if params.len() > 0 {
            args.push("-svtav1-params".to_owned());
            args.push(text::join(params.as_slice(), ":"));
        }
        proof {
            let base = passthrough(without_svt_params(all));
            assert(text::views(params@) == self.svt_params(crf@, keyint));
            assert(text::views(args@) =~= (if params@.len() > 0 {
                base.push("-svtav1-params"@).push(
                    text::joined(self.svt_params(crf@, keyint), ":"@),
                )
            } else {
                base
            }));
        }

        // Set keyint/-g for all vcodecs
        if let Some(keyint) = keyint {
            if !text::list_contains(args.as_slice(), "-g") {
                args.push("-g".to_owned());
                args.push(text::dec_int_string(keyint as i64));
            }
        }
        assert(text::views(args@) =~= self.own_output_args(crf@, keyint));
        let defaults = self.encoder.default_ffmpeg_args();
        add_defaults(&mut args, &defaults);
        args
    }

    fn build_input_args(&self) -> (r: Vec<String>)
        ensures
            text::views(r@) == self.input_args(),
    {
        let mut input_args = collect_passthrough_args(self.enc_input_args.as_slice());
        let defaults = self.encoder.default_ffmpeg_input_args();
        add_defaults(&mut input_args, &defaults);
        // support setting possibly default args as "none" to omit them
        remove_nones(&mut input_args, &defaults);
        input_args
    }
}

/// Without an interval of its own, an input of no more than three minutes or of
/// unknown duration gets none; a longer one whose frame rate is known gets the
/// default.
pub proof fn law_default_keyint(e: &Encode, probe: &Ffprobe, filter_fps: bool)
    requires
        e.keyint is None,
    ensures
        e.keyint_plan(probe, filter_fps) is Unset <==> !(probe.duration matches Ok(d) && d@
            > KEYINT_DEFAULT_INPUT_MIN_SECS * 1_000_000_000 && (filter_fps || probe.fps is Ok)),
{
}

/// Scene change detection is as it was asked for; where nothing was, it is on
/// exactly when the interval between keyframes is a default.
pub proof fn law_scd(e: &Encode, crf: Seq<char>, keyint: Option<i32>)
    requires
        e.encoder@ == "libsvtav1"@,
    ensures
        e.svt_params(crf, keyint).len() >= 2,
        e.svt_params(crf, keyint)[0] == (match e.scd {
            Some(true) => "scd=1"@,
            Some(false) => "scd=0"@,
            None => if e.keyint is None && keyint is Some {
                "scd=1"@
            } else {
                "scd=0"@
            },
        }),
        e.svt_params(crf, keyint)[1] == "crf="@ + crf,
{
}

/// Adding defaults keeps what is there, in order, at the front.
pub proof fn law_defaults_keep_args(
    args: Seq<Seq<char>>,
    defaults: Seq<(Seq<char>, Seq<char>)>,
    i: int,
)
    requires
        0 <= i,
    ensures
        args.is_prefix_of(with_defaults(args, defaults, i)),
        forall|j: int| i <= j < defaults.len() ==> with_defaults(args, defaults, i).contains(
            (#[trigger] defaults[j]).0,
        ),
    decreases defaults.len() - i,
{
    if i < defaults.len() {
        let next = with_default(args, defaults[i]);
        law_defaults_keep_args(next, defaults, i + 1);
        let all = with_defaults(args, defaults, i);
        assert(args.is_prefix_of(next));
        assert forall|j: int| i <= j < defaults.len() implies all.contains(
            (#[trigger] defaults[j]).0,
        ) by {
            if j == i {
                if args.contains(defaults[i].0) {
                    let k = args.index_of(defaults[i].0);
                    assert(next[k] == defaults[i].0);
                    assert(all[k] == next[k]);
                } else {
                    let k = args.len() as int;
                    assert(next[k] == defaults[i].0);
                    assert(all[k] == next[k]);
                }
            }
        }
    }
}

/// A further output argument that is not reserved changes nothing.
proof fn lemma_push_unreserved(args: Seq<Seq<char>>, arg: Seq<char>)
    requires
        rules::output_hint(arg) is None,
    ensures
        rules::reserves_output(args.push(arg)) == rules::reserves_output(args),
        rules::reserves_input(args.push(arg)) == rules::reserves_input(args),
{
    let more = args.push(arg);
    rules::lemma_reserved_shape(arg);
    if rules::reserves_output(args) {
        let i = choose|i: int|
            0 <= i < args.len() && rules::output_hint(#[trigger] args[i]) is Some;
        assert(more[i] == args[i]);
    }
    if rules::reserves_input(args) {
        let i = choose|i: int|
            0 <= i < args.len() && rules::input_hint(#[trigger] args[i]) is Some;
        assert(more[i] == args[i]);
    }
}

/// Defaults that are not reserved change nothing.
proof fn lemma_defaults_unreserved(
    args: Seq<Seq<char>>,
    defaults: Seq<(Seq<char>, Seq<char>)>,
    i: int,
)
    requires
        0 <= i,
        forall|j: int|
            0 <= j < defaults.len() ==> rules::output_hint((#[trigger] defaults[j]).0) is None
                && rules::output_hint(defaults[j].1) is None,
    ensures
        rules::reserves_output(with_defaults(args, defaults, i)) == rules::reserves_output(args),
        rules::reserves_input(with_defaults(args, defaults, i)) == rules::reserves_input(args),
    decreases defaults.len() - i,
{
    if i < defaults.len() {
        let d = defaults[i];
        lemma_push_unreserved(args, d.0);
        lemma_push_unreserved(args.push(d.0), d.1);
        lemma_defaults_unreserved(with_default(args, d), defaults, i + 1);
    }
}

proof fn lemma_none_pair(args: Seq<Seq<char>>, name: Seq<char>, i: int)
    requires
        0 <= i,
    ensures
        none_pair(args, name, i) matches Some(k) ==> i <= k && k + 1 < args.len() && args[k]
            == name && args[k + 1] == "none"@,
    decreases args.len() - i,
{
    if i + 1 < args.len() {
        lemma_none_pair(args, name, i + 1);
    }
}

/// Switching defaults off that are not reserved changes nothing.
proof fn lemma_nones_unreserved(
    args: Seq<Seq<char>>,
    defaults: Seq<(Seq<char>, Seq<char>)>,
    i: int,
)
    requires
        0 <= i,
        forall|j: int|
            0 <= j < defaults.len() ==> rules::output_hint((#[trigger] defaults[j]).0) is None,
    ensures
        rules::reserves_input(without_nones(args, defaults, i)) == rules::reserves_input(args),
    decreases defaults.len() - i,
{
    if i < defaults.len() {
        let name = defaults[i].0;
        let rest = without_none(args, name);
        lemma_none_pair(args, name, 0);
        reveal_strlit("none");
        rules::lemma_reserved_shape("none"@);
        rules::lemma_reserved_shape(name);
        if let Some(k) = none_pair(args, name, 0) {
            if rules::reserves_input(args) {
                let j = choose|j: int|
                    0 <= j < args.len() && rules::input_hint(#[trigger] args[j]) is Some;
                assert(j != k && j != k + 1);
                let at = if j < k {
                    j
                } else {
                    j - 2
                };
                assert(rest[at] == args[j]);
            }
            if rules::reserves_input(rest) {
                let j = choose|j: int|
                    0 <= j < rest.len() && rules::input_hint(#[trigger] rest[j]) is Some;
                let at = if j < k {
                    j
                } else {
                    j + 2
                };
                assert(rest[j] == args[at]);
            }
        }
        lemma_nones_unreserved(rest, defaults, i + 1);
    }
}

proof fn lemma_joined_begins(parts: Seq<Seq<char>>, sep: Seq<char>)
    requires
        parts.len() > 0,
    ensures
        parts[0].is_prefix_of(text::joined(parts, sep)),
    decreases parts.len(),
{
    if parts.len() > 1 {
        lemma_joined_begins(parts.drop_last(), sep);
        let front = text::joined(parts.drop_last(), sep);
        assert(parts.drop_last()[0] == parts[0]);
        assert(parts[0] =~= front.take(parts[0].len() as int));
        assert(parts[0] =~= text::joined(parts, sep).take(parts[0].len() as int));
    }
}

proof fn lemma_strip_start_shorter(s: Seq<char>, c: char)
    ensures
        text::strip_start(s, c).len() <= s.len(),
    decreases s.len(),
{
    if s.len() > 0 && s[0] == c {
        lemma_strip_start_shorter(s.skip(1), c);
    }
}

/// The parameters for svt-av1 are no reserved argument.
proof fn lemma_params_unreserved(e: &Encode, crf: Seq<char>, keyint: Option<i32>)
    requires
        e.svt_params(crf, keyint).len() > 0,
    ensures
        rules::output_hint(text::joined(e.svt_params(crf, keyint), ":"@)) is None,
{
    let params = e.svt_params(crf, keyint);
    let all = text::joined(params, ":"@);
    lemma_joined_begins(params, ":"@);
    rules::lemma_reserved_shape(all);
    if e.encoder@ == "libsvtav1"@ {
        reveal_strlit("scd=0");
        reveal_strlit("scd=1");
        assert(all[0] == params[0][0]);
    } else {
        let given = text::views(e.enc_args@);
        assert(params =~= only_svt_params(given));
        given.lemma_filter_pred(|a: Seq<char>| sets_svt_params(a), 0);
        reveal_strlit("svtav1-params");
        lemma_strip_start_shorter(arg_option(params[0]), '-');
        text::lemma_index_from(params[0], '=', 0);
        assert(params[0].len() >= 13);
        assert(all.len() >= params[0].len());
    }
}

/// Arguments are refused exactly when one that was given is reserved: an option
/// or a value for the input, or one for the output that is not among the
/// parameters for svt-av1. Nothing that is added to them is reserved.
pub proof fn law_only_given_args_are_refused(e: &Encode, crf: Seq<char>, keyint: Option<i32>)
    ensures
        e.broken_rule(crf, keyint) is Some <==> rules::reserves_input(
            passthrough(text::views(e.enc_input_args@)),
        ) || rules::reserves_output(passthrough(without_svt_params(text::views(e.enc_args@)))),
{
    rules::law_refused_iff_one_is_reserved(e.input_args(), e.output_args(crf, keyint));

    reveal_strlit("-hwaccel");
    reveal_strlit("-hwaccel_output_format");
    reveal_strlit("vaapi");
    reveal_strlit("vulkan");
    rules::lemma_reserved_shape("-hwaccel"@);
    rules::lemma_reserved_shape("-hwaccel_output_format"@);
    rules::lemma_reserved_shape("vaapi"@);
    rules::lemma_reserved_shape("vulkan"@);
    let given = passthrough(text::views(e.enc_input_args@));
    let defaults = input_defaults(e.encoder@);
    lemma_defaults_unreserved(given, defaults, 0);
    lemma_nones_unreserved(with_defaults(given, defaults, 0), defaults, 0);

    reveal_strlit("-b:v");
    reveal_strlit("-look_ahead");
    reveal_strlit("-extbrc");
    reveal_strlit("-look_ahead_depth");
    reveal_strlit("0");
    reveal_strlit("1");
    reveal_strlit("40");
    rules::lemma_reserved_shape("-b:v"@);
    rules::lemma_reserved_shape("-look_ahead"@);
    rules::lemma_reserved_shape("-extbrc"@);
    rules::lemma_reserved_shape("-look_ahead_depth"@);
    rules::lemma_reserved_shape("0"@);
    rules::lemma_reserved_shape("1"@);
    rules::lemma_reserved_shape("40"@);
    lemma_defaults_unreserved(
        e.own_output_args(crf, keyint),
        output_defaults(e.encoder@),
        0,
    );

    reveal_strlit("-svtav1-params");
    reveal_strlit("-g");
    rules::lemma_reserved_shape("-svtav1-params"@);
    rules::lemma_reserved_shape("-g"@);
    let args = passthrough(without_svt_params(text::views(e.enc_args@)));
    let params = e.svt_params(crf, keyint);
    let joined = text::joined(params, ":"@);
    if params.len() > 0 {
        lemma_params_unreserved(e, crf, keyint);
        lemma_push_unreserved(args, "-svtav1-params"@);
        lemma_push_unreserved(args.push("-svtav1-params"@), joined);
    }
    let args = if params.len() > 0 {
        args.push("-svtav1-params"@).push(joined)
    } else {
        args
    };
    if let Some(n) = keyint {
        let frames = text::dec_int(n as int);
        text::lemma_dec_spells(
            if n < 0 {
                (-n) as nat
            } else {
                n as nat
            },
        );
        rules::lemma_reserved_shape(frames);
        lemma_push_unreserved(args, "-g"@);
        lemma_push_unreserved(args.push("-g"@), frames);
    }
}

/// Arguments are handed on one behind the other, each as it was given: split in
/// two at its first `=`, or whole where it has none.
pub proof fn law_passthrough_keeps_args(a: Seq<Seq<char>>, b: Seq<Seq<char>>, arg: Seq<char>)
    ensures
        passthrough(a + b) == passthrough(a) + passthrough(b),
        !arg.contains('=') ==> passthrough(seq![arg]) == seq![arg],
        arg.contains('=') ==> ({
            let parts = passthrough(seq![arg]);
            &&& parts.len() == 2
            &&& arg == parts[0].push('=') + parts[1]
            &&& !parts[0].contains('=')
        }),
    decreases b.len(),
{
    if b.len() == 0 {
        assert(a + b =~= a);
        assert(passthrough(a) + passthrough(b) =~= passthrough(a));
    } else {
        law_passthrough_keeps_args(a, b.drop_last(), arg);
        assert((a + b).drop_last() =~= a + b.drop_last());
        assert(passthrough(a) + passthrough(b.drop_last()) + arg_values(b.last()) =~= passthrough(a)
            + passthrough(b));
    }
    let one = seq![arg];
    assert(one.drop_last() =~= Seq::empty());
    assert(passthrough(Seq::empty()) == Seq::<Seq<char>>::empty());
    assert(one.last() == arg);
    assert(passthrough(one) =~= arg_values(arg));
    text::lemma_index_from(arg, '=', 0);
    if let Some((option, value)) = text::split_at_first(arg, '=') {
        let i = text::index_of(arg, '=')->0;
        assert(arg[i] == '=');
        assert(arg =~= option.push('=') + value);
    }
}

/// What is given for the output stands first, but for parameters of svt-av1.
pub proof fn law_given_output_args_come_first(e: &Encode, crf: Seq<char>, keyint: Option<i32>)
    ensures
        passthrough(without_svt_params(text::views(e.enc_args@))).is_prefix_of(
            e.output_args(crf, keyint),
        ),
        (forall|i: int|
            0 <= i < e.enc_args@.len() ==> !sets_svt_params(#[trigger] e.enc_args@[i]@))
            ==> without_svt_params(text::views(e.enc_args@)) == text::views(e.enc_args@),
{
    let given = passthrough(without_svt_params(text::views(e.enc_args@)));
    let own = e.own_output_args(crf, keyint);
    assert(given.is_prefix_of(own));
    law_defaults_keep_args(own, output_defaults(e.encoder@), 0);
    assert(given =~= e.output_args(crf, keyint).take(given.len() as int));
    let all = text::views(e.enc_args@);
    if forall|i: int| 0 <= i < e.enc_args@.len() ==> !sets_svt_params(#[trigger] e.enc_args@[i]@) {
        assert forall|i: int| 0 <= i < all.len() implies !sets_svt_params(#[trigger] all[i]) by {
            assert(all[i] == e.enc_args@[i]@);
        }
        lemma_filter_all(all, |a: Seq<char>| !sets_svt_params(a));
    }
}

proof fn lemma_filter_all(args: Seq<Seq<char>>, p: spec_fn(Seq<char>) -> bool)
    requires
        forall|i: int| 0 <= i < args.len() ==> p(#[trigger] args[i]),
    ensures
        args.filter(p) == args,
    decreases args.len(),
{
    reveal(Seq::filter);
    if args.len() > 0 {
        assert forall|i: int| 0 <= i < args.drop_last().len() implies p(
            #[trigger] args.drop_last()[i],
        ) by {
            assert(args.drop_last()[i] == args[i]);
        }
        lemma_filter_all(args.drop_last(), p);
        assert(p(args[args.len() - 1]));
        assert(args.drop_last().push(args.last()) =~= args);
    }
}

/// An interval between keyframes is asked for where there is one, unless the
/// given arguments set their own; without one nothing is asked for.
pub proof fn law_keyframes_are_asked_for(e: &Encode, crf: Seq<char>, keyint: Option<i32>)
    ensures
        ({
            let given = passthrough(without_svt_params(text::views(e.enc_args@)));
            let args = e.output_args(crf, keyint);
            &&& keyint is Some && !given.contains("-g"@) ==> ffmpeg::gives(
                args,
                "-g"@,
                text::dec_int(keyint->0 as int),
            )
            &&& keyint is None && !given.contains("-g"@) ==> !args.contains("-g"@)
        }),
{
    let given = passthrough(without_svt_params(text::views(e.enc_args@)));
    let params = e.svt_params(crf, keyint);
    let joint = text::joined(params, ":"@);
    let own = e.own_output_args(crf, keyint);
    let before = if params.len() > 0 {
        given.push("-svtav1-params"@).push(joint)
    } else {
        given
    };
    let g = "-g"@;
    reveal_strlit("-g");
    reveal_strlit("-svtav1-params");
    assert("-svtav1-params"@.len() == 14);
    if params.len() > 0 {
        lemma_joint_is_long(e, crf, keyint);
    }
    assert(!given.contains(g) ==> !before.contains(g)) by {
        if !given.contains(g) && before.contains(g) {
            let i = choose|i: int| 0 <= i < before.len() && before[i] == g;
            if i < given.len() {
                assert(given[i] == g);
            }
        }
    }
    law_defaults_keep_args(own, output_defaults(e.encoder@), 0);
    let args = e.output_args(crf, keyint);
    if !given.contains(g) {
        if let Some(n) = keyint {
            let i = before.len() as int;
            assert(own[i] == g && own[i + 1] == text::dec_int(n as int));
            assert(args[i] == own[i] && args[i + 1] == own[i + 1]);
        } else {
            reveal_strlit("-b:v");
            reveal_strlit("-look_ahead");
            reveal_strlit("-extbrc");
            reveal_strlit("-look_ahead_depth");
            reveal_strlit("0");
            reveal_strlit("1");
            reveal_strlit("40");
            assert("-b:v"@.len() == 4 && "-look_ahead"@.len() == 11 && "-extbrc"@.len() == 7
                && "-look_ahead_depth"@.len() == 17);
            assert("0"@.len() == 1 && "1"@.len() == 1 && "40"@[0] == '4');
            lemma_defaults_lack(own, output_defaults(e.encoder@), 0, g);
        }
    }
}

proof fn lemma_defaults_lack(
    args: Seq<Seq<char>>,
    defaults: Seq<(Seq<char>, Seq<char>)>,
    i: int,
    word: Seq<char>,
)
    requires
        0 <= i,
        !args.contains(word),
        forall|j: int|
            0 <= j < defaults.len() ==> (#[trigger] defaults[j]).0 != word && defaults[j].1 != word,
    ensures
        !with_defaults(args, defaults, i).contains(word),
    decreases defaults.len() - i,
{
    if i < defaults.len() {
        let next = with_default(args, defaults[i]);
        if next.contains(word) {
            let k = choose|k: int| 0 <= k < next.len() && next[k] == word;
            if k < args.len() {
                assert(args[k] == word);
            }
        }
        lemma_defaults_lack(next, defaults, i + 1, word);
    }
}

proof fn lemma_joint_is_long(e: &Encode, crf: Seq<char>, keyint: Option<i32>)
    requires
        e.svt_params(crf, keyint).len() > 0,
    ensures
        text::joined(e.svt_params(crf, keyint), ":"@).len() >= 5,
{
    let params = e.svt_params(crf, keyint);
    let all = text::joined(params, ":"@);
    lemma_joined_begins(params, ":"@);
    if e.encoder@ == "libsvtav1"@ {
        reveal_strlit("scd=0");
        reveal_strlit("scd=1");
        assert(params[0].len() == 5);
    } else {
        let given = text::views(e.enc_args@);
        assert(params =~= only_svt_params(given));
        given.lemma_filter_pred(|a: Seq<char>| sets_svt_params(a), 0);
        reveal_strlit("svtav1-params");
        lemma_strip_start_shorter(arg_option(params[0]), '-');
        text::lemma_index_from(params[0], '=', 0);
        assert(params[0].len() >= 13);
    }
}

/// The parameters of svt-av1 are handed on as one argument: its own first, with
/// scene change detection and the crf, behind them those that are given, in
/// order. Another encoder gets none but those.
pub proof fn law_svt_params_are_handed_on(e: &Encode, crf: Seq<char>, keyint: Option<i32>)
    ensures
        ({
            let params = e.svt_params(crf, keyint);
            let given = passthrough(without_svt_params(text::views(e.enc_args@)));
            let args = e.output_args(crf, keyint);
            &&& params.len() > 0 ==> args[given.len() as int] == "-svtav1-params"@ && args[
                given.len() + 1int
            ] == text::joined(params, ":"@)
            &&& e.encoder@ == "libsvtav1"@ ==> params.len() >= 2 && params.skip(2) == text::views(
                e.svt_args@,
            ) + only_svt_params(text::views(e.enc_args@))
            &&& e.encoder@ != "libsvtav1"@ ==> params == only_svt_params(text::views(e.enc_args@))
        }),
{
    let params = e.svt_params(crf, keyint);
    let given = passthrough(without_svt_params(text::views(e.enc_args@)));
    let own = e.own_output_args(crf, keyint);
    law_defaults_keep_args(own, output_defaults(e.encoder@), 0);
    let args = e.output_args(crf, keyint);
    if params.len() > 0 {
        let i = given.len() as int;
        assert(own[i] == "-svtav1-params"@ && own[i + 1] == text::joined(params, ":"@));
        assert(args[i] == own[i] && args[i + 1] == own[i + 1]);
    }
    if e.encoder@ == "libsvtav1"@ {
        assert(params.skip(2) =~= text::views(e.svt_args@) + only_svt_params(
            text::views(e.enc_args@),
        ));
    } else {
        assert(params =~= only_svt_params(text::views(e.enc_args@)));
    }
}

/// A pixel format and a preset that are asked for are used. Where none is, the
/// software encoders of AV1 get ten bits, svt-av1 gets preset 8, and ffmpeg
/// decides for all others.
pub proof fn law_unset_quality_has_defaults(e: &Encode)
    ensures
        e.pix_format is Some ==> e.pix_fmt() == e.pix_format,
        e.pix_format is None ==> (e.pix_fmt() == Some(PixelFormat::Yuv420p10le) <==> e.encoder@
            == "libsvtav1"@ || e.encoder@ == "libaom-av1"@ || e.encoder@ == "librav1e"@),
        e.pix_format is None && e.pix_fmt() is Some ==> e.pix_fmt() == Some(
            PixelFormat::Yuv420p10le,
        ),
        e.preset is Some ==> e.preset_text() == Some(e.preset->0@),
        e.preset is None ==> (e.preset_text() is Some <==> e.encoder@ == "libsvtav1"@),
        e.preset is None && e.preset_text() is Some ==> e.preset_text() == Some("8"@),
{
}

/// An interval that is asked for is used as it is: frames as they are, a span by
/// the frame rate. The default is ten seconds, for inputs of more than three
/// minutes. The frame rate is that of the filter where the filter sets one, and
/// else that of the input.
pub proof fn law_keyint_as_asked(e: &Encode, probe: &Ffprobe, filter_fps: bool)
    ensures
        match e.keyint {
            Some(KeyInterval::Frames(n)) => e.keyint_plan(probe, filter_fps) == PlanView::Frames(n),
            Some(KeyInterval::Duration(span)) => e.keyint_plan(probe, filter_fps)
                == PlanView::Scaled(
                span@,
                if filter_fps {
                    FpsSource::Filter
                } else {
                    FpsSource::Probe
                },
            ),
            None => e.keyint_plan(probe, filter_fps) == (if probe.duration is Ok
                && probe.duration->Ok_0@ > 180_000_000_000 && (filter_fps || probe.fps is Ok) {
                PlanView::Scaled(
                    10_000_000_000,
                    if filter_fps {
                        FpsSource::Filter
                    } else {
                        FpsSource::Probe
                    },
                )
            } else {
                PlanView::Unset
            }),
        },
{
}

/// An encoder that works in hardware by VAAPI or Vulkan decodes there too,
/// unless the given arguments say otherwise; for all others nothing is added to
/// what is given for the input.
pub proof fn law_hardware_encoders_decode_in_hardware(e: &Encode)
    ensures
        ({
            let given = passthrough(text::views(e.enc_input_args@));
            let args = e.input_args();
            let vaapi = text::has_suffix(e.encoder@, "_vaapi"@);
            let vulkan = text::has_suffix(e.encoder@, "_vulkan"@);
            let unset = !given.contains("-hwaccel"@) && !given.contains("-hwaccel_output_format"@);
            &&& !vaapi && !vulkan ==> args == given
            &&& vaapi && unset ==> args == given + seq![
                "-hwaccel"@,
                "vaapi"@,
                "-hwaccel_output_format"@,
                "vaapi"@,
            ]
            &&& vulkan && !vaapi && unset ==> args == given + seq![
                "-hwaccel"@,
                "vulkan"@,
                "-hwaccel_output_format"@,
                "vulkan"@,
            ]
        }),
{
    let given = passthrough(text::views(e.enc_input_args@));
    let defaults = input_defaults(e.encoder@);
    let a = "-hwaccel"@;
    let b = "-hwaccel_output_format"@;
    reveal_strlit("-hwaccel");
    reveal_strlit("-hwaccel_output_format");
    reveal_strlit("vaapi");
    reveal_strlit("vulkan");
    reveal_strlit("none");
    assert(a.len() == 8 && b.len() == 22);
    assert("vaapi"@.len() == 5 && "vulkan"@.len() == 6 && "none"@.len() == 4);
    if defaults.len() > 0 && !given.contains(a) && !given.contains(b) {
        let word = defaults[0].1;
        reveal_with_fuel(with_defaults, 4);
        reveal_with_fuel(without_nones, 4);
        let one = given.push(a).push(word);
        assert(!one.contains(b)) by {
            if one.contains(b) {
                let i = choose|i: int| 0 <= i < one.len() && one[i] == b;
                if i < given.len() {
                    assert(given[i] == b);
                }
            }
        }
        let two = one.push(b).push(word);
        assert(with_defaults(given, defaults, 0) == two);
        assert(two =~= given + seq![a, word, b, word]);
        assert forall|i: int| 0 <= i && i + 1 < two.len() && two[i + 1] == "none"@ implies #[trigger] two[i]
            != a && two[i] != b by {
            if i < given.len() {
                assert(given.contains(given[i]));
                assert(two[i] == given[i]);
            } else {
                assert(two[i + 1] == word || two[i + 1] == b);
            }
        }
        lemma_none_pair(two, a, 0);
        lemma_none_pair(two, b, 0);
    }
}

/// Which encoders stand apart in what they need or in how fine their crf is:
/// what holds of all others is named last.
pub proof fn law_defaults_of_encoder(vcodec: Seq<char>)
    ensures
        output_defaults(vcodec) == seq![("-b:v"@, "0"@)] <==> vcodec == "libaom-av1"@ || vcodec
            == "libvpx-vp9"@,
        output_defaults(vcodec).len() > 1 <==> vcodec == "av1_qsv"@ || vcodec == "hevc_qsv"@
            || vcodec == "h264_qsv"@,
        output_defaults(vcodec).len() > 1 ==> output_defaults(vcodec).contains(
            ("-look_ahead"@, "1"@),
        ) && output_defaults(vcodec).contains(("-extbrc"@, "1"@)) && output_defaults(
            vcodec,
        ).contains(("-look_ahead_depth"@, "40"@)) && output_defaults(vcodec).len() == 3,
        increment_bits(vcodec) == 0x3dcc_cccd <==> vcodec == "libx264"@ || vcodec == "libx265"@
            || vcodec == "libvpx-vp9"@,
        increment_bits(vcodec) == 0x3e80_0000 <==> vcodec == "libsvtav1"@,
        increment_bits(vcodec) == 0x3dcc_cccd || increment_bits(vcodec) == 0x3e80_0000
            || increment_bits(vcodec) == 0x3f80_0000,
        min_crf_bits(vcodec) == 0x4000_0000 <==> vcodec == "mpeg2video"@,
        min_crf_bits(vcodec) == 0x40a0_0000 <==> vcodec == "libsvtav1"@,
        min_crf_bits(vcodec) == 0x4120_0000 <==> vcodec != "mpeg2video"@ && vcodec != "libsvtav1"@,
        max_crf_bits(vcodec) == 0x437f_0000 <==> vcodec == "librav1e"@ || vcodec == "av1_vaapi"@,
        max_crf_bits(vcodec) == 0x4238_0000 <==> vcodec == "libx264"@ || vcodec == "libx265"@,
        max_crf_bits(vcodec) == 0x41f0_0000 <==> vcodec == "mpeg2video"@,
        max_crf_bits(vcodec) == 0x42c8_0000 <==> vcodec == "hevc_videotoolbox"@,
        max_crf_bits(vcodec) == 0x428c_0000 <==> vcodec == "libsvtav1"@,
        max_crf_bits(vcodec) == 0x425c_0000 <==> vcodec != "librav1e"@ && vcodec != "av1_vaapi"@
            && vcodec != "libx264"@ && vcodec != "libx265"@ && vcodec != "mpeg2video"@ && vcodec
            != "hevc_videotoolbox"@ && vcodec != "libsvtav1"@,
        image_ext(vcodec) == "264"@ <==> vcodec == "libx264"@,
        image_ext(vcodec) == "265"@ <==> vcodec == "libx265"@,
        image_ext(vcodec) == "avif"@ <==> vcodec != "libx264"@ && vcodec != "libx265"@,
{
    reveal_strlit("libaom-av1");
    reveal_strlit("libvpx-vp9");
    reveal_strlit("av1_qsv");
    reveal_strlit("hevc_qsv");
    reveal_strlit("h264_qsv");
    reveal_strlit("libx264");
    reveal_strlit("libx265");
    reveal_strlit("libsvtav1");
    reveal_strlit("mpeg2video");
    reveal_strlit("librav1e");
    reveal_strlit("av1_vaapi");
    reveal_strlit("hevc_videotoolbox");
    reveal_strlit("264");
    reveal_strlit("265");
    reveal_strlit("avif");
    assert("264"@[2] == '4' && "265"@[2] == '5' && "avif"@.len() == 4);
    assert("libx264"@[6] == '4' && "libx265"@[6] == '5');
    assert("libaom-av1"@.len() == 10 && "libvpx-vp9"@.len() == 10 && "mpeg2video"@.len() == 10);
    assert("libaom-av1"@[0] == 'l' && "libvpx-vp9"@[0] == 'l' && "mpeg2video"@[0] == 'm');
    assert("libx264"@.len() == 7 && "libx265"@.len() == 7 && "libsvtav1"@.len() == 9);
    assert("librav1e"@.len() == 8 && "av1_vaapi"@.len() == 9 && "hevc_videotoolbox"@.len() == 17);
    assert("libsvtav1"@[0] == 'l' && "av1_vaapi"@[0] == 'a');
    let d = output_defaults(vcodec);
    if d.len() == 3 {
        assert(d[0] == ("-look_ahead"@, "1"@));
        assert(d[1] == ("-extbrc"@, "1"@));
        assert(d[2] == ("-look_ahead_depth"@, "40"@));
    }
    if vcodec == "libaom-av1"@ || vcodec == "libvpx-vp9"@ {
        assert(d.len() == 1);
        assert("av1_qsv"@.len() == 7 && "hevc_qsv"@.len() == 8 && "h264_qsv"@.len() == 8);
    } else {
        assert(d.len() != 1);
        assert(seq![("-b:v"@, "0"@)].len() == 1);
    }
}

/// The hint repeats the encode: its encoder where that is not the default, its
/// input and its crf, and each option that is set, as it is set.
pub proof fn law_hint_repeats_the_encode(
    e: &Encode,
    crf: Seq<char>,
    input: Seq<char>,
    keyint: Option<Seq<char>>,
    vfilter: Option<Seq<char>>,
)
    ensures
        ({
            let hint = e.hint_of(crf, input, keyint, vfilter);
            &&& text::has_prefix(hint, "ab-av1 encode"@)
            &&& text::contains(hint, " -i "@ + input + " --crf "@ + crf)
            &&& e.encoder@ != "libsvtav1"@ ==> text::contains(hint, " -e "@ + e.encoder@)
            &&& e.preset is Some ==> text::contains(hint, " --preset "@ + e.preset->0@)
            &&& keyint is Some ==> text::contains(hint, " --keyint "@ + keyint->0)
            &&& e.scd == Some(true) ==> text::contains(hint, " --scd "@ + "true"@)
            &&& e.scd == Some(false) ==> text::contains(hint, " --scd "@ + "false"@)
            &&& e.pix_format is Some ==> text::contains(
                hint,
                " --pix-format "@ + e.pix_format->0.name(),
            )
            &&& vfilter is Some ==> text::contains(hint, " --vfilter "@ + vfilter->0)
            &&& e.preset is None && keyint is None && e.scd is None && e.pix_format is None
                && vfilter is None && e.svt_args@.len() == 0 && e.enc_input_args@.len() == 0
                && e.enc_args@.len() == 0 && e.encoder@ == "libsvtav1"@ ==> hint
                == "ab-av1 encode"@ + " -i "@ + input + " --crf "@ + crf
        }),
{
    let scd = match e.scd {
        Some(b) => Some(bool_text(b)),
        None => None,
    };
    let pix_format = match e.pix_format {
        Some(p) => Some(p.name()),
        None => None,
    };
    let p0 = "ab-av1 encode"@;
    let p1 = opt_part(" -e "@, e.other_encoder());
    let p2 = " -i "@ + input + " --crf "@ + crf;
    let p3 = opt_part(" --preset "@, opt_view(e.preset));
    let p4 = opt_part(" --keyint "@, keyint);
    let p5 = opt_part(" --scd "@, scd);
    let p6 = opt_part(" --pix-format "@, pix_format);
    let p7 = opt_part(" --vfilter "@, vfilter);
    let s0 = list_part(" --svt "@, text::views(e.svt_args@));
    let s1 = list_part(" --enc-input "@, undashed(text::views(e.enc_input_args@)));
    let s2 = list_part(" --enc "@, undashed(text::views(e.enc_args@)));
    let hint = e.hint_of(crf, input, keyint, vfilter);
    let a = p0 + p1;
    assert(a + " -i "@ + input + " --crf "@ + crf =~= a + p2);
    assert(p0.subrange(0, p0.len() as int) =~= p0);
    assert(text::has_prefix(p0, p0));
    text::lemma_appended(p0, p1);
    text::lemma_appended(a, p2);
    let a = a + p2;
    text::lemma_appended(a, p3);
    let a = a + p3;
    text::lemma_appended(a, p4);
    let a = a + p4;
    text::lemma_appended(a, p5);
    let a = a + p5;
    text::lemma_appended(a, p6);
    let a = a + p6;
    text::lemma_appended(a, p7);
    let a = a + p7;
    text::lemma_appended(a, s0);
    text::lemma_appended(a + s0, s1);
    text::lemma_appended(a + s0 + s1, s2);
    assert(hint == a + s0 + s1 + s2);
    assert(text::contains(hint, p1) && text::contains(hint, p2) && text::contains(hint, p3)
        && text::contains(hint, p4));
    assert(text::contains(hint, p5) && text::contains(hint, p6) && text::contains(hint, p7));
    if e.preset is None && keyint is None && e.scd is None && e.pix_format is None && vfilter is None
        && e.svt_args@.len() == 0 && e.enc_input_args@.len() == 0 && e.enc_args@.len() == 0
        && e.encoder@ == "libsvtav1"@ {
        assert(s0.len() == 0 && s1.len() == 0 && s2.len() == 0);
        assert(hint =~= p0 + p2);
        assert(p0 + p2 =~= "ab-av1 encode"@ + " -i "@ + input + " --crf "@ + crf);
    }
}

/// A list of options repeats each of its values in order.
pub proof fn law_listed_options_in_order(
    prefix: Seq<char>,
    a: Seq<Seq<char>>,
    b: Seq<Seq<char>>,
    value: Seq<char>,
)
    ensures
        list_part(prefix, Seq::empty()).len() == 0,
        list_part(prefix, seq![value]) == prefix + value,
        list_part(prefix, a + b) == list_part(prefix, a) + list_part(prefix, b),
    decreases b.len(),
{
    reveal_with_fuel(list_part, 2);
    assert(seq![value].drop_last() =~= Seq::empty());
    assert(seq![value].last() == value);
    assert(list_part(prefix, seq![value]) =~= prefix + value);
    if b.len() == 0 {
        assert(a + b =~= a);
        assert(list_part(prefix, a) + list_part(prefix, b) =~= list_part(prefix, a));
    } else {
        law_listed_options_in_order(prefix, a, b.drop_last(), value);
        assert((a + b).drop_last() =~= a + b.drop_last());
        assert((a + b).last() == b.last());
        assert(list_part(prefix, a + b) =~= list_part(prefix, a) + list_part(prefix, b));
    }
}

/// An argument of the encoder has a dash in front, which is put there where it
/// was left out.
pub proof fn law_dash_in_front(arg: Seq<char>)
    requires
        !text::has_prefix(arg, "-"@),
    ensures
        with_dash(arg) == "-"@ + arg,
        with_dash("-"@ + arg) == "-"@ + arg,
{
    reveal_strlit("-");
    assert(("-"@ + arg).subrange(0, 1) =~= "-"@);
}

proof fn lemma_comma_parts(a: Seq<char>, b: Seq<char>)
    ensures
        comma_parts(a.push(',') + b) == comma_parts(a) + comma_parts(b),
        comma_parts(a).len() > 0,
    decreases a.len(),
{
    let all = a.push(',') + b;
    text::lemma_index_from(all, ',', 0);
    text::lemma_index_from(a, ',', 0);
    assert(all[a.len() as int] == ',');
    let k = text::index_of(all, ',')->0;
    match text::index_of(a, ',') {
        Some(i) => {
            assert(all[i] == a[i]);
            assert(forall|j: int| 0 <= j < i ==> all[j] == a[j]);
            assert(k == i);
            assert(all.take(i) =~= a.take(i));
            let rest = a.skip(i + 1);
            assert(all.skip(i + 1) =~= rest.push(',') + b);
            lemma_comma_parts(rest, b);
            assert(seq![a.take(i)] + (comma_parts(rest) + comma_parts(b)) =~= seq![a.take(i)]
                + comma_parts(rest) + comma_parts(b));
        },
        None => {
            assert(forall|j: int| 0 <= j < a.len() ==> all[j] == a[j]);
            assert(k == a.len());
            assert(all.take(k) =~= a);
            assert(all.skip(k + 1) =~= b);
        },
    }
}

proof fn lemma_first_fps(a: Seq<Seq<char>>, b: Seq<Seq<char>>)
    ensures
        first_fps(a + b) == (if first_fps(a) is Some {
            first_fps(a)
        } else {
            first_fps(b)
        }),
    decreases a.len(),
{
    if a.len() == 0 {
        assert(a + b =~= b);
    } else {
        assert((a + b).skip(1) =~= a.skip(1) + b);
        assert((a + b)[0] == a[0]);
        lemma_first_fps(a.skip(1), b);
    }
}

/// The frame rate that a chain of filters sets is that of its front where that
/// sets one, and else that of its rest; one filter sets a rate exactly where it
/// is called `fps`.
pub proof fn law_filter_rate_is_the_first(a: Seq<char>, b: Seq<char>)
    ensures
        filter_fps(a.push(',') + b) == (if filter_fps(a) is Some {
            filter_fps(a)
        } else {
            filter_fps(b)
        }),
        !a.contains(',') ==> (filter_fps(a) is Some <==> text::has_prefix(
            text::trimmed(a),
            "fps="@,
        )),
{
    lemma_comma_parts(a, b);
    lemma_first_fps(comma_parts(a), comma_parts(b));
    if !a.contains(',') {
        text::lemma_index_from(a, ',', 0);
        assert(comma_parts(a) =~= seq![a]);
        reveal_with_fuel(first_fps, 2);
        assert(seq![a].skip(1) =~= Seq::empty());
    }
}

/// A rate with a name is the ratio that it stands for, and any other one is left
/// to be read as a number.
pub proof fn law_named_rates(rate: Seq<char>)
    requires
        !rate.contains(','),
        text::trimmed("fps="@ + rate) == "fps="@ + rate,
        text::trimmed(rate) == rate,
    ensures
        ({
            let fps = filter_fps("fps="@ + rate);
            &&& fps == Some(FpsView::Ratio(30000, 1001)) <==> rate == "ntsc"@
            &&& fps == Some(FpsView::Ratio(25, 1)) <==> rate == "pal"@
            &&& fps == Some(FpsView::Ratio(24, 1)) <==> rate == "film"@
            &&& fps == Some(FpsView::Ratio(24000, 1001)) <==> rate == "ntsc_film"@
            &&& rate != "ntsc"@ && rate != "pal"@ && rate != "film"@ && rate != "ntsc_film"@ ==> fps
                == Some(FpsView::Text(rate))
        }),
{
    reveal_strlit("fps=");
    reveal_strlit("ntsc");
    reveal_strlit("pal");
    reveal_strlit("film");
    reveal_strlit("ntsc_film");
    assert("ntsc"@[0] == 'n' && "film"@[0] == 'f' && "pal"@.len() == 3 && "ntsc"@.len() == 4
        && "film"@.len() == 4 && "ntsc_film"@.len() == 9);
    let s = "fps="@ + rate;
    assert(!s.contains(',')) by {
        if s.contains(',') {
            let i = choose|i: int| 0 <= i < s.len() && s[i] == ',';
            if i >= 4 {
                assert(s[i] == rate[i - 4]);
                assert(rate.contains(rate[i - 4]));
            }
        }
    }
    text::lemma_index_from(s, ',', 0);
    assert(comma_parts(s) =~= seq![s]);
    assert(s.subrange(0, 4) =~= "fps="@);
    assert(s.skip(4) =~= rate);
    assert(first_fps(seq![s]) == Some(rate));
}

/// A default is switched off by giving it the value `none`: where its name stands
/// once and before `none`, both are gone, and all else is as it was.
pub proof fn law_none_switches_a_default_off(args: Seq<Seq<char>>, name: Seq<char>, i: int)
    requires
        0 <= i,
        i + 1 < args.len(),
        args[i] == name,
        args[i + 1] == "none"@,
        name != "none"@,
        forall|j: int| 0 <= j < args.len() && j != i ==> args[j] != name,
    ensures
        without_none(args, name) == args.take(i) + args.skip(i + 2),
        !without_none(args, name).contains(name),
{
    lemma_none_pair_at(args, name, 0, i);
    let rest = without_none(args, name);
    if rest.contains(name) {
        let j = choose|j: int| 0 <= j < rest.len() && rest[j] == name;
        if j < i {
            assert(args[j] == name);
        } else {
            assert(args[j + 2] == name);
        }
    }
}

proof fn lemma_none_pair_at(args: Seq<Seq<char>>, name: Seq<char>, i: int, k: int)
    requires
        0 <= i <= k,
        k + 1 < args.len(),
        args[k] == name,
        args[k + 1] == "none"@,
        forall|j: int| 0 <= j < k ==> args[j] != name,
    ensures
        none_pair(args, name, i) == Some(k),
    decreases k - i,
{
    if i < k {
        assert(args[i] != name);
        lemma_none_pair_at(args, name, i + 1, k);
    }
}

/// What an encode is lowered to is made from the same input with the same
/// encoder, crf and filter, keeps all streams, and has the pixel format and the
/// preset that are asked for.
pub proof fn law_lowered_as_asked(e: &Encode, crf: &Crf, keyint: Option<i32>, args: FfmpegEncodeArgs)
    requires
        e.lowers_to(crf, keyint, args),
    ensures
        args.input@ == e.input@,
        args.vcodec@ == e.encoder@,
        args.crf == *crf,
        args.vfilter == e.vfilter,
        !args.video_only,
        e.pix_format is Some ==> args.pix_fmt == e.pix_format,
        e.preset is Some ==> args.preset is Some && args.preset->0@ == e.preset->0@,
        e.preset is None && e.encoder@ == "libsvtav1"@ ==> args.preset is Some && args.preset->0@
            == "8"@,
        e.preset is None && e.encoder@ != "libsvtav1"@ ==> args.preset is None,
{
}

/// Parameters of svt-av1 are misused exactly where another encoder is given
/// them.
pub proof fn law_svt_args_need_svt(e: &Encode)
    ensures
        e.svt_args@.len() == 0 ==> !e.misuses_svt(),
        e.encoder@ == "libsvtav1"@ ==> !e.misuses_svt(),
        e.svt_args@.len() > 0 && e.encoder@ != "libsvtav1"@ ==> e.misuses_svt(),
{
}

/// Formats are ranked by how much of the picture they hold.
pub proof fn law_formats_ranked(a: PixelFormat, b: PixelFormat)
    ensures
        a.rank() == b.rank() <==> a == b,
        PixelFormat::Yuv420p.rank() < PixelFormat::Yuv420p10le.rank()
            < PixelFormat::Yuv422p10le.rank() < PixelFormat::Yuv444p10le.rank(),
{
}

/// The better one of two formats is one of them, neither is better than it, and
/// there is one where either is there.
pub proof fn law_best_format_is_kept(a: Option<PixelFormat>, b: Option<PixelFormat>)
    ensures
        ({
            let best = PixelFormat::best(a, b);
            &&& best == a || best == b
            &&& best is None <==> a is None && b is None
            &&& a is Some ==> best->0.rank() >= a->0.rank()
            &&& b is Some ==> best->0.rank() >= b->0.rank()
            &&& best == PixelFormat::best(b, a)
        }),
{
}

} // verus!
