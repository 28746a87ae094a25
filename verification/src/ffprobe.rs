//! What probing an input says of it.
use crate::command::args::encode::PixelFormat;
use crate::duration::Duration;
use crate::float::Double;
use crate::outside;
use crate::text;
use vstd::prelude::*;

verus! {

broadcast use vstd::string::group_string_axioms;

/// The most bytes of a file that are looked at to tell images from videos.
pub const HEADER_LEN: usize = 8192;

/// Why something is not known of an input.
#[derive(Debug, PartialEq, Eq)]
pub struct ProbeError(pub String);

impl View for ProbeError {
    type V = Seq<char>;

    open spec fn view(&self) -> Seq<char> {
        self.0@
    }
}

impl ProbeError {
    /// The error with this message.
    pub fn new(message: String) -> (r: Self)
        ensures
            r@ == message@,
    {
        Self(message)
    }

    /// The message of the error.
    pub fn message(&self) -> (r: String)
        ensures
            r@ == self@,
    {
        self.0.clone()
    }

    /// A copy.
    pub fn copy(&self) -> (r: Self)
        ensures
            r == *self,
    {
        Self(self.0.clone())
    }
}

/// What is known of an input.
#[derive(Debug, PartialEq, Eq)]
pub struct Ffprobe {
    /// Duration of video.
    pub duration: Result<Duration, ProbeError>,
    /// The video has audio stream(s).
    pub has_audio: bool,
    /// Audio number of channels (if multiple channel the highest).
    pub max_audio_channels: Option<i64>,
    /// Video frame rate.
    pub fps: Result<Double, ProbeError>,
    pub resolution: Option<(u32, u32)>,
    pub is_image: bool,
    pub pix_fmt: Option<String>,
}

/// One stream of an input, as the prober reports it.
#[derive(Debug, PartialEq, Eq)]
pub struct ProbeStream {
    pub codec_type: Option<String>,
    pub channels: Option<i64>,
    pub width: Option<i64>,
    pub height: Option<i64>,
    pub pix_fmt: Option<String>,
    pub avg_frame_rate: String,
    pub r_frame_rate: String,
}

impl ProbeStream {
    /// Whether the stream is of this type.
    pub open spec fn has_type(&self, name: Seq<char>) -> bool {
        self.codec_type is Some && self.codec_type->0@ == name
    }

    /// The size of the picture, if both sides are numbers of 32 bits.
    pub open spec fn size(&self) -> Option<(u32, u32)> {
        match (self.width, self.height) {
            (Some(w), Some(h)) => if 0 <= w <= u32::MAX && 0 <= h <= u32::MAX {
                Some((w as u32, h as u32))
            } else {
                None
            },
            _ => None,
        }
    }

    fn is_type(&self, name: &str) -> (r: bool)
        ensures
            r == self.has_type(name@),
    {
        match &self.codec_type {
            Some(t) => text::same(t.as_str(), name),
            None => false,
        }
    }

    fn picture_size(&self) -> (r: Option<(u32, u32)>)
        ensures
            r == self.size(),
    {
        match (self.width, self.height) {
            (Some(w), Some(h)) => {
                if 0 <= w && w <= 0xffff_ffff && 0 <= h && h <= 0xffff_ffff {
                    Some((w as u32, h as u32))
                } else {
                    None
                }
            },
            _ => None,
        }
    }
}

/// The highest number of channels of the audio streams.
pub open spec fn most_channels(streams: Seq<ProbeStream>) -> Option<i64>
    decreases streams.len(),
{
    if streams.len() == 0 {
        None
    } else {
        let rest = most_channels(streams.drop_last());
        let last = streams.last();
        if last.has_type("audio"@) && last.channels is Some && (rest is None || rest->0
            <= last.channels->0) {
            last.channels
        } else {
            rest
        }
    }
}

/// The size of the first video stream that has one.
pub open spec fn first_size(streams: Seq<ProbeStream>, i: int) -> Option<(u32, u32)>
    decreases streams.len() - i,
{
    if i < 0 || i >= streams.len() {
        None
    } else if streams[i].has_type("video"@) && streams[i].size() is Some {
        streams[i].size()
    } else {
        first_size(streams, i + 1)
    }
}

/// The pixel format of the first video stream that has one.
pub open spec fn first_pix_fmt(streams: Seq<ProbeStream>, i: int) -> Option<String>
    decreases streams.len() - i,
{
    if i < 0 || i >= streams.len() {
        None
    } else if streams[i].has_type("video"@) && streams[i].pix_fmt is Some {
        streams[i].pix_fmt
    } else {
        first_pix_fmt(streams, i + 1)
    }
}

/// The index of the first video stream from `i` on.
pub open spec fn first_video(streams: Seq<ProbeStream>, i: int) -> Option<int>
    decreases streams.len() - i,
{
    if i < 0 || i >= streams.len() {
        None
    } else if streams[i].has_type("video"@) {
        Some(i)
    } else {
        first_video(streams, i + 1)
    }
}

impl Ffprobe {
    /// The pixel format, if it is one that the encoders are asked for.
    pub fn pixel_format(&self) -> (r: Option<PixelFormat>)
        ensures
            r matches Some(f) ==> self.pix_fmt is Some && text::ascii_lower(self.pix_fmt->0@)
                == f.name(),
            forall|f: PixelFormat|
                self.pix_fmt is Some && text::ascii_lower(self.pix_fmt->0@) == #[trigger] f.name()
                    ==> r == Some(f),
    {
        match &self.pix_fmt {
            Some(pf) => match PixelFormat::try_from_str(pf.as_str()) {
                Ok(f) => Some(f),
                Err(()) => None,
            },
            None => None,
        }
    }

    /// What the number of frames is computed from: the frame rate and the
    /// duration. The error of the frame rate comes before that of the duration.
    pub fn nframes_factors(&self) -> (r: Result<(Double, Duration), ProbeError>)
        ensures
            match r {
                Ok((fps, duration)) => self.fps == Ok::<Double, ProbeError>(fps) && self.duration
                    == Ok::<Duration, ProbeError>(duration),
                Err(e) => match self.fps {
                    Err(f) => e == f,
                    Ok(_) => self.duration == Err::<Duration, ProbeError>(e),
                },
            },
    {
        match &self.fps {
            Err(e) => Err(e.copy()),
            Ok(fps) => match &self.duration {
                Err(e) => Err(e.copy()),
                Ok(duration) => Ok((*fps, *duration)),
            },
        }
    }

    /// What is known from the streams of an input.
    pub fn from_streams(
        streams: &[ProbeStream],
        duration: Result<Duration, ProbeError>,
        fps: Result<Double, ProbeError>,
        is_image: bool,
    ) -> (r: Self)
        ensures
            r.duration == duration,
            r.fps == fps,
            r.is_image == is_image,
            r.has_audio <==> exists|i: int|
                0 <= i < streams@.len() && (#[trigger] streams@[i]).has_type("audio"@),
            r.max_audio_channels == most_channels(streams@),
            r.resolution == first_size(streams@, 0),
            r.pix_fmt == first_pix_fmt(streams@, 0),
    {
        let mut has_audio = false;
        let mut max_audio_channels: Option<i64> = None;
        let mut i: usize = 0;
        while i < streams.len()
            invariant
                i <= streams.len(),
                has_audio <==> exists|j: int|
                    0 <= j < i && (#[trigger] streams@[j]).has_type("audio"@),
                max_audio_channels == most_channels(streams@.take(i as int)),
            decreases streams.len() - i,
        {
            proof {
                assert(streams@.take(i + 1).drop_last() == streams@.take(i as int));
                assert(streams@.take(i + 1).last() == streams@[i as int]);
            }
            if streams[i].is_type("audio") {
                has_audio = true;
                match (streams[i].channels, max_audio_channels) {
                    (Some(c), Some(m)) => {
                        if m <= c {
                            max_audio_channels = Some(c);
                        }
                    },
                    (Some(c), None) => {
                        max_audio_channels = Some(c);
                    },
                    (None, _) => {},
                }
            }
            i += 1;
        }
        assert(streams@.take(i as int) == streams@);

        let mut resolution: Option<(u32, u32)> = None;
        let mut i: usize = 0;
        while i < streams.len() && resolution.is_none()
            invariant
                i <= streams.len(),
                first_size(streams@, 0) == (if resolution is Some {
                    resolution
                } else {
                    first_size(streams@, i as int)
                }),
            decreases streams.len() - i,
        {
            if streams[i].is_type("video") {
                resolution = streams[i].picture_size();
            }
            i += 1;
        }

        let mut pix_fmt: Option<String> = None;
        let mut i: usize = 0;
        while i < streams.len() && pix_fmt.is_none()
            invariant
                i <= streams.len(),
                first_pix_fmt(streams@, 0) == (if pix_fmt is Some {
                    pix_fmt
                } else {
                    first_pix_fmt(streams@, i as int)
                }),
            decreases streams.len() - i,
        {
            if streams[i].is_type("video") {
                pix_fmt = text::owned_opt(&streams[i].pix_fmt);
            }
            i += 1;
        }

        Self { duration, has_audio, max_audio_channels, fps, resolution, is_image, pix_fmt }
    }
}

/// The least positive double that is not subnormal, by its bits.
pub const MIN_NORMAL_BITS: u64 = 0x0010_0000_0000_0000;

/// Whether a rounded number of frames is one: normal and positive.
pub open spec fn valid_nframes(frames: Double) -> bool {
    MIN_NORMAL_BITS <= frames.bits < 0x7ff0_0000_0000_0000
}

/// The number of frames. `whole` is `frames` as an integer and `shown` how it
/// is written.
pub fn checked_nframes(frames: Double, whole: u64, shown: &str) -> (r: Result<u64, ProbeError>)
    ensures
        match r {
            Ok(n) => valid_nframes(frames) && n == whole,
            Err(e) => !valid_nframes(frames) && e@ == "Invalid nframes "@ + shown@,
        },
{
    if MIN_NORMAL_BITS <= frames.bits && frames.bits < 0x7ff0_0000_0000_0000 {
        Ok(whole)
    } else {
        Err(ProbeError(text::cat2("Invalid nframes ", shown)))
    }
}

/// What is known of an input that could not be probed.
pub fn ffprobe_error_fallback(is_image: bool, err: &str) -> (r: Ffprobe)
    ensures
        r.duration matches Err(e) && e@ == "ffprobe: "@ + err@,
        r.fps matches Err(e) && e@ == "ffprobe: "@ + err@,
        !r.has_audio,
        r.max_audio_channels is None,
        r.resolution is None,
        r.is_image == is_image,
        r.pix_fmt is None,
{
    Ffprobe {
        duration: Err(ProbeError(text::cat2("ffprobe: ", err))),
        fps: Err(ProbeError(text::cat2("ffprobe: ", err))),
        has_audio: false,
        max_audio_channels: None,
        resolution: None,
        is_image,
        pix_fmt: None,
    }
}

/// The two texts from which the frame rate is read, in order, of the first
/// video stream.
pub fn frame_rate_texts(streams: &[ProbeStream]) -> (r: Result<(&str, &str), ProbeError>)
    ensures
        match r {
            Ok((avg, base)) => first_video(streams@, 0) matches Some(i) && avg@
                == streams@[i].avg_frame_rate@ && base@ == streams@[i].r_frame_rate@,
            Err(e) => first_video(streams@, 0) is None && e@ == "no video stream found"@,
        },
{
    let mut i: usize = 0;
    while i < streams.len()
        invariant
            i <= streams.len(),
            first_video(streams@, 0) == first_video(streams@, i as int),
        decreases streams.len() - i,
    {
        if streams[i].is_type("video") {
            return Ok((streams[i].avg_frame_rate.as_str(), streams[i].r_frame_rate.as_str()));
        }
        i += 1;
    }
    Err(ProbeError("no video stream found".to_owned()))
}

/// A frame rate as text.
#[derive(Debug, PartialEq, Eq)]
pub enum RateText {
    /// `x/y`, of which both are to be positive.
    Fraction(String, String),
    /// A number, which is to be finite and positive.
    Number(String),
}

/// The parts of `x/y`, or the whole text. White space around a part does not
/// count.
pub fn split_frame_rate(rate: &str) -> (r: RateText)
    ensures
        match r {
            RateText::Fraction(x, y) => text::split_at_first(rate@, '/') matches Some((a, b))
                && x@ == text::trimmed(a) && y@ == text::trimmed(b),
            RateText::Number(n) => text::split_at_first(rate@, '/') is None && n@ == rate@,
        },
{
    match text::split_once(rate, '/') {
        Some((x, y)) => RateText::Fraction(text::trim(x.as_str()), text::trim(y.as_str())),
        None => RateText::Number(rate.to_owned()),
    }
}

/// The start of a file that tells whether it is an image.
pub open spec fn header_of(bytes: Seq<u8>) -> Seq<u8> {
    if bytes.len() <= HEADER_LEN {
        bytes
    } else {
        bytes.take(HEADER_LEN as int)
    }
}

/// Whether a file that starts with `bytes` is an image.
pub fn is_image(bytes: &[u8]) -> (r: bool)
    ensures
        r == outside::image_bytes(header_of(bytes@)),
{
    if bytes.len() <= HEADER_LEN {
        outside::infer_is_image(bytes)
    } else {
        let header = vstd::slice::slice_subrange(bytes, 0, HEADER_LEN);
        assert(header@ == bytes@.take(HEADER_LEN as int));
        outside::infer_is_image(header)
    }
}

/// The most channels are those of an audio stream, and no audio stream has
/// more.
pub proof fn law_most_channels(streams: Seq<ProbeStream>)
    ensures
        most_channels(streams) matches Some(c) ==> {
            &&& exists|i: int|
                0 <= i < streams.len() && (#[trigger] streams[i]).has_type("audio"@)
                    && streams[i].channels == Some(c)
            &&& forall|i: int|
                0 <= i < streams.len() && (#[trigger] streams[i]).has_type("audio"@)
                    && streams[i].channels is Some ==> streams[i].channels->0 <= c
        },
        most_channels(streams) is None ==> forall|i: int|
            0 <= i < streams.len() && (#[trigger] streams[i]).has_type("audio"@)
                ==> streams[i].channels is None,
    decreases streams.len(),
{
    if streams.len() > 0 {
        let init = streams.drop_last();
        law_most_channels(init);
        assert forall|i: int| 0 <= i < init.len() implies init[i] == streams[i] by {}
        match most_channels(streams) {
            Some(c) => {
                if most_channels(init) == Some(c) && !(streams.last().has_type("audio"@)
                    && streams.last().channels == Some(c)) {
                    let i = choose|i: int|
                        0 <= i < init.len() && (#[trigger] init[i]).has_type("audio"@)
                            && init[i].channels == Some(c);
                    assert(streams[i].channels == Some(c));
                } else {
                    assert(streams[streams.len() - 1].channels == Some(c));
                }
            },
            None => {},
        }
    }
}

proof fn lemma_first_size(streams: Seq<ProbeStream>, i: int, k: int)
    requires
        0 <= i <= k < streams.len(),
        streams[k].has_type("video"@) && streams[k].size() is Some,
        forall|j: int|
            i <= j < k ==> !((#[trigger] streams[j]).has_type("video"@) && streams[j].size() is Some),
    ensures
        first_size(streams, i) == streams[k].size(),
    decreases k - i,
{
    if i < k {
        assert(!(streams[i].has_type("video"@) && streams[i].size() is Some));
        lemma_first_size(streams, i + 1, k);
    }
}

proof fn lemma_first_pix_fmt(streams: Seq<ProbeStream>, i: int, k: int)
    requires
        0 <= i <= k < streams.len(),
        streams[k].has_type("video"@) && streams[k].pix_fmt is Some,
        forall|j: int|
            i <= j < k ==> !((#[trigger] streams[j]).has_type("video"@) && streams[j].pix_fmt is Some),
    ensures
        first_pix_fmt(streams, i) == streams[k].pix_fmt,
    decreases k - i,
{
    if i < k {
        assert(!(streams[i].has_type("video"@) && streams[i].pix_fmt is Some));
        lemma_first_pix_fmt(streams, i + 1, k);
    }
}

proof fn lemma_first_video(streams: Seq<ProbeStream>, i: int, k: int)
    requires
        0 <= i <= k < streams.len(),
        streams[k].has_type("video"@),
        forall|j: int| i <= j < k ==> !(#[trigger] streams[j]).has_type("video"@),
    ensures
        first_video(streams, i) == Some(k),
    decreases k - i,
{
    if i < k {
        assert(!streams[i].has_type("video"@));
        lemma_first_video(streams, i + 1, k);
    }
}

/// The video's size, pixel format and frame rate are those of the first video
/// stream that has them; streams of other types do not count.
pub proof fn law_first_video_stream_counts(streams: Seq<ProbeStream>, k: int)
    requires
        0 <= k < streams.len(),
        streams[k].has_type("video"@),
        forall|j: int| 0 <= j < k ==> !(#[trigger] streams[j]).has_type("video"@),
    ensures
        first_video(streams, 0) == Some(k),
        streams[k].pix_fmt is Some ==> first_pix_fmt(streams, 0) == streams[k].pix_fmt,
        streams[k].width is Some && streams[k].height is Some && 0 <= streams[k].width->0 <= u32::MAX
            && 0 <= streams[k].height->0 <= u32::MAX ==> first_size(streams, 0) == Some(
            (streams[k].width->0 as u32, streams[k].height->0 as u32),
        ),
{
    lemma_first_video(streams, 0, k);
    if streams[k].pix_fmt is Some {
        lemma_first_pix_fmt(streams, 0, k);
    }
    if streams[k].size() is Some {
        lemma_first_size(streams, 0, k);
    }
}

/// A stream has a type exactly where its own says so; one without a type has
/// none.
pub proof fn law_stream_type_is_its_own(s: ProbeStream, name: Seq<char>)
    ensures
        s.codec_type is None ==> !s.has_type(name),
        s.codec_type is Some ==> (s.has_type(name) <==> s.codec_type->0@ == name),
{
}

/// An image is known by the start of its file, however long that is.
pub proof fn law_header_is_the_start(bytes: Seq<u8>, more: Seq<u8>)
    ensures
        header_of(bytes).len() <= HEADER_LEN,
        header_of(bytes) == bytes.take(header_of(bytes).len() as int),
        bytes.len() >= HEADER_LEN ==> header_of(bytes + more) == header_of(bytes),
        bytes.len() <= HEADER_LEN ==> header_of(bytes) == bytes,
{
    assert(bytes.take(bytes.len() as int) =~= bytes);
    if bytes.len() >= HEADER_LEN {
        assert((bytes + more).take(HEADER_LEN as int) =~= bytes.take(HEADER_LEN as int));
        if more.len() == 0 {
            assert(bytes + more =~= bytes);
        }
    }
}

} // verus!
