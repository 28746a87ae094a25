//! ffmpeg's stderr: progress and stream size records, and the stream of them.
use crate::duration::{Duration, MAX_NANOS};
use crate::process;
use crate::process::managed::{ExitStatus, ManagedEvent};
use crate::process::Chunks;
use crate::text;
use vstd::prelude::*;

verus! {

broadcast use vstd::string::group_string_axioms;

// ---- labelled values ----

/// The index at or after `i` of the first white space of `s`, or its length.
pub open spec fn space_from(s: Seq<char>, i: int) -> int
    decreases s.len() - i,
{
    if i >= s.len() || text::is_space(s[i]) {
        i
    } else {
        space_from(s, i + 1)
    }
}

/// The value of the first `label` in `line`: the characters up to the next
/// white space, white space before them left out.
pub open spec fn label_value(label: Seq<char>, line: Seq<char>) -> Option<Seq<char>> {
    match text::find(line, label) {
        None => None,
        Some(i) => {
            let rest = text::trim_start(line.skip(i + label.len()));
            if rest.len() == 0 {
                None
            } else {
                Some(rest.take(space_from(rest, 0)))
            }
        },
    }
}

/// The size that stands behind `label`, in bytes. It is written in units of
/// 1024 bytes, and one that 64 bits do not hold is none.
pub open spec fn label_size(label: Seq<char>, line: Seq<char>) -> Option<u64> {
    match label_value(label, line) {
        None => None,
        Some(size) => if text::has_suffix(size, "kB"@) {
            match text::parsed_u64(size.take(size.len() - 2)) {
                Some(kbs) => if kbs * 1024 <= u64::MAX {
                    Some((kbs * 1024) as u64)
                } else {
                    None
                },
                None => None,
            }
        } else {
            None
        },
    }
}

/// Parse a ffmpeg `label=  value ` type substring.
pub fn parse_label_substr(label: &str, line: &str) -> (r: Option<String>)
    ensures
        r is Some <==> label_value(label@, line@) is Some,
        r matches Some(v) ==> label_value(label@, line@) == Some(v@),
{
    let v = text::chars_of(line);
    let l = text::chars_of(label);
    let at = match text::find_chars(v.as_slice(), l.as_slice()) {
        Some(i) => i,
        None => return None,
    };
    assert(at + l.len() <= v.len());
    let from: usize = at + l.len();
    let mut start: usize = from;
    let ghost rest = line@.skip(from as int);
    proof {
        assert(rest.skip(0) == rest);
    }
    while start < v.len() && text::char_is_space(v[start])
        invariant
            from <= start <= v.len(),
            v@ == line@,
            rest == line@.skip(from as int),
            text::trim_start(rest) == text::trim_start(rest.skip(start - from)),
        decreases v.len() - start,
    {
        assert(rest.skip(start - from).skip(1) == rest.skip(start + 1 - from));
        start += 1;
    }
    let ghost value = rest.skip(start - from);
    proof {
        assert(value == line@.skip(start as int));
        assert(text::trim_start(rest) == value);
    }
    if start == v.len() {
        return None;
    }
    let mut end: usize = start;
    while end < v.len() && !text::char_is_space(v[end])
        invariant
            start <= end <= v.len(),
            v@ == line@,
            value == line@.skip(start as int),
            space_from(value, 0) == space_from(value, end - start),
        decreases v.len() - end,
    {
        assert(value[end - start] == v@[end as int]);
        end += 1;
    }
    proof {
        if end < v.len() {
            assert(value[end - start] == v@[end as int]);
        }
        assert(value.take(end - start) == line@.subrange(start as int, end as int));
    }
    Some(text::slice_string(v.as_slice(), start, end))
}

/// The size in bytes that stands behind `label`.
pub fn parse_label_size(label: &str, line: &str) -> (r: Option<u64>)
    ensures
        r == label_size(label@, line@),
{
    let size = parse_label_substr(label, line)?;
    if !text::ends_with(size.as_str(), "kB") {
        return None;
    }
    let v = text::chars_of(size.as_str());
    proof {
        reveal_strlit("kB");
    }
    let digits = text::slice_string(v.as_slice(), 0, v.len() - 2);
    assert(digits@ == size@.take(size@.len() - 2));
    let kbs: u64 = text::parse_u64(digits.as_str())?;
    kbs.checked_mul(1024)
}

/// Sizes of an output's streams, in bytes.
#[derive(Debug, Clone, Copy, PartialEq, Eq, Structural)]
pub struct FfmpegStreamSizes {
    pub video: u64,
    pub audio: u64,
    pub subtitle: u64,
    pub other: u64,
}

/// The stream sizes of ffmpeg's summary line.
pub open spec fn stream_sizes(line: Seq<char>) -> Option<FfmpegStreamSizes> {
    if !(text::has_prefix(line, "video:"@) && text::contains(line, "muxing overhead"@)) {
        None
    } else {
        match (
            label_size("video:"@, line),
            label_size("audio:"@, line),
            label_size("subtitle:"@, line),
            label_size("other streams:"@, line),
        ) {
            (Some(video), Some(audio), Some(subtitle), Some(other)) => Some(
                (FfmpegStreamSizes { video, audio, subtitle, other }),
            ),
            _ => None,
        }
    }
}

/// The stream sizes of ffmpeg's summary line, if `line` is one.
pub fn parse_ffmpeg_stream_sizes(line: &str) -> (r: Option<FfmpegStreamSizes>)
    ensures
        r == stream_sizes(line@),
{
    if !(text::starts_with(line, "video:") && text::contains_str(line, "muxing overhead")) {
        return None;
    }
    let video = parse_label_size("video:", line);
    let audio = parse_label_size("audio:", line);
    let subtitle = parse_label_size("subtitle:", line);
    let other = parse_label_size("other streams:", line);
    match (video, audio, subtitle, other) {
        (Some(video), Some(audio), Some(subtitle), Some(other)) => Some(
            FfmpegStreamSizes { video, audio, subtitle, other },
        ),
        _ => None,
    }
}

// ---- progress ----

/// `n` with `k` decimal zeros behind it.
pub open spec fn scaled(n: nat, k: nat) -> nat
    decreases k,
{
    if k == 0 {
        n
    } else {
        scaled(n * 10, (k - 1) as nat)
    }
}

/// The nanoseconds of plain decimal seconds: up to six digits, and behind a
/// point up to nine. A double holds such a number closely enough for the
/// nearest nanosecond to be this one.
pub open spec fn plain_nanos(s: Seq<char>) -> Option<nat> {
    match text::split_at_first(s, '.') {
        None => if 0 < s.len() <= 6 && text::all_digits(s) {
            Some(text::dec_value(s) * 1_000_000_000)
        } else {
            None
        },
        Some((whole, frac)) => if 0 < whole.len() <= 6 && 0 < frac.len() <= 9 && text::all_digits(
            whole,
        ) && text::all_digits(frac) {
            Some(
                text::dec_value(whole) * 1_000_000_000 + scaled(
                    text::dec_value(frac),
                    (9 - frac.len()) as nat,
                ),
            )
        } else {
            None
        },
    }
}

/// The media time of a progress record.
#[derive(Debug, PartialEq, Eq)]
pub enum ProgressTime {
    Known(Duration),
    /// Whole seconds, and a number of seconds that is to be read as a float.
    Clock { whole_secs: u64, seconds: String },
}

/// A [`ProgressTime`] as mathematical values.
pub enum TimeView {
    Known(nat),
    Clock(u64, Seq<char>),
}

impl View for ProgressTime {
    type V = TimeView;

    open spec fn view(&self) -> TimeView {
        match self {
            ProgressTime::Known(d) => TimeView::Known(d@),
            ProgressTime::Clock { whole_secs, seconds } => TimeView::Clock(*whole_secs, seconds@),
        }
    }
}

/// The time that `hours:minutes:seconds` spells, and none for `N/A`. It is no
/// time if it is longer than any span or if the seconds are no number.
pub open spec fn clock_time(s: Seq<char>) -> Option<TimeView> {
    if s == "N/A"@ {
        Some(TimeView::Known(0))
    } else {
        match text::split_at_first(s, ':') {
            None => None,
            Some((h, rest)) => match text::split_at_first(rest, ':') {
                None => None,
                Some((m, secs)) => match (text::parsed_u64(h), text::parsed_u64(m)) {
                    (Some(h), Some(m)) => {
                        let whole = h * 3600 + m * 60;
                        if whole > u64::MAX {
                            None
                        } else {
                            match plain_nanos(secs) {
                                Some(n) => if whole * 1_000_000_000 + n <= MAX_NANOS {
                                    Some(TimeView::Known((whole * 1_000_000_000 + n) as nat))
                                } else {
                                    None
                                },
                                None => if text::spells_float(secs) {
                                    Some(TimeView::Clock(whole as u64, secs))
                                } else {
                                    None
                                },
                            }
                        }
                    },
                    _ => None,
                },
            },
        }
    }
}

proof fn lemma_value_bound(s: Seq<char>)
    requires
        text::all_digits(s),
        s.len() <= 9,
    ensures
        text::dec_value(s) < scaled(1, s.len()),
    decreases s.len(),
{
    lemma_scaled_one(s.len());
    if s.len() > 0 {
        lemma_scaled_one((s.len() - 1) as nat);
        assert forall|i: int| 0 <= i < s.drop_last().len() implies text::is_digit(
            #[trigger] s.drop_last()[i],
        ) by {
            assert(s.drop_last()[i] == s[i]);
        }
        lemma_value_bound(s.drop_last());
        assert(text::is_digit(s[s.len() - 1]));
        lemma_scaled_step(1, (s.len() - 1) as nat);
    }
}

proof fn lemma_scaled_step(n: nat, k: nat)
    ensures
        scaled(n, k + 1) == scaled(n, k) * 10,
    decreases k,
{
    if k > 0 {
        lemma_scaled_step(n * 10, (k - 1) as nat);
    } else {
        assert(scaled(n * 10, 0) == n * 10);
    }
}

proof fn lemma_scaled_one(k: nat)
    requires
        k <= 9,
    ensures
        scaled(1, k) <= 1_000_000_000,
{
    reveal_with_fuel(scaled, 11);
}

proof fn lemma_scaled_bound(n: nat, len: nat)
    requires
        len <= 9,
        n < scaled(1, len),
    ensures
        scaled(n, (9 - len) as nat) < 1_000_000_000,
{
    reveal_with_fuel(scaled, 11);
}

/// The nanoseconds of plain decimal seconds, if the text is such a number.
fn parse_plain_nanos(s: &str) -> (r: Option<u64>)
    ensures
        r is Some <==> plain_nanos(s@) is Some,
        r matches Some(n) ==> plain_nanos(s@) == Some(n as nat) && n < 1_000_000_000_000_000,
{
    let v = text::chars_of(s);
    let v = v.as_slice();
    match text::find_char(v, '.') {
        None => {
            if v.len() == 0 || v.len() > 6 || !text::all_digit_chars(v) {
                return None;
            }
            proof {
                lemma_value_bound(v@);
                reveal_with_fuel(scaled, 11);
                if v@[0] == '+' {
                    assert(text::is_digit(v@[0]));
                }
            }
            let n: u64 = text::parse_u64_chars(v)?;
            Some(n * 1_000_000_000)
        },
        Some(i) => {
            assert(i < v.len());
            let whole = vstd::slice::slice_subrange(v, 0, i);
            let frac = vstd::slice::slice_subrange(v, i + 1, v.len());
            proof {
                assert(whole@ == s@.take(i as int));
                assert(frac@ == s@.skip(i + 1));
            }
            if whole.len() == 0 || whole.len() > 6 || frac.len() == 0 || frac.len() > 9
                || !text::all_digit_chars(whole) || !text::all_digit_chars(frac) {
                return None;
            }
            proof {
                lemma_value_bound(whole@);
                lemma_value_bound(frac@);
                assert(scaled(1, whole@.len()) <= 1_000_000) by {
                    reveal_with_fuel(scaled, 11);
                }
                lemma_scaled_one(frac@.len());
                if whole@[0] == '+' {
                    assert(text::is_digit(whole@[0]));
                }
                if frac@[0] == '+' {
                    assert(text::is_digit(frac@[0]));
                }
            }
            let secs: u64 = text::parse_u64_chars(whole)?;
            let mut nanos: u64 = text::parse_u64_chars(frac)?;
            let ghost target = scaled(nanos as nat, (9 - frac@.len()) as nat);
            proof {
                lemma_scaled_bound(nanos as nat, frac@.len());
            }
            let mut k: usize = frac.len();
            while k < 9
                invariant
                    k <= 9,
                    target == scaled(nanos as nat, (9 - k) as nat),
                    target < 1_000_000_000,
                decreases 9 - k,
            {
                proof {
                    lemma_scaled_grows((nanos * 10) as nat, (9 - k - 1) as nat);
                }
                nanos = nanos * 10;
                k += 1;
            }
            Some(secs * 1_000_000_000 + nanos)
        },
    }
}

proof fn lemma_scaled_grows(n: nat, k: nat)
    ensures
        n <= scaled(n, k),
    decreases k,
{
    if k > 0 {
        lemma_scaled_grows(n * 10, (k - 1) as nat);
    }
}

/// The media time that `hours:minutes:seconds` or `N/A` spells.
pub fn parse_clock_time(s: &str) -> (r: Option<ProgressTime>)
    ensures
        r is Some <==> clock_time(s@) is Some,
        r matches Some(t) ==> clock_time(s@) == Some(t@),
{
    if text::same(s, "N/A") {
        return Some(ProgressTime::Known(Duration::zero()));
    }
    let (h, rest) = text::split_once(s, ':')?;
    let (m, secs) = text::split_once(rest.as_str(), ':')?;
    let h: u64 = text::parse_u64(h.as_str())?;
    let m: u64 = text::parse_u64(m.as_str())?;
    let whole: u128 = h as u128 * 3600 + m as u128 * 60;
    if whole > u64::MAX as u128 {
        return None;
    }
    match parse_plain_nanos(secs.as_str()) {
        Some(n) => {
            let sum = Duration::from_secs(whole as u64).checked_add(Duration::from_nanos(n))?;
            Some(ProgressTime::Known(sum))
        },
        None => if text::is_float(secs.as_str()) {
            Some(ProgressTime::Clock { whole_secs: whole as u64, seconds: secs })
        } else {
            None
        },
    }
}

/// A progress record. The frame rate is kept as ffmpeg wrote it.
#[derive(Debug, PartialEq, Eq)]
pub struct FfmpegProgress {
    pub frame: u64,
    pub fps: String,
    pub time: ProgressTime,
}

/// A [`FfmpegProgress`] as mathematical values.
pub struct ProgressView {
    pub frame: u64,
    pub fps: Seq<char>,
    pub time: TimeView,
}

impl View for FfmpegProgress {
    type V = ProgressView;

    open spec fn view(&self) -> ProgressView {
        ProgressView { frame: self.frame, fps: self.fps@, time: self.time@ }
    }
}

/// The record of a progress line. Its frame rate spells a float.
pub open spec fn progress_record(line: Seq<char>) -> Option<ProgressView> {
    if !text::has_prefix(line, "frame="@) {
        None
    } else {
        match (
            label_value("frame="@, line),
            label_value("fps="@, line),
            label_value("time="@, line),
        ) {
            (Some(frame), Some(fps), Some(time)) => match (
                text::parsed_u64(frame),
                clock_time(time),
            ) {
                (Some(frame), Some(time)) => if text::spells_float(fps) {
                    Some((ProgressView { frame, fps, time }))
                } else {
                    None
                },
                _ => None,
            },
            _ => None,
        }
    }
}

/// The record of a progress line, if `line` is one.
pub fn parse_ffmpeg_progress(line: &str) -> (r: Option<FfmpegProgress>)
    ensures
        r is Some <==> progress_record(line@) is Some,
        r matches Some(p) ==> progress_record(line@) == Some(p@),
{
    if !text::starts_with(line, "frame=") {
        return None;
    }
    let frame = parse_label_substr("frame=", line)?;
    let fps = parse_label_substr("fps=", line);
    let time = parse_label_substr("time=", line);
    let frame: u64 = text::parse_u64(frame.as_str())?;
    let fps = fps?;
    let time = time?;
    let time = parse_clock_time(time.as_str())?;
    if !text::is_float(fps.as_str()) {
        return None;
    }
    Some(FfmpegProgress { frame, fps, time })
}

/// A record of ffmpeg's stderr.
#[derive(Debug, PartialEq, Eq)]
pub enum FfmpegOut {
    Progress { frame: u64, fps: String, time: ProgressTime },
    StreamSizes { video: u64, audio: u64, subtitle: u64, other: u64 },
}

/// A [`FfmpegOut`] as mathematical values.
pub enum OutView {
    Progress(ProgressView),
    StreamSizes(FfmpegStreamSizes),
}

impl View for FfmpegOut {
    type V = OutView;

    open spec fn view(&self) -> OutView {
        match self {
            FfmpegOut::Progress { frame, fps, time } => OutView::Progress(
                ProgressView { frame: *frame, fps: fps@, time: time@ },
            ),
            FfmpegOut::StreamSizes { video, audio, subtitle, other } => OutView::StreamSizes(
                FfmpegStreamSizes {
                    video: *video,
                    audio: *audio,
                    subtitle: *subtitle,
                    other: *other,
                },
            ),
        }
    }
}

/// The record that a line is, if it is one.
pub open spec fn record(line: Seq<char>) -> Option<OutView> {
    match progress_record(line) {
        Some(p) => Some(OutView::Progress(p)),
        None => match stream_sizes(line) {
            Some(sizes) => Some(OutView::StreamSizes(sizes)),
            None => None,
        },
    }
}

/// What an optional record is, as mathematical values.
pub open spec fn record_view(r: Option<FfmpegOut>) -> Option<OutView> {
    match r {
        Some(out) => Some(out@),
        None => None,
    }
}

impl FfmpegOut {
    /// The record that `line` is, if it is one.
    pub fn try_parse(line: &str) -> (r: Option<Self>)
        ensures
            record_view(r) == record(line@),
    {
        if let Some(progress) = parse_ffmpeg_progress(line) {
            return Some(
                FfmpegOut::Progress {
                    frame: progress.frame,
                    fps: progress.fps,
                    time: progress.time,
                },
            );
        }
        if let Some(sizes) = parse_ffmpeg_stream_sizes(line) {
            return Some(
                FfmpegOut::StreamSizes {
                    video: sizes.video,
                    audio: sizes.audio,
                    subtitle: sizes.subtitle,
                    other: sizes.other,
                },
            );
        }
        None
    }
}

// ---- the stream ----

/// Whether the process behind a stream is known to have ended.
#[derive(Debug, Clone, Copy, PartialEq, Eq, Structural)]
pub enum FfmpegProcessCompletion {
    Pending,
    Done(ExitStatus),
}

impl FfmpegProcessCompletion {
    /// How the process ended, once it has.
    pub fn status(self) -> (r: Option<ExitStatus>)
        ensures
            r == (match self {
                FfmpegProcessCompletion::Pending => None,
                FfmpegProcessCompletion::Done(status) => Some(status),
            }),
    {
        match self {
            Self::Pending => None,
            Self::Done(status) => Some(status),
        }
    }
}

/// What a stream has for its consumer after an event.
#[derive(Debug, PartialEq, Eq)]
pub enum StreamStep {
    /// Nothing yet: the next event is needed.
    Continue,
    Item(FfmpegOut),
    Failed(String),
}

/// Streaming ffmpeg stderr parser for encode and sample progress.
///
/// Progress events are opportunistic: ffmpeg may produce none, one, or many
/// progress lines. Success is only established by process completion; an end
/// of output before it is an error.
pub struct FfmpegOutStream {
    pub name: String,
    pub cmd_str: String,
    pub chunks: Chunks,
    pub completion: FfmpegProcessCompletion,
}

/// The line that is looked at after a chunk has come in.
pub open spec fn newest_line(b: Seq<u8>) -> Seq<char> {
    process::first_filled(process::lines_newest_first(b))
}

impl FfmpegOutStream {
    /// A stream that has seen nothing.
    pub fn new(name: String, cmd_str: String) -> (r: Self)
        ensures
            r.name == name,
            r.cmd_str == cmd_str,
            r.chunks@ == Seq::<u8>::empty(),
            r.chunks.overwrite_from() is None,
            r.completion is Pending,
    {
        Self {
            name,
            cmd_str,
            chunks: Chunks::default(),
            completion: FfmpegProcessCompletion::Pending,
        }
    }

    /// Takes one event of the process. The newest line is parsed after each
    /// chunk; a child that did not succeed is a failure that names the command
    /// and shows the kept stderr.
    pub fn on_event(&mut self, event: ManagedEvent) -> (r: StreamStep)
        ensures
            final(self).name == old(self).name,
            final(self).cmd_str == old(self).cmd_str,
            match event {
                ManagedEvent::RawStderr(chunk) => {
                    &&& final(self).completion == old(self).completion
                    &&& final(self).chunks@ == process::bounded(
                        process::kept(old(self).chunks@, old(self).chunks.overwrite_from())
                            + chunk@,
                    )
                    &&& final(self).chunks.overwrite_from() == process::overwrite_after(
                        chunk@,
                        final(self).chunks@,
                    )
                    &&& match r {
                        StreamStep::Continue => record(newest_line(final(self).chunks@)) is None,
                        StreamStep::Item(out) => record(newest_line(final(self).chunks@)) == Some(
                            out@,
                        ),
                        StreamStep::Failed(_) => false,
                    }
                },
                ManagedEvent::ReplayGap(_) => *final(self) == *old(self) && r is Continue,
                ManagedEvent::ProcessDone(done) => {
                    &&& final(self).chunks == old(self).chunks
                    &&& final(self).completion == FfmpegProcessCompletion::Done(done.spec_status())
                    &&& match r {
                        StreamStep::Continue => done.spec_status().code == Some(0i32),
                        StreamStep::Item(_) => false,
                        StreamStep::Failed(message) => {
                            &&& done.spec_status().code != Some(0i32)
                            &&& message@ == process::cmd_err_text(
                                process::exit_text(old(self).name@, done.spec_status()),
                                old(self).cmd_str@,
                                old(self).chunks@,
                            )
                            &&& process::shows_valid_text(old(self).chunks@)
                        },
                    }
                },
            },
    {
        match event {
            ManagedEvent::RawStderr(chunk) => {
                self.chunks.push(chunk.as_bytes());
                match FfmpegOut::try_parse(self.chunks.last_line()) {
                    Some(out) => StreamStep::Item(out),
                    None => StreamStep::Continue,
                }
            },
            ManagedEvent::ReplayGap(_) => StreamStep::Continue,
            ManagedEvent::ProcessDone(done) => {
                let status = done.status();
                self.completion = FfmpegProcessCompletion::Done(status);
                match process::exit_ok_stderr(
                    self.name.as_str(),
                    Ok(status),
                    self.cmd_str.as_str(),
                    &self.chunks,
                ) {
                    Ok(()) => StreamStep::Continue,
                    Err(message) => StreamStep::Failed(message),
                }
            },
        }
    }

    /// What waiting for the process gives once its events have ended.
    pub fn wait_result(&self) -> (r: Result<ExitStatus, String>)
        ensures
            match self.completion {
                FfmpegProcessCompletion::Done(status) => r == Ok::<ExitStatus, String>(status),
                FfmpegProcessCompletion::Pending => r matches Err(e) && e@
                    == "ffmpeg event stream ended before process completion"@,
            },
    {
        match self.completion.status() {
            Some(status) => Ok(status),
            None => Err("ffmpeg event stream ended before process completion".to_owned()),
        }
    }
}

/// The size of a summary line is a multiple of 1024 bytes.
pub proof fn law_label_size_in_units(label: Seq<char>, line: Seq<char>)
    ensures
        label_size(label, line) matches Some(n) ==> n % 1024 == 0,
{
}

/// A line is a progress record or a summary of stream sizes, never both.
pub proof fn law_records_exclusive(line: Seq<char>)
    ensures
        progress_record(line) is Some ==> stream_sizes(line) is None,
{
    reveal_strlit("frame=");
    reveal_strlit("video:");
    if text::has_prefix(line, "frame="@) && text::has_prefix(line, "video:"@) {
        assert(line.subrange(0, 6)[0] == 'f');
        assert(line.subrange(0, 6)[0] == 'v');
    }
}

proof fn lemma_space_from(s: Seq<char>, i: int, n: int)
    requires
        0 <= i <= n <= s.len(),
        forall|j: int| i <= j < n ==> !text::is_space(#[trigger] s[j]),
        n < s.len() ==> text::is_space(s[n]),
    ensures
        space_from(s, i) == n,
    decreases n - i,
{
    if i < n {
        assert(!text::is_space(s[i]));
        lemma_space_from(s, i + 1, n);
    }
}

/// The value of a label is the first word behind the place where the label first
/// stands, whatever comes before the label and behind the word.
pub proof fn law_label_value_is_the_word_behind(
    label: Seq<char>,
    front: Seq<char>,
    gap: Seq<char>,
    value: Seq<char>,
    rest: Seq<char>,
)
    requires
        text::find(front + label + gap + value + rest, label) == Some(front.len() as int),
        forall|i: int| 0 <= i < gap.len() ==> text::is_space(#[trigger] gap[i]),
        value.len() > 0,
        forall|i: int| 0 <= i < value.len() ==> !text::is_space(#[trigger] value[i]),
        rest.len() > 0 ==> text::is_space(rest[0]),
    ensures
        label_value(label, front + label + gap + value + rest) == Some(value),
{
    let line = front + label + gap + value + rest;
    let behind = line.skip(front.len() + label.len() as int);
    let words = value + rest;
    assert(behind =~= gap + words);
    assert(words[0] == value[0]);
    text::lemma_trim_start_of(gap, words);
    assert forall|j: int| 0 <= j < value.len() implies !text::is_space(#[trigger] words[j]) by {
        assert(words[j] == value[j]);
    }
    if rest.len() > 0 {
        assert(words[value.len() as int] == rest[0]);
    }
    lemma_space_from(words, 0, value.len() as int);
    assert(words.take(value.len() as int) =~= value);
}

/// A line without a label has no value for it.
pub proof fn law_no_label_no_value(label: Seq<char>, line: Seq<char>)
    requires
        !text::contains(line, label),
    ensures
        label_value(label, line) is None,
{
}

/// Hours, minutes and seconds add up to the media time.
pub proof fn law_clock_adds_up(h: u64, m: u64, secs: Seq<char>)
    requires
        plain_nanos(secs) is Some,
        h * 3600 + m * 60 <= u64::MAX,
        (h * 3600 + m * 60) * 1_000_000_000 + plain_nanos(secs)->0 <= MAX_NANOS,
    ensures
        clock_time(text::dec(h as nat) + ":"@ + text::dec(m as nat) + ":"@ + secs) == Some(
            TimeView::Known(
                ((h * 60 + m) * 60 * 1_000_000_000 + plain_nanos(secs)->0) as nat,
            ),
        ),
{
    let a = text::dec(h as nat);
    let b = text::dec(m as nat);
    reveal_strlit(":");
    reveal_strlit("N/A");
    text::lemma_dec_spells(h as nat);
    text::lemma_dec_spells(m as nat);
    text::law_dec_round_trip(h);
    text::law_dec_round_trip(m);
    assert(!a.contains(':')) by {
        if a.contains(':') {
            let i = choose|i: int| 0 <= i < a.len() && a[i] == ':';
            assert(text::is_digit(a[i]));
        }
    }
    assert(!b.contains(':')) by {
        if b.contains(':') {
            let i = choose|i: int| 0 <= i < b.len() && b[i] == ':';
            assert(text::is_digit(b[i]));
        }
    }
    let rest = b.push(':') + secs;
    let s = a + ":"@ + b + ":"@ + secs;
    assert(s =~= a.push(':') + rest);
    text::law_split_takes_apart(a, ':', rest);
    text::law_split_takes_apart(b, ':', secs);
    assert(s[0] == a[0]);
    assert(text::is_digit(a[0]));
    assert("N/A"@[0] == 'N');
    assert(s != "N/A"@);
}

/// Where ffmpeg knows no time yet, there is none.
pub proof fn law_no_time_is_nought()
    ensures
        clock_time("N/A"@) == Some(TimeView::Known(0)),
{
}

/// Digits in front of the point are seconds, the first one behind it is tenths,
/// and a nought at the end changes nothing.
pub proof fn law_decimal_seconds(whole: Seq<char>, frac: Seq<char>, d: char)
    requires
        0 < whole.len() <= 6,
        text::all_digits(whole),
        0 < frac.len() < 9,
        text::all_digits(frac),
        text::is_digit(d),
    ensures
        plain_nanos(whole) == Some(text::dec_value(whole) * 1_000_000_000),
        plain_nanos(whole.push('.') + seq![d]) == Some(
            (text::dec_value(whole) * 1_000_000_000 + (d as int - '0' as int) * 100_000_000) as nat,
        ),
        plain_nanos(whole.push('.') + frac.push('0')) == plain_nanos(whole.push('.') + frac),
{
    assert(!whole.contains('.')) by {
        if whole.contains('.') {
            let i = choose|i: int| 0 <= i < whole.len() && whole[i] == '.';
            assert(text::is_digit(whole[i]));
        }
    }
    text::law_split_at_the_first(whole, '.');
    let one = seq![d];
    text::law_split_takes_apart(whole, '.', one);
    text::law_split_takes_apart(whole, '.', frac);
    text::law_split_takes_apart(whole, '.', frac.push('0'));
    assert forall|i: int| 0 <= i < one.len() implies text::is_digit(#[trigger] one[i]) by {}
    let more = frac.push('0');
    assert forall|i: int| 0 <= i < more.len() implies text::is_digit(#[trigger] more[i]) by {
        if i < frac.len() {
            assert(more[i] == frac[i]);
            assert(text::is_digit(frac[i]));
        }
    }
    assert(more.drop_last() =~= frac);
    assert(text::dec_value(more) == text::dec_value(frac) * 10);
    assert(scaled(text::dec_value(frac), (9 - frac.len()) as nat) == scaled(
        text::dec_value(frac) * 10,
        (8 - frac.len()) as nat,
    ));
    assert(one.drop_last() =~= Seq::empty());
    assert(text::dec_value(Seq::empty()) == 0);
    assert(text::dec_value(one) == d as int - '0' as int);
    let v = text::dec_value(one);
    reveal_with_fuel(scaled, 10);
    assert(scaled(v, 8) == v * 100_000_000);
}

/// A size is written in kibibytes, and what is not is no size.
pub proof fn law_sizes_are_kibibytes(label: Seq<char>, line: Seq<char>, n: u64)
    ensures
        label_value(label, line) == Some(text::dec(n as nat) + "kB"@) && n * 1024 <= u64::MAX
            ==> label_size(label, line) == Some((n * 1024) as u64),
        label_value(label, line) matches Some(size) && !text::has_suffix(size, "kB"@) ==> label_size(
            label,
            line,
        ) is None,
        label_value(label, line) is None ==> label_size(label, line) is None,
{
    if label_value(label, line) == Some(text::dec(n as nat) + "kB"@) {
        reveal_strlit("kB");
        let digits = text::dec(n as nat);
        let size = digits + "kB"@;
        assert(size.subrange(size.len() - 2, size.len() as int) =~= "kB"@);
        assert(size.take(size.len() - 2) =~= digits);
        text::law_dec_round_trip(n);
    }
}

/// The sizes of the streams are those of their own labels, from the line that
/// sums up an encode, where all of them are there.
pub proof fn law_stream_sizes_by_label(line: Seq<char>)
    ensures
        match stream_sizes(line) {
            Some(s) => {
                &&& text::has_prefix(line, "video:"@)
                &&& text::contains(line, "muxing overhead"@)
                &&& label_size("video:"@, line) == Some(s.video)
                &&& label_size("audio:"@, line) == Some(s.audio)
                &&& label_size("subtitle:"@, line) == Some(s.subtitle)
                &&& label_size("other streams:"@, line) == Some(s.other)
            },
            None => {
                ||| !text::has_prefix(line, "video:"@)
                ||| !text::contains(line, "muxing overhead"@)
                ||| label_size("video:"@, line) is None
                ||| label_size("audio:"@, line) is None
                ||| label_size("subtitle:"@, line) is None
                ||| label_size("other streams:"@, line) is None
            },
        },
{
}

/// Progress is the frame, the frame rate and the time of a line that starts with
/// its frame, where each of them is a number or a time.
pub proof fn law_progress_by_label(line: Seq<char>)
    ensures
        match progress_record(line) {
            Some(p) => {
                &&& text::has_prefix(line, "frame="@)
                &&& label_value("frame="@, line) is Some
                &&& text::parsed_u64(label_value("frame="@, line)->0) == Some(p.frame)
                &&& label_value("fps="@, line) == Some(p.fps)
                &&& text::spells_float(p.fps)
                &&& label_value("time="@, line) is Some
                &&& clock_time(label_value("time="@, line)->0) == Some(p.time)
            },
            None => {
                ||| !text::has_prefix(line, "frame="@)
                ||| label_value("frame="@, line) is None
                ||| text::parsed_u64(label_value("frame="@, line)->0) is None
                ||| label_value("fps="@, line) is None
                ||| !text::spells_float(label_value("fps="@, line)->0)
                ||| label_value("time="@, line) is None
                ||| clock_time(label_value("time="@, line)->0) is None
            },
        },
{
}

} // verus!
