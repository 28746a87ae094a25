//! ffmpeg encoding: what its command lines hold.
use crate::command::args::encode::PixelFormat;
use crate::float::Single;
use crate::path;
use crate::process::command_line::CommandLine;
use crate::text;
use vstd::prelude::*;

verus! {

broadcast use vstd::string::group_string_axioms;

/// The bits of 63, the highest crf that ffmpeg takes for svt-av1.
pub const SVTAV1_MAX_CRF_BITS: u32 = 0x427c_0000;

/// A constant rate factor: the number, how it is written in full, and how it
/// is written with as few decimals as it needs.
#[derive(Debug, PartialEq, Eq)]
pub struct Crf {
    pub value: Single,
    pub display: String,
    pub terse: String,
}

impl Crf {
    /// The number with its two forms.
    pub fn new(value: Single, display: String, terse: String) -> (r: Self)
        ensures
            r.value == value,
            r.display == display,
            r.terse == terse,
    {
        Self { value, display, terse }
    }

    /// A copy.
    pub fn copy(&self) -> (r: Self)
        ensures
            r == *self,
    {
        Self { value: self.value, display: self.display.clone(), terse: self.terse.clone() }
    }
}

/// Exposed ffmpeg encoding args.
#[derive(Debug, PartialEq, Eq)]
pub struct FfmpegEncodeArgs {
    pub input: String,
    pub vcodec: String,
    pub vfilter: Option<String>,
    pub pix_fmt: Option<PixelFormat>,
    pub crf: Crf,
    pub preset: Option<String>,
    pub output_args: Vec<String>,
    pub input_args: Vec<String>,
    pub video_only: bool,
}

// ---- codecs ----

/// The part of an output's name that tells its codec.
pub open spec fn codec_name(vcodec: Seq<char>) -> Seq<char> {
    if vcodec == "libsvtav1"@ || vcodec == "libaom-av1"@ || vcodec == "libdav1d"@ || vcodec
        == "svtav1"@ {
        "av1"@
    } else if vcodec == "libvpx-vp9"@ || vcodec == "libvpx"@ {
        "vp9"@
    } else if text::has_prefix(vcodec, "lib"@) && vcodec.len() > 3 {
        vcodec.skip(3)
    } else {
        vcodec
    }
}

/// The part of an output's name that tells its codec.
pub fn pre_extension_name(vcodec: &str) -> (r: &str)
    ensures
        r@ == codec_name(vcodec@),
{
    if text::same(vcodec, "libsvtav1") || text::same(vcodec, "libaom-av1") || text::same(
        vcodec,
        "libdav1d",
    ) || text::same(vcodec, "svtav1") {
        "av1"
    } else if text::same(vcodec, "libvpx-vp9") || text::same(vcodec, "libvpx") {
        "vp9"
    } else {
        let n = text::chars_of(vcodec).len();
        if text::starts_with(vcodec, "lib") && n > 3 {
            assert(vcodec@.subrange(3, n as int) =~= vcodec@.skip(3));
            vcodec.substring_char(3, n)
        } else {
            vcodec
        }
    }
}

/// The option that takes the preset.
pub open spec fn preset_option(vcodec: Seq<char>) -> Seq<char> {
    if vcodec == "libaom-av1"@ || vcodec == "libvpx-vp9"@ {
        "-cpu-used"@
    } else if vcodec == "librav1e"@ {
        "-speed"@
    } else {
        "-preset"@
    }
}

/// The option that takes the crf, or what is like a crf for an encoder that
/// has none.
pub open spec fn crf_option(vcodec: Seq<char>) -> Seq<char> {
    if vcodec == "librav1e"@ || vcodec == "libvvenc"@ {
        "-qp"@
    } else if vcodec == "mpeg2video"@ {
        "-q"@
    } else if vcodec == "hevc_videotoolbox"@ {
        "-q:v"@
    } else if text::has_suffix(vcodec, "_vaapi"@) {
        "-q"@
    } else if text::has_suffix(vcodec, "_vulkan"@) {
        "-qp"@
    } else if text::has_suffix(vcodec, "_nvenc"@) {
        "-cq"@
    } else if text::has_suffix(vcodec, "_qsv"@) {
        "-global_quality"@
    } else {
        "-crf"@
    }
}

/// Arg to use preset values with, normally `-preset`.
pub fn preset_arg(vcodec: &str) -> (r: &'static str)
    ensures
        r@ == preset_option(vcodec@),
{
    if text::same(vcodec, "libaom-av1") || text::same(vcodec, "libvpx-vp9") {
        "-cpu-used"
    } else if text::same(vcodec, "librav1e") {
        "-speed"
    } else {
        "-preset"
    }
}

/// Arg to use crf values with, normally `-crf`.
pub fn crf_arg(vcodec: &str) -> (r: &'static str)
    ensures
        r@ == crf_option(vcodec@),
{
    // use crf-like args to support encoders that don't have crf
    if text::same(vcodec, "librav1e") || text::same(vcodec, "libvvenc") {
        "-qp"
    } else if text::same(vcodec, "mpeg2video") {
        "-q"
    } else if text::same(vcodec, "hevc_videotoolbox") {
        "-q:v"
    } else if text::ends_with(vcodec, "_vaapi") {
        "-q"
    } else if text::ends_with(vcodec, "_vulkan") {
        "-qp"
    } else if text::ends_with(vcodec, "_nvenc") {
        "-cq"
    } else if text::ends_with(vcodec, "_qsv") {
        "-global_quality"
    } else {
        "-crf"
    }
}

/// How the crf is written for ffmpeg: svt-av1 takes none above 63 there.
pub open spec fn crf_text(vcodec: Seq<char>, crf: Crf) -> Seq<char> {
    if vcodec == "libsvtav1"@ && !(Single { bits: SVTAV1_MAX_CRF_BITS }).ge(crf.value) {
        "63"@
    } else {
        crf.display@
    }
}

/// crf value to pass to ffmpeg.
pub fn crf_value(vcodec: &str, crf: &Crf) -> (r: String)
    ensures
        r@ == crf_text(vcodec@, *crf),
{
    let max = Single { bits: SVTAV1_MAX_CRF_BITS };
    // ffmpeg svt-av1 crf above 63 don't work, but up to 70 does work in -svtav1-params
    if text::same(vcodec, "libsvtav1") && !max.at_least(crf.value) {
        "63".to_owned()
    } else {
        crf.display.clone()
    }
}

// ---- argument lists ----

/// A list of ffmpeg arguments.
#[derive(Debug, Clone, Copy)]
pub struct FfmpegArgValues<'a> {
    args: &'a [String],
}

impl<'a> FfmpegArgValues<'a> {
    pub closed spec fn list(&self) -> Seq<String> {
        self.args@
    }

    /// These arguments.
    pub fn new(args: &'a [String]) -> (r: Self)
        ensures
            r.list() == args@,
    {
        Self { args }
    }

    /// How many arguments there are.
    pub fn len(self) -> (r: usize)
        ensures
            r == self.list().len(),
    {
        self.args.len()
    }

    /// One of the arguments.
    pub fn get(self, i: usize) -> (r: Option<&'a str>)
        ensures
            match r {
                Some(arg) => i < self.list().len() && arg@ == self.list()[i as int]@,
                None => i >= self.list().len(),
            },
    {
        if i < self.args.len() {
            Some(self.args[i].as_str())
        } else {
            None
        }
    }

    /// The arguments, in order.
    pub fn iter(self) -> (r: Vec<&'a str>)
        ensures
            r@.len() == self.list().len(),
            forall|i: int| 0 <= i < r@.len() ==> (#[trigger] r@[i])@ == self.list()[i]@,
    {
        let mut out: Vec<&'a str> = Vec::new();
        let mut i: usize = 0;
        while i < self.args.len()
            invariant
                i <= self.args.len(),
                out@.len() == i,
                forall|j: int| 0 <= j < i ==> (#[trigger] out@[j])@ == self.args@[j]@,
            decreases self.args.len() - i,
        {
            out.push(self.args[i].as_str());
            i += 1;
        }
        out
    }
}

/// The index of the first of `args` from `i` on that is `arg`.
pub open spec fn arg_index(args: Seq<Seq<char>>, arg: Seq<char>, i: int) -> Option<int>
    decreases args.len() - i,
{
    if i < 0 || i >= args.len() {
        None
    } else if args[i] == arg {
        Some(i)
    } else {
        arg_index(args, arg, i + 1)
    }
}

/// `args` without the first `arg`, and without the value behind it. What
/// starts with a dash is no value.
pub open spec fn without_arg(args: Seq<Seq<char>>, arg: Seq<char>) -> Seq<Seq<char>> {
    match arg_index(args, arg, 0) {
        Some(i) => if i + 1 < args.len() && !text::has_prefix(args[i + 1], "-"@) {
            args.take(i) + args.skip(i + 2)
        } else {
            args.take(i) + args.skip(i + 1)
        },
        None => args,
    }
}

/// Removes the first `arg`, and the value behind it.
pub fn remove_arg(args: &mut Vec<String>, arg: &str)
    ensures
        text::views(final(args)@) == without_arg(text::views(old(args)@), arg@),
{
    let ghost all = text::views(args@);
    let mut i: usize = 0;
    while i < args.len()
        invariant
            i <= args.len(),
            args@ == old(args)@,
            all == text::views(args@),
            arg_index(all, arg@, 0) == arg_index(all, arg@, i as int),
        decreases args.len() - i,
    {
        if text::same(args[i].as_str(), arg) {
            args.remove(i);
            assert(text::views(args@) =~= all.take(i as int) + all.skip(i + 1));
            if i < args.len() && !text::starts_with(args[i].as_str(), "-") {
                args.remove(i);
                assert(text::views(args@) =~= all.take(i as int) + all.skip(i + 2));
            }
            return ;
        }
        i += 1;
    }
}

// ---- command lines ----

/// What ffmpeg encodes to.
pub trait EncodeDestination {
    /// The path that ffmpeg writes.
    spec fn destination(&self) -> Seq<char>;

    /// The path that ffmpeg writes.
    fn encode_destination(&self) -> (r: &str)
        ensures
            r@ == self.destination(),
    ;
}

/// What an encode does besides encoding the video.
pub struct EncodeTarget {
    pub output: String,
    pub has_audio: bool,
    pub audio_codec: Option<String>,
    pub downmix_to_stereo: bool,
}

/// `args` and an option with its value behind them, if it has one.
pub open spec fn with_opt(
    args: Seq<Seq<char>>,
    name: Seq<char>,
    value: Option<Seq<char>>,
) -> Seq<Seq<char>> {
    match value {
        Some(v) => args.push(name).push(v),
        None => args,
    }
}

/// `args` and an option with its value behind them, if `condition`.
pub open spec fn with_if(
    args: Seq<Seq<char>>,
    condition: bool,
    name: Seq<char>,
    value: Seq<char>,
) -> Seq<Seq<char>> {
    if condition {
        args.push(name).push(value)
    } else {
        args
    }
}

impl FfmpegEncodeArgs {
    /// How the pixel format is written.
    pub open spec fn pix_fmt_text(&self) -> Option<Seq<char>> {
        match self.pix_fmt {
            Some(f) => Some(f.name()),
            None => None,
        }
    }

    /// How the preset is written.
    pub open spec fn preset_text(&self) -> Option<Seq<char>> {
        match self.preset {
            Some(p) => Some(p@),
            None => None,
        }
    }

    /// The filter.
    pub open spec fn vfilter_text(&self) -> Option<Seq<char>> {
        match self.vfilter {
            Some(f) => Some(f@),
            None => None,
        }
    }

    /// `args` with crf, pixel format, preset and filter behind them.
    pub open spec fn with_quality(&self, args: Seq<Seq<char>>) -> Seq<Seq<char>> {
        let a = args.push(crf_option(self.vcodec@)).push(crf_text(self.vcodec@, self.crf));
        let a = with_opt(a, "-pix_fmt"@, self.pix_fmt_text());
        let a = with_opt(a, preset_option(self.vcodec@), self.preset_text());
        with_opt(a, "-vf"@, self.vfilter_text())
    }

    fn push_quality(&self, cmd: &mut CommandLine)
        ensures
            final(cmd).program == old(cmd).program,
            final(cmd).arg_views() == self.with_quality(old(cmd).arg_views()),
    {
        let crf = crf_value(self.vcodec.as_str(), &self.crf);
        cmd.arg2(crf_arg(self.vcodec.as_str()), crf.as_str());
        let pix_fmt: Option<&str> = match self.pix_fmt {
            Some(f) => Some(f.as_str()),
            None => None,
        };
        cmd.arg2_opt("-pix_fmt", pix_fmt);
        let preset: Option<&str> = match &self.preset {
            Some(p) => Some(p.as_str()),
            None => None,
        };
        cmd.arg2_opt(preset_arg(self.vcodec.as_str()), preset);
        let vfilter: Option<&str> = match &self.vfilter {
            Some(f) => Some(f.as_str()),
            None => None,
        };
        cmd.arg2_opt("-vf", vfilter);
    }

    /// The arguments of ffmpeg for the encode of a sample to `dest`.
    pub open spec fn sample_command(&self, dest: Seq<char>) -> Seq<Seq<char>> {
        let start = seq!["-nostdin"@, "-y"@] + text::views(self.input_args@);
        let codec = start.push("-i"@).push(self.input@).push("-c:v"@).push(self.vcodec@);
        let output = codec + text::views(self.output_args@);
        self.with_quality(output.push("-fps_mode"@).push("passthrough"@)).push("-an"@).push(dest)
    }

    /// The command that encodes a sample to `dest`.
    pub fn encode_sample_command(&self, dest: &str) -> (r: CommandLine)
        ensures
            r.program@ == "ffmpeg"@,
            r.arg_views() == self.sample_command(dest@),
    {
        let mut cmd = CommandLine::new("ffmpeg");
        cmd.arg("-nostdin");
        cmd.arg("-y");
        assert(cmd.arg_views() =~= seq!["-nostdin"@, "-y"@]);
        cmd.args(self.input_args.as_slice());
        cmd.arg2("-i", self.input.as_str());
        cmd.arg2("-c:v", self.vcodec.as_str());
        cmd.args(self.output_args.as_slice());
        // Avoid dropping or duplicating frames as this may negatively affect input/output analysis
        cmd.arg2("-fps_mode", "passthrough");
        self.push_quality(&mut cmd);
        cmd.arg("-an");
        cmd.arg(dest);
        cmd
    }

    /// Whether `arg` is among the output arguments.
    pub open spec fn has_output_arg(&self, arg: Seq<char>) -> bool {
        text::views(self.output_args@).contains(arg)
    }

    /// The audio codec: what was asked for, else opus for what is mixed down,
    /// else a copy.
    pub open spec fn audio_codec(&self, target: EncodeTarget) -> Seq<char> {
        match target.audio_codec {
            Some(codec) => codec@,
            None => if target.downmix_to_stereo && target.has_audio {
                "libopus"@
            } else {
                "copy"@
            },
        }
    }

    /// What the output says of how it was made.
    pub open spec fn metadata(&self) -> Seq<char> {
        let crf = "AB_AV1_FFMPEG_ARGS=-c:v "@ + self.vcodec@ + " "@ + crf_option(self.vcodec@)
            + " "@ + self.crf.display@;
        match self.preset {
            Some(p) => crf + " "@ + preset_option(self.vcodec@) + " "@ + p@,
            None => crf,
        }
    }

    /// The arguments of ffmpeg for an encode.
    pub open spec fn encode_args(&self, target: EncodeTarget) -> Seq<Seq<char>> {
        let ext = path::extension(target.output@);
        let matroska = ext == Some("mkv"@) || ext == Some("webm"@);
        let audio = self.audio_codec(target);
        let a = seq!["-nostdin"@] + text::views(self.input_args@);
        let a = a.push("-y"@).push("-i"@).push(self.input@);
        let a = a.push("-map"@).push(
            if self.video_only {
                "0:v:0"@
            } else {
                "0"@
            },
        );
        let a = a.push("-c:v"@).push("copy"@).push("-c:v:0"@).push(self.vcodec@);
        let a = a.push("-metadata"@).push(self.metadata());
        let a = a.push("-c:a"@).push(audio).push("-c:s"@).push("copy"@);
        let a = self.with_quality(a + text::views(self.output_args@));
        let a = if matroska {
            a.push("-dn"@)
        } else {
            a
        };
        let a = with_if(a, target.downmix_to_stereo && !self.has_output_arg("-ac"@), "-ac"@, "2"@);
        let a = with_if(
            a,
            audio == "libopus"@ && !self.has_output_arg("-b:a"@),
            "-b:a"@,
            "128k"@,
        );
        let a = with_if(
            a,
            ext == Some("mp4"@) && !self.has_output_arg("-movflags"@),
            "-movflags"@,
            "+faststart"@,
        );
        let a = with_if(
            a,
            matroska && !self.has_output_arg("-cues_to_front"@),
            "-cues_to_front"@,
            "y"@,
        );
        a.push(target.output@)
    }

    fn metadata_string(&self) -> (r: String)
        ensures
            r@ == self.metadata(),
    {
        let mut out = text::cat4(
            "AB_AV1_FFMPEG_ARGS=-c:v ",
            self.vcodec.as_str(),
            " ",
            crf_arg(self.vcodec.as_str()),
        );
        out.append(" ");
        out.append(self.crf.display.as_str());
        if let Some(preset) = &self.preset {
            out.append(" ");
            out.append(preset_arg(self.vcodec.as_str()));
            out.append(" ");
            out.append(preset.as_str());
        }
        out
    }

    /// The command that encodes to an output.
    pub fn encode_command(&self, target: &EncodeTarget) -> (r: CommandLine)
        ensures
            r.program@ == "ffmpeg"@,
            r.arg_views() == self.encode_args(*target),
    {
        let ext = path::path_extension(target.output.as_str());
        let (mp4, matroska) = match &ext {
            Some(e) => (
                text::same(e.as_str(), "mp4"),
                text::same(e.as_str(), "mkv") || text::same(e.as_str(), "webm"),
            ),
            None => (false, false),
        };
        let oargs = self.output_args.as_slice();
        let add_faststart = mp4 && !text::list_contains(oargs, "-movflags");
        let add_cues_to_front = matroska && !text::list_contains(oargs, "-cues_to_front");
        let audio_codec: &str = match &target.audio_codec {
            Some(codec) => codec.as_str(),
            None => if target.downmix_to_stereo && target.has_audio {
                "libopus"
            } else {
                "copy"
            },
        };
        let set_ba_128k = text::same(audio_codec, "libopus") && !text::list_contains(
            oargs,
            "-b:a",
        );
        let downmix_to_stereo = target.downmix_to_stereo && !text::list_contains(oargs, "-ac");
        // This doesn't seem to work on .mp4 files
        let metadata = self.metadata_string();

        let mut cmd = CommandLine::new("ffmpeg");
        cmd.arg("-nostdin");
        assert(cmd.arg_views() =~= seq!["-nostdin"@]);
        cmd.args(self.input_args.as_slice());
        cmd.arg("-y");
        cmd.arg2("-i", self.input.as_str());
        cmd.arg2(
            "-map",
            if self.video_only {
                "0:v:0"
            } else {
                "0"
            },
        );
        cmd.arg2("-c:v", "copy");
        cmd.arg2("-c:v:0", self.vcodec.as_str());
        cmd.arg2("-metadata", metadata.as_str());
        cmd.arg2("-c:a", audio_codec);
        cmd.arg2("-c:s", "copy");
        cmd.args(oargs);
        self.push_quality(&mut cmd);
        // "Only audio, video, and subtitles are supported for Matroska"
        cmd.arg_if(matroska, "-dn");
        cmd.arg2_if(downmix_to_stereo, "-ac", "2");
        cmd.arg2_if(set_ba_128k, "-b:a", "128k");
        cmd.arg2_if(add_faststart, "-movflags", "+faststart");
        cmd.arg2_if(add_cues_to_front, "-cues_to_front", "y");
        cmd.arg(target.output.as_str());
        cmd
    }
}

/// `s` with `_` for each point.
pub open spec fn points_replaced(s: Seq<char>) -> Seq<char> {
    s.map_values(
        |c: char|
            if c == '.' {
                '_'
            } else {
                c
            },
    )
}

fn replace_points(s: &str) -> (r: String)
    ensures
        r@ == points_replaced(s@),
{
    let v = text::chars_of(s);
    let mut out = String::new();
    let mut i: usize = 0;
    while i < v.len()
        invariant
            i <= v.len(),
            v@ == s@,
            out@ == points_replaced(s@).take(i as int),
        decreases v.len() - i,
    {
        out.push(
            if v[i] == '.' {
                '_'
            } else {
                v[i]
            },
        );
        i += 1;
    }
    assert(points_replaced(s@).take(i as int) =~= points_replaced(s@));
    out
}

/// The extension of an encoded sample: codec, crf, preset and container.
pub open spec fn sample_extension(
    vcodec: Seq<char>,
    crf: Seq<char>,
    preset: Option<Seq<char>>,
    dest_ext: Seq<char>,
) -> Seq<char> {
    let start = codec_name(vcodec) + ".crf"@ + points_replaced(crf);
    match preset {
        Some(p) => start + "."@ + p + "."@ + dest_ext,
        None => start + "."@ + dest_ext,
    }
}

/// The name of the file that a sample is encoded to.
pub fn sample_file_name(args: &FfmpegEncodeArgs, dest_ext: &str) -> (r: Option<String>)
    ensures
        match r {
            Some(name) => path::file_name(
                path::with_extension(
                    args.input@,
                    sample_extension(
                        args.vcodec@,
                        args.crf.terse@,
                        args.preset_text(),
                        dest_ext@,
                    ),
                ),
            ) == Some(name@),
            None => path::file_name(
                path::with_extension(
                    args.input@,
                    sample_extension(
                        args.vcodec@,
                        args.crf.terse@,
                        args.preset_text(),
                        dest_ext@,
                    ),
                ),
            ) is None,
        },
{
    let crf = replace_points(args.crf.terse.as_str());
    let mut ext = text::cat3(pre_extension_name(args.vcodec.as_str()), ".crf", crf.as_str());
    if let Some(p) = &args.preset {
        ext.append(".");
        ext.append(p.as_str());
    }
    ext.append(".");
    ext.append(dest_ext);
    let dest = path::path_with_extension(args.input.as_str(), ext.as_str());
    path::path_file_name(dest.as_str())
}

/// Removing an argument that is not there changes nothing.
pub proof fn law_remove_absent_arg(args: Seq<Seq<char>>, arg: Seq<char>)
    requires
        !args.contains(arg),
    ensures
        without_arg(args, arg) == args,
{
    lemma_arg_index(args, arg, 0);
}

/// Removing an argument leaves what stands before it as it is.
pub proof fn law_remove_keeps_front(args: Seq<Seq<char>>, arg: Seq<char>, i: int)
    requires
        0 <= i < args.len(),
        args[i] == arg,
        forall|j: int| 0 <= j < i ==> args[j] != arg,
    ensures
        without_arg(args, arg).take(i) == args.take(i),
        without_arg(args, arg).len() == args.len() - 1 || without_arg(args, arg).len()
            == args.len() - 2,
{
    lemma_arg_index(args, arg, 0);
    assert(arg_index(args, arg, 0) == Some(i));
    assert(without_arg(args, arg).take(i) =~= args.take(i));
}

/// With an argument its value goes, which is what stands behind it unless that
/// is an option itself; all else stays in order.
pub proof fn law_removed_with_its_value(args: Seq<Seq<char>>, arg: Seq<char>, i: int)
    requires
        0 <= i < args.len(),
        args[i] == arg,
        forall|j: int| 0 <= j < i ==> args[j] != arg,
    ensures
        i + 1 < args.len() && !text::has_prefix(args[i + 1], "-"@) ==> without_arg(args, arg)
            == args.take(i) + args.skip(i + 2),
        i + 1 == args.len() || text::has_prefix(args[i + 1], "-"@) ==> without_arg(args, arg)
            == args.take(i) + args.skip(i + 1),
{
    lemma_arg_index(args, arg, 0);
    assert(arg_index(args, arg, 0) == Some(i));
}

proof fn lemma_arg_index(args: Seq<Seq<char>>, arg: Seq<char>, i: int)
    requires
        0 <= i <= args.len(),
    ensures
        match arg_index(args, arg, i) {
            Some(k) => i <= k < args.len() && args[k] == arg && (forall|j: int|
                i <= j < k ==> args[j] != arg),
            None => forall|j: int| i <= j < args.len() ==> args[j] != arg,
        },
    decreases args.len() - i,
{
    if i < args.len() && args[i] != arg {
        lemma_arg_index(args, arg, i + 1);
    }
}

// ---- what the commands hold ----

/// Whether an option stands among the arguments with this value behind it.
pub open spec fn gives(args: Seq<Seq<char>>, name: Seq<char>, value: Seq<char>) -> bool {
    exists|i: int| 0 <= i && i + 1 < args.len() && #[trigger] args[i] == name && args[i + 1] == value
}

proof fn lemma_gives_within(
    front: Seq<Seq<char>>,
    part: Seq<Seq<char>>,
    back: Seq<Seq<char>>,
    name: Seq<char>,
    value: Seq<char>,
)
    requires
        gives(part, name, value),
    ensures
        gives(front + part + back, name, value),
{
    let i = choose|i: int|
        0 <= i && i + 1 < part.len() && #[trigger] part[i] == name && part[i + 1] == value;
    let all = front + part + back;
    assert(all[front.len() + i] == name);
    assert(all[front.len() + i + 1] == value);
}

impl FfmpegEncodeArgs {
    /// The arguments of an encode up to those that were given for the output.
    #[verifier::opaque]
    spec fn head(&self, target: EncodeTarget) -> Seq<Seq<char>> {
        let map = if self.video_only {
            "0:v:0"@
        } else {
            "0"@
        };
        seq!["-nostdin"@] + text::views(self.input_args@) + seq![
            "-y"@,
            "-i"@,
            self.input@,
            "-map"@,
            map,
            "-c:v"@,
            "copy"@,
            "-c:v:0"@,
            self.vcodec@,
            "-metadata"@,
            self.metadata(),
            "-c:a"@,
            self.audio_codec(target),
            "-c:s"@,
            "copy"@,
        ]
    }

    /// The arguments of an encode behind those on the quality.
    #[verifier::opaque]
    spec fn tail(&self, target: EncodeTarget) -> Seq<Seq<char>> {
        let ext = path::extension(target.output@);
        let matroska = ext == Some("mkv"@) || ext == Some("webm"@);
        let a: Seq<Seq<char>> = if matroska {
            seq!["-dn"@]
        } else {
            Seq::empty()
        };
        let a = with_if(a, target.downmix_to_stereo && !self.has_output_arg("-ac"@), "-ac"@, "2"@);
        let a = with_if(
            a,
            self.audio_codec(target) == "libopus"@ && !self.has_output_arg("-b:a"@),
            "-b:a"@,
            "128k"@,
        );
        let a = with_if(
            a,
            ext == Some("mp4"@) && !self.has_output_arg("-movflags"@),
            "-movflags"@,
            "+faststart"@,
        );
        let a = with_if(
            a,
            matroska && !self.has_output_arg("-cues_to_front"@),
            "-cues_to_front"@,
            "y"@,
        );
        a.push(target.output@)
    }

    proof fn lemma_quality_behind(&self, args: Seq<Seq<char>>)
        ensures
            self.with_quality(args) == args + self.with_quality(Seq::empty()),
    {
        assert(self.with_quality(args) =~= args + self.with_quality(Seq::empty()));
    }

    proof fn lemma_encode_parts(&self, target: EncodeTarget)
        ensures
            self.encode_args(target) == self.head(target) + text::views(self.output_args@)
                + self.with_quality(Seq::empty()) + self.tail(target),
            self.head(target).len() == 16 + self.input_args@.len(),
    {
        reveal(FfmpegEncodeArgs::head);
        reveal(FfmpegEncodeArgs::tail);
        let front = self.head(target) + text::views(self.output_args@);
        self.lemma_quality_behind(front);
        let ext = path::extension(target.output@);
        let matroska = ext == Some("mkv"@) || ext == Some("webm"@);
        let audio = self.audio_codec(target);
        let a = seq!["-nostdin"@] + text::views(self.input_args@);
        let a = a.push("-y"@).push("-i"@).push(self.input@);
        let a = a.push("-map"@).push(
            if self.video_only {
                "0:v:0"@
            } else {
                "0"@
            },
        );
        let a = a.push("-c:v"@).push("copy"@).push("-c:v:0"@).push(self.vcodec@);
        let a = a.push("-metadata"@).push(self.metadata());
        let a = a.push("-c:a"@).push(audio).push("-c:s"@).push("copy"@);
        assert(a =~= self.head(target));
        let a = self.with_quality(front);
        let t: Seq<Seq<char>> = if matroska {
            seq!["-dn"@]
        } else {
            Seq::empty()
        };
        let b = if matroska {
            a.push("-dn"@)
        } else {
            a
        };
        assert(b =~= a + t);
        let c = target.downmix_to_stereo && !self.has_output_arg("-ac"@);
        lemma_if_behind(a, t, c, "-ac"@, "2"@);
        let t = with_if(t, c, "-ac"@, "2"@);
        let c = audio == "libopus"@ && !self.has_output_arg("-b:a"@);
        lemma_if_behind(a, t, c, "-b:a"@, "128k"@);
        let t = with_if(t, c, "-b:a"@, "128k"@);
        let c = ext == Some("mp4"@) && !self.has_output_arg("-movflags"@);
        lemma_if_behind(a, t, c, "-movflags"@, "+faststart"@);
        let t = with_if(t, c, "-movflags"@, "+faststart"@);
        let c = matroska && !self.has_output_arg("-cues_to_front"@);
        lemma_if_behind(a, t, c, "-cues_to_front"@, "y"@);
        let t = with_if(t, c, "-cues_to_front"@, "y"@);
        assert((a + t).push(target.output@) =~= a + t.push(target.output@));
    }
}

impl FfmpegEncodeArgs {
    /// The arguments of a sample's encode up to those that were given for the
    /// output.
    #[verifier::opaque]
    spec fn sample_head(&self) -> Seq<Seq<char>> {
        seq!["-nostdin"@, "-y"@] + text::views(self.input_args@) + seq![
            "-i"@,
            self.input@,
            "-c:v"@,
            self.vcodec@,
        ]
    }

    proof fn lemma_sample_parts(&self, dest: Seq<char>)
        ensures
            self.sample_command(dest) == self.sample_head() + text::views(self.output_args@) + seq![
                "-fps_mode"@,
                "passthrough"@,
            ] + self.with_quality(Seq::empty()) + seq!["-an"@, dest],
            self.sample_head().len() == 6 + self.input_args@.len(),
    {
        reveal(FfmpegEncodeArgs::sample_head);
        let start = seq!["-nostdin"@, "-y"@] + text::views(self.input_args@);
        let codec = start.push("-i"@).push(self.input@).push("-c:v"@).push(self.vcodec@);
        assert(codec =~= self.sample_head());
        let output = codec + text::views(self.output_args@);
        let front = output.push("-fps_mode"@).push("passthrough"@);
        assert(front =~= output + seq!["-fps_mode"@, "passthrough"@]);
        self.lemma_quality_behind(front);
        let all = self.with_quality(front);
        assert(all.push("-an"@).push(dest) =~= all + seq!["-an"@, dest]);
    }
}

impl FfmpegEncodeArgs {
    proof fn lemma_head_holds(&self, target: EncodeTarget)
        ensures
            ({
                let h = self.head(target);
                let n = self.input_args@.len() as int;
                &&& h.len() == 16 + n
                &&& h.subrange(1, 1 + n) == text::views(self.input_args@)
                &&& h[2 + n] == "-i"@
                &&& h[3 + n] == self.input@
                &&& h[4 + n] == "-map"@
                &&& h[5 + n] == (if self.video_only {
                    "0:v:0"@
                } else {
                    "0"@
                })
                &&& h[8 + n] == "-c:v:0"@
                &&& h[9 + n] == self.vcodec@
                &&& h[10 + n] == "-metadata"@
                &&& h[11 + n] == self.metadata()
                &&& h[12 + n] == "-c:a"@
                &&& h[13 + n] == self.audio_codec(target)
                &&& h[14 + n] == "-c:s"@
                &&& h[15 + n] == "copy"@
            }),
    {
        reveal(FfmpegEncodeArgs::head);
        let n = self.input_args@.len() as int;
        assert(self.head(target).subrange(1, 1 + n) =~= text::views(self.input_args@));
    }

    proof fn lemma_sample_head_holds(&self)
        ensures
            ({
                let h = self.sample_head();
                let n = self.input_args@.len() as int;
                &&& h.len() == 6 + n
                &&& h.subrange(2, 2 + n) == text::views(self.input_args@)
                &&& h[2 + n] == "-i"@
                &&& h[3 + n] == self.input@
                &&& h[4 + n] == "-c:v"@
                &&& h[5 + n] == self.vcodec@
            }),
    {
        reveal(FfmpegEncodeArgs::sample_head);
        let n = self.input_args@.len() as int;
        assert(self.sample_head().subrange(2, 2 + n) =~= text::views(self.input_args@));
    }
}

proof fn lemma_if_behind(
    front: Seq<Seq<char>>,
    args: Seq<Seq<char>>,
    condition: bool,
    name: Seq<char>,
    value: Seq<char>,
)
    ensures
        with_if(front + args, condition, name, value) == front + with_if(
            args,
            condition,
            name,
            value,
        ),
{
    assert(with_if(front + args, condition, name, value) =~= front + with_if(
        args,
        condition,
        name,
        value,
    ));
}

/// Without `video_only` an encode keeps all streams of its input: right behind
/// the input stands the one `-map` of its own, with 0. With it that value is
/// 0:v:0, and nothing else is different.
pub proof fn law_encode_keeps_all_streams(e: FfmpegEncodeArgs, target: EncodeTarget)
    ensures
        ({
            let args = e.encode_args(target);
            let i = 2 + e.input_args@.len() as int;
            let one = FfmpegEncodeArgs { video_only: true, ..e }.encode_args(target);
            let every = FfmpegEncodeArgs { video_only: false, ..e }.encode_args(target);
            &&& i + 3 < args.len()
            &&& args[i] == "-i"@
            &&& args[i + 1] == e.input@
            &&& args[i + 2] == "-map"@
            &&& args[i + 3] == (if e.video_only {
                "0:v:0"@
            } else {
                "0"@
            })
            &&& one == every.update(i + 3, "0:v:0"@)
            &&& every == one.update(i + 3, "0"@)
        }),
{
    e.lemma_encode_parts(target);
    let one = FfmpegEncodeArgs { video_only: true, ..e };
    let every = FfmpegEncodeArgs { video_only: false, ..e };
    one.lemma_encode_parts(target);
    every.lemma_encode_parts(target);
    let i = 2 + e.input_args@.len() as int;
    assert(one.with_quality(Seq::empty()) == every.with_quality(Seq::empty()));
    assert(one.tail(target) == every.tail(target)) by {
        reveal(FfmpegEncodeArgs::tail);
    }
    assert(one.metadata() == every.metadata());
    assert(one.audio_codec(target) == every.audio_codec(target));
    assert(one.head(target) == every.head(target).update(i + 3, "0:v:0"@) && every.head(target)
        == one.head(target).update(i + 3, "0"@)) by {
        reveal(FfmpegEncodeArgs::head);
        assert(one.head(target) =~= every.head(target).update(i + 3, "0:v:0"@));
        assert(every.head(target) =~= one.head(target).update(i + 3, "0"@));
    }
    let back = text::views(e.output_args@);
    let quality = one.with_quality(Seq::empty());
    let tail = one.tail(target);
    lemma_update_front(every.head(target), back, quality, tail, i + 3, "0:v:0"@);
    lemma_update_front(one.head(target), back, quality, tail, i + 3, "0"@);
    let h = e.head(target);
    e.lemma_head_holds(target);
    lemma_front_at(h, back, e.with_quality(Seq::empty()), e.tail(target), i);
    lemma_front_at(h, back, e.with_quality(Seq::empty()), e.tail(target), i + 1);
    lemma_front_at(h, back, e.with_quality(Seq::empty()), e.tail(target), i + 2);
    lemma_front_at(h, back, e.with_quality(Seq::empty()), e.tail(target), i + 3);
}

proof fn lemma_front_at(
    a: Seq<Seq<char>>,
    b: Seq<Seq<char>>,
    c: Seq<Seq<char>>,
    d: Seq<Seq<char>>,
    i: int,
)
    requires
        0 <= i < a.len(),
    ensures
        (a + b + c + d)[i] == a[i],
        i < (a + b + c + d).len(),
{
}

proof fn lemma_update_front(
    a: Seq<Seq<char>>,
    b: Seq<Seq<char>>,
    c: Seq<Seq<char>>,
    d: Seq<Seq<char>>,
    i: int,
    x: Seq<char>,
)
    requires
        0 <= i < a.len(),
    ensures
        a.update(i, x) + b + c + d == (a + b + c + d).update(i, x),
{
    assert(a.update(i, x) + b + c + d =~= (a + b + c + d).update(i, x));
}

/// Whether one of the texts that an encode is made from reads `word`.
pub open spec fn is_given(e: FfmpegEncodeArgs, target: EncodeTarget, word: Seq<char>) -> bool {
    ||| text::views(e.input_args@).contains(word)
    ||| text::views(e.output_args@).contains(word)
    ||| e.input@ == word
    ||| e.vcodec@ == word
    ||| e.crf.display@ == word
    ||| e.preset is Some && e.preset->0@ == word
    ||| e.vfilter is Some && e.vfilter->0@ == word
    ||| target.audio_codec is Some && target.audio_codec->0@ == word
    ||| target.output@ == word
}

proof fn lemma_lacks_push(a: Seq<Seq<char>>, x: Seq<char>, word: Seq<char>)
    requires
        !a.contains(word),
        x != word,
    ensures
        !a.push(x).contains(word),
{
    assert forall|i: int| 0 <= i < a.push(x).len() implies a.push(x)[i] != word by {
        if i < a.len() {
            assert(a.contains(a[i]));
        }
    }
}

proof fn lemma_lacks_opt(
    a: Seq<Seq<char>>,
    name: Seq<char>,
    value: Option<Seq<char>>,
    word: Seq<char>,
)
    requires
        !a.contains(word),
        name != word,
        value is Some ==> value->0 != word,
    ensures
        !with_opt(a, name, value).contains(word),
{
    if let Some(v) = value {
        lemma_lacks_push(a, name, word);
        lemma_lacks_push(a.push(name), v, word);
    }
}

proof fn lemma_lacks_if(
    a: Seq<Seq<char>>,
    condition: bool,
    name: Seq<char>,
    value: Seq<char>,
    word: Seq<char>,
)
    requires
        !a.contains(word),
        name != word,
        value != word,
    ensures
        !with_if(a, condition, name, value).contains(word),
{
    lemma_lacks_push(a, name, word);
    lemma_lacks_push(a.push(name), value, word);
}

/// An encode that is not given `-map` in what it is made from holds it once.
pub proof fn law_encode_maps_once(e: FfmpegEncodeArgs, target: EncodeTarget, i: int)
    requires
        !is_given(e, target, "-map"@),
        0 <= i < e.encode_args(target).len(),
    ensures
        e.encode_args(target)[i] == "-map"@ <==> i == 4 + e.input_args@.len(),
{
    let word = "-map"@;
    reveal_strlit("-map");
    let given = text::views(e.input_args@);
    let more = text::views(e.output_args@);
    e.lemma_encode_parts(target);
    let none = Seq::<Seq<char>>::empty();
    let quality = e.with_quality(none);
    let tail = e.tail(target);
    assert(!quality.contains(word)) by {
        reveal_strlit("-qp");
        reveal_strlit("-q");
        reveal_strlit("-q:v");
        reveal_strlit("-cq");
        reveal_strlit("-global_quality");
        reveal_strlit("-crf");
        reveal_strlit("63");
        reveal_strlit("-pix_fmt");
        reveal_strlit("yuv420p");
        reveal_strlit("yuv420p10le");
        reveal_strlit("yuv422p10le");
        reveal_strlit("yuv444p10le");
        reveal_strlit("-cpu-used");
        reveal_strlit("-speed");
        reveal_strlit("-preset");
        reveal_strlit("-vf");
        assert("-crf"@[1] != word[1]);
        assert("-q:v"@[1] != word[1]);
        assert(crf_option(e.vcodec@) != word);
        assert(crf_text(e.vcodec@, e.crf) != word);
        assert(preset_option(e.vcodec@) != word);
        lemma_lacks_push(none, crf_option(e.vcodec@), word);
        let a = none.push(crf_option(e.vcodec@));
        lemma_lacks_push(a, crf_text(e.vcodec@, e.crf), word);
        let a = a.push(crf_text(e.vcodec@, e.crf));
        lemma_lacks_opt(a, "-pix_fmt"@, e.pix_fmt_text(), word);
        let a = with_opt(a, "-pix_fmt"@, e.pix_fmt_text());
        lemma_lacks_opt(a, preset_option(e.vcodec@), e.preset_text(), word);
        let a = with_opt(a, preset_option(e.vcodec@), e.preset_text());
        lemma_lacks_opt(a, "-vf"@, e.vfilter_text(), word);
    }
    assert(!tail.contains(word)) by {
        reveal(FfmpegEncodeArgs::tail);
        reveal_strlit("-dn");
        reveal_strlit("-ac");
        reveal_strlit("2");
        reveal_strlit("-b:a");
        reveal_strlit("128k");
        reveal_strlit("-movflags");
        reveal_strlit("+faststart");
        reveal_strlit("-cues_to_front");
        reveal_strlit("y");
        assert("-b:a"@[1] != word[1]);
        assert("128k"@[0] != word[0]);
        assert("-movflags"@.len() == 9);
        assert("-cues_to_front"@.len() == 14);
        let ext = path::extension(target.output@);
        let matroska = ext == Some("mkv"@) || ext == Some("webm"@);
        lemma_lacks_push(none, "-dn"@, word);
        assert(seq!["-dn"@] =~= none.push("-dn"@));
        let a: Seq<Seq<char>> = if matroska {
            seq!["-dn"@]
        } else {
            Seq::empty()
        };
        let c = target.downmix_to_stereo && !e.has_output_arg("-ac"@);
        lemma_lacks_if(a, c, "-ac"@, "2"@, word);
        let a = with_if(a, c, "-ac"@, "2"@);
        let c = e.audio_codec(target) == "libopus"@ && !e.has_output_arg("-b:a"@);
        lemma_lacks_if(a, c, "-b:a"@, "128k"@, word);
        let a = with_if(a, c, "-b:a"@, "128k"@);
        let c = ext == Some("mp4"@) && !e.has_output_arg("-movflags"@);
        lemma_lacks_if(a, c, "-movflags"@, "+faststart"@, word);
        let a = with_if(a, c, "-movflags"@, "+faststart"@);
        let c = matroska && !e.has_output_arg("-cues_to_front"@);
        lemma_lacks_if(a, c, "-cues_to_front"@, "y"@, word);
        let a = with_if(a, c, "-cues_to_front"@, "y"@);
        lemma_lacks_push(a, target.output@, word);
    }
    let head = e.head(target);
    assert forall|j: int| 0 <= j < head.len() implies (head[j] == word <==> j == 4
        + given.len()) by {
        reveal(FfmpegEncodeArgs::head);
        reveal_strlit("-nostdin");
        reveal_strlit("-y");
        reveal_strlit("-i");
        reveal_strlit("0:v:0");
        reveal_strlit("0");
        reveal_strlit("-c:v");
        reveal_strlit("copy");
        reveal_strlit("-c:v:0");
        reveal_strlit("-metadata");
        reveal_strlit("AB_AV1_FFMPEG_ARGS=-c:v ");
        reveal_strlit("-c:a");
        reveal_strlit("libopus");
        reveal_strlit("-c:s");
        assert("-c:v"@[1] != word[1]);
        assert("copy"@[0] != word[0]);
        assert("-c:a"@[1] != word[1]);
        assert("-c:s"@[1] != word[1]);
        assert(e.metadata().len() > 4);
        if 1 <= j < 1 + given.len() {
            assert(given.contains(given[j - 1]));
            assert(head[j] == given[j - 1]);
        } else if j > given.len() {
            let k = j - 1 - given.len();
            assert(0 <= k < 15);
            assert(head[j] == seq![
                "-y"@,
                "-i"@,
                e.input@,
                "-map"@,
                if e.video_only {
                    "0:v:0"@
                } else {
                    "0"@
                },
                "-c:v"@,
                "copy"@,
                "-c:v:0"@,
                e.vcodec@,
                "-metadata"@,
                e.metadata(),
                "-c:a"@,
                e.audio_codec(target),
                "-c:s"@,
                "copy"@,
            ][k]);
        }
    }
    let n = head.len() as int;
    let m = n + more.len();
    let l = m + quality.len();
    if i >= l {
        assert(tail.contains(tail[i - l]));
    } else if i >= m {
        assert(quality.contains(quality[i - m]));
    } else if i >= n {
        assert(more.contains(more[i - n]));
    }
}

/// A sample is encoded as the whole video is: with the same arguments before
/// the input, the same encoder, the same given arguments and, behind them, the
/// same crf, pixel format, preset and filter. Its audio is left out, and frames
/// are neither doubled nor dropped.
pub proof fn law_sample_encoded_as_the_whole(
    e: FfmpegEncodeArgs,
    target: EncodeTarget,
    dest: Seq<char>,
)
    ensures
        ({
            let whole = e.encode_args(target);
            let sample = e.sample_command(dest);
            let given = e.input_args@.len() as int;
            let more = e.output_args@.len() as int;
            let quality = sample.subrange(8 + given + more, sample.len() - 2);
            &&& whole.subrange(1, 1 + given) == sample.subrange(2, 2 + given)
            &&& sample.subrange(2, 2 + given) == text::views(e.input_args@)
            &&& sample[2 + given] == "-i"@
            &&& sample[3 + given] == e.input@
            &&& sample[4 + given] == "-c:v"@
            &&& sample[5 + given] == e.vcodec@
            &&& whole[8 + given] == "-c:v:0"@
            &&& whole[9 + given] == e.vcodec@
            &&& whole.subrange(16 + given, 16 + given + more) == sample.subrange(
                6 + given,
                6 + given + more,
            )
            &&& sample.subrange(6 + given, 6 + given + more) == text::views(e.output_args@)
            &&& sample[6 + given + more] == "-fps_mode"@
            &&& sample[7 + given + more] == "passthrough"@
            &&& whole.subrange(16 + given + more, 16 + given + more + quality.len()) == quality
            &&& sample[sample.len() - 2] == "-an"@
            &&& sample.last() == dest
            &&& whole.last() == target.output@
        }),
{
    e.lemma_encode_parts(target);
    let given = text::views(e.input_args@);
    let more = text::views(e.output_args@);
    let whole = e.encode_args(target);
    let quality = e.with_quality(Seq::empty());
    let sample = e.sample_command(dest);
    e.lemma_sample_parts(dest);
    e.lemma_head_holds(target);
    e.lemma_sample_head_holds();
    assert(e.tail(target).len() > 0 && e.tail(target).last() == target.output@) by {
        reveal(FfmpegEncodeArgs::tail);
    }
    lemma_alike(
        whole,
        sample,
        e.head(target),
        e.sample_head(),
        more,
        quality,
        e.tail(target),
        dest,
        given.len() as int,
    );
}

proof fn lemma_alike(
    whole: Seq<Seq<char>>,
    sample: Seq<Seq<char>>,
    head: Seq<Seq<char>>,
    sample_head: Seq<Seq<char>>,
    more: Seq<Seq<char>>,
    quality: Seq<Seq<char>>,
    tail: Seq<Seq<char>>,
    dest: Seq<char>,
    g: int,
)
    requires
        0 <= g,
        head.len() == 16 + g,
        sample_head.len() == 6 + g,
        tail.len() > 0,
        whole == head + more + quality + tail,
        sample == sample_head + more + seq!["-fps_mode"@, "passthrough"@] + quality + seq![
            "-an"@,
            dest,
        ],
    ensures
        ({
            let m = more.len() as int;
            &&& sample.len() == 10 + g + m + quality.len()
            &&& whole.len() >= 16 + g + m + quality.len()
            &&& sample.subrange(8 + g + m, sample.len() - 2) == quality
            &&& whole.subrange(16 + g + m, 16 + g + m + quality.len()) == quality
            &&& sample.subrange(6 + g, 6 + g + m) == more
            &&& whole.subrange(16 + g, 16 + g + m) == more
            &&& sample[6 + g + m] == "-fps_mode"@
            &&& sample[7 + g + m] == "passthrough"@
            &&& sample[sample.len() - 2] == "-an"@
            &&& sample.last() == dest
            &&& whole.last() == tail.last()
            &&& forall|i: int| 0 <= i < 16 + g ==> #[trigger] whole[i] == head[i]
            &&& forall|i: int| 0 <= i < 6 + g ==> #[trigger] sample[i] == sample_head[i]
            &&& whole.subrange(1, 1 + g) == head.subrange(1, 1 + g)
            &&& sample.subrange(2, 2 + g) == sample_head.subrange(2, 2 + g)
        }),
{
    let m = more.len() as int;
    assert(sample.subrange(8 + g + m, sample.len() - 2) =~= quality);
    assert(whole.subrange(16 + g + m, 16 + g + m + quality.len()) =~= quality);
    assert(sample.subrange(6 + g, 6 + g + m) =~= more);
    assert(whole.subrange(16 + g, 16 + g + m) =~= more);
    assert(whole.subrange(1, 1 + g) =~= head.subrange(1, 1 + g));
    assert(sample.subrange(2, 2 + g) =~= sample_head.subrange(2, 2 + g));
}

/// How many arguments an option with its value takes.
spec fn two_if(condition: bool) -> int {
    if condition {
        2
    } else {
        0
    }
}

proof fn lemma_gives_front(a: Seq<Seq<char>>, b: Seq<Seq<char>>, name: Seq<char>, value: Seq<char>)
    requires
        gives(a, name, value),
    ensures
        gives(a + b, name, value),
{
    lemma_gives_within(Seq::empty(), a, b, name, value);
    assert(Seq::<Seq<char>>::empty() + a + b =~= a + b);
}

proof fn lemma_gives_push(a: Seq<Seq<char>>, x: Seq<char>, name: Seq<char>, value: Seq<char>)
    requires
        gives(a, name, value),
    ensures
        gives(a.push(x), name, value),
{
    lemma_gives_front(a, seq![x], name, value);
    assert(a + seq![x] =~= a.push(x));
}

proof fn lemma_with_if(
    a: Seq<Seq<char>>,
    condition: bool,
    name: Seq<char>,
    value: Seq<char>,
)
    ensures
        condition ==> gives(with_if(a, condition, name, value), name, value),
        forall|n: Seq<char>, v: Seq<char>| #[trigger]
            gives(a, n, v) ==> gives(with_if(a, condition, name, value), n, v),
        forall|x: Seq<char>| #[trigger]
            a.contains(x) ==> with_if(a, condition, name, value).contains(x),
        with_if(a, condition, name, value).len() == a.len() + two_if(condition),
{
    let b = with_if(a, condition, name, value);
    if condition {
        assert(b[a.len() as int] == name && b[a.len() + 1int] == value);
        assert forall|n: Seq<char>, v: Seq<char>| #[trigger] gives(a, n, v) implies gives(
            b,
            n,
            v,
        ) by {
            lemma_gives_push(a, name, n, v);
            lemma_gives_push(a.push(name), value, n, v);
        }
        assert forall|x: Seq<char>| #[trigger] a.contains(x) implies b.contains(x) by {
            let i = choose|i: int| 0 <= i < a.len() && a[i] == x;
            assert(b[i] == x);
        }
    }
}

proof fn lemma_with_opt(a: Seq<Seq<char>>, name: Seq<char>, value: Option<Seq<char>>)
    ensures
        value is Some ==> gives(with_opt(a, name, value), name, value->0),
        forall|n: Seq<char>, v: Seq<char>| #[trigger]
            gives(a, n, v) ==> gives(with_opt(a, name, value), n, v),
        with_opt(a, name, value).len() == a.len() + two_if(value is Some),
{
    if let Some(v) = value {
        lemma_with_if(a, true, name, v);
        assert(with_opt(a, name, value) == with_if(a, true, name, v));
    }
}

/// An encode and the encode of a sample are asked for the crf, and for the
/// pixel format, the preset and the filter where there are any. These stand
/// behind the arguments that were given, and nothing else stands among them.
pub proof fn law_quality_is_asked_for(e: FfmpegEncodeArgs, dest: Seq<char>)
    ensures
        ({
            let sample = e.sample_command(dest);
            let quality = sample.skip(8 + e.input_args@.len() + e.output_args@.len() as int);
            let pairs: int = 1 + (if e.pix_fmt is Some {
                1int
            } else {
                0
            }) + (if e.preset is Some {
                1int
            } else {
                0
            }) + (if e.vfilter is Some {
                1int
            } else {
                0
            });
            &&& quality.len() == 2 * pairs + 2
            &&& gives(quality, crf_option(e.vcodec@), crf_text(e.vcodec@, e.crf))
            &&& e.pix_fmt is Some ==> gives(quality, "-pix_fmt"@, e.pix_fmt->0.name())
            &&& e.preset is Some ==> gives(quality, preset_option(e.vcodec@), e.preset->0@)
            &&& e.vfilter is Some ==> gives(quality, "-vf"@, e.vfilter->0@)
        }),
{
    e.lemma_sample_parts(dest);
    let front = e.sample_head() + text::views(e.output_args@) + seq!["-fps_mode"@, "passthrough"@];
    let asked = e.with_quality(Seq::empty());
    let end = seq!["-an"@, dest];
    assert(e.sample_command(dest).skip(front.len() as int) =~= asked + end);
    e.lemma_quality_holds();
    lemma_gives_front(asked, end, crf_option(e.vcodec@), crf_text(e.vcodec@, e.crf));
    if let Some(f) = e.pix_fmt {
        lemma_gives_front(asked, end, "-pix_fmt"@, f.name());
    }
    if let Some(p) = e.preset {
        lemma_gives_front(asked, end, preset_option(e.vcodec@), p@);
    }
    if let Some(f) = e.vfilter {
        lemma_gives_front(asked, end, "-vf"@, f@);
    }
}

impl FfmpegEncodeArgs {
    proof fn lemma_quality_holds(&self)
        ensures
            ({
                let asked = self.with_quality(Seq::empty());
                &&& asked.len() == 2 + two_if(self.pix_fmt is Some) + two_if(self.preset is Some)
                    + two_if(self.vfilter is Some)
                &&& gives(asked, crf_option(self.vcodec@), crf_text(self.vcodec@, self.crf))
                &&& self.pix_fmt is Some ==> gives(asked, "-pix_fmt"@, self.pix_fmt->0.name())
                &&& self.preset is Some ==> gives(
                    asked,
                    preset_option(self.vcodec@),
                    self.preset->0@,
                )
                &&& self.vfilter is Some ==> gives(asked, "-vf"@, self.vfilter->0@)
            }),
    {
        let none = Seq::<Seq<char>>::empty();
        lemma_with_if(none, true, crf_option(self.vcodec@), crf_text(self.vcodec@, self.crf));
        let a = none.push(crf_option(self.vcodec@)).push(crf_text(self.vcodec@, self.crf));
        lemma_with_opt(a, "-pix_fmt"@, self.pix_fmt_text());
        let a = with_opt(a, "-pix_fmt"@, self.pix_fmt_text());
        lemma_with_opt(a, preset_option(self.vcodec@), self.preset_text());
        let a = with_opt(a, preset_option(self.vcodec@), self.preset_text());
        lemma_with_opt(a, "-vf"@, self.vfilter_text());
    }
}

/// An encode copies subtitles and the other streams, encodes the audio with the
/// codec that is asked for, and copies it where none is, unless it is mixed down
/// to stereo, for which libopus is taken. What it was made with is noted in the
/// output.
pub proof fn law_encode_streams(e: FfmpegEncodeArgs, target: EncodeTarget)
    ensures
        ({
            let args = e.encode_args(target);
            let n = e.input_args@.len() as int;
            let audio = args[13 + n];
            &&& args.len() > 16 + n
            &&& args[12 + n] == "-c:a"@
            &&& target.audio_codec is Some ==> audio == target.audio_codec->0@
            &&& target.audio_codec is None ==> audio == (if target.downmix_to_stereo
                && target.has_audio {
                "libopus"@
            } else {
                "copy"@
            })
            &&& args[14 + n] == "-c:s"@
            &&& args[15 + n] == "copy"@
            &&& args[10 + n] == "-metadata"@
            &&& args[11 + n] == "AB_AV1_FFMPEG_ARGS=-c:v "@ + e.vcodec@ + " "@ + crf_option(
                e.vcodec@,
            ) + " "@ + e.crf.display@ + (if e.preset is Some {
                " "@ + preset_option(e.vcodec@) + " "@ + e.preset->0@
            } else {
                Seq::empty()
            })
            &&& args.last() == target.output@
        }),
{
    e.lemma_encode_parts(target);
    e.lemma_head_holds(target);
    e.lemma_tail_holds(target);
    let n = e.input_args@.len() as int;
    let h = e.head(target);
    let more = text::views(e.output_args@);
    let quality = e.with_quality(Seq::empty());
    let tail = e.tail(target);
    lemma_front_at(h, more, quality, tail, 10 + n);
    lemma_front_at(h, more, quality, tail, 11 + n);
    lemma_front_at(h, more, quality, tail, 12 + n);
    lemma_front_at(h, more, quality, tail, 13 + n);
    lemma_front_at(h, more, quality, tail, 14 + n);
    lemma_front_at(h, more, quality, tail, 15 + n);
    assert((h + more + quality + tail).last() == tail.last());
    let crf = "AB_AV1_FFMPEG_ARGS=-c:v "@ + e.vcodec@ + " "@ + crf_option(e.vcodec@) + " "@
        + e.crf.display@;
    if let Some(p) = e.preset {
        assert(crf + " "@ + preset_option(e.vcodec@) + " "@ + p@ =~= crf + (" "@ + preset_option(
            e.vcodec@,
        ) + " "@ + p@));
    } else {
        assert(crf + Seq::empty() =~= crf);
    }
}

impl FfmpegEncodeArgs {
    proof fn lemma_tail_holds(&self, target: EncodeTarget)
        ensures
            ({
                let tail = self.tail(target);
                let ext = path::extension(target.output@);
                let matroska = ext == Some("mkv"@) || ext == Some("webm"@);
                let ac = target.downmix_to_stereo && !self.has_output_arg("-ac"@);
                let ba = self.audio_codec(target) == "libopus"@ && !self.has_output_arg("-b:a"@);
                let mv = ext == Some("mp4"@) && !self.has_output_arg("-movflags"@);
                let cf = matroska && !self.has_output_arg("-cues_to_front"@);
                &&& tail.len() == 1 + (if matroska {
                    1int
                } else {
                    0
                }) + two_if(ac) + two_if(ba) + two_if(mv) + two_if(cf)
                &&& tail.last() == target.output@
                &&& matroska ==> tail.contains("-dn"@)
                &&& ac ==> gives(tail, "-ac"@, "2"@)
                &&& ba ==> gives(tail, "-b:a"@, "128k"@)
                &&& mv ==> gives(tail, "-movflags"@, "+faststart"@)
                &&& cf ==> gives(tail, "-cues_to_front"@, "y"@)
            }),
    {
        reveal(FfmpegEncodeArgs::tail);
        let ext = path::extension(target.output@);
        let matroska = ext == Some("mkv"@) || ext == Some("webm"@);
        let a: Seq<Seq<char>> = if matroska {
            seq!["-dn"@]
        } else {
            Seq::empty()
        };
        assert(matroska ==> a[0] == "-dn"@);
        assert(matroska ==> a.contains("-dn"@));
        let c = target.downmix_to_stereo && !self.has_output_arg("-ac"@);
        lemma_with_if(a, c, "-ac"@, "2"@);
        let a = with_if(a, c, "-ac"@, "2"@);
        let c = self.audio_codec(target) == "libopus"@ && !self.has_output_arg("-b:a"@);
        lemma_with_if(a, c, "-b:a"@, "128k"@);
        let a = with_if(a, c, "-b:a"@, "128k"@);
        let c = ext == Some("mp4"@) && !self.has_output_arg("-movflags"@);
        lemma_with_if(a, c, "-movflags"@, "+faststart"@);
        let a = with_if(a, c, "-movflags"@, "+faststart"@);
        let c = matroska && !self.has_output_arg("-cues_to_front"@);
        lemma_with_if(a, c, "-cues_to_front"@, "y"@);
        let a = with_if(a, c, "-cues_to_front"@, "y"@);
        assert forall|n: Seq<char>, v: Seq<char>| #[trigger] gives(a, n, v) implies gives(
            a.push(target.output@),
            n,
            v,
        ) by {
            lemma_gives_push(a, target.output@, n, v);
        }
        if matroska {
            assert(a.contains("-dn"@));
            let i = choose|i: int| 0 <= i < a.len() && a[i] == "-dn"@;
            assert(a.push(target.output@)[i] == "-dn"@);
        }
    }
}

/// What an encode adds behind the quality: two channels where it mixes down,
/// a bit rate for libopus, an index at the front for mp4 and for Matroska, each
/// only where no such option was given; no data streams in Matroska; the
/// output; and nothing else.
pub proof fn law_encode_adds_what_is_missing(e: FfmpegEncodeArgs, target: EncodeTarget)
    ensures
        ({
            let args = e.encode_args(target);
            let given = text::views(e.output_args@);
            let quality: int = 2 + (if e.pix_fmt is Some {
                2int
            } else {
                0
            }) + (if e.preset is Some {
                2int
            } else {
                0
            }) + (if e.vfilter is Some {
                2int
            } else {
                0
            });
            let added = args.skip(16 + e.input_args@.len() + given.len() + quality);
            let ext = path::extension(target.output@);
            let matroska = ext == Some("mkv"@) || ext == Some("webm"@);
            let stereo = target.downmix_to_stereo && !given.contains("-ac"@);
            let opus = e.audio_codec(target) == "libopus"@ && !given.contains("-b:a"@);
            let mp4 = ext == Some("mp4"@) && !given.contains("-movflags"@);
            let cues = matroska && !given.contains("-cues_to_front"@);
            &&& matroska ==> added.contains("-dn"@)
            &&& stereo ==> gives(added, "-ac"@, "2"@)
            &&& opus ==> gives(added, "-b:a"@, "128k"@)
            &&& mp4 ==> gives(added, "-movflags"@, "+faststart"@)
            &&& cues ==> gives(added, "-cues_to_front"@, "y"@)
            &&& added.last() == target.output@
            &&& added.len() == 1 + (if matroska {
                1int
            } else {
                0
            }) + (if stereo {
                2int
            } else {
                0
            }) + (if opus {
                2int
            } else {
                0
            }) + (if mp4 {
                2int
            } else {
                0
            }) + (if cues {
                2int
            } else {
                0
            })
        }),
{
    e.lemma_encode_parts(target);
    e.lemma_tail_holds(target);
    e.lemma_quality_holds();
    lemma_skip_to(
        e.head(target) + text::views(e.output_args@) + e.with_quality(Seq::empty()),
        e.tail(target),
    );
}

proof fn lemma_skip_to(a: Seq<Seq<char>>, b: Seq<Seq<char>>)
    ensures
        (a + b).skip(a.len() as int) == b,
{
    assert((a + b).skip(a.len() as int) =~= b);
}

/// Which option sets the quality: each is the option of the encoders that read
/// it, and `-crf` that of all others.
pub proof fn law_quality_option_of_encoder(vcodec: Seq<char>)
    ensures
        ({
            let option = crf_option(vcodec);
            let named = vcodec == "librav1e"@ || vcodec == "libvvenc"@ || vcodec == "mpeg2video"@
                || vcodec == "hevc_videotoolbox"@;
            let vaapi = text::has_suffix(vcodec, "_vaapi"@);
            let vulkan = text::has_suffix(vcodec, "_vulkan"@);
            let nvenc = text::has_suffix(vcodec, "_nvenc"@);
            let qsv = text::has_suffix(vcodec, "_qsv"@);
            &&& option == "-crf"@ <==> !named && !vaapi && !vulkan && !nvenc && !qsv
            &&& vcodec == "librav1e"@ || vcodec == "libvvenc"@ ==> option == "-qp"@
            &&& vcodec == "mpeg2video"@ ==> option == "-q"@
            &&& vcodec == "hevc_videotoolbox"@ ==> option == "-q:v"@
            &&& !named && vulkan ==> option == "-qp"@
            &&& !named && vaapi ==> option == "-q"@
            &&& !named && nvenc ==> option == "-cq"@
            &&& !named && qsv ==> option == "-global_quality"@
        }),
{
    reveal_strlit("-crf");
    reveal_strlit("-qp");
    reveal_strlit("-q");
    reveal_strlit("-q:v");
    reveal_strlit("-cq");
    reveal_strlit("-global_quality");
    reveal_strlit("_vaapi");
    reveal_strlit("_vulkan");
    reveal_strlit("_nvenc");
    reveal_strlit("_qsv");
    reveal_strlit("librav1e");
    reveal_strlit("libvvenc");
    reveal_strlit("mpeg2video");
    reveal_strlit("hevc_videotoolbox");
    assert("-crf"@[1] == 'c' && "-q:v"@[1] == 'q');
    let n = vcodec.len() as int;
    assert("_vaapi"@[5] == 'i' && "_vulkan"@[6] == 'n' && "_nvenc"@[5] == 'c' && "_qsv"@[3] == 'v');
    assert(text::has_suffix(vcodec, "_vaapi"@) ==> vcodec[n - 1] == 'i') by {
        if text::has_suffix(vcodec, "_vaapi"@) {
            assert(vcodec.skip(n - 6)[5] == 'i');
        }
    }
    assert(text::has_suffix(vcodec, "_vulkan"@) ==> vcodec[n - 1] == 'n') by {
        if text::has_suffix(vcodec, "_vulkan"@) {
            assert(vcodec.skip(n - 7)[6] == 'n');
        }
    }
    assert(text::has_suffix(vcodec, "_nvenc"@) ==> vcodec[n - 1] == 'c') by {
        if text::has_suffix(vcodec, "_nvenc"@) {
            assert(vcodec.skip(n - 6)[5] == 'c');
        }
    }
    assert(text::has_suffix(vcodec, "_qsv"@) ==> vcodec[n - 1] == 'v') by {
        if text::has_suffix(vcodec, "_qsv"@) {
            assert(vcodec.skip(n - 4)[3] == 'v');
        }
    }
    assert("librav1e"@[3] != "libvvenc"@[3]);
    assert("librav1e"@.len() == 8 && "libvvenc"@.len() == 8 && "mpeg2video"@.len() == 10
        && "hevc_videotoolbox"@.len() == 17);
    assert("-crf"@.len() == 4 && "-qp"@.len() == 3 && "-q"@.len() == 2 && "-q:v"@.len() == 4
        && "-cq"@.len() == 3 && "-global_quality"@.len() == 15);
}

/// How an encoder is called in a file name: by the codec it makes for the known
/// encoders of AV1 and VP9, else by its own name without `lib`.
pub proof fn law_codec_names(vcodec: Seq<char>)
    ensures
        vcodec == "libsvtav1"@ || vcodec == "libaom-av1"@ || vcodec == "libdav1d"@ || vcodec
            == "svtav1"@ ==> codec_name(vcodec) == "av1"@,
        vcodec == "libvpx-vp9"@ || vcodec == "libvpx"@ ==> codec_name(vcodec) == "vp9"@,
        vcodec != "libsvtav1"@ && vcodec != "libaom-av1"@ && vcodec != "libdav1d"@ && vcodec
            != "svtav1"@ && vcodec != "libvpx-vp9"@ && vcodec != "libvpx"@ ==> {
            ||| vcodec == "lib"@ + codec_name(vcodec) && codec_name(vcodec).len() > 0
            ||| vcodec == codec_name(vcodec) && !(text::has_prefix(vcodec, "lib"@)
                && vcodec.len() > 3)
        },
{
    reveal_strlit("lib");
    reveal_strlit("libsvtav1");
    reveal_strlit("libaom-av1");
    reveal_strlit("libdav1d");
    reveal_strlit("svtav1");
    reveal_strlit("libvpx-vp9");
    reveal_strlit("libvpx");
    assert("libsvtav1"@.len() == 9 && "libaom-av1"@.len() == 10 && "libdav1d"@.len() == 8
        && "svtav1"@.len() == 6 && "libvpx-vp9"@.len() == 10 && "libvpx"@.len() == 6);
    assert("svtav1"@[0] == 's' && "libvpx"@[0] == 'l' && "libaom-av1"@[3] == 'a'
        && "libvpx-vp9"@[3] == 'v');
    if text::has_prefix(vcodec, "lib"@) && vcodec.len() > 3 {
        assert(vcodec.subrange(0, 3) =~= "lib"@);
        assert(vcodec =~= "lib"@ + vcodec.skip(3));
    }
}

/// Which option sets the preset: `-preset`, but for the encoders that count
/// effort by another name.
pub proof fn law_preset_option_of_encoder(vcodec: Seq<char>)
    ensures
        ({
            let option = preset_option(vcodec);
            &&& option == "-cpu-used"@ <==> vcodec == "libaom-av1"@ || vcodec == "libvpx-vp9"@
            &&& option == "-speed"@ <==> vcodec == "librav1e"@
            &&& option == "-preset"@ <==> vcodec != "libaom-av1"@ && vcodec != "libvpx-vp9"@
                && vcodec != "librav1e"@
        }),
{
    reveal_strlit("-cpu-used");
    reveal_strlit("-speed");
    reveal_strlit("-preset");
    reveal_strlit("libaom-av1");
    reveal_strlit("libvpx-vp9");
    reveal_strlit("librav1e");
    assert("-cpu-used"@.len() == 9 && "-speed"@.len() == 6 && "-preset"@.len() == 7);
    assert("librav1e"@.len() == 8 && "libaom-av1"@.len() == 10 && "libvpx-vp9"@.len() == 10);
}

/// A crf is handed on as it is written, but for SVT-AV1, which is handed 63 for
/// every crf above that.
pub proof fn law_crf_handed_on(vcodec: Seq<char>, crf: Crf)
    ensures
        vcodec != "libsvtav1"@ ==> crf_text(vcodec, crf) == crf.display@,
        (Single { bits: 0x427c_0000 }).ge(crf.value) ==> crf_text(vcodec, crf) == crf.display@,
        vcodec == "libsvtav1"@ && (Single { bits: 0x427c_0000 }).lt(crf.value) ==> crf_text(
            vcodec,
            crf,
        ) == "63"@,
{
}

/// The command that decodes a file and drops what comes out.
pub fn decode_command(input: &str) -> (r: CommandLine)
    ensures
        r.program@ == "ffmpeg"@,
        r.arg_views() == seq!["-nostdin"@, "-i"@, input@, "-f"@, "null"@, "-"@],
{
    let mut cmd = CommandLine::new("ffmpeg");
    cmd.arg("-nostdin");
    cmd.arg2("-i", input);
    cmd.arg2("-f", "null");
    cmd.arg("-");
    assert(cmd.arg_views() =~= seq!["-nostdin"@, "-i"@, input@, "-f"@, "null"@, "-"@]);
    cmd
}

/// The arguments of ffmpeg for copying a sample.
pub open spec fn copy_args(input: Seq<char>, start: Seq<char>, frames: nat, dest: Seq<char>) -> Seq<
    Seq<char>,
> {
    seq![
        "-nostdin"@,
        "-y"@,
        "-ss"@,
        start,
        "-i"@,
        input,
        "-frames:v"@,
        text::dec(frames),
        "-c:v"@,
        "copy"@,
        "-an"@,
        "-sn"@,
        "-dn"@,
        dest,
    ]
}

/// A sample is cut from its start on, for which its input is skipped before it is
/// read, has as many frames as it should, and is a copy of the video alone.
pub proof fn law_sample_is_a_copy_from_its_start(
    input: Seq<char>,
    start: Seq<char>,
    frames: nat,
    dest: Seq<char>,
)
    ensures
        ({
            let args = copy_args(input, start, frames, dest);
            &&& exists|i: int, j: int|
                #![trigger args[i], args[j]]
                {
                    &&& 0 <= i && i + 1 < j && j + 1 < args.len()
                    &&& args[i] == "-ss"@ && args[i + 1] == start
                    &&& args[j] == "-i"@ && args[j + 1] == input
                }
            &&& gives(args, "-frames:v"@, text::dec(frames))
            &&& gives(args, "-c:v"@, "copy"@)
            &&& args.contains("-an"@) && args.contains("-sn"@) && args.contains("-dn"@)
            &&& args.last() == dest
        }),
{
    let args = copy_args(input, start, frames, dest);
    assert(args[2] == "-ss"@ && args[3] == start && args[4] == "-i"@ && args[5] == input);
    assert(args[6] == "-frames:v"@ && args[7] == text::dec(frames));
    assert(args[8] == "-c:v"@ && args[9] == "copy"@);
    assert(args[10] == "-an"@ && args[11] == "-sn"@ && args[12] == "-dn"@);
}

/// The command that copies so many frames of the video from `start` on.
pub fn copy_command(input: &str, start: &str, frames: u32, dest: &str) -> (r: CommandLine)
    ensures
        r.program@ == "ffmpeg"@,
        r.arg_views() == copy_args(input@, start@, frames as nat, dest@),
{
    let count = text::dec_string(frames as u64);
    let mut cmd = CommandLine::new("ffmpeg");
    cmd.arg("-nostdin");
    cmd.arg("-y");
    cmd.arg2("-ss", start);
    cmd.arg2("-i", input);
    cmd.arg2("-frames:v", count.as_str());
    cmd.arg2("-c:v", "copy");
    cmd.suppress_non_video_streams();
    cmd.arg(dest);
    cmd
}

/// The name of an encoded sample tells the codec and the crf, whose point is
/// written as an underscore, and the preset where there is one.
pub proof fn law_sample_name_tells_how(
    vcodec: Seq<char>,
    crf: Seq<char>,
    preset: Option<Seq<char>>,
    dest_ext: Seq<char>,
)
    ensures
        sample_extension(vcodec, crf, preset, dest_ext) == codec_name(vcodec) + ".crf"@
            + points_replaced(crf) + (match preset {
            Some(p) => "."@ + p,
            None => Seq::empty(),
        }) + "."@ + dest_ext,
        points_replaced(crf).len() == crf.len(),
        !points_replaced(crf).contains('.'),
        !crf.contains('.') ==> points_replaced(crf) == crf,
{
    let start = codec_name(vcodec) + ".crf"@ + points_replaced(crf);
    match preset {
        Some(p) => {
            assert(start + "."@ + p + "."@ + dest_ext =~= start + ("."@ + p) + "."@ + dest_ext);
        },
        None => {
            assert(start + Seq::empty() + "."@ + dest_ext =~= start + "."@ + dest_ext);
        },
    }
    if !crf.contains('.') {
        assert forall|i: int| 0 <= i < crf.len() implies points_replaced(crf)[i] == crf[i] by {
            assert(crf.contains(crf[i]));
        }
        assert(points_replaced(crf) =~= crf);
    }
}

} // verus!
