//! Scoring with ffmpeg: its command line, its filter, and the score that it
//! writes.
use crate::command::args::encode::PixelFormat;
use crate::command::args::vmaf;
use crate::command::sample_encode::result::ScoreKind;
use crate::process::command_line::CommandLine;
use crate::process::ffmpeg_out;
use crate::process::ffmpeg_out::parse_label_substr;
use crate::text;
use vstd::prelude::*;

verus! {

broadcast use vstd::string::group_string_axioms;

/// A frame rate in front of an input, or nothing.
pub open spec fn rate_args(fps: Option<Seq<char>>) -> Seq<Seq<char>> {
    match fps {
        Some(fps) => seq!["-r"@, fps],
        None => Seq::empty(),
    }
}

/// The arguments of ffmpeg for scoring.
pub open spec fn score_args(
    reference: Seq<char>,
    distorted: Seq<char>,
    filter: Seq<char>,
    fps: Option<Seq<char>>,
) -> Seq<Seq<char>> {
    let rate = rate_args(fps);
    seq!["-nostdin"@] + rate + seq!["-i"@, distorted] + rate + seq![
        "-i"@,
        reference,
        "-filter_complex"@,
        filter,
        "-an"@,
        "-sn"@,
        "-dn"@,
        "-f"@,
        "null"@,
        "-"@,
    ]
}

/// The command that scores a distorted video against a reference. With a frame
/// rate both are read at it.
pub fn score_command(reference: &str, distorted: &str, filter: &str, fps: Option<&str>) -> (r:
    CommandLine)
    ensures
        r.program@ == "ffmpeg"@,
        r.arg_views() == score_args(
            reference@,
            distorted@,
            filter@,
            match fps {
                Some(fps) => Some(fps@),
                None => None,
            },
        ),
{
    let mut cmd = CommandLine::new("ffmpeg");
    cmd.arg("-nostdin");
    cmd.arg2_opt("-r", fps);
    cmd.arg2("-i", distorted);
    cmd.arg2_opt("-r", fps);
    cmd.arg2("-i", reference);
    cmd.arg2("-filter_complex", filter);
    cmd.suppress_non_video_streams();
    cmd.arg2("-f", "null");
    cmd.arg("-");
    cmd
}

/// The score that a line of ffmpeg's output holds, as it is written there. The
/// score by XPSNR is the least of its planes.
pub open spec fn score_in(kind: ScoreKind, line: Seq<char>) -> Option<Seq<char>> {
    match kind {
        ScoreKind::Vmaf => ffmpeg_out::label_value("VMAF score:"@, line),
        ScoreKind::Xpsnr => if text::contains(line, "XPSNR"@) {
            match ffmpeg_out::label_value("minimum:"@, line) {
                Some(score) => Some(text::strip_end(score, ')')),
                None => None,
            }
        } else {
            None
        },
    }
}

/// The score that a line of ffmpeg's output holds, as it is written there.
pub fn score_text(kind: ScoreKind, line: &str) -> (r: Option<String>)
    ensures
        match r {
            Some(score) => score_in(kind, line@) == Some(score@),
            None => score_in(kind, line@) is None,
        },
{
    match kind {
        ScoreKind::Vmaf => parse_label_substr("VMAF score:", line),
        ScoreKind::Xpsnr => {
            if !text::contains_str(line, "XPSNR") {
                return None;
            }
            match parse_label_substr("minimum:", line) {
                Some(score) => Some(text::trim_end_char(score.as_str(), ')')),
                None => None,
            }
        },
    }
}

/// The filter graph of an XPSNR analysis.
pub open spec fn xpsnr_graph(ref_vfilter: Option<Seq<char>>, pix_fmt: Option<PixelFormat>) -> Seq<
    char,
> {
    "[0:v]"@ + vmaf::format_prefix(pix_fmt) + "setpts=PTS-STARTPTS,settb=AVTB[dis];[1:v]"@
        + vmaf::format_prefix(pix_fmt) + vmaf::filter_prefix(ref_vfilter)
        + "setpts=PTS-STARTPTS,settb=AVTB[ref];[dis][ref]xpsnr=stats_file=-"@
}

/// The filter that calculates XPSNR: both videos get one pixel format and begin
/// at one time, and the reference is filtered before.
pub fn xpsnr_lavfi(ref_vfilter: Option<&str>, pix_fmt: Option<PixelFormat>) -> (r: String)
    ensures
        r@ == xpsnr_graph(
            match ref_vfilter {
                Some(vf) => Some(vf@),
                None => None,
            },
            pix_fmt,
        ),
{
    let filter = match ref_vfilter {
        None => String::new(),
        Some(vf) => if text::ends_with(vf, ",") {
            vf.to_owned()
        } else {
            text::cat2(vf, ",")
        },
    };
    let format = match pix_fmt {
        None => String::new(),
        Some(f) => text::cat3("format=", f.as_str(), ","),
    };
    let mut out = text::cat4(
        "[0:v]",
        format.as_str(),
        "setpts=PTS-STARTPTS,settb=AVTB[dis];[1:v]",
        format.as_str(),
    );
    out.append(filter.as_str());
    out.append("setpts=PTS-STARTPTS,settb=AVTB[ref];[dis][ref]xpsnr=stats_file=-");
    out
}

/// The distorted video is the first input and the reference the second, both are
/// read at the same rate where one is given, the filter gets both, and what comes
/// out is dropped.
pub proof fn law_distorted_before_reference(
    reference: Seq<char>,
    distorted: Seq<char>,
    filter: Seq<char>,
    fps: Option<Seq<char>>,
)
    ensures
        ({
            let args = score_args(reference, distorted, filter, fps);
            let n: int = if fps is Some {
                2
            } else {
                0
            };
            &&& args.len() == 13 + 2 * n
            &&& args[1 + n] == "-i"@ && args[2 + n] == distorted
            &&& args[3 + 2 * n] == "-i"@ && args[4 + 2 * n] == reference
            &&& args[5 + 2 * n] == "-filter_complex"@ && args[6 + 2 * n] == filter
            &&& fps is Some ==> args[1] == "-r"@ && args[2] == fps->0
            &&& fps is Some ==> args[5] == "-r"@ && args[6] == fps->0
            &&& args.subrange(args.len() - 3, args.len() as int) == seq!["-f"@, "null"@, "-"@]
        }),
{
    let args = score_args(reference, distorted, filter, fps);
    assert(args.subrange(args.len() - 3, args.len() as int) =~= seq!["-f"@, "null"@, "-"@]);
}

/// XPSNR compares what the videos show: both get the same pixel format and begin
/// at the same time, the first input is the distorted one, and a filter for the
/// reference goes before that and changes nothing else.
pub proof fn law_xpsnr_compares_alike(ref_vfilter: Option<Seq<char>>, pix_fmt: Option<PixelFormat>)
    ensures
        ({
            let format = match pix_fmt {
                Some(f) => "format="@ + f.name() + ","@,
                None => Seq::empty(),
            };
            let begin = "setpts=PTS-STARTPTS,settb=AVTB"@;
            let filter = match ref_vfilter {
                Some(f) => if f.len() > 0 && f.last() == ',' {
                    f
                } else {
                    f.push(',')
                },
                None => Seq::empty(),
            };
            let front = "[0:v]"@ + (format + begin) + "[dis];[1:v]"@ + format;
            let back = begin + "[ref];[dis][ref]xpsnr=stats_file=-"@;
            &&& xpsnr_graph(ref_vfilter, pix_fmt) == front + filter + back
            &&& xpsnr_graph(None, pix_fmt) == front + back
        }),
{
    reveal_strlit(",");
    reveal_strlit("setpts=PTS-STARTPTS,settb=AVTB");
    reveal_strlit("setpts=PTS-STARTPTS,settb=AVTB[dis];[1:v]");
    reveal_strlit("[dis];[1:v]");
    reveal_strlit("setpts=PTS-STARTPTS,settb=AVTB[ref];[dis][ref]xpsnr=stats_file=-");
    reveal_strlit("[ref];[dis][ref]xpsnr=stats_file=-");
    let begin = "setpts=PTS-STARTPTS,settb=AVTB"@;
    assert("setpts=PTS-STARTPTS,settb=AVTB[dis];[1:v]"@ =~= begin + "[dis];[1:v]"@);
    assert("setpts=PTS-STARTPTS,settb=AVTB[ref];[dis][ref]xpsnr=stats_file=-"@ =~= begin
        + "[ref];[dis][ref]xpsnr=stats_file=-"@);
    if let Some(f) = ref_vfilter {
        assert(f.push(',') =~= f + ","@);
        if f.len() > 0 {
            assert(text::has_suffix(f, ","@) <==> f.last() == ',') by {
                assert(f.subrange(f.len() - 1, f.len() as int) =~= seq![f.last()]);
                assert(","@ =~= seq![',']);
                assert(","@[0] == ',');
            }
        }
    }
    let format = vmaf::format_prefix(pix_fmt);
    let filter = vmaf::filter_prefix(ref_vfilter);
    let none = Seq::<char>::empty();
    lemma_graph_of(format, begin, "[dis];[1:v]"@, filter, "[ref];[dis][ref]xpsnr=stats_file=-"@);
    lemma_graph_of(format, begin, "[dis];[1:v]"@, none, "[ref];[dis][ref]xpsnr=stats_file=-"@);
    let front = "[0:v]"@ + (format + begin) + "[dis];[1:v]"@ + format;
    assert(front + none =~= front);
}

proof fn lemma_graph_of(
    format: Seq<char>,
    begin: Seq<char>,
    a: Seq<char>,
    filter: Seq<char>,
    b: Seq<char>,
)
    ensures
        "[0:v]"@ + format + (begin + a) + format + filter + (begin + b) == ("[0:v]"@ + (format
            + begin) + a + format) + filter + (begin + b),
{
    assert("[0:v]"@ + format + (begin + a) =~= "[0:v]"@ + (format + begin) + a);
}

/// The score by VMAF is the word behind its label, wherever that stands in the
/// line.
pub proof fn law_vmaf_score_behind_its_label(
    front: Seq<char>,
    gap: Seq<char>,
    score: Seq<char>,
    rest: Seq<char>,
)
    requires
        text::find(front + "VMAF score:"@ + gap + score + rest, "VMAF score:"@) == Some(
            front.len() as int,
        ),
        forall|i: int| 0 <= i < gap.len() ==> text::is_space(#[trigger] gap[i]),
        score.len() > 0,
        forall|i: int| 0 <= i < score.len() ==> !text::is_space(#[trigger] score[i]),
        rest.len() > 0 ==> text::is_space(rest[0]),
    ensures
        score_in(ScoreKind::Vmaf, front + "VMAF score:"@ + gap + score + rest) == Some(score),
{
    ffmpeg_out::law_label_value_is_the_word_behind("VMAF score:"@, front, gap, score, rest);
}

/// The score by XPSNR is the minimum of a line on XPSNR, without the bracket
/// that closes behind it; other lines hold none.
pub proof fn law_xpsnr_score_is_the_minimum(
    front: Seq<char>,
    gap: Seq<char>,
    score: Seq<char>,
    rest: Seq<char>,
)
    requires
        text::find(front + "minimum:"@ + gap + score.push(')') + rest, "minimum:"@) == Some(
            front.len() as int,
        ),
        forall|i: int| 0 <= i < gap.len() ==> text::is_space(#[trigger] gap[i]),
        score.len() > 0,
        score.last() != ')',
        forall|i: int| 0 <= i < score.len() ==> !text::is_space(#[trigger] score[i]),
        rest.len() > 0 ==> text::is_space(rest[0]),
    ensures
        ({
            let line = front + "minimum:"@ + gap + score.push(')') + rest;
            &&& text::contains(line, "XPSNR"@) ==> score_in(ScoreKind::Xpsnr, line) == Some(score)
            &&& !text::contains(line, "XPSNR"@) ==> score_in(ScoreKind::Xpsnr, line) is None
        }),
{
    let word = score.push(')');
    assert forall|i: int| 0 <= i < word.len() implies !text::is_space(#[trigger] word[i]) by {
        if i < score.len() {
            assert(word[i] == score[i]);
        }
    }
    ffmpeg_out::law_label_value_is_the_word_behind("minimum:"@, front, gap, word, rest);
    assert(word.drop_last() =~= score);
    reveal_with_fuel(text::strip_end, 2);
}

} // verus!
