//! What is reported of a finished encode.
use crate::command::encode::progress::StreamSizes;
use crate::command::sample_encode::result::Fraction;
use crate::outside;
use crate::style;
use crate::style::{Segment, Tone};
use crate::text;
use vstd::prelude::*;

verus! {

broadcast use vstd::string::group_string_axioms;

/// Pure encoded output size metrics.
#[derive(Debug, Clone, Copy, PartialEq, Eq, Structural)]
pub struct EncodeMetrics {
    pub output_bytes: u64,
    pub input_bytes: u64,
    pub stream_sizes: Option<StreamSizes>,
}

impl EncodeMetrics {
    /// The output as a part of the input, or `None` for zero percent of an
    /// empty input.
    pub fn percent_of_input(output_bytes: u64, input_bytes: u64) -> (r: Option<Fraction>)
        ensures
            r == (if input_bytes == 0 {
                None
            } else {
                Some(Fraction { part: output_bytes, whole: input_bytes })
            }),
    {
        if input_bytes == 0 {
            None
        } else {
            Some(Fraction { part: output_bytes, whole: input_bytes })
        }
    }

    /// The metrics of these sizes.
    pub fn from_bytes(output_bytes: u64, input_bytes: u64, stream_sizes: Option<StreamSizes>) -> (r:
        Self)
        ensures
            r.output_bytes == output_bytes,
            r.input_bytes == input_bytes,
            r.stream_sizes == stream_sizes,
    {
        Self { output_bytes, input_bytes, stream_sizes }
    }
}

/// The size of one kind of stream, or nothing where there is none.
pub open spec fn stream_part(label: Seq<char>, size: u64) -> Seq<(Seq<char>, Tone)> {
    if size > 0 {
        seq![
            (","@, Tone::Dim),
            (" "@, Tone::Plain),
            (label, Tone::Dim),
            (outside::bytes_text(size), Tone::Dim),
        ]
    } else {
        Seq::empty()
    }
}

/// The sizes of the streams, where there are others than video.
pub open spec fn breakdown(sizes: Option<StreamSizes>) -> Seq<(Seq<char>, Tone)> {
    match sizes {
        Some(s) => if s.audio > 0 || s.subtitle > 0 || s.other > 0 {
            stream_part("video:"@, s.video) + stream_part("audio:"@, s.audio) + stream_part(
                "subs:"@,
                s.subtitle,
            ) + stream_part("other:"@, s.other)
        } else {
            Seq::empty()
        },
        None => Seq::empty(),
    }
}

fn push_stream(out: &mut Vec<Segment>, label: &str, size: u64)
    ensures
        style::shown(final(out)@) == style::shown(old(out)@) + stream_part(label@, size),
{
    let ghost before = style::shown(out@);
    if size > 0 {
        style::add_segment(out, ",", Tone::Dim);
        style::add_segment(out, " ", Tone::Plain);
        style::add_segment(out, label, Tone::Dim);
        let shown = outside::human_bytes(size);
        style::add_segment(out, shown.as_str(), Tone::Dim);
    }
    assert(style::shown(out@) =~= before + stream_part(label@, size));
}

/// The summary of an encode. `percent` is the output in percent of the input,
/// rounded, as text.
pub fn render_encode_summary(metrics: &EncodeMetrics, percent: &str) -> (r: Vec<Segment>)
    ensures
        style::shown(r@) == seq![
            ("Encoded"@, Tone::Dim),
            (" "@, Tone::Plain),
            (outside::bytes_text(metrics.output_bytes), Tone::DimBold),
            (" "@, Tone::Plain),
            ("("@, Tone::Dim),
            (percent@ + "%"@, Tone::DimBold),
        ] + breakdown(metrics.stream_sizes) + seq![(")"@, Tone::Dim)],
{
    let mut out: Vec<Segment> = Vec::new();
    assert(style::shown(out@) =~= Seq::empty());
    style::add_segment(&mut out, "Encoded", Tone::Dim);
    style::add_segment(&mut out, " ", Tone::Plain);
    let size = outside::human_bytes(metrics.output_bytes);
    style::add_segment(&mut out, size.as_str(), Tone::DimBold);
    style::add_segment(&mut out, " ", Tone::Plain);
    style::add_segment(&mut out, "(", Tone::Dim);
    let shown = text::cat2(percent, "%");
    style::add_segment(&mut out, shown.as_str(), Tone::DimBold);
    let ghost head = style::shown(out@);
    if let Some(s) = metrics.stream_sizes {
        if s.audio > 0 || s.subtitle > 0 || s.other > 0 {
            push_stream(&mut out, "video:", s.video);
            push_stream(&mut out, "audio:", s.audio);
            push_stream(&mut out, "subs:", s.subtitle);
            push_stream(&mut out, "other:", s.other);
        }
    }
    assert(style::shown(out@) =~= head + breakdown(metrics.stream_sizes));
    style::add_segment(&mut out, ")", Tone::Dim);
    out
}

/// What is told of an output that no one named, quoted for a shell.
pub fn encoding_line(output: &str) -> (r: String)
    ensures
        r@ == "Encoding "@ + outside::shell_word(output@),
{
    let word = outside::shell_escape_word(output);
    text::cat2("Encoding ", word.as_str())
}

/// The sizes of the streams are shown where there are others than video, each
/// one that is not empty with its own size, and nothing is shown otherwise.
pub proof fn law_streams_are_broken_down(s: StreamSizes)
    ensures
        breakdown(None).len() == 0,
        s.audio == 0 && s.subtitle == 0 && s.other == 0 ==> breakdown(Some(s)).len() == 0,
        s.audio > 0 || s.subtitle > 0 || s.other > 0 ==> {
            let shown = breakdown(Some(s));
            &&& shown.len() == 4 * ((if s.video > 0 {
                1int
            } else {
                0
            }) + (if s.audio > 0 {
                1int
            } else {
                0
            }) + (if s.subtitle > 0 {
                1int
            } else {
                0
            }) + (if s.other > 0 {
                1int
            } else {
                0
            }))
            &&& s.video > 0 ==> shown_as(shown, "video:"@, s.video)
            &&& s.audio > 0 ==> shown_as(shown, "audio:"@, s.audio)
            &&& s.subtitle > 0 ==> shown_as(shown, "subs:"@, s.subtitle)
            &&& s.other > 0 ==> shown_as(shown, "other:"@, s.other)
        },
{
    let a = stream_part("video:"@, s.video);
    let b = stream_part("audio:"@, s.audio);
    let c = stream_part("subs:"@, s.subtitle);
    let d = stream_part("other:"@, s.other);
    let shown = a + b + c + d;
    if s.video > 0 {
        assert(shown[2] == a[2] && shown[3] == a[3]);
    }
    if s.audio > 0 {
        let i = a.len() + 2int;
        assert(shown[i] == b[2] && shown[i + 1] == b[3]);
    }
    if s.subtitle > 0 {
        let i = a.len() + b.len() + 2int;
        assert(shown[i] == c[2] && shown[i + 1] == c[3]);
    }
    if s.other > 0 {
        let i = a.len() + b.len() + c.len() + 2int;
        assert(shown[i] == d[2] && shown[i + 1] == d[3]);
    }
}

/// Whether a label is shown with a size behind it.
pub open spec fn shown_as(shown: Seq<(Seq<char>, Tone)>, label: Seq<char>, size: u64) -> bool {
    exists|i: int|
        0 <= i && i + 1 < shown.len() && #[trigger] shown[i] == (label, Tone::Dim) && shown[i + 1]
            == (outside::bytes_text(size), Tone::Dim)
}

} // verus!
