//! Encoding an input to an output file.
pub mod error;
pub mod lifecycle;
pub mod plan;
pub mod preflight;
pub mod progress;
pub mod report;
pub mod running;
pub mod sink;

use crate::command::args::encode as encode_args;
use crate::command::args::encode::Encoder;
use crate::ffmpeg;
use crate::path;
use crate::text;
use vstd::prelude::*;

verus! {

broadcast use vstd::string::group_string_axioms;

/// The extension of the output of an encode: an image gets the encoder's image
/// format, a video keeps a container that is known to work, else it gets `mkv`.
pub open spec fn output_ext(input: Seq<char>, encoder: Encoder, is_image: bool) -> Seq<char> {
    if is_image {
        encode_args::image_ext(encoder@)
    } else {
        match path::extension(input) {
            Some(ext) => if ext == "mp4"@ || ext == "webm"@ || ext == "mov"@ {
                ext
            } else {
                "mkv"@
            },
            None => "mkv"@,
        }
    }
}

/// * vid.mp4 -> "mp4"
/// * vid.??? -> "mkv"
/// * image.??? -> "avif"
pub fn default_output_ext(input: &str, encoder: &Encoder, is_image: bool) -> (r: &'static str)
    ensures
        r@ == output_ext(input@, *encoder, is_image),
{
    if is_image {
        return encoder.default_image_ext();
    }
    match path::path_extension(input) {
        Some(ext) => {
            if text::same(ext.as_str(), "mp4") {
                "mp4"
            } else if text::same(ext.as_str(), "webm") {
                "webm"
            } else if text::same(ext.as_str(), "mov") {
                "mov"
            } else {
                "mkv"
            }
        },
        None => "mkv",
    }
}

/// The input with the encoder's short name and the output's extension in place
/// of its own extension.
pub open spec fn output_name(input: Seq<char>, encoder: Encoder, is_image: bool) -> Seq<char> {
    path::with_extension(
        input,
        ffmpeg::codec_name(encoder@) + "."@ + output_ext(input, encoder, is_image),
    )
}

/// E.g. vid.mkv -> "vid.av1.mkv"
pub fn default_output_name(input: &str, encoder: &Encoder, is_image: bool) -> (r: String)
    ensures
        r@ == output_name(input@, *encoder, is_image),
{
    let pre = ffmpeg::pre_extension_name(encoder.as_str());
    let ext = default_output_ext(input, encoder, is_image);
    let full = text::cat3(pre, ".", ext);
    path::path_with_extension(input, full.as_str())
}

/// Without an output that is asked for, an encode writes beside its input and
/// never over it: mp4, webm and mov keep their kind, other videos become mkv,
/// and images what their encoder makes of them.
pub proof fn law_default_output_beside_input(input: Seq<char>, encoder: Encoder, is_image: bool)
    requires
        path::file_name(input) is Some,
        !ffmpeg::codec_name(encoder@).contains('/'),
    ensures
        ({
            let out = output_name(input, encoder, is_image);
            let kind = path::extension(input);
            &&& out != input
            &&& path::parent(out) == path::parent(input)
            &&& path::extension(out) == Some(
                if is_image {
                    if encoder@ == "libx264"@ {
                        "264"@
                    } else if encoder@ == "libx265"@ {
                        "265"@
                    } else {
                        "avif"@
                    }
                } else if kind == Some("mp4"@) || kind == Some("webm"@) || kind == Some("mov"@) {
                    kind->0
                } else {
                    "mkv"@
                },
            )
        }),
{
    reveal_strlit("mp4");
    reveal_strlit("webm");
    reveal_strlit("mov");
    reveal_strlit("mkv");
    reveal_strlit("264");
    reveal_strlit("265");
    reveal_strlit("avif");
    reveal_strlit(".");
    let codec = ffmpeg::codec_name(encoder@);
    let ext = output_ext(input, encoder, is_image);
    assert(ext.len() >= 3);
    assert forall|i: int| 0 <= i < ext.len() implies ext[i] != '.' && ext[i] != '/' by {}
    let both = codec + "."@ + ext;
    assert(!both.contains('/')) by {
        if both.contains('/') {
            let i = choose|i: int| 0 <= i < both.len() && both[i] == '/';
            if i < codec.len() {
                assert(codec.contains(codec[i]));
            } else if i > codec.len() {
                assert(both[i] == ext[i - codec.len() - 1]);
            }
        }
    }
    assert(both.last() == ext.last());
    path::lemma_name_with_extension(input, both);
    let name = path::file_name(input)->0;
    let k = path::stem_len(name);
    let out = output_name(input, encoder, is_image);
    let named = name.take(k).push('.') + both;
    text::lemma_last_index_of(named, '.');
    text::lemma_last_index_of(name, '.');
    let dot = k + 1 + codec.len();
    assert(named[dot] == '.');
    let i = text::last_index_of(named, '.')->0;
    if i > dot {
        assert(named[i] == ext[i - dot - 1]);
    }
    assert(i == dot);
    assert(named.skip(dot + 1) =~= ext);
    if out == input {
        assert(named == name);
        assert(name[dot] == '.');
    }
}

} // verus!
