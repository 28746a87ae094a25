//! Text with the tones in which a terminal shows it.
use vstd::prelude::*;

verus! {

broadcast use vstd::string::group_string_axioms;

/// How a piece of text is shown.
#[derive(Debug, Clone, Copy, PartialEq, Eq, Structural)]
pub enum Tone {
    Plain,
    Dim,
    DimBold,
    Bold,
    BoldGreen,
    BoldRed,
    BrightRed,
    Red,
    Green,
}

/// A piece of text in one tone.
#[derive(Debug, PartialEq, Eq)]
pub struct Segment {
    pub text: String,
    pub tone: Tone,
}

impl View for Segment {
    type V = (Seq<char>, Tone);

    open spec fn view(&self) -> (Seq<char>, Tone) {
        (self.text@, self.tone)
    }
}

/// The texts and tones of segments.
pub open spec fn shown(v: Seq<Segment>) -> Seq<(Seq<char>, Tone)> {
    v.map_values(|s: Segment| s@)
}

/// Puts a piece of text behind the others.
pub fn add_segment(out: &mut Vec<Segment>, text: &str, tone: Tone)
    ensures
        shown(final(out)@) == shown(old(out)@).push((text@, tone)),
{
    let ghost before = shown(out@);
    out.push(Segment { text: text.to_owned(), tone });
    assert(shown(out@) =~= before.push((text@, tone)));
}

} // verus!
