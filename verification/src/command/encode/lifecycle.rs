//! The life of an output file.
use crate::ffmpeg::EncodeDestination;
use crate::path;
use crate::temporary::{TempFiles, TempKind};
use crate::text;
use vstd::prelude::*;

verus! {

broadcast use vstd::string::group_string_axioms;

/// User-selected or defaulted output path before ffmpeg may write it.
#[must_use]
#[derive(Debug, PartialEq, Eq)]
pub struct PlannedOutput {
    path: String,
}

/// Output that is cleaned up unless it is committed, as ffmpeg may be writing it.
#[must_use]
#[derive(Debug, PartialEq, Eq)]
pub struct PartialOutput {
    path: String,
}

/// Successful encode output, no longer subject to failure cleanup.
#[must_use]
#[derive(Debug, PartialEq, Eq)]
pub struct CompletedOutput {
    path: String,
}

impl View for PlannedOutput {
    type V = Seq<char>;

    closed spec fn view(&self) -> Seq<char> {
        self.path@
    }
}

impl View for PartialOutput {
    type V = Seq<char>;

    closed spec fn view(&self) -> Seq<char> {
        self.path@
    }
}

impl View for CompletedOutput {
    type V = Seq<char>;

    closed spec fn view(&self) -> Seq<char> {
        self.path@
    }
}

impl PlannedOutput {
    /// An output at this path.
    pub fn new(path: String) -> (r: Self)
        ensures
            r@ == path@,
    {
        Self { path }
    }

    /// Where the output will be.
    pub fn path(&self) -> (r: &str)
        ensures
            r@ == self@,
    {
        self.path.as_str()
    }

    /// From now on ffmpeg may write the output: it is cleaned up.
    pub fn begin(self, temps: &mut TempFiles) -> (r: PartialOutput)
        requires
            old(temps).well_formed(),
        ensures
            r@ == self@,
            final(temps).well_formed(),
            final(temps)@ == old(temps)@.insert(self@, TempKind::NotKeepable),
    {
        temps.add(self.path.as_str(), TempKind::NotKeepable);
        PartialOutput { path: self.path }
    }
}

impl PartialOutput {
    /// Where the output is.
    pub fn path(&self) -> (r: &str)
        ensures
            r@ == self@,
    {
        self.path.as_str()
    }

    /// The output is complete and stays.
    pub fn commit(self, temps: &mut TempFiles) -> (r: CompletedOutput)
        requires
            old(temps).well_formed(),
        ensures
            r@ == self@,
            final(temps).well_formed(),
            final(temps)@ == old(temps)@.remove(self@),
    {
        temps.remove(self.path.as_str());
        CompletedOutput { path: self.path }
    }
}

impl EncodeDestination for PartialOutput {
    open spec fn destination(&self) -> Seq<char> {
        self@
    }

    fn encode_destination(&self) -> (r: &str) {
        self.path()
    }
}

impl CompletedOutput {
    /// Where the output is.
    pub fn path(&self) -> (r: &str)
        ensures
            r@ == self@,
    {
        self.path.as_str()
    }
}

/// The path of an output while it is written: beside it, under another name.
/// There is none for a path that names no file.
pub open spec fn tmp_path(output: Seq<char>) -> Option<Seq<char>> {
    match (path::file_name(output), path::parent(output)) {
        (Some(name), Some(dir)) => Some(path::joined(dir, ".tmp.ab-av1-encoding."@ + name)),
        _ => None,
    }
}

/// The path of an output while it is written.
pub fn tmp_output_name(output: &str) -> (r: Result<String, &'static str>)
    ensures
        match r {
            Ok(p) => tmp_path(output@) == Some(p@),
            Err(e) => tmp_path(output@) is None && e@ == "no output file name"@,
        },
{
    match (path::path_file_name(output), path::path_parent(output)) {
        (Some(name), Some(dir)) => {
            let tmp = text::cat2(".tmp.ab-av1-encoding.", name.as_str());
            Ok(path::path_join(dir.as_str(), tmp.as_str()))
        },
        _ => Err("no output file name"),
    }
}

/// While it is written, an output stands beside the place it will have, under a
/// name of its own; there is such a place for every output that names a file.
pub proof fn law_written_beside_its_place(output: Seq<char>)
    ensures
        tmp_path(output) is Some <==> path::file_name(output) is Some,
        tmp_path(output) matches Some(tmp) ==> {
            &&& path::file_name(tmp) == Some(
                ".tmp.ab-av1-encoding."@ + path::file_name(output)->0,
            )
            &&& tmp != output
            &&& path::parent(output)->0.len() > 0 ==> path::is_under(tmp, path::parent(output)->0)
        },
{
    if path::file_name(output) is Some {
        path::lemma_file_name_is_plain(output);
        let name = path::file_name(output)->0;
        let dir = path::parent(output)->0;
        reveal_strlit(".tmp.ab-av1-encoding.");
        reveal_strlit(".");
        reveal_strlit("..");
        let front = ".tmp.ab-av1-encoding."@;
        let tmp = front + name;
        assert(front.len() == 21);
        assert forall|i: int| 0 <= i < tmp.len() implies tmp[i] != '/' by {
            if i >= front.len() {
                assert(tmp[i] == name[i - front.len()]);
                assert(name.contains(name[i - front.len()]));
            }
        }
        assert("."@.len() == 1 && ".."@.len() == 2);
        path::law_join_then_name(dir, tmp);
        assert(tmp != name) by {
            assert(tmp.len() != name.len());
        }
        if dir.len() > 0 {
            path::law_joined_lies_under(dir, tmp);
        }
    }
}

} // verus!
