//! Files that are to be removed again.
use crate::path;
use crate::text;
use vstd::prelude::*;

verus! {

broadcast use vstd::string::group_string_axioms;

/// Whether a file stays where temporary files are kept.
#[derive(Debug, Clone, Copy, PartialEq, Eq, Structural)]
pub enum TempKind {
    Keepable,
    NotKeepable,
}

struct TempFile {
    path: String,
    kind: TempKind,
}

/// The paths that are to be removed. Its view is the kind of each.
pub struct TempFiles {
    files: Vec<TempFile>,
}

spec fn holds(files: Seq<TempFile>, p: Seq<char>) -> bool {
    exists|i: int| 0 <= i < files.len() && (#[trigger] files[i]).path@ == p
}

spec fn index_of(files: Seq<TempFile>, p: Seq<char>) -> int {
    choose|i: int| 0 <= i < files.len() && (#[trigger] files[i]).path@ == p
}

/// Whether a path is removed when it is cleaned up.
pub open spec fn is_cleaned(temps: Map<Seq<char>, TempKind>, keep: bool, p: Seq<char>) -> bool {
    temps.dom().contains(p) && (!keep || temps[p] == TempKind::NotKeepable)
}

/// How many steps a path takes, the root among them.
pub open spec fn depth(p: Seq<char>) -> int {
    path::components(p, true).len() + if path::rooted(p) {
        1int
    } else {
        0int
    }
}

impl View for TempFiles {
    type V = Map<Seq<char>, TempKind>;

    closed spec fn view(&self) -> Map<Seq<char>, TempKind> {
        Map::new(
            |p: Seq<char>| holds(self.files@, p),
            |p: Seq<char>| self.files@[index_of(self.files@, p)].kind,
        )
    }
}

impl TempFiles {
    /// No path is held twice.
    pub closed spec fn well_formed(&self) -> bool {
        forall|i: int, j: int|
            0 <= i < j < self.files@.len() ==> (#[trigger] self.files@[i]).path@ != (
            #[trigger] self.files@[j]).path@
    }

    /// Nothing is to be removed.
    pub fn new() -> (r: Self)
        ensures
            r.well_formed(),
            r@ == Map::<Seq<char>, TempKind>::empty(),
    {
        let r = Self { files: Vec::new() };
        assert(r@ =~= Map::<Seq<char>, TempKind>::empty());
        r
    }

    fn find(&self, path: &str) -> (r: Option<usize>)
        ensures
            match r {
                Some(i) => i < self.files@.len() && self.files@[i as int].path@ == path@,
                None => !holds(self.files@, path@),
            },
    {
        let mut i: usize = 0;
        while i < self.files.len()
            invariant
                i <= self.files.len(),
                forall|j: int| 0 <= j < i ==> (#[trigger] self.files@[j]).path@ != path@,
            decreases self.files.len() - i,
        {
            if text::same(self.files[i].path.as_str(), path) {
                return Some(i);
            }
            i += 1;
        }
        None
    }

    /// Has a path stay. Gives whether it was to be removed.
    pub fn remove(&mut self, path: &str) -> (r: bool)
        requires
            old(self).well_formed(),
        ensures
            final(self).well_formed(),
            final(self)@ == old(self)@.remove(path@),
            r == old(self)@.dom().contains(path@),
    {
        match self.find(path) {
            Some(i) => {
                self.files.remove(i);
                proof {
                    let a = old(self).files@;
                    let b = self.files@;
                    let i = i as int;
                    assert(b == a.remove(i));
                    assert(holds(a, path@));
                    assert forall|p: Seq<char>| p != path@ && holds(a, p) implies holds(b, p)
                        && b[index_of(b, p)].kind == a[index_of(a, p)].kind by {
                        let k = index_of(a, p);
                        let at = if k < i {
                            k
                        } else {
                            k - 1
                        };
                        assert(b[at] == a[k]);
                        let m = index_of(b, p);
                        let back = if m < i {
                            m
                        } else {
                            m + 1
                        };
                        assert(b[m] == a[back]);
                    }
                    assert forall|p: Seq<char>| holds(b, p) implies p != path@ && holds(a, p) by {
                        let m = index_of(b, p);
                        let back = if m < i {
                            m
                        } else {
                            m + 1
                        };
                        assert(b[m] == a[back]);
                    }
                    assert forall|j: int, k: int| 0 <= j < k < b.len() implies (
                    #[trigger] b[j]).path@ != (#[trigger] b[k]).path@ by {
                        let x = if j < i {
                            j
                        } else {
                            j + 1
                        };
                        let y = if k < i {
                            k
                        } else {
                            k + 1
                        };
                        assert(a[x] == b[j] && a[y] == b[k]);
                    }
                    assert(self@ =~= old(self)@.remove(path@));
                }
                true
            },
            None => {
                assert(self@ =~= old(self)@.remove(path@));
                false
            },
        }
    }

    /// Has a path removed later.
    pub fn add(&mut self, path: &str, kind: TempKind)
        requires
            old(self).well_formed(),
        ensures
            final(self).well_formed(),
            final(self)@ == old(self)@.insert(path@, kind),
    {
        self.remove(path);
        let ghost a = self.files@;
        let ghost before = self@;
        assert(!before.dom().contains(path@));
        assert(!holds(a, path@));
        self.files.push(TempFile { path: path.to_owned(), kind });
        proof {
            let b = self.files@;
            assert(b[a.len() as int].path@ == path@);
            assert forall|p: Seq<char>| holds(a, p) implies holds(b, p) && b[index_of(b, p)]
                == a[index_of(a, p)] by {
                let k = index_of(a, p);
                assert(b[k] == a[k]);
                let m = index_of(b, p);
                assert(m < a.len());
                assert(a[m] == b[m]);
            }
            assert forall|p: Seq<char>| holds(b, p) && p != path@ implies holds(a, p) by {
                let m = index_of(b, p);
                assert(a[m] == b[m]);
            }
            assert forall|j: int, k: int| 0 <= j < k < b.len() implies (#[trigger] b[j]).path@ != (
            #[trigger] b[k]).path@ by {
                assert(a[j] == b[j]);
                if k < a.len() {
                    assert(a[k] == b[k]);
                }
            }
            assert(index_of(b, path@) == a.len());
            assert(self@ =~= before.insert(path@, kind));
            assert(self@ =~= old(self)@.insert(path@, kind));
        }
    }

    /// The paths to remove now, each once: all, or all that may not be kept. What
    /// a directory holds comes before the directory.
    pub fn to_clean(&self, keep: bool) -> (r: Vec<String>)
        requires
            self.well_formed(),
        ensures
            text::views(r@).no_duplicates(),
            forall|p: Seq<char>| text::views(r@).contains(p) <==> is_cleaned(self@, keep, p),
            forall|i: int, j: int|
                0 <= i < j < r@.len() ==> depth((#[trigger] r@[i])@) >= depth((#[trigger] r@[j])@),
    {
        let mut out: Vec<String> = Vec::new();
        let mut i: usize = 0;
        while i < self.files.len()
            invariant
                i <= self.files.len(),
                self.well_formed(),
                text::views(out@).no_duplicates(),
                forall|p: Seq<char>|
                    text::views(out@).contains(p) <==> is_picked(self.files@, i as int, keep, p),
                deepest_first(out@),
            decreases self.files.len() - i,
        {
            let picked = !keep || matches!(self.files[i].kind, TempKind::NotKeepable);
            let ghost path = self.files@[i as int].path@;
            let ghost before = out@;
            if picked {
                insert_by_depth(&mut out, self.files[i].path.clone());
            }
            proof {
                assert forall|p: Seq<char>|
                    text::views(out@).contains(p) <==> is_picked(
                        self.files@,
                        i + 1,
                        keep,
                        p,
                    ) by {
                    if is_picked(self.files@, i as int, keep, p) {
                        let k = choose|k: int|
                            0 <= k < i && (#[trigger] self.files@[k]).path@ == p && (!keep
                                || self.files@[k].kind == TempKind::NotKeepable);
                        assert(self.files@[k].path@ == p);
                    }
                    assert(self.files@[i as int].path@ == path);
                }
            }
            i += 1;
        }
        proof {
            assert forall|p: Seq<char>|
                text::views(out@).contains(p) <==> is_cleaned(self@, keep, p) by {
                if holds(self.files@, p) {
                    let k = index_of(self.files@, p);
                    assert(self.files@[k].path@ == p);
                }
            }
        }
        out
    }
}

spec fn is_picked(files: Seq<TempFile>, n: int, keep: bool, p: Seq<char>) -> bool {
    exists|k: int|
        0 <= k < n && (#[trigger] files[k]).path@ == p && (!keep || files[k].kind
            == TempKind::NotKeepable)
}

spec fn deepest_first(paths: Seq<String>) -> bool {
    forall|i: int, j: int|
        0 <= i < j < paths.len() ==> depth((#[trigger] paths[i])@) >= depth((#[trigger] paths[j])@)
}

fn depth_of(p: &str) -> (r: u128)
    ensures
        r == depth(p@),
{
    let steps: u128 = path::component_count(p) as u128;
    if path::starts_at_root(p) {
        steps + 1
    } else {
        steps
    }
}

/// Adds a path that is not among `paths` behind those that are as deep.
fn insert_by_depth(paths: &mut Vec<String>, path: String)
    requires
        deepest_first(old(paths)@),
        text::views(old(paths)@).no_duplicates(),
        !text::views(old(paths)@).contains(path@),
    ensures
        deepest_first(final(paths)@),
        text::views(final(paths)@).no_duplicates(),
        forall|p: Seq<char>|
            text::views(final(paths)@).contains(p) <==> text::views(old(paths)@).contains(p) || p
                == path@,
{
    let steps: u128 = depth_of(path.as_str());
    let mut at: usize = 0;
    while at < paths.len() && depth_of(paths[at].as_str()) >= steps
        invariant
            at <= paths.len(),
            paths@ == old(paths)@,
            steps == depth(path@),
            forall|i: int| 0 <= i < at ==> depth((#[trigger] paths@[i])@) >= steps,
        decreases paths.len() - at,
    {
        at += 1;
    }
    let ghost name = path@;
    paths.insert(at, path);
    proof {
        let a = text::views(old(paths)@);
        let b = text::views(paths@);
        let at = at as int;
        assert(b =~= a.insert(at, name));
        assert forall|p: Seq<char>| b.contains(p) <==> a.contains(p) || p == name by {
            assert(b[at] == name);
            if a.contains(p) {
                let i = choose|i: int| 0 <= i < a.len() && a[i] == p;
                if i < at {
                    assert(b[i] == p);
                } else {
                    assert(b[i + 1] == p);
                }
            }
            if b.contains(p) && p != name {
                let i = choose|i: int| 0 <= i < b.len() && b[i] == p;
                if i < at {
                    assert(a[i] == p);
                } else {
                    assert(a[i - 1] == p);
                }
            }
        }
        assert forall|i: int, j: int| 0 <= i < b.len() && 0 <= j < b.len() && i != j implies b[i]
            != b[j] by {
            let x = if i < at {
                i
            } else {
                i - 1
            };
            let y = if j < at {
                j
            } else {
                j - 1
            };
            if i != at {
                assert(b[i] == a[x]);
                assert(a.contains(a[x]));
            }
            if j != at {
                assert(b[j] == a[y]);
                assert(a.contains(a[y]));
            }
        }
        assert forall|i: int, j: int| 0 <= i < j < paths@.len() implies depth(
            (#[trigger] paths@[i])@,
        ) >= depth((#[trigger] paths@[j])@) by {
            let o = old(paths)@;
            if i < at {
                assert(paths@[i] == o[i]);
            } else if i > at {
                assert(paths@[i] == o[i - 1]);
            }
            if j < at {
                assert(paths@[j] == o[j]);
            } else if j > at {
                assert(paths@[j] == o[j - 1]);
            }
        }
    }
}

/// A path that is to be removed for certain is, until it is to stay; other paths
/// are removed or stay as before.
pub proof fn law_cleaned_until_it_stays(
    temps: Map<Seq<char>, TempKind>,
    p: Seq<char>,
    other: Seq<char>,
    keep: bool,
)
    ensures
        is_cleaned(temps.insert(p, TempKind::NotKeepable), keep, p),
        !is_cleaned(temps.remove(p), keep, p),
        other != p ==> is_cleaned(temps.insert(p, TempKind::NotKeepable), keep, other)
            == is_cleaned(temps, keep, other),
        other != p ==> is_cleaned(temps.remove(p), keep, other) == is_cleaned(temps, keep, other),
{
}

/// Every temporary file is cleaned up at the end, but for those that may be kept
/// where keeping is asked for; nothing else is.
pub proof fn law_what_is_cleaned(temps: Map<Seq<char>, TempKind>, p: Seq<char>)
    ensures
        !temps.dom().contains(p) ==> !is_cleaned(temps, true, p) && !is_cleaned(temps, false, p),
        temps.dom().contains(p) ==> is_cleaned(temps, false, p),
        temps.dom().contains(p) && temps[p] == TempKind::NotKeepable ==> is_cleaned(temps, true, p),
        temps.dom().contains(p) && temps[p] != TempKind::NotKeepable ==> !is_cleaned(
            temps,
            true,
            p,
        ),
{
}

/// A file is deeper than the directory that it is in, so it is cleaned up before
/// it.
pub proof fn law_files_before_their_directory(dir: Seq<char>, name: Seq<char>)
    requires
        dir.len() > 0,
        name.len() > 0,
        !name.contains('/'),
        name != "."@,
    ensures
        depth(path::joined(dir, name)) == depth(dir) + 1,
{
    path::law_joined_is_one_deeper(dir, name);
}

} // verus!
