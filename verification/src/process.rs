//! Output of child processes: bounded storage, ffmpeg's records, exit states.
pub mod command_line;
pub mod ffmpeg_out;
pub mod managed;

use crate::process::managed::ExitStatus;
use crate::text;
use vstd::prelude::*;
use vstd::slice::slice_subrange;
use vstd::utf8::*;

verus! {

broadcast use vstd::string::group_string_axioms;

/// The most bytes that [`Chunks`] keeps.
pub const MAX_LEN: usize = 32_000;

/// Output chunk storage.
///
/// Stores up to 32k of chunk data on the heap. Its view is the stored bytes.
pub struct Chunks {
    out: Vec<u8>,
    /// Truncate to this index before the next `push`.
    trunc_next_push: Option<usize>,
}

/// Why the lines of [`Chunks`] could not be read.
#[derive(Debug, Clone, Copy, PartialEq, Eq, Structural)]
pub enum ChunkLineError {
    Utf8,
}

impl ChunkLineError {
    /// The message of the error.
    pub fn message(&self) -> (r: String)
        ensures
            r@ == "chunk line is not valid UTF-8"@,
    {
        "chunk line is not valid UTF-8".to_owned()
    }
}

/// The index after the last line feed of `b`, or 0 if there is none.
pub open spec fn after_last_lf(b: Seq<u8>) -> int
    decreases b.len(),
{
    if b.len() == 0 {
        0
    } else if b.last() == 10 {
        b.len() as int
    } else {
        after_last_lf(b.drop_last())
    }
}

/// The index of the first line feed of `b` at or after `i`; without one, the
/// index of the last byte.
pub open spec fn first_eol(b: Seq<u8>, i: int) -> int
    decreases b.len() - i,
{
    if i + 1 >= b.len() || b[i] == 10 {
        i
    } else {
        first_eol(b, i + 1)
    }
}

/// Where the next chunk overwrites `b`, the bytes that are kept once `chunk` has
/// come in: a chunk that ends in a carriage return has its line overwritten.
pub open spec fn overwrite_after(chunk: Seq<u8>, b: Seq<u8>) -> Option<int> {
    if chunk.len() > 0 && chunk.last() == 13 {
        Some(after_last_lf(b))
    } else {
        None
    }
}

/// `b` without its oldest line. A carriage return behind the line feed goes too.
pub open spec fn without_oldest_line(b: Seq<u8>) -> Seq<u8> {
    let eol = first_eol(b, 0);
    if eol + 1 < b.len() && b[eol + 1] == 13 {
        b.skip(eol + 2)
    } else {
        b.skip(eol + 1)
    }
}

pub proof fn lemma_first_eol(b: Seq<u8>, i: int)
    requires
        0 <= i < b.len(),
    ensures
        i <= first_eol(b, i) < b.len(),
    decreases b.len() - i,
{
    if i + 1 < b.len() && b[i] != 10 {
        lemma_first_eol(b, i + 1);
    }
}

pub proof fn lemma_after_last_lf(b: Seq<u8>)
    ensures
        0 <= after_last_lf(b) <= b.len(),
    decreases b.len(),
{
    if b.len() > 0 && b.last() != 10 {
        lemma_after_last_lf(b.drop_last());
    }
}

/// `b` without as many of its oldest lines as it takes to hold no more than
/// [`MAX_LEN`] bytes.
pub open spec fn bounded(b: Seq<u8>) -> Seq<u8>
    decreases b.len(),
{
    if b.len() <= MAX_LEN {
        b
    } else {
        proof {
            lemma_first_eol(b, 0);
        }
        bounded(without_oldest_line(b))
    }
}

/// What is kept of `b` when old lines have to go is its end.
pub proof fn law_bounded_keeps_newest(b: Seq<u8>)
    ensures
        bounded(b).len() <= MAX_LEN,
        bounded(b).len() <= b.len(),
        bounded(b) == b.skip(b.len() - bounded(b).len()),
        b.len() <= MAX_LEN ==> bounded(b) == b,
    decreases b.len(),
{
    if b.len() > MAX_LEN {
        lemma_first_eol(b, 0);
        let c = without_oldest_line(b);
        law_bounded_keeps_newest(c);
        assert(c == b.skip(b.len() - c.len()));
        assert(bounded(b) == b.skip(b.len() - bounded(b).len()));
    } else {
        assert(b.skip(0) == b);
    }
}

/// Where old lines had to go and something is kept, what went ends with the end
/// of a line: no line is kept in part.
pub proof fn law_bounded_drops_whole_lines(b: Seq<u8>)
    ensures
        0 < bounded(b).len() < b.len() ==> ends_line(b[b.len() - bounded(b).len() - 1]),
    decreases b.len(),
{
    if b.len() > MAX_LEN {
        lemma_first_eol(b, 0);
        lemma_first_eol_ends(b, 0);
        let c = without_oldest_line(b);
        law_bounded_drops_whole_lines(c);
        law_bounded_keeps_newest(c);
        if 0 < bounded(c).len() && bounded(c).len() < c.len() {
            let i = c.len() - bounded(c).len() - 1;
            assert(c[i] == b[b.len() - c.len() + i]);
        }
    }
}

proof fn lemma_first_eol_ends(b: Seq<u8>, i: int)
    requires
        0 <= i < b.len(),
    ensures
        first_eol(b, i) + 1 < b.len() ==> b[first_eol(b, i)] == 10,
    decreases b.len() - i,
{
    if i + 1 < b.len() && b[i] != 10 {
        lemma_first_eol_ends(b, i + 1);
    }
}

/// Whether a byte ends a line.
pub open spec fn ends_line(b: u8) -> bool {
    b == 10 || b == 13
}

/// The index after the last byte of `b` that ends a line, or 0.
pub open spec fn last_line_start(b: Seq<u8>) -> int
    decreases b.len(),
{
    if b.len() == 0 {
        0
    } else if ends_line(b.last()) {
        b.len() as int
    } else {
        last_line_start(b.drop_last())
    }
}

pub proof fn lemma_last_line_start(b: Seq<u8>)
    ensures
        0 <= last_line_start(b) <= b.len(),
        last_line_start(b) > 0 ==> ends_line(b[last_line_start(b) - 1]),
    decreases b.len(),
{
    if b.len() > 0 && !ends_line(b.last()) {
        lemma_last_line_start(b.drop_last());
    }
}

/// The lines of `b`, the newest first. Line feeds and carriage returns both
/// end a line and belong to none.
pub open spec fn lines_newest_first(b: Seq<u8>) -> Seq<Seq<u8>>
    decreases b.len(),
{
    let start = last_line_start(b);
    if start <= 0 || start > b.len() {
        seq![b]
    } else {
        seq![b.skip(start)] + lines_newest_first(b.take(start - 1))
    }
}

/// One step from a line to the one before it.
proof fn lemma_lines_step(lines: Seq<Seq<u8>>, k: int, all: Seq<u8>, end: int)
    requires
        0 <= k < lines.len(),
        0 <= end <= all.len(),
        lines.skip(k) == lines_newest_first(all.take(end)),
    ensures
        lines[k] == all.take(end).skip(last_line_start(all.take(end))),
        last_line_start(all.take(end)) == 0 ==> k + 1 == lines.len(),
        last_line_start(all.take(end)) > 0 ==> k + 1 < lines.len() && lines.skip(k + 1)
            == lines_newest_first(all.take(last_line_start(all.take(end)) - 1)),
{
    let cur = all.take(end);
    let start = last_line_start(cur);
    lemma_last_line_start(cur);
    assert(lines.skip(k)[0] == lines[k]);
    if start == 0 {
        assert(cur == cur.skip(0));
        assert(lines.skip(k).len() == 1);
    } else {
        let rest = lines_newest_first(cur.take(start - 1));
        assert(lines.skip(k + 1) == lines.skip(k).skip(1));
        assert(lines.skip(k).skip(1) == rest);
        assert(cur.take(start - 1) == all.take(start - 1));
        assert(rest.len() > 0);
    }
}

/// Whether `predicate` is false for the line with these bytes.
pub open spec fn rejected<'a, F: Fn(&'a str) -> bool>(predicate: F, line: Seq<u8>) -> bool {
    exists|s: &'a str| encode_utf8(s@) == line && #[trigger] predicate.ensures((s,), false)
}

/// Whether `predicate` is false for each of the first `n` lines.
pub open spec fn all_rejected<'a, F: Fn(&'a str) -> bool>(
    predicate: F,
    lines: Seq<Seq<u8>>,
    n: int,
) -> bool {
    forall|j: int| 0 <= j < n ==> rejected(predicate, #[trigger] lines[j])
}

/// Whether `s` is a line that `predicate` is asked about: every line before it
/// was rejected.
pub open spec fn is_asked<'a, F: Fn(&'a str) -> bool>(
    predicate: F,
    lines: Seq<Seq<u8>>,
    s: &'a str,
) -> bool {
    exists|k: int|
        0 <= k < lines.len() && #[trigger] lines[k] == encode_utf8(s@) && all_rejected(
            predicate,
            lines,
            k,
        )
}

/// Whether `r` is the first of `lines` for which `predicate` holds. There is
/// none if all are rejected, or all before one that is not UTF-8.
pub open spec fn found_line<'a, F: Fn(&'a str) -> bool>(
    predicate: F,
    lines: Seq<Seq<u8>>,
    r: Option<&'a str>,
) -> bool {
    match r {
        Some(line) => predicate.ensures((line,), true) && exists|k: int|
            0 <= k < lines.len() && (#[trigger] lines[k]) == encode_utf8(line@) && all_rejected(
                predicate,
                lines,
                k,
            ),
        None => all_rejected(predicate, lines, lines.len() as int) || exists|k: int|
            0 <= k < lines.len() && !valid_utf8(#[trigger] lines[k]) && all_rejected(
                predicate,
                lines,
                k,
            ),
    }
}

/// Whether `f` gives `out` for the line with these bytes.
pub open spec fn line_gives<'a, T, F: Fn(&'a str) -> Option<T>>(
    f: F,
    line: Seq<u8>,
    out: Option<T>,
) -> bool {
    exists|s: &'a str| encode_utf8(s@) == line && #[trigger] f.ensures((s,), out)
}

/// Whether `f` gives nothing for each of the first `n` lines.
pub open spec fn none_of_first<'a, T, F: Fn(&'a str) -> Option<T>>(
    f: F,
    lines: Seq<Seq<u8>>,
    n: int,
) -> bool {
    forall|j: int| 0 <= j < n ==> line_gives(f, #[trigger] lines[j], None)
}

/// Whether `s` is a line for which `f` is called: for no line before it did `f`
/// give anything.
pub open spec fn is_tried<'a, T, F: Fn(&'a str) -> Option<T>>(
    f: F,
    lines: Seq<Seq<u8>>,
    s: &'a str,
) -> bool {
    exists|k: int|
        0 <= k < lines.len() && #[trigger] lines[k] == encode_utf8(s@) && none_of_first(f, lines, k)
}

/// Whether `r` is what searching `lines` in order with `f` can give: what `f`
/// gives for the first line for which it gives something, an error if a line
/// that is not UTF-8 comes before.
pub open spec fn search_result<'a, T, F: Fn(&'a str) -> Option<T>>(
    f: F,
    lines: Seq<Seq<u8>>,
    r: Result<Option<T>, ChunkLineError>,
) -> bool {
    match r {
        Ok(Some(out)) => exists|k: int|
            0 <= k < lines.len() && none_of_first(f, lines, k) && line_gives(
                f,
                #[trigger] lines[k],
                Some(out),
            ),
        Ok(None) => none_of_first(f, lines, lines.len() as int),
        Err(ChunkLineError::Utf8) => exists|k: int|
            0 <= k < lines.len() && none_of_first(f, lines, k) && !valid_utf8(#[trigger] lines[k]),
    }
}

/// The first line that is not empty; nothing if there is none or if a line
/// that is not UTF-8 comes before it.
pub open spec fn first_filled(lines: Seq<Seq<u8>>) -> Seq<char>
    decreases lines.len(),
{
    if lines.len() == 0 || !valid_utf8(lines[0]) {
        Seq::empty()
    } else if lines[0].len() > 0 {
        decode_utf8(lines[0])
    } else {
        first_filled(lines.skip(1))
    }
}

proof fn lemma_first_filled_at(lines: Seq<Seq<u8>>, k: int)
    requires
        0 <= k <= lines.len(),
        forall|j: int| 0 <= j < k ==> (#[trigger] lines[j]).len() == 0 && valid_utf8(lines[j]),
    ensures
        first_filled(lines) == first_filled(lines.skip(k)),
    decreases k,
{
    if k > 0 {
        assert(lines[0].len() == 0);
        assert forall|j: int| 0 <= j < k - 1 implies (#[trigger] lines.skip(1)[j]).len() == 0
            && valid_utf8(lines.skip(1)[j]) by {
            assert(lines.skip(1)[j] == lines[j + 1]);
        }
        lemma_first_filled_at(lines.skip(1), k - 1);
        assert(lines.skip(1).skip(k - 1) == lines.skip(k));
    } else {
        assert(lines.skip(0) == lines);
    }
}

impl View for Chunks {
    type V = Seq<u8>;

    closed spec fn view(&self) -> Seq<u8> {
        self.out@
    }
}

impl Default for Chunks {
    fn default() -> (r: Self)
        ensures
            r@ == Seq::<u8>::empty(),
            r.overwrite_from() == None::<int>,
    {
        Self { out: Vec::new(), trunc_next_push: None }
    }
}

/// The stored bytes once what is to be overwritten has been dropped.
pub open spec fn kept(b: Seq<u8>, overwrite_from: Option<int>) -> Seq<u8> {
    match overwrite_from {
        Some(i) => if i <= b.len() {
            b.take(i)
        } else {
            b
        },
        None => b,
    }
}

impl Chunks {
    /// The index from which the next `push` overwrites, if it does.
    pub closed spec fn overwrite_from(&self) -> Option<int> {
        match self.trunc_next_push {
            Some(i) => Some(i as int),
            None => None,
        }
    }

    /// Append a chunk.
    ///
    /// If the chunk ends in a `\r` carriage return, the next call to `push`
    /// overwrites the line that it belongs to.
    ///
    /// Removes oldest lines if storage exceeds the maximum.
    pub fn push(&mut self, chunk: &[u8])
        ensures
            final(self)@ == bounded(kept(old(self)@, old(self).overwrite_from()) + chunk@),
            final(self).overwrite_from() == overwrite_after(chunk@, final(self)@),
            final(self)@.len() <= MAX_LEN,
    {
        if let Some(idx) = self.trunc_next_push.take() {
            self.out.truncate(idx);
        }
        proof {
            assert(self.out@ == kept(old(self)@, old(self).overwrite_from()));
        }
        self.out.extend_from_slice(chunk);
        let ghost all = kept(old(self)@, old(self).overwrite_from()) + chunk@;
        assert(self.out@ == all);

        // if too long remove lines until small
        while self.out.len() > MAX_LEN
            invariant
                bounded(self.out@) == bounded(all),
                self.trunc_next_push is None,
            decreases self.out.len(),
        {
            self.rm_oldest_line();
        }

        if chunk.len() > 0 && chunk[chunk.len() - 1] == 13 {
            self.trunc_next_push = Some(self.after_last_line_feed());
        }
    }

    /// Returns the index after the latest `\n`, or 0 if there is none.
    fn after_last_line_feed(&self) -> (r: usize)
        ensures
            r == after_last_lf(self@),
            r <= self@.len(),
    {
        let mut i: usize = self.out.len();
        proof {
            assert(self.out@.take(i as int) == self.out@);
        }
        while i > 0
            invariant
                i <= self.out.len(),
                after_last_lf(self.out@) == after_last_lf(self.out@.take(i as int)),
            decreases i,
        {
            assert(self.out@.take(i as int).drop_last() == self.out@.take(i - 1));
            if self.out[i - 1] == 10 {
                return i;
            }
            i -= 1;
        }
        0
    }

    fn rm_oldest_line(&mut self)
        requires
            old(self)@.len() > 0,
        ensures
            final(self)@ == without_oldest_line(old(self)@),
            final(self)@.len() < old(self)@.len(),
            final(self).overwrite_from() == old(self).overwrite_from(),
    {
        let mut next_eol: usize = 0;
        while next_eol + 1 < self.out.len() && self.out[next_eol] != 10
            invariant
                next_eol < self.out.len(),
                self.out == old(self).out,
                first_eol(self.out@, 0) == first_eol(self.out@, next_eol as int),
            decreases self.out.len() - next_eol,
        {
            next_eol += 1;
        }
        if next_eol + 1 < self.out.len() && self.out[next_eol + 1] == 13 {
            next_eol += 1;
        }
        self.out = self.out.split_off(next_eol + 1);
    }

    /// The newest line for which `predicate` holds. `None` too if a line that
    /// is not UTF-8 comes before it. Older lines are not looked at.
    pub fn rfind_line<'a, F: Fn(&'a str) -> bool>(&'a self, predicate: F) -> (r: Option<&'a str>)
        requires
            forall|s: &'a str|
                is_asked(predicate, lines_newest_first(self@), s) ==> #[trigger] predicate.requires(
                    (s,),
                ),
        ensures
            found_line(predicate, lines_newest_first(self@), r),
    {
        let ghost lines = lines_newest_first(self@);
        let ghost mut k: int = 0;
        let mut end: usize = self.out.len();
        proof {
            assert(self.out@.take(end as int) == self.out@);
            assert(lines.skip(0) == lines);
        }
        loop
            invariant
                end <= self.out.len(),
                lines == lines_newest_first(self@),
                0 <= k < lines.len(),
                lines.skip(k) == lines_newest_first(self.out@.take(end as int)),
                all_rejected(predicate, lines, k),
                forall|s: &'a str|
                    is_asked(predicate, lines, s) ==> #[trigger] predicate.requires((s,)),
            decreases end,
        {
            let start = self.line_start_before(end);
            let bytes = slice_subrange(self.out.as_slice(), start, end);
            proof {
                lemma_lines_step(lines, k, self.out@, end as int);
                assert(bytes@ == self.out@.take(end as int).skip(start as int));
            }
            match core::str::from_utf8(bytes) {
                Ok(line) => {
                    assert(lines[k] == encode_utf8(line@));
                    assert(is_asked(predicate, lines, line));
                    if predicate(line) {
                        return Some(line);
                    }
                    assert(rejected(predicate, lines[k]));
                },
                Err(_) => {
                    return None;
                },
            }
            if start == 0 {
                assert(all_rejected(predicate, lines, lines.len() as int));
                return None;
            }
            proof {
                k = k + 1;
            }
            end = start - 1;
        }
    }

    /// What `f` gives for the newest line for which it gives something. `None`
    /// too if a line that is not UTF-8 comes before it. `f` is not called for
    /// older lines.
    pub fn rfind_line_map<'a, T, F: Fn(&'a str) -> Option<T>>(&'a self, f: F) -> (r: Option<T>)
        requires
            forall|s: &'a str|
                is_tried(f, lines_newest_first(self@), s) ==> #[trigger] f.requires((s,)),
        ensures
            r is Some ==> search_result(f, lines_newest_first(self@), Ok(r)),
            r is None ==> search_result(f, lines_newest_first(self@), Ok(r)) || search_result(
                f,
                lines_newest_first(self@),
                Err(ChunkLineError::Utf8),
            ),
    {
        match self.rfind_line_map_checked(f) {
            Ok(out) => out,
            Err(ChunkLineError::Utf8) => None,
        }
    }

    /// What `f` gives for the newest line for which it gives something, and an
    /// error if a line that is not UTF-8 comes before it. `f` is not called for
    /// older lines.
    pub fn rfind_line_map_checked<'a, T, F: Fn(&'a str) -> Option<T>>(&'a self, f: F) -> (r: Result<
        Option<T>,
        ChunkLineError,
    >)
        requires
            forall|s: &'a str|
                is_tried(f, lines_newest_first(self@), s) ==> #[trigger] f.requires((s,)),
        ensures
            search_result(f, lines_newest_first(self@), r),
    {
        let ghost lines = lines_newest_first(self@);
        let ghost mut k: int = 0;
        let mut end: usize = self.out.len();
        proof {
            assert(self.out@.take(end as int) == self.out@);
            assert(lines.skip(0) == lines);
        }
        loop
            invariant
                end <= self.out.len(),
                lines == lines_newest_first(self@),
                0 <= k,
                k < lines.len(),
                lines.skip(k) == lines_newest_first(self.out@.take(end as int)),
                none_of_first(f, lines, k),
                forall|s: &'a str| is_tried(f, lines, s) ==> #[trigger] f.requires((s,)),
            decreases end,
        {
            let start = self.line_start_before(end);
            let bytes = slice_subrange(self.out.as_slice(), start, end);
            proof {
                lemma_lines_step(lines, k, self.out@, end as int);
                assert(bytes@ == self.out@.take(end as int).skip(start as int));
            }
            match core::str::from_utf8(bytes) {
                Ok(line) => {
                    assert(lines[k] == encode_utf8(line@));
                    assert(is_tried(f, lines, line));
                    let given = f(line);
                    proof {
                        assert(line_gives(f, lines[k], given));
                    }
                    if given.is_some() {
                        return Ok(given);
                    }
                },
                Err(_) => {
                    return Err(ChunkLineError::Utf8);
                },
            }
            if start == 0 {
                return Ok(None);
            }
            proof {
                k = k + 1;
            }
            end = start - 1;
        }
    }

    /// The start of the last line among the first `end` bytes.
    fn line_start_before(&self, end: usize) -> (r: usize)
        requires
            end <= self@.len(),
        ensures
            r == last_line_start(self@.take(end as int)),
            r <= end,
    {
        let mut i: usize = end;
        while i > 0
            invariant
                i <= end <= self.out.len(),
                last_line_start(self.out@.take(end as int)) == last_line_start(
                    self.out@.take(i as int),
                ),
            decreases i,
        {
            assert(self.out@.take(i as int).drop_last() == self.out@.take(i - 1));
            if self.out[i - 1] == 10 || self.out[i - 1] == 13 {
                return i;
            }
            i -= 1;
        }
        0
    }

    /// Returns the last line that is not empty, if any.
    pub fn last_line<'a>(&'a self) -> (r: &'a str)
        ensures
            r@ == first_filled(lines_newest_first(self@)),
    {
        let filled = |l: &'a str| -> (b: bool)
            ensures
                b == (l@.len() > 0),
            { !l.is_empty() };
        let r = self.rfind_line(filled);
        let ghost lines = lines_newest_first(self@);
        proof {
            assert forall|line: Seq<u8>| rejected(filled, line) implies line.len() == 0
                && valid_utf8(line) by {
                let s = choose|s: &'a str|
                    encode_utf8(s@) == line && #[trigger] filled.ensures((s,), false);
                assert(s@.len() == 0);
                assert(encode_utf8(s@) == Seq::<u8>::empty());
                assert(encode_utf8(s@).len() == 0);
                encode_utf8_valid_utf8(s@);
            }
        }
        match r {
            Some(line) => {
                proof {
                    let k = choose|k: int|
                        0 <= k < lines.len() && (#[trigger] lines[k]) == encode_utf8(line@)
                            && all_rejected(filled, lines, k);
                    lemma_first_filled_at(lines, k);
                    assert(lines.skip(k)[0] == lines[k]);
                    encode_utf8_valid_utf8(line@);
                    encode_utf8_decode_utf8(line@);
                    encode_utf8_first_scalar(line@);
                }
                line
            },
            None => {
                proof {
                    if all_rejected(filled, lines, lines.len() as int) {
                        lemma_first_filled_at(lines, lines.len() as int);
                    } else {
                        let k = choose|k: int|
                            0 <= k < lines.len() && !valid_utf8(#[trigger] lines[k])
                                && all_rejected(filled, lines, k);
                        lemma_first_filled_at(lines, k);
                        assert(lines.skip(k)[0] == lines[k]);
                    }
                    reveal_strlit("");
                    assert(""@ == Seq::<char>::empty());
                }
                ""
            },
        }
    }
}

// ---- exit states ----

/// What `String::from_utf8_lossy` makes of bytes.
pub uninterp spec fn lossy_text(bytes: Seq<u8>) -> Seq<char>;

/// `String::from_utf8_lossy` gives the string that valid UTF-8 encodes. For
/// other bytes the result is only named: each invalid sequence becomes one or
/// more replacement characters.
#[verifier::external_body]
fn utf8_lossy(bytes: &[u8]) -> (r: String)
    ensures
        r@ == lossy_text(bytes@),
        valid_utf8(bytes@) ==> encode_utf8(r@) == bytes@,
{
    String::from_utf8_lossy(bytes).into_owned()
}

/// What is shown of `bytes` is the text that they encode, where they are valid
/// UTF-8.
pub open spec fn shows_valid_text(bytes: Seq<u8>) -> bool {
    valid_utf8(bytes) ==> encode_utf8(lossy_text(bytes)) == bytes
}

/// An exit code in messages, `None` for a process that a signal ended.
pub open spec fn code_text(status: ExitStatus) -> Seq<char> {
    match status.code {
        Some(code) => text::dec_int(code as int),
        None => "None"@,
    }
}

/// The message for a process that did not succeed.
pub open spec fn exit_text(name: Seq<char>, status: ExitStatus) -> Seq<char> {
    name + " exit code "@ + code_text(status)
}

/// A message with the command and what it wrote to stderr.
pub open spec fn cmd_err_text(err: Seq<char>, cmd: Seq<char>, stderr: Seq<u8>) -> Seq<char> {
    err + "\n----cmd-----\n"@ + cmd + "\n---stderr---\n"@ + text::trimmed(lossy_text(stderr))
        + "\n------------"@
}

/// A message for a finished process, with what it wrote to stderr.
pub open spec fn output_err_text(
    name: Seq<char>,
    status: ExitStatus,
    stderr: Seq<u8>,
) -> Seq<char> {
    exit_text(name, status) + "\n---stderr---\n"@ + text::trimmed(lossy_text(stderr))
        + "\n------------"@
}

fn code_string(status: ExitStatus) -> (r: String)
    ensures
        r@ == code_text(status),
{
    match status.code {
        Some(code) => text::dec_int_string(code as i64),
        None => "None".to_owned(),
    }
}

/// An error unless the process succeeded, with its stderr.
pub fn ensure_success(name: &str, status: ExitStatus, stderr: &[u8]) -> (r: Result<(), String>)
    ensures
        r is Ok <==> status.code == Some(0i32),
        r matches Err(e) ==> e@ == output_err_text(name@, status, stderr@) && shows_valid_text(
            stderr@,
        ),
{
    if status.success() {
        return Ok(());
    }
    let code = code_string(status);
    let mut out = text::cat3(name, " exit code ", code.as_str());
    out.append("\n---stderr---\n");
    let shown = utf8_lossy(stderr);
    let shown = text::trim(shown.as_str());
    out.append(shown.as_str());
    out.append("\n------------");
    Err(out)
}

/// Convert an exit status, or the error of waiting for it, into a simple
/// result.
pub fn exit_ok(name: &str, done: Result<ExitStatus, String>) -> (r: Result<(), String>)
    ensures
        match done {
            Ok(status) => {
                &&& r is Ok <==> status.code == Some(0i32)
                &&& r matches Err(e) ==> e@ == exit_text(name@, status)
            },
            Err(err) => r matches Err(e) && e@ == err@,
        },
{
    let status = match done {
        Ok(status) => status,
        Err(err) => return Err(err),
    };
    if status.success() {
        return Ok(());
    }
    let code = code_string(status);
    Err(text::cat3(name, " exit code ", code.as_str()))
}

/// Convert an exit status into a simple result, adding stderr to error
/// messages.
pub fn exit_ok_stderr(
    name: &str,
    done: Result<ExitStatus, String>,
    cmd_str: &str,
    stderr: &Chunks,
) -> (r: Result<(), String>)
    ensures
        match done {
            Ok(status) => {
                &&& r is Ok <==> status.code == Some(0i32)
                &&& r matches Err(e) ==> e@ == cmd_err_text(
                    exit_text(name@, status),
                    cmd_str@,
                    stderr@,
                ) && shows_valid_text(stderr@)
            },
            Err(err) => r matches Err(e) && e@ == cmd_err_text(err@, cmd_str@, stderr@)
                && shows_valid_text(stderr@),
        },
{
    match exit_ok(name, done) {
        Ok(()) => Ok(()),
        Err(err) => Err(cmd_err(err.as_str(), cmd_str, stderr)),
    }
}

/// `err` with the command and what it wrote to stderr.
pub fn cmd_err(err: &str, cmd_str: &str, stderr: &Chunks) -> (r: String)
    ensures
        r@ == cmd_err_text(err@, cmd_str@, stderr@),
        shows_valid_text(stderr@),
{
    let mut out = text::cat4(err, "\n----cmd-----\n", cmd_str, "\n---stderr---\n");
    let shown = utf8_lossy(stderr.out.as_slice());
    let shown = text::trim(shown.as_str());
    out.append(shown.as_str());
    out.append("\n------------");
    out
}

/// Behind a line end stands the newest line, and before it are all others: the
/// lines are those of what comes before, with the new one in front.
pub proof fn law_lines_end_at_line_ends(before: Seq<u8>, end: u8, line: Seq<u8>)
    requires
        ends_line(end),
        forall|i: int| 0 <= i < line.len() ==> !ends_line(#[trigger] line[i]),
    ensures
        lines_newest_first(line) == seq![line],
        lines_newest_first(before.push(end) + line) == seq![line] + lines_newest_first(before),
{
    lemma_line_start_at(Seq::empty(), line);
    assert(Seq::<u8>::empty() + line =~= line);
    let all = before.push(end) + line;
    lemma_line_start_at(before.push(end), line);
    let start = last_line_start(all);
    assert(start == before.len() + 1);
    assert(all.skip(start) =~= line);
    assert(all.take(start - 1) =~= before);
}

proof fn lemma_line_start_at(front: Seq<u8>, line: Seq<u8>)
    requires
        front.len() > 0 ==> ends_line(front.last()),
        forall|i: int| 0 <= i < line.len() ==> !ends_line(#[trigger] line[i]),
    ensures
        last_line_start(front + line) == front.len(),
    decreases line.len(),
{
    let all = front + line;
    if line.len() > 0 {
        assert(all.last() == line[line.len() - 1]);
        assert(all.drop_last() =~= front + line.drop_last());
        assert forall|i: int| 0 <= i < line.drop_last().len() implies !ends_line(
            #[trigger] line.drop_last()[i],
        ) by {
            assert(line.drop_last()[i] == line[i]);
        }
        lemma_line_start_at(front, line.drop_last());
    } else {
        assert(all =~= front);
    }
}

/// Line feeds and carriage returns end lines, and nothing else does.
pub proof fn law_what_ends_a_line(b: u8)
    ensures
        ends_line(b) <==> b == 10 || b == 13,
{
}

/// After a chunk that ends in a carriage return the line it ends in is written
/// anew: all up to the last line feed is kept, and nothing behind it. After any
/// other chunk all is kept.
pub proof fn law_carriage_return_rewrites_the_line(chunk: Seq<u8>, b: Seq<u8>)
    ensures
        ({
            let left = kept(b, overwrite_after(chunk, b));
            let rewrites = chunk.len() > 0 && chunk.last() == 13;
            &&& !rewrites ==> left == b
            &&& rewrites ==> left == b.take(left.len() as int) && left.len() <= b.len()
            &&& rewrites && left.len() > 0 ==> left.last() == 10
            &&& rewrites ==> forall|i: int| left.len() <= i < b.len() ==> #[trigger] b[i] != 10
        }),
{
    lemma_after_last_lf(b);
    lemma_after_last_lf_is(b);
}

proof fn lemma_after_last_lf_is(b: Seq<u8>)
    ensures
        after_last_lf(b) > 0 ==> b[after_last_lf(b) - 1] == 10,
        forall|i: int| after_last_lf(b) <= i < b.len() ==> #[trigger] b[i] != 10,
    decreases b.len(),
{
    if b.len() > 0 && b.last() != 10 {
        lemma_after_last_lf(b.drop_last());
        lemma_after_last_lf_is(b.drop_last());
        assert forall|i: int| after_last_lf(b) <= i < b.len() implies #[trigger] b[i] != 10 by {
            if i < b.len() - 1 {
                assert(b.drop_last()[i] == b[i]);
            }
        }
    }
}

/// The newest line that says something is the first one that is not empty;
/// nothing is read past a line that is no text.
pub proof fn law_first_line_that_is_not_empty(line: Seq<u8>, rest: Seq<Seq<u8>>)
    ensures
        valid_utf8(line) && line.len() > 0 ==> first_filled(seq![line] + rest) == decode_utf8(line),
        valid_utf8(line) && line.len() == 0 ==> first_filled(seq![line] + rest) == first_filled(
            rest,
        ),
        !valid_utf8(line) ==> first_filled(seq![line] + rest).len() == 0,
        first_filled(Seq::empty()).len() == 0,
{
    let all = seq![line] + rest;
    assert(all[0] == line);
    assert(all.skip(1) =~= rest);
}

} // verus!
