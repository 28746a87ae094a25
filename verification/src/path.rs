//! Paths as text, with `/` between their components.
use crate::text;
use vstd::prelude::*;

verus! {

broadcast use vstd::string::group_string_axioms;

/// `p` without separators at its end and without `.` components at its end.
pub open spec fn trim_tail(p: Seq<char>) -> Seq<char>
    decreases p.len(),
{
    if p.len() > 0 && p.last() == '/' {
        trim_tail(p.drop_last())
    } else if p.len() > 1 && p.last() == '.' && p[p.len() - 2] == '/' {
        trim_tail(p.drop_last())
    } else {
        p
    }
}

/// The index after the last separator of `p`, or 0.
pub open spec fn after_last_sep(p: Seq<char>) -> int
    decreases p.len(),
{
    if p.len() == 0 {
        0
    } else if p.last() == '/' {
        p.len() as int
    } else {
        after_last_sep(p.drop_last())
    }
}

/// The index in `p` at which its last component starts.
pub open spec fn name_start(p: Seq<char>) -> int {
    after_last_sep(trim_tail(p))
}

/// The last component of `p`, which is empty for a root and for no path.
pub open spec fn last_component(p: Seq<char>) -> Seq<char> {
    trim_tail(p).skip(name_start(p))
}

/// The name of the file that `p` leads to: its last component, unless that
/// leads to a directory by itself.
pub open spec fn file_name(p: Seq<char>) -> Option<Seq<char>> {
    let name = last_component(p);
    if name.len() == 0 || name == "."@ || name == ".."@ {
        None
    } else {
        Some(name)
    }
}

/// The length of a file name without its extension. A dot at the start does
/// not begin an extension.
pub open spec fn stem_len(name: Seq<char>) -> int {
    match text::last_index_of(name, '.') {
        Some(i) => if i > 0 {
            i
        } else {
            name.len() as int
        },
        None => name.len() as int,
    }
}

/// What stands behind the last dot of a file name.
pub open spec fn name_extension(name: Seq<char>) -> Option<Seq<char>> {
    match text::last_index_of(name, '.') {
        Some(i) => if i > 0 {
            Some(name.skip(i + 1))
        } else {
            None
        },
        None => None,
    }
}

/// The extension of the file that `p` leads to.
pub open spec fn extension(p: Seq<char>) -> Option<Seq<char>> {
    match file_name(p) {
        Some(name) => name_extension(name),
        None => None,
    }
}

/// `p` with another extension. A path without a file name stays as it is.
pub open spec fn with_extension(p: Seq<char>, ext: Seq<char>) -> Seq<char> {
    match file_name(p) {
        Some(name) => {
            let stem = p.take(name_start(p) + stem_len(name));
            if ext.len() == 0 {
                stem
            } else {
                stem + "."@ + ext
            }
        },
        None => p,
    }
}

/// The path that leads to where `p` leads, without its last component.
pub open spec fn parent(p: Seq<char>) -> Option<Seq<char>> {
    if last_component(p).len() == 0 {
        None
    } else {
        let before = p.take(name_start(p));
        if trim_tail(before).len() == 0 && before.len() > 0 {
            Some("/"@)
        } else {
            Some(trim_tail(before))
        }
    }
}

/// A component of a path, or none: nothing between two separators is none, and
/// `.` is one only at the start of a path.
pub open spec fn component(part: Seq<char>, first: bool) -> Seq<Seq<char>> {
    if part.len() == 0 || (part == "."@ && !first) {
        Seq::empty()
    } else {
        seq![part]
    }
}

/// The components of a path, or of the rest of one.
pub open spec fn components(p: Seq<char>, first: bool) -> Seq<Seq<char>>
    decreases p.len(),
{
    match text::index_of(p, '/') {
        None => component(p, first),
        Some(i) => if 0 <= i < p.len() {
            component(p.take(i), first) + components(p.skip(i + 1), false)
        } else {
            Seq::empty()
        },
    }
}

/// Whether a path starts at the root.
pub open spec fn rooted(p: Seq<char>) -> bool {
    p.len() > 0 && p[0] == '/'
}

/// Whether `p` leads to `base` or to something in it. Every path starts with the
/// empty one.
pub open spec fn is_under(p: Seq<char>, base: Seq<char>) -> bool {
    let all = components(p, true);
    let front = components(base, true);
    &&& rooted(p) == rooted(base) || (!rooted(base) && front.len() == 0)
    &&& front.len() <= all.len()
    &&& all.take(front.len() as int) == front
}

/// The path to `name` from `dir`.
pub open spec fn joined(dir: Seq<char>, name: Seq<char>) -> Seq<char> {
    if name.len() > 0 && name[0] == '/' {
        name
    } else if dir.len() == 0 || dir.last() == '/' {
        dir + name
    } else {
        dir + "/"@ + name
    }
}

pub proof fn lemma_trim_tail(p: Seq<char>)
    ensures
        trim_tail(p).len() <= p.len(),
        trim_tail(p) == p.take(trim_tail(p).len() as int),
    decreases p.len(),
{
    if p.len() > 0 && (p.last() == '/' || (p.len() > 1 && p.last() == '.' && p[p.len() - 2]
        == '/')) {
        lemma_trim_tail(p.drop_last());
        assert(p.drop_last().take(trim_tail(p).len() as int) =~= p.take(
            trim_tail(p).len() as int,
        ));
    } else {
        assert(p.take(p.len() as int) =~= p);
    }
}

pub proof fn lemma_after_last_sep(p: Seq<char>)
    ensures
        0 <= after_last_sep(p) <= p.len(),
        forall|i: int| after_last_sep(p) <= i < p.len() ==> p[i] != '/',
        after_last_sep(p) > 0 ==> p[after_last_sep(p) - 1] == '/',
    decreases p.len(),
{
    if p.len() > 0 && p.last() != '/' {
        lemma_after_last_sep(p.drop_last());
        assert forall|i: int| after_last_sep(p) <= i < p.len() implies p[i] != '/' by {
            if i < p.len() - 1 {
                assert(p.drop_last()[i] == p[i]);
            }
        }
    }
}

/// The length of `p` without what [`trim_tail`] leaves out.
fn tail_len(v: &[char]) -> (r: usize)
    ensures
        r == trim_tail(v@).len(),
        r <= v@.len(),
        trim_tail(v@) == v@.take(r as int),
{
    let mut n: usize = v.len();
    proof {
        assert(v@.take(n as int) =~= v@);
        lemma_trim_tail(v@);
    }
    while n > 0 && (v[n - 1] == '/' || (n > 1 && v[n - 1] == '.' && v[n - 2] == '/'))
        invariant
            n <= v.len(),
            trim_tail(v@) == trim_tail(v@.take(n as int)),
        decreases n,
    {
        proof {
            let t = v@.take(n as int);
            assert(t.last() == v@[n - 1]);
            if n > 1 {
                assert(t[t.len() - 2] == v@[n - 2]);
            }
            assert(t.drop_last() =~= v@.take(n - 1));
        }
        n -= 1;
    }
    proof {
        let t = v@.take(n as int);
        if n > 0 {
            assert(t.last() == v@[n - 1]);
            if n > 1 {
                assert(t[t.len() - 2] == v@[n - 2]);
            }
        }
        assert(trim_tail(t) == t);
    }
    n
}

/// The start of the last component among the first `n` characters.
fn component_start(v: &[char], n: usize) -> (r: usize)
    requires
        n <= v@.len(),
    ensures
        r == after_last_sep(v@.take(n as int)),
        r <= n,
{
    let mut i: usize = n;
    while i > 0
        invariant
            i <= n <= v@.len(),
            after_last_sep(v@.take(n as int)) == after_last_sep(v@.take(i as int)),
        decreases i,
    {
        assert(v@.take(i as int).drop_last() =~= v@.take(i - 1));
        if v[i - 1] == '/' {
            return i;
        }
        i -= 1;
    }
    0
}

/// Where the last component of a path starts and ends.
fn component_bounds(v: &[char]) -> (r: (usize, usize))
    ensures
        r.0 == name_start(v@),
        r.0 <= r.1 <= v@.len(),
        r.1 == trim_tail(v@).len(),
        last_component(v@) == v@.subrange(r.0 as int, r.1 as int),
{
    let end = tail_len(v);
    let start = component_start(v, end);
    assert(v@.take(end as int).skip(start as int) =~= v@.subrange(start as int, end as int));
    (start, end)
}

/// The name of the file that `p` leads to.
pub fn path_file_name(p: &str) -> (r: Option<String>)
    ensures
        match r {
            Some(name) => file_name(p@) == Some(name@),
            None => file_name(p@) is None,
        },
{
    let v = text::chars_of(p);
    let (start, end) = component_bounds(v.as_slice());
    let name = text::slice_string(v.as_slice(), start, end);
    if start == end || text::same(name.as_str(), ".") || text::same(name.as_str(), "..") {
        None
    } else {
        Some(name)
    }
}

/// The extension of the file that `p` leads to.
pub fn path_extension(p: &str) -> (r: Option<String>)
    ensures
        match r {
            Some(ext) => extension(p@) == Some(ext@),
            None => extension(p@) is None,
        },
{
    let name = match path_file_name(p) {
        Some(name) => name,
        None => return None,
    };
    let v = text::chars_of(name.as_str());
    match text::rfind_char(v.as_slice(), '.') {
        Some(i) => {
            assert(i < v.len());
            if i > 0 {
                let ext = text::slice_string(v.as_slice(), i + 1, v.len());
                assert(ext@ == name@.skip(i + 1));
                Some(ext)
            } else {
                None
            }
        },
        None => None,
    }
}

/// `p` with another extension.
pub fn path_with_extension(p: &str, ext: &str) -> (r: String)
    ensures
        r@ == with_extension(p@, ext@),
{
    let name = match path_file_name(p) {
        Some(name) => name,
        None => return p.to_owned(),
    };
    let n = text::chars_of(name.as_str());
    let stem: usize = match text::rfind_char(n.as_slice(), '.') {
        Some(i) => if i > 0 {
            i
        } else {
            n.len()
        },
        None => n.len(),
    };
    let v = text::chars_of(p);
    let (start, end) = component_bounds(v.as_slice());
    assert(n.len() == end - start);
    let mut out = text::slice_string(v.as_slice(), 0, start + stem);
    assert(out@ == p@.take(start + stem));
    if !ext.is_empty() {
        out.append(".");
        out.append(ext);
    }
    out
}

/// The path without its last component, unless it has none.
pub fn path_parent(p: &str) -> (r: Option<String>)
    ensures
        match r {
            Some(dir) => parent(p@) == Some(dir@),
            None => parent(p@) is None,
        },
{
    let v = text::chars_of(p);
    let (start, end) = component_bounds(v.as_slice());
    if start == end {
        return None;
    }
    let before = vstd::slice::slice_subrange(v.as_slice(), 0, start);
    assert(before@ == p@.take(start as int));
    let n = tail_len(before);
    if n == 0 && start > 0 {
        return Some("/".to_owned());
    }
    let dir = text::slice_string(before, 0, n);
    assert(dir@ == trim_tail(before@));
    Some(dir)
}

fn components_of(p: &str) -> (r: Vec<String>)
    ensures
        text::views(r@) == components(p@, true),
{
    let v = text::chars_of(p);
    let mut out: Vec<String> = Vec::new();
    let mut at: usize = 0;
    let mut first = true;
    assert(p@.skip(0) =~= p@);
    assert(text::views(out@) + components(p@, true) =~= components(p@, true));
    loop
        invariant_except_break
            at <= v.len(),
            text::views(out@) + components(p@.skip(at as int), first) == components(p@, true),
        invariant
            v@ == p@,
        ensures
            text::views(out@) == components(p@, true),
        decreases v.len() - at,
    {
        let rest = vstd::slice::slice_subrange(v.as_slice(), at, v.len());
        assert(rest@ =~= p@.skip(at as int));
        let found = text::find_char(rest, '/');
        proof {
            text::lemma_index_from(rest@, '/', 0);
        }
        let end: usize = match found {
            Some(i) => i,
            None => rest.len(),
        };
        let part = text::slice_string(rest, 0, end);
        assert(part@ =~= rest@.take(end as int));
        let ghost before = text::views(out@);
        if !(end == 0 || (text::same(part.as_str(), ".") && !first)) {
            out.push(part);
        }
        assert(text::views(out@) =~= before + component(rest@.take(end as int), first));
        if found.is_none() {
            assert(rest@.take(end as int) =~= rest@);
            break ;
        }
        proof {
            assert(rest@.skip(end + 1) =~= p@.skip(at + end + 1));
            assert(text::views(out@) + components(p@.skip(at + end + 1), false) =~= before + (
            component(rest@.take(end as int), first) + components(rest@.skip(end + 1), false)));
        }
        at = at + end + 1;
        first = false;
    }
    out
}

/// Whether a path starts at the root.
pub fn starts_at_root(p: &str) -> (r: bool)
    ensures
        r == rooted(p@),
{
    let v = text::chars_of(p);
    v.len() > 0 && v[0] == '/'
}

/// The number of components of a path.
pub fn component_count(p: &str) -> (r: usize)
    ensures
        r == components(p@, true).len(),
{
    components_of(p).len()
}

/// Whether `p` leads to `base` or to something in it.
pub fn path_is_under(p: &str, base: &str) -> (r: bool)
    ensures
        r == is_under(p@, base@),
{
    let all = components_of(p);
    let front = components_of(base);
    let base_rooted = starts_at_root(base);
    if starts_at_root(p) != base_rooted && (base_rooted || front.len() > 0) {
        return false;
    }
    if front.len() > all.len() {
        return false;
    }
    let ghost a = components(p@, true);
    let ghost f = components(base@, true);
    let mut i: usize = 0;
    while i < front.len()
        invariant
            i <= front.len() <= all.len(),
            a == components(p@, true) && a == text::views(all@),
            f == components(base@, true) && f == text::views(front@),
            forall|j: int| 0 <= j < i ==> a[j] == #[trigger] f[j],
        decreases front.len() - i,
    {
        assert(all@[i as int]@ == a[i as int] && front@[i as int]@ == f[i as int]);
        if !text::same(all[i].as_str(), front[i].as_str()) {
            assert(a.take(f.len() as int)[i as int] != f[i as int]);
            return false;
        }
        i += 1;
    }
    assert(a.take(f.len() as int) =~= f);
    true
}

/// The path to `name` from `dir`.
pub fn path_join(dir: &str, name: &str) -> (r: String)
    ensures
        r@ == joined(dir@, name@),
{
    let n = text::chars_of(name);
    if n.len() > 0 && n[0] == '/' {
        return name.to_owned();
    }
    let d = text::chars_of(dir);
    if d.len() == 0 || d[d.len() - 1] == '/' {
        text::cat2(dir, name)
    } else {
        text::cat3(dir, "/", name)
    }
}

/// The name of a file is found again behind the directory that it was joined
/// to.
pub proof fn law_join_then_name(dir: Seq<char>, name: Seq<char>)
    requires
        name.len() > 0,
        forall|i: int| 0 <= i < name.len() ==> name[i] != '/',
        name != "."@,
        name != ".."@,
    ensures
        file_name(joined(dir, name)) == Some(name),
{
    let p = joined(dir, name);
    reveal_strlit("/");
    reveal_strlit(".");
    let k = p.len() - name.len();
    assert(p.skip(k) =~= name);
    assert(p.last() == name.last());
    if k > 0 {
        assert(p[k - 1] == '/');
    }
    // the name is not cut short
    assert(trim_tail(p) == p) by {
        if p.last() == '.' && p.len() > 1 && p[p.len() - 2] == '/' {
            if name.len() > 1 {
                assert(name[name.len() - 2] == p[p.len() - 2]);
            } else {
                assert(name =~= "."@);
            }
        }
    }
    lemma_after_last_sep(p);
    let a = after_last_sep(p);
    if a > k {
        assert(p[a - 1] == name[a - 1 - k]);
    }
    if a < k {
        assert(p[k - 1] == '/');
    }
    assert(a == k);
}

/// A path with another extension leads to a file beside the one before, whose
/// name is the old one without its extension, a point, and the new one.
pub proof fn lemma_name_with_extension(p: Seq<char>, ext: Seq<char>)
    requires
        file_name(p) is Some,
        ext.len() > 0,
        !ext.contains('/'),
        ext.last() != '.',
    ensures
        ({
            let name = file_name(p)->0;
            let r = with_extension(p, ext);
            &&& 0 < stem_len(name) <= name.len()
            &&& r.len() == name_start(p) + stem_len(name) + 1 + ext.len()
            &&& name_start(r) == name_start(p)
            &&& r.take(name_start(p)) == p.take(name_start(p))
            &&& file_name(r) == Some(name.take(stem_len(name)).push('.') + ext)
            &&& last_component(r) == file_name(r)->0
            &&& last_component(p) == name
        }),
{
    let name = file_name(p)->0;
    let n = name_start(p);
    lemma_trim_tail(p);
    lemma_after_last_sep(trim_tail(p));
    text::lemma_last_index_of(name, '.');
    let k = stem_len(name);
    reveal_strlit(".");
    reveal_strlit("..");
    let r = with_extension(p, ext);
    assert("."@ =~= seq!['.']);
    assert(r =~= p.take(n + k).push('.') + ext);
    assert(r.last() == ext.last());
    assert(ext.contains(ext.last()));
    assert(trim_tail(r) == r);
    lemma_after_last_sep(r);
    let m = after_last_sep(r);
    assert forall|i: int| n <= i < r.len() implies r[i] != '/' by {
        if i < n + k {
            assert(r[i] == trim_tail(p)[i]);
        } else if i > n + k {
            assert(r[i] == ext[i - n - k - 1]);
            assert(ext.contains(ext[i - n - k - 1]));
        }
    }
    if n > 0 {
        assert(r[n - 1] == trim_tail(p)[n - 1]);
    }
    assert(m == n);
    assert(r.take(n) =~= p.take(n));
    assert(r.skip(n) =~= name.take(k).push('.') + ext);
    assert(r.skip(n).len() >= 3);
    assert("."@.len() == 1 && ".."@.len() == 2);
}

/// An extension that replaces another one is read back, in the same directory,
/// and replacing it again leaves no trace of it.
pub proof fn law_replaced_extension_is_read_back(p: Seq<char>, ext: Seq<char>, other: Seq<char>)
    requires
        file_name(p) is Some,
        ext.len() > 0,
        !ext.contains('/'),
        !ext.contains('.'),
    ensures
        extension(with_extension(p, ext)) == Some(ext),
        parent(with_extension(p, ext)) == parent(p),
        with_extension(with_extension(p, ext), other) == with_extension(p, other),
{
    assert(ext.contains(ext.last()));
    lemma_name_with_extension(p, ext);
    let name = file_name(p)->0;
    let k = stem_len(name);
    let r = with_extension(p, ext);
    let named = name.take(k).push('.') + ext;
    text::lemma_last_index_of(named, '.');
    assert(named[k] == '.');
    let i = text::last_index_of(named, '.')->0;
    if i > k {
        assert(named[i] == ext[i - k - 1]);
        assert(ext.contains(ext[i - k - 1]));
    }
    assert(i == k);
    assert(named.skip(k + 1) =~= ext);
    let n = name_start(p);
    lemma_trim_tail(p);
    lemma_after_last_sep(trim_tail(p));
    lemma_trim_tail(r);
    assert(r.take(n + k) =~= p.take(n + k)) by {
        assert forall|j: int| 0 <= j < n + k implies r[j] == p[j] by {
            reveal_strlit(".");
            assert("."@ =~= seq!['.']);
            assert(r =~= p.take(n + k).push('.') + ext);
        }
    }
}

/// Every path lies under itself, and what lies under one that lies under another
/// lies under that.
pub proof fn law_under_is_an_order(a: Seq<char>, b: Seq<char>, c: Seq<char>)
    ensures
        is_under(a, a),
        is_under(a, b) && is_under(b, c) ==> is_under(a, c),
{
    let x = components(a, true);
    let y = components(b, true);
    let z = components(c, true);
    assert(x.take(x.len() as int) =~= x);
    if is_under(a, b) && is_under(b, c) {
        assert(x.take(z.len() as int) =~= x.take(y.len() as int).take(z.len() as int));
    }
}

proof fn lemma_components_of_joint(d: Seq<char>, n: Seq<char>, first: bool)
    ensures
        components(d.push('/') + n, first) == components(d, first) + components(n, false),
    decreases d.len(),
{
    let all = d.push('/') + n;
    text::lemma_index_from(all, '/', 0);
    text::lemma_index_from(d, '/', 0);
    assert(all[d.len() as int] == '/');
    let k = text::index_of(all, '/')->0;
    match text::index_of(d, '/') {
        Some(i) => {
            assert(all[i] == d[i]);
            assert(forall|j: int| 0 <= j < i ==> all[j] == d[j]);
            assert(k == i);
            assert(all.take(i) =~= d.take(i));
            let rest = d.skip(i + 1);
            assert(all.skip(i + 1) =~= rest.push('/') + n);
            lemma_components_of_joint(rest, n, false);
            assert(component(d.take(i), first) + (components(rest, false) + components(n, false))
                =~= component(d.take(i), first) + components(rest, false) + components(n, false));
        },
        None => {
            assert(forall|j: int| 0 <= j < d.len() ==> all[j] == d[j]);
            assert(k == d.len());
            assert(all.take(k) =~= d);
            assert(all.skip(k + 1) =~= n);
        },
    }
}

/// What is joined to a directory lies under it.
pub proof fn law_joined_lies_under(dir: Seq<char>, name: Seq<char>)
    requires
        dir.len() > 0,
        !rooted(name),
    ensures
        is_under(joined(dir, name), dir),
{
    reveal_strlit("/");
    let p = joined(dir, name);
    let none = Seq::<char>::empty();
    assert(p[0] == dir[0]);
    text::lemma_index_from(none, '/', 0);
    assert(components(none, false) =~= Seq::empty());
    let front = components(dir, true);
    if dir.last() == '/' {
        let d = dir.drop_last();
        assert(dir =~= d.push('/') + none);
        assert(p =~= d.push('/') + name);
        lemma_components_of_joint(d, none, true);
        lemma_components_of_joint(d, name, true);
        assert(front =~= components(d, true));
    } else {
        assert(p =~= dir.push('/') + name);
        lemma_components_of_joint(dir, name, true);
    }
    assert(components(p, true) == front + components(name, false));
    assert(components(p, true).take(front.len() as int) =~= front);
}

/// A file is one component deeper than the directory that it was joined to.
pub proof fn law_joined_is_one_deeper(dir: Seq<char>, name: Seq<char>)
    requires
        dir.len() > 0,
        name.len() > 0,
        !name.contains('/'),
        name != "."@,
    ensures
        components(joined(dir, name), true) == components(dir, true).push(name),
        rooted(joined(dir, name)) == rooted(dir),
{
    reveal_strlit("/");
    let p = joined(dir, name);
    let none = Seq::<char>::empty();
    assert(name.contains(name[0]));
    assert(p[0] == dir[0]);
    text::lemma_index_from(none, '/', 0);
    text::lemma_index_from(name, '/', 0);
    assert(components(none, false) =~= Seq::empty());
    assert(text::index_of(name, '/') is None) by {
        if let Some(i) = text::index_of(name, '/') {
            assert(name.contains(name[i]));
        }
    }
    assert(components(name, false) =~= seq![name]);
    let front = components(dir, true);
    if dir.last() == '/' {
        let d = dir.drop_last();
        assert(dir =~= d.push('/') + none);
        assert(p =~= d.push('/') + name);
        lemma_components_of_joint(d, none, true);
        lemma_components_of_joint(d, name, true);
        assert(front =~= components(d, true));
    } else {
        assert(p =~= dir.push('/') + name);
        lemma_components_of_joint(dir, name, true);
    }
    assert(front + seq![name] =~= front.push(name));
}

/// The name of a file holds no separator and is neither of the two names of
/// directories.
pub proof fn lemma_file_name_is_plain(p: Seq<char>)
    requires
        file_name(p) is Some,
    ensures
        ({
            let name = file_name(p)->0;
            &&& name.len() > 0
            &&& !name.contains('/')
            &&& name != "."@
            &&& name != ".."@
            &&& parent(p) is Some
        }),
{
    lemma_trim_tail(p);
    lemma_after_last_sep(trim_tail(p));
    let name = file_name(p)->0;
    if name.contains('/') {
        let i = choose|i: int| 0 <= i < name.len() && name[i] == '/';
        assert(trim_tail(p)[name_start(p) + i] == name[i]);
    }
}

/// The extension of a name is what stands behind its last point; a point at the
/// front makes none, and neither does a name without one.
pub proof fn law_extension_behind_the_last_point(stem: Seq<char>, ext: Seq<char>)
    requires
        !ext.contains('.'),
    ensures
        stem.len() > 0 ==> name_extension(stem.push('.') + ext) == Some(ext),
        name_extension(seq!['.'] + ext) is None,
        name_extension(ext) is None,
{
    let a = stem.push('.') + ext;
    text::lemma_last_index_of(a, '.');
    assert(a[stem.len() as int] == '.');
    let i = text::last_index_of(a, '.')->0;
    if i > stem.len() {
        assert(a[i] == ext[i - stem.len() - 1]);
        assert(ext.contains(ext[i - stem.len() - 1]));
    }
    assert(a.skip(stem.len() + 1int) =~= ext);
    let b = seq!['.'] + ext;
    text::lemma_last_index_of(b, '.');
    if let Some(k) = text::last_index_of(b, '.') {
        if k > 0 {
            assert(b[k] == ext[k - 1]);
            assert(ext.contains(ext[k - 1]));
        }
    }
    text::lemma_last_index_of(ext, '.');
    if let Some(k) = text::last_index_of(ext, '.') {
        assert(ext.contains(ext[k]));
    }
}

/// A path is rooted exactly where it starts with a separator.
pub proof fn law_rooted_at_a_separator(p: Seq<char>)
    ensures
        rooted(seq!['/'] + p),
        rooted(p) ==> p.len() > 0 && p[0] == '/',
        p.len() > 0 && p[0] != '/' ==> !rooted(p),
        !rooted(Seq::empty()),
{
}

} // verus!
