//! Text primitives, stated over the characters of a string.
use vstd::prelude::*;
use vstd::utf8::*;

verus! {

broadcast use vstd::string::group_string_axioms;

/// `String::push` appends one character to the end of the string.
pub assume_specification[ String::push ](s: &mut String, c: char)
    ensures
        final(s)@ == old(s)@.push(c),
;

/// The error of `std::str::from_utf8`, carried without looking inside.
#[verifier::external_type_specification]
#[verifier::external_body]
pub struct ExUtf8Error(core::str::Utf8Error);

/// `std::str::from_utf8` gives the string that the bytes encode, and an error
/// exactly when they are not valid UTF-8.
pub assume_specification[ core::str::from_utf8 ](v: &[u8]) -> (r: Result<
    &str,
    core::str::Utf8Error,
>)
    ensures
        r is Ok <==> valid_utf8(v@),
        r is Ok ==> encode_utf8(r->Ok_0@) == v@,
;

/// Two strings with the same bytes have the same characters.
pub proof fn lemma_same_bytes_same_chars(a: Seq<char>, b: Seq<char>)
    ensures
        encode_utf8(a) == encode_utf8(b) ==> a == b,
{
    encode_utf8_decode_utf8(a);
    encode_utf8_decode_utf8(b);
}

/// Whether two strings hold the same characters.
pub fn same(a: &str, b: &str) -> (r: bool)
    ensures
        r == (a@ == b@),
{
    let x = a.as_bytes();
    let y = b.as_bytes();
    proof {
        lemma_same_bytes_same_chars(a@, b@);
    }
    if x.len() != y.len() {
        return false;
    }
    let mut i: usize = 0;
    while i < x.len()
        invariant
            i <= x.len(),
            x.len() == y.len(),
            x@ == encode_utf8(a@),
            y@ == encode_utf8(b@),
            forall|j: int| 0 <= j < i ==> x@[j] == y@[j],
        decreases x.len() - i,
    {
        if x[i] != y[i] {
            return false;
        }
        i += 1;
    }
    assert(x@ == y@);
    true
}

/// The characters of `s`, in order.
pub fn chars_of(s: &str) -> (r: Vec<char>)
    ensures
        r@ == s@,
{
    let mut out: Vec<char> = Vec::new();
    for c in it: s.chars()
        invariant
            out@ == it.seq().take(it.index()),
            it.seq() == s@,
    {
        out.push(c);
    }
    out
}

/// The string with the characters of `v` from `from` up to `to`.
pub fn slice_string(v: &[char], from: usize, to: usize) -> (r: String)
    requires
        from <= to <= v.len(),
    ensures
        r@ == v@.subrange(from as int, to as int),
{
    let mut out = String::new();
    let mut i: usize = from;
    while i < to
        invariant
            from <= i <= to <= v.len(),
            out@ == v@.subrange(from as int, i as int),
        decreases to - i,
    {
        out.push(v[i]);
        i += 1;
    }
    out
}

/// A copy of a string slice.
pub fn owned(s: &str) -> (r: String)
    ensures
        r@ == s@,
{
    s.to_owned()
}

/// A copy of an optional string.
pub fn owned_opt(s: &Option<String>) -> (r: Option<String>)
    ensures
        r == *s,
{
    match s {
        Some(s) => Some(s.clone()),
        None => None,
    }
}

/// `a` followed by `b`.
pub fn cat2(a: &str, b: &str) -> (r: String)
    ensures
        r@ == a@ + b@,
{
    let mut out = a.to_owned();
    out.append(b);
    out
}

/// `a`, `b` and `c`, one behind the other.
pub fn cat3(a: &str, b: &str, c: &str) -> (r: String)
    ensures
        r@ == a@ + b@ + c@,
{
    let mut out = a.to_owned();
    out.append(b);
    out.append(c);
    out
}

/// `a`, `b`, `c` and `d`, one behind the other.
pub fn cat4(a: &str, b: &str, c: &str, d: &str) -> (r: String)
    ensures
        r@ == a@ + b@ + c@ + d@,
{
    let mut out = a.to_owned();
    out.append(b);
    out.append(c);
    out.append(d);
    out
}

// ---- white space ----

/// The characters with Unicode's `White_Space` property.
pub open spec fn is_space(c: char) -> bool {
    ||| 0x09 <= c as int <= 0x0d
    ||| c as int == 0x20
    ||| c as int == 0x85
    ||| c as int == 0xa0
    ||| c as int == 0x1680
    ||| 0x2000 <= c as int <= 0x200a
    ||| c as int == 0x2028
    ||| c as int == 0x2029
    ||| c as int == 0x202f
    ||| c as int == 0x205f
    ||| c as int == 0x3000
}

/// Whether a character is white space.
pub fn char_is_space(c: char) -> (r: bool)
    ensures
        r == is_space(c),
{
    let n: u32 = c as u32;
    (0x09 <= n && n <= 0x0d) || n == 0x20 || n == 0x85 || n == 0xa0 || n == 0x1680 || (0x2000 <= n
        && n <= 0x200a) || n == 0x2028 || n == 0x2029 || n == 0x202f || n == 0x205f || n == 0x3000
}

/// `s` without the white space at its start.
pub open spec fn trim_start(s: Seq<char>) -> Seq<char>
    decreases s.len(),
{
    if s.len() > 0 && is_space(s[0]) {
        trim_start(s.skip(1))
    } else {
        s
    }
}

/// `s` without the white space at its end.
pub open spec fn trim_end(s: Seq<char>) -> Seq<char>
    decreases s.len(),
{
    if s.len() > 0 && is_space(s.last()) {
        trim_end(s.drop_last())
    } else {
        s
    }
}

/// `s` without the white space at both ends.
pub open spec fn trimmed(s: Seq<char>) -> Seq<char> {
    trim_end(trim_start(s))
}

/// `s` without the white space at both ends.
pub fn trim(s: &str) -> (r: String)
    ensures
        r@ == trimmed(s@),
{
    let v = chars_of(s);
    let mut from: usize = 0;
    proof {
        assert(s@.skip(0) == s@);
    }
    while from < v.len() && char_is_space(v[from])
        invariant
            from <= v.len(),
            v@ == s@,
            trim_start(s@) == trim_start(s@.skip(from as int)),
        decreases v.len() - from,
    {
        assert(s@.skip(from as int).skip(1) == s@.skip(from as int + 1));
        from += 1;
    }
    let mut to: usize = v.len();
    let ghost t = s@.skip(from as int);
    proof {
        assert(t == trim_start(s@));
        assert(t.take(to - from) == t);
    }
    while to > from && char_is_space(v[to - 1])
        invariant
            from <= to <= v.len(),
            v@ == s@,
            t == s@.skip(from as int),
            trim_end(t) == trim_end(t.take(to - from)),
        decreases to,
    {
        assert(t.take(to - from).last() == v@[to - 1]);
        assert(t.take(to - from).drop_last() == t.take(to - 1 - from));
        to -= 1;
    }
    proof {
        if to > from {
            assert(t.take(to - from).last() == v@[to - 1]);
        }
        assert(s@.subrange(from as int, to as int) == t.take(to - from));
    }
    slice_string(v.as_slice(), from, to)
}

// ---- searching ----

/// The first index at or after `i` at which `c` stands in `s`.
pub open spec fn index_from(s: Seq<char>, c: char, i: int) -> Option<int>
    decreases s.len() - i,
{
    if i < 0 || i >= s.len() {
        None
    } else if s[i] == c {
        Some(i)
    } else {
        index_from(s, c, i + 1)
    }
}

/// The first index at which `c` stands in `s`.
pub open spec fn index_of(s: Seq<char>, c: char) -> Option<int> {
    index_from(s, c, 0)
}

/// `index_of` gives the first index of a character, if there is one.
pub proof fn lemma_index_from(s: Seq<char>, c: char, i: int)
    requires
        0 <= i <= s.len(),
    ensures
        index_from(s, c, i) matches Some(k) ==> i <= k < s.len() && s[k] == c && (forall|j: int|
            i <= j < k ==> s[j] != c),
        index_from(s, c, i) is None ==> forall|j: int| i <= j < s.len() ==> s[j] != c,
    decreases s.len() - i,
{
    if i < s.len() && s[i] != c {
        lemma_index_from(s, c, i + 1);
    }
}

/// The first index of `c` in `v`.
pub fn find_char(v: &[char], c: char) -> (r: Option<usize>)
    ensures
        r is Some <==> index_of(v@, c) is Some,
        r is Some ==> r->0 < v@.len() && index_of(v@, c) == Some(r->0 as int),
        r is Some ==> v@[r->0 as int] == c,
{
    let mut i: usize = 0;
    while i < v.len()
        invariant
            i <= v.len(),
            index_of(v@, c) == index_from(v@, c, i as int),
        decreases v.len() - i,
    {
        if v[i] == c {
            return Some(i);
        }
        i += 1;
    }
    None
}

/// The last index at which `c` stands in `s`.
pub open spec fn last_index_of(s: Seq<char>, c: char) -> Option<int>
    decreases s.len(),
{
    if s.len() == 0 {
        None
    } else if s.last() == c {
        Some(s.len() - 1)
    } else {
        last_index_of(s.drop_last(), c)
    }
}

/// `last_index_of` gives the last index of a character, if there is one.
pub proof fn lemma_last_index_of(s: Seq<char>, c: char)
    ensures
        last_index_of(s, c) matches Some(k) ==> 0 <= k < s.len() && s[k] == c && (forall|j: int|
            k < j < s.len() ==> s[j] != c),
        last_index_of(s, c) is None ==> forall|j: int| 0 <= j < s.len() ==> s[j] != c,
    decreases s.len(),
{
    if s.len() > 0 && s.last() != c {
        lemma_last_index_of(s.drop_last(), c);
        assert forall|j: int| 0 <= j < s.len() - 1 implies s[j] == s.drop_last()[j] by {}
    }
}

/// The last index of `c` in `v`.
pub fn rfind_char(v: &[char], c: char) -> (r: Option<usize>)
    ensures
        r is Some <==> last_index_of(v@, c) is Some,
        r is Some ==> r->0 < v@.len() && last_index_of(v@, c) == Some(r->0 as int),
        r is Some ==> v@[r->0 as int] == c,
{
    let mut i: usize = v.len();
    proof {
        assert(v@.take(i as int) == v@);
    }
    while i > 0
        invariant
            i <= v.len(),
            last_index_of(v@, c) == last_index_of(v@.take(i as int), c),
        decreases i,
    {
        assert(v@.take(i as int).drop_last() == v@.take(i - 1));
        if v[i - 1] == c {
            return Some(i - 1);
        }
        i -= 1;
    }
    None
}

/// Whether `pat` stands in `s` at index `i`.
pub open spec fn occurs_at(s: Seq<char>, pat: Seq<char>, i: int) -> bool {
    0 <= i && i + pat.len() <= s.len() && s.subrange(i, i + pat.len()) == pat
}

/// The first index at or after `i` at which `pat` stands in `s`.
pub open spec fn find_from(s: Seq<char>, pat: Seq<char>, i: int) -> Option<int>
    decreases s.len() + 1 - i,
{
    if i < 0 || i + pat.len() > s.len() {
        None
    } else if occurs_at(s, pat, i) {
        Some(i)
    } else {
        find_from(s, pat, i + 1)
    }
}

/// The first index at which `pat` stands in `s`.
pub open spec fn find(s: Seq<char>, pat: Seq<char>) -> Option<int> {
    find_from(s, pat, 0)
}

/// Whether `pat` stands anywhere in `s`.
pub open spec fn contains(s: Seq<char>, pat: Seq<char>) -> bool {
    find(s, pat) is Some
}

/// `find_from` gives the first place of a pattern, if there is one.
pub proof fn lemma_find_from(s: Seq<char>, pat: Seq<char>, i: int)
    requires
        0 <= i <= s.len(),
    ensures
        find_from(s, pat, i) matches Some(k) ==> i <= k && occurs_at(s, pat, k) && (forall|j: int|
            i <= j < k ==> !occurs_at(s, pat, j)),
        find_from(s, pat, i) is None ==> forall|j: int| i <= j ==> !occurs_at(s, pat, j),
    decreases s.len() + 1 - i,
{
    if i + pat.len() <= s.len() && !occurs_at(s, pat, i) {
        if i < s.len() {
            lemma_find_from(s, pat, i + 1);
        }
    }
}

/// Whether `pat` stands in `v` at index `at`.
pub fn matches_at(v: &[char], pat: &[char], at: usize) -> (r: bool)
    requires
        at <= v.len(),
    ensures
        r == occurs_at(v@, pat@, at as int),
{
    if pat.len() > v.len() - at {
        return false;
    }
    let mut i: usize = 0;
    while i < pat.len()
        invariant
            i <= pat.len(),
            at + pat.len() <= v.len(),
            forall|j: int| 0 <= j < i ==> v@[at + j] == pat@[j],
        decreases pat.len() - i,
    {
        if v[at + i] != pat[i] {
            assert(v@.subrange(at as int, at + pat@.len())[i as int] == v@[at + i]);
            return false;
        }
        i += 1;
    }
    assert(v@.subrange(at as int, at + pat@.len()) == pat@);
    true
}

/// The first index of `pat` in `v`.
pub fn find_chars(v: &[char], pat: &[char]) -> (r: Option<usize>)
    ensures
        r is Some <==> find(v@, pat@) is Some,
        r is Some ==> find(v@, pat@) == Some(r->0 as int) && r->0 + pat@.len() <= v@.len(),
{
    let mut i: usize = 0;
    while i <= v.len() && pat.len() <= v.len() - i
        invariant
            i <= v.len() + 1,
            find(v@, pat@) == find_from(v@, pat@, i as int),
            i <= v.len() || find(v@, pat@) is None,
        decreases v.len() + 1 - i,
    {
        if matches_at(v, pat, i) {
            return Some(i);
        }
        if i == v.len() {
            assert(v@.subrange(i as int, i as int) == pat@);
            return None;
        }
        i += 1;
    }
    None
}

/// `s` with each occurrence of `from`, from the left and apart from one
/// another, turned into `to`.
pub open spec fn replaced(s: Seq<char>, from: Seq<char>, to: Seq<char>) -> Seq<char>
    decreases s.len(),
{
    match find(s, from) {
        Some(i) => if from.len() > 0 && 0 <= i && i + from.len() <= s.len() {
            s.take(i) + to + replaced(s.skip(i + from.len()), from, to)
        } else {
            s
        },
        None => s,
    }
}

/// `s` with each occurrence of `from` turned into `to`.
pub fn replace_all(s: &str, from: &str, to: &str) -> (r: String)
    requires
        from@.len() > 0,
    ensures
        r@ == replaced(s@, from@, to@),
{
    let v = chars_of(s);
    let pat = chars_of(from);
    let mut out = String::new();
    let mut at: usize = 0;
    assert(s@.skip(0) =~= s@);
    loop
        invariant
            at <= v.len(),
            v@ == s@,
            pat@ == from@,
            pat@.len() > 0,
            out@ + replaced(s@.skip(at as int), from@, to@) == replaced(s@, from@, to@),
        ensures
            at <= v.len(),
            out@ + s@.skip(at as int) == replaced(s@, from@, to@),
        decreases v.len() - at,
    {
        let rest = vstd::slice::slice_subrange(v.as_slice(), at, v.len());
        assert(rest@ =~= s@.skip(at as int));
        match find_chars(rest, pat.as_slice()) {
            Some(i) => {
                proof {
                    lemma_find_from(rest@, from@, 0);
                }
                let ghost before = out@;
                let part = slice_string(rest, 0, i);
                out.append(part.as_str());
                out.append(to);
                proof {
                    assert(part@ =~= rest@.take(i as int));
                    assert(rest@.skip(i + pat@.len()) =~= s@.skip(at + i + pat@.len()));
                    assert(out@ + replaced(s@.skip(at + i + pat@.len()), from@, to@) =~= before + (
                    rest@.take(i as int) + to@ + replaced(
                        rest@.skip(i + pat@.len()),
                        from@,
                        to@,
                    )));
                }
                at = at + i + pat.len();
            },
            None => {
                break ;
            },
        }
    }
    let tail = slice_string(v.as_slice(), at, v.len());
    assert(tail@ =~= s@.skip(at as int));
    out.append(tail.as_str());
    out
}

/// Whether `s` begins with `prefix`.
pub open spec fn has_prefix(s: Seq<char>, prefix: Seq<char>) -> bool {
    occurs_at(s, prefix, 0)
}

/// Whether `s` ends with `suffix`.
pub open spec fn has_suffix(s: Seq<char>, suffix: Seq<char>) -> bool {
    occurs_at(s, suffix, s.len() - suffix.len())
}

/// Whether `s` begins with `prefix`.
pub fn starts_with(s: &str, prefix: &str) -> (r: bool)
    ensures
        r == has_prefix(s@, prefix@),
{
    let v = chars_of(s);
    let p = chars_of(prefix);
    matches_at(v.as_slice(), p.as_slice(), 0)
}

/// Whether `s` ends with `suffix`.
pub fn ends_with(s: &str, suffix: &str) -> (r: bool)
    ensures
        r == has_suffix(s@, suffix@),
{
    let v = chars_of(s);
    let p = chars_of(suffix);
    if p.len() > v.len() {
        return false;
    }
    matches_at(v.as_slice(), p.as_slice(), v.len() - p.len())
}

/// Whether `pat` stands anywhere in `s`.
pub fn contains_str(s: &str, pat: &str) -> (r: bool)
    ensures
        r == contains(s@, pat@),
{
    let v = chars_of(s);
    let p = chars_of(pat);
    find_chars(v.as_slice(), p.as_slice()).is_some()
}

/// What stands before and after the first `c` of `s`.
pub open spec fn split_at_first(s: Seq<char>, c: char) -> Option<(Seq<char>, Seq<char>)> {
    match index_of(s, c) {
        Some(i) => Some((s.take(i), s.skip(i + 1))),
        None => None,
    }
}

/// What stands before and after the first `c` of `s`.
pub fn split_once(s: &str, c: char) -> (r: Option<(String, String)>)
    ensures
        r is Some <==> split_at_first(s@, c) is Some,
        r matches Some((a, b)) ==> split_at_first(s@, c) == Some((a@, b@)),
{
    let v = chars_of(s);
    match find_char(v.as_slice(), c) {
        Some(i) => {
            assert(i < v.len());
            let a = slice_string(v.as_slice(), 0, i);
            let b = slice_string(v.as_slice(), i + 1, v.len());
            assert(a@ == s@.take(i as int));
            assert(b@ == s@.skip(i + 1));
            Some((a, b))
        },
        None => None,
    }
}

// ---- trimming one character ----

/// `s` without the run of `c` at its start.
pub open spec fn strip_start(s: Seq<char>, c: char) -> Seq<char>
    decreases s.len(),
{
    if s.len() > 0 && s[0] == c {
        strip_start(s.skip(1), c)
    } else {
        s
    }
}

/// `s` without the run of `c` at its end.
pub open spec fn strip_end(s: Seq<char>, c: char) -> Seq<char>
    decreases s.len(),
{
    if s.len() > 0 && s.last() == c {
        strip_end(s.drop_last(), c)
    } else {
        s
    }
}

/// `s` without the run of `c` at its start.
pub fn trim_start_char(s: &str, c: char) -> (r: String)
    ensures
        r@ == strip_start(s@, c),
{
    let v = chars_of(s);
    let mut from: usize = 0;
    proof {
        assert(s@.skip(0) == s@);
    }
    while from < v.len() && v[from] == c
        invariant
            from <= v.len(),
            v@ == s@,
            strip_start(s@, c) == strip_start(s@.skip(from as int), c),
        decreases v.len() - from,
    {
        assert(s@.skip(from as int).skip(1) == s@.skip(from as int + 1));
        from += 1;
    }
    assert(s@.skip(from as int) == s@.subrange(from as int, s@.len() as int));
    slice_string(v.as_slice(), from, v.len())
}

/// `s` without the run of `c` at its end.
pub fn trim_end_char(s: &str, c: char) -> (r: String)
    ensures
        r@ == strip_end(s@, c),
{
    let v = chars_of(s);
    let mut to: usize = v.len();
    proof {
        assert(s@.take(to as int) == s@);
    }
    while to > 0 && v[to - 1] == c
        invariant
            to <= v.len(),
            v@ == s@,
            strip_end(s@, c) == strip_end(s@.take(to as int), c),
        decreases to,
    {
        assert(s@.take(to as int).drop_last() == s@.take(to - 1));
        to -= 1;
    }
    assert(s@.take(to as int) == s@.subrange(0, to as int));
    slice_string(v.as_slice(), 0, to)
}

// ---- numbers ----

/// The character of one decimal digit.
pub open spec fn digit_char(d: nat) -> char {
    (48 + d) as char
}

/// The decimal digits of `n`, without leading zeros.
pub open spec fn dec(n: nat) -> Seq<char>
    decreases n,
{
    if n < 10 {
        seq![digit_char(n)]
    } else {
        dec(n / 10).push(digit_char(n % 10))
    }
}

/// The decimal digits of a signed number, with `-` before a negative one.
pub open spec fn dec_int(n: int) -> Seq<char> {
    if n < 0 {
        seq!['-'] + dec((-n) as nat)
    } else {
        dec(n as nat)
    }
}

/// Appends the decimal digits of `n`.
pub fn push_dec(out: &mut String, n: u128)
    ensures
        final(out)@ == old(out)@ + dec(n as nat),
    decreases n,
{
    let d: u8 = (n % 10) as u8;
    if n >= 10 {
        push_dec(out, n / 10);
    }
    let c = (48u8 + d) as char;
    out.push(c);
    proof {
        assert(dec(n as nat).last() == c);
        assert(out@ == old(out)@ + dec(n as nat));
    }
}

/// The decimal digits of `n`.
pub fn dec_string(n: u64) -> (r: String)
    ensures
        r@ == dec(n as nat),
{
    let mut out = String::new();
    push_dec(&mut out, n as u128);
    assert(out@ == dec(n as nat));
    out
}

/// The decimal digits of a signed number.
pub fn dec_int_string(n: i64) -> (r: String)
    ensures
        r@ == dec_int(n as int),
{
    let mut out = String::new();
    if n < 0 {
        out.push('-');
        let m: u128 = (-(n as i128)) as u128;
        push_dec(&mut out, m);
        assert(out@ == dec_int(n as int));
    } else {
        push_dec(&mut out, n as u128);
        assert(out@ == dec_int(n as int));
    }
    out
}

/// Whether `c` is one of the ten decimal digits.
pub open spec fn is_digit(c: char) -> bool {
    '0' <= c <= '9'
}

/// Whether every character is a decimal digit.
pub open spec fn all_digits(s: Seq<char>) -> bool {
    forall|i: int| 0 <= i < s.len() ==> is_digit(#[trigger] s[i])
}

/// The number that decimal digits spell.
pub open spec fn dec_value(s: Seq<char>) -> nat
    decreases s.len(),
{
    if s.len() == 0 {
        0
    } else {
        dec_value(s.drop_last()) * 10 + (s.last() as nat - 48) as nat
    }
}

/// The number that `s` spells: digits, which one `+` may precede, of a value
/// that 64 bits hold.
pub open spec fn parsed_u64(s: Seq<char>) -> Option<u64> {
    let d = if s.len() > 0 && s[0] == '+' {
        s.skip(1)
    } else {
        s
    };
    if d.len() > 0 && all_digits(d) && dec_value(d) <= u64::MAX {
        Some(dec_value(d) as u64)
    } else {
        None
    }
}

proof fn lemma_dec_value_prefix(s: Seq<char>, i: int)
    requires
        0 <= i <= s.len(),
    ensures
        dec_value(s.take(i)) <= dec_value(s),
    decreases s.len() - i,
{
    if i < s.len() {
        lemma_dec_value_prefix(s, i + 1);
        assert(s.take(i + 1).drop_last() == s.take(i));
    } else {
        assert(s.take(i) == s);
    }
}

/// The number that the characters of `v` spell, if they do.
pub fn parse_u64_chars(v: &[char]) -> (r: Option<u64>)
    ensures
        r == parsed_u64(v@),
{
    let start: usize = if v.len() > 0 && v[0] == '+' {
        1
    } else {
        0
    };
    let ghost d = v@.skip(start as int);
    proof {
        assert(v@.skip(0) == v@);
    }
    if start == v.len() {
        return None;
    }
    let mut acc: u64 = 0;
    let mut i: usize = start;
    while i < v.len()
        invariant
            start <= i <= v.len(),
            start < v.len(),
            d == v@.skip(start as int),
            parsed_u64(v@) == (if d.len() > 0 && all_digits(d) && dec_value(d) <= u64::MAX {
                Some(dec_value(d) as u64)
            } else {
                None
            }),
            acc == dec_value(d.take(i - start)),
            all_digits(d.take(i - start)),
        decreases v.len() - i,
    {
        let c = v[i];
        assert(d[i - start] == c);
        if !('0' <= c && c <= '9') {
            return None;
        }
        let x: u64 = c as u64 - 48;
        proof {
            assert(d.take(i - start + 1).drop_last() == d.take(i - start));
            lemma_dec_value_prefix(d, i - start + 1);
        }
        let wide: u128 = acc as u128 * 10 + x as u128;
        if wide > u64::MAX as u128 {
            return None;
        }
        acc = wide as u64;
        i += 1;
    }
    assert(d.take(i - start) == d);
    Some(acc)
}

/// The number that `s` spells, if it does.
pub fn parse_u64(s: &str) -> (r: Option<u64>)
    ensures
        r == parsed_u64(s@),
{
    let v = chars_of(s);
    parse_u64_chars(v.as_slice())
}

/// The digits of a number spell it.
pub proof fn lemma_dec_spells(n: nat)
    ensures
        dec(n).len() > 0,
        all_digits(dec(n)),
        dec_value(dec(n)) == n,
    decreases n,
{
    if n >= 10 {
        lemma_dec_spells(n / 10);
        assert(dec(n).drop_last() == dec(n / 10));
        assert(dec(n).last() as nat == 48 + n % 10);
    } else {
        assert(dec(n).drop_last() == Seq::<char>::empty());
        assert(dec_value(Seq::<char>::empty()) == 0);
        assert(dec(n).last() as nat == 48 + n);
    }
}

/// What is rendered in decimal is read back as the same number.
pub proof fn law_dec_round_trip(n: u64)
    ensures
        parsed_u64(dec(n as nat)) == Some(n),
{
    lemma_dec_spells(n as nat);
}

// ---- case ----

/// A letter A to Z in lower case, any other character as it is.
pub open spec fn lower_char(c: char) -> char {
    if 'A' <= c <= 'Z' {
        (c as int + 32) as char
    } else {
        c
    }
}

/// `s` with the letters A to Z in lower case.
pub open spec fn ascii_lower(s: Seq<char>) -> Seq<char> {
    s.map_values(|c: char| lower_char(c))
}

/// `s` with the letters A to Z in lower case.
pub fn to_ascii_lower(s: &str) -> (r: String)
    ensures
        r@ == ascii_lower(s@),
{
    let v = chars_of(s);
    let mut out = String::new();
    let mut i: usize = 0;
    while i < v.len()
        invariant
            i <= v.len(),
            v@ == s@,
            out@ == ascii_lower(s@).take(i as int),
        decreases v.len() - i,
    {
        let c = v[i];
        let l = if 'A' <= c && c <= 'Z' {
            (c as u8 + 32) as char
        } else {
            c
        };
        assert(l == lower_char(c));
        out.push(l);
        i += 1;
    }
    assert(ascii_lower(s@).take(i as int) == ascii_lower(s@));
    out
}

// ---- floats as text ----

/// `s` without a sign at its start.
pub open spec fn unsigned(s: Seq<char>) -> Seq<char> {
    if s.len() > 0 && (s[0] == '+' || s[0] == '-') {
        s.skip(1)
    } else {
        s
    }
}

/// Digits, with or without one point among them or at an end.
pub open spec fn spells_mantissa(s: Seq<char>) -> bool {
    match split_at_first(s, '.') {
        Some((a, b)) => all_digits(a) && all_digits(b) && a.len() + b.len() > 0,
        None => s.len() > 0 && all_digits(s),
    }
}

/// A mantissa, which an exponent may follow.
pub open spec fn spells_decimal(s: Seq<char>) -> bool {
    match split_at_first(s, 'e') {
        Some((m, x)) => spells_mantissa(m) && unsigned(x).len() > 0 && all_digits(unsigned(x)),
        None => spells_mantissa(s),
    }
}

/// Whether `s` spells a float as the standard library reads one, in letters of
/// either case.
pub open spec fn spells_float(s: Seq<char>) -> bool {
    let n = unsigned(ascii_lower(s));
    n == "inf"@ || n == "infinity"@ || n == "nan"@ || spells_decimal(n)
}

/// Whether every character is a decimal digit.
pub fn all_digit_chars(v: &[char]) -> (r: bool)
    ensures
        r == all_digits(v@),
{
    let mut i: usize = 0;
    while i < v.len()
        invariant
            i <= v.len(),
            forall|j: int| 0 <= j < i ==> is_digit(#[trigger] v@[j]),
        decreases v.len() - i,
    {
        if !('0' <= v[i] && v[i] <= '9') {
            assert(!is_digit(v@[i as int]));
            return false;
        }
        i += 1;
    }
    true
}

fn drop_sign(s: &str) -> (r: String)
    ensures
        r@ == unsigned(s@),
{
    let v = chars_of(s);
    if v.len() > 0 && (v[0] == '+' || v[0] == '-') {
        let r = slice_string(v.as_slice(), 1, v.len());
        assert(s@.subrange(1, s@.len() as int) == s@.skip(1));
        r
    } else {
        owned(s)
    }
}

fn is_mantissa(s: &str) -> (r: bool)
    ensures
        r == spells_mantissa(s@),
{
    match split_once(s, '.') {
        Some((a, b)) => {
            let a = chars_of(a.as_str());
            let b = chars_of(b.as_str());
            all_digit_chars(a.as_slice()) && all_digit_chars(b.as_slice()) && (a.len() > 0
                || b.len() > 0)
        },
        None => {
            let v = chars_of(s);
            v.len() > 0 && all_digit_chars(v.as_slice())
        },
    }
}

fn is_decimal(s: &str) -> (r: bool)
    ensures
        r == spells_decimal(s@),
{
    match split_once(s, 'e') {
        Some((m, x)) => {
            let x = chars_of(drop_sign(x.as_str()).as_str());
            is_mantissa(m.as_str()) && x.len() > 0 && all_digit_chars(x.as_slice())
        },
        None => is_mantissa(s),
    }
}

/// Whether `s` spells a float.
pub fn is_float(s: &str) -> (r: bool)
    ensures
        r == spells_float(s@),
{
    let n = drop_sign(to_ascii_lower(s).as_str());
    let n = n.as_str();
    same(n, "inf") || same(n, "infinity") || same(n, "nan") || is_decimal(n)
}

// ---- lists ----

/// The views of a list of strings.
pub open spec fn views(v: Seq<String>) -> Seq<Seq<char>> {
    v.map_values(|s: String| s@)
}

/// The parts with `sep` between each two.
pub open spec fn joined(parts: Seq<Seq<char>>, sep: Seq<char>) -> Seq<char>
    decreases parts.len(),
{
    if parts.len() == 0 {
        Seq::empty()
    } else if parts.len() == 1 {
        parts[0]
    } else {
        joined(parts.drop_last(), sep) + sep + parts.last()
    }
}

/// Joining two lists one behind the other puts `sep` between what each of them
/// gives; one part alone is joined to itself.
pub proof fn law_joined_in_order(a: Seq<Seq<char>>, b: Seq<Seq<char>>, sep: Seq<char>)
    ensures
        a.len() == 1 ==> joined(a, sep) == a[0],
        a.len() == 0 ==> joined(a, sep).len() == 0,
        a.len() > 0 && b.len() > 0 ==> joined(a + b, sep) == joined(a, sep) + sep + joined(b, sep),
    decreases b.len(),
{
    if a.len() > 0 && b.len() > 0 {
        assert((a + b).drop_last() =~= a + b.drop_last());
        if b.len() == 1 {
            assert(a + b.drop_last() =~= a);
        } else {
            law_joined_in_order(a, b.drop_last(), sep);
            assert(joined(a, sep) + sep + joined(b.drop_last(), sep) + sep + b.last() =~= joined(
                a,
                sep,
            ) + sep + joined(b, sep));
        }
    }
}

/// The parts with `sep` between each two.
pub fn join(parts: &[String], sep: &str) -> (r: String)
    ensures
        r@ == joined(views(parts@), sep@),
{
    let mut out = String::new();
    let mut i: usize = 0;
    while i < parts.len()
        invariant
            i <= parts.len(),
            out@ == joined(views(parts@).take(i as int), sep@),
        decreases parts.len() - i,
    {
        if i > 0 {
            out.append(sep);
        }
        out.append(parts[i].as_str());
        proof {
            assert(views(parts@).take(i + 1).drop_last() == views(parts@).take(i as int));
            if i == 0 {
                assert(views(parts@).take(1).len() == 1);
                assert(out@ == views(parts@)[0]);
            }
        }
        i += 1;
    }
    assert(views(parts@).take(i as int) == views(parts@));
    out
}

/// Whether one of `list` holds the characters of `s`.
pub fn list_contains(list: &[String], s: &str) -> (r: bool)
    ensures
        r == views(list@).contains(s@),
{
    let mut i: usize = 0;
    while i < list.len()
        invariant
            i <= list.len(),
            forall|j: int| 0 <= j < i ==> views(list@)[j] != s@,
        decreases list.len() - i,
    {
        if same(list[i].as_str(), s) {
            assert(views(list@)[i as int] == s@);
            return true;
        }
        i += 1;
    }
    false
}

/// A copy of a list of strings.
pub fn clone_list(list: &[String]) -> (r: Vec<String>)
    ensures
        r@ == list@,
{
    let mut out: Vec<String> = Vec::new();
    let mut i: usize = 0;
    while i < list.len()
        invariant
            i <= list.len(),
            out@ == list@.take(i as int),
        decreases list.len() - i,
    {
        out.push(list[i].clone());
        i += 1;
    }
    assert(list@.take(i as int) == list@);
    out
}

/// What is cut off at the ends is white space, and what is left neither starts
/// nor ends with it.
pub proof fn law_trimmed_to_the_text(s: Seq<char>)
    ensures
        ({
            let t = trimmed(s);
            exists|i: int|
                #![trigger s.subrange(i, i + t.len())]
                {
                    &&& 0 <= i
                    &&& i + t.len() <= s.len()
                    &&& s.subrange(i, i + t.len()) == t
                    &&& forall|j: int| 0 <= j < i ==> is_space(#[trigger] s[j])
                    &&& forall|j: int| i + t.len() <= j < s.len() ==> is_space(#[trigger] s[j])
                }
        }),
        trimmed(s).len() > 0 ==> !is_space(trimmed(s)[0]) && !is_space(trimmed(s).last()),
{
    lemma_trim_start(s);
    let a = trim_start(s);
    lemma_trim_end(a);
    let t = trimmed(s);
    let i = s.len() - a.len();
    assert(s.subrange(i, i + t.len()) =~= t);
    assert forall|j: int| i + t.len() <= j < s.len() implies is_space(#[trigger] s[j]) by {
        assert(a[j - i] == s[j]);
    }
}

proof fn lemma_trim_start(s: Seq<char>)
    ensures
        ({
            let a = trim_start(s);
            &&& a.len() <= s.len()
            &&& a == s.skip(s.len() - a.len())
            &&& forall|j: int| 0 <= j < s.len() - a.len() ==> is_space(#[trigger] s[j])
            &&& a.len() > 0 ==> !is_space(a[0])
        }),
    decreases s.len(),
{
    if s.len() > 0 && is_space(s[0]) {
        lemma_trim_start(s.skip(1));
        let a = trim_start(s);
        assert(s.skip(1).skip(s.len() - 1 - a.len()) =~= s.skip(s.len() - a.len()));
        assert forall|j: int| 0 <= j < s.len() - a.len() implies is_space(#[trigger] s[j]) by {
            if j > 0 {
                assert(s.skip(1)[j - 1] == s[j]);
            }
        }
    } else {
        assert(s.skip(0) =~= s);
    }
}

proof fn lemma_trim_end(s: Seq<char>)
    ensures
        ({
            let a = trim_end(s);
            &&& a.len() <= s.len()
            &&& a == s.take(a.len() as int)
            &&& forall|j: int| a.len() <= j < s.len() ==> is_space(#[trigger] s[j])
            &&& a.len() > 0 ==> !is_space(a.last())
        }),
    decreases s.len(),
{
    if s.len() > 0 && is_space(s.last()) {
        lemma_trim_end(s.drop_last());
        let a = trim_end(s);
        assert(s.drop_last().take(a.len() as int) =~= s.take(a.len() as int));
        assert forall|j: int| a.len() <= j < s.len() implies is_space(#[trigger] s[j]) by {
            if j < s.len() - 1 {
                assert(s.drop_last()[j] == s[j]);
            }
        }
    } else {
        assert(s.take(s.len() as int) =~= s);
    }
}

/// What is stripped off an end is nothing but the one character, and nothing of
/// it is left there.
pub proof fn law_stripped_of_one_character(s: Seq<char>, c: char)
    ensures
        ({
            let a = strip_start(s, c);
            &&& a.len() <= s.len()
            &&& a == s.skip(s.len() - a.len())
            &&& forall|j: int| 0 <= j < s.len() - a.len() ==> #[trigger] s[j] == c
            &&& a.len() > 0 ==> a[0] != c
        }),
        ({
            let b = strip_end(s, c);
            &&& b.len() <= s.len()
            &&& b == s.take(b.len() as int)
            &&& forall|j: int| b.len() <= j < s.len() ==> #[trigger] s[j] == c
            &&& b.len() > 0 ==> b.last() != c
        }),
    decreases s.len(),
{
    let a = strip_start(s, c);
    let b = strip_end(s, c);
    if s.len() > 0 && s[0] == c {
        law_stripped_of_one_character(s.skip(1), c);
        assert(s.skip(1).skip(s.len() - 1 - a.len()) =~= s.skip(s.len() - a.len()));
        assert forall|j: int| 0 <= j < s.len() - a.len() implies #[trigger] s[j] == c by {
            if j > 0 {
                assert(s.skip(1)[j - 1] == s[j]);
            }
        }
    } else {
        assert(s.skip(0) =~= s);
    }
    if s.len() > 0 && s.last() == c {
        law_stripped_of_one_character(s.drop_last(), c);
        assert(s.drop_last().take(b.len() as int) =~= s.take(b.len() as int));
        assert forall|j: int| b.len() <= j < s.len() implies #[trigger] s[j] == c by {
            if j < s.len() - 1 {
                assert(s.drop_last()[j] == s[j]);
            }
        }
    } else {
        assert(s.take(s.len() as int) =~= s);
    }
}

/// A text is split at the first of the characters: nothing before it holds one,
/// and putting it back gives the text again.
pub proof fn law_split_at_the_first(s: Seq<char>, c: char)
    ensures
        split_at_first(s, c) is Some <==> s.contains(c),
        match split_at_first(s, c) {
            Some((a, b)) => s == a.push(c) + b && !a.contains(c),
            None => true,
        },
{
    lemma_index_from(s, c, 0);
    if let Some((a, b)) = split_at_first(s, c) {
        let i = index_of(s, c)->0;
        assert(s[i] == c);
        assert(s =~= a.push(c) + b);
    }
}

/// Replacing a text by itself, or one that does not occur, changes nothing, and
/// the first occurrence is replaced with all before it kept.
pub proof fn law_replaced_in_place(s: Seq<char>, from: Seq<char>, to: Seq<char>)
    requires
        from.len() > 0,
    ensures
        replaced(s, from, from) == s,
        !contains(s, from) ==> replaced(s, from, to) == s,
        find(s, from) matches Some(i) ==> replaced(s, from, to) == s.take(i) + to + replaced(
            s.skip(i + from.len()),
            from,
            to,
        ),
    decreases s.len(),
{
    lemma_find_from(s, from, 0);
    if let Some(i) = find(s, from) {
        let rest = s.skip(i + from.len());
        law_replaced_in_place(rest, from, to);
        assert(s.subrange(i, i + from.len()) == from);
        assert(s.take(i) + from + rest =~= s);
    }
}

/// A number below zero is written as its opposite behind a minus sign.
pub proof fn law_negative_numbers(n: nat)
    requires
        n > 0,
    ensures
        dec_int(-(n as int)) == "-"@ + dec_int(n as int),
        dec_int(n as int) == dec(n),
{
    reveal_strlit("-");
    assert(-(-(n as int)) == n);
    assert(dec_int(-(n as int)) =~= "-"@ + dec_int(n as int));
}

/// What is put together around a character is split there again, where nothing
/// before it holds one.
pub proof fn law_split_takes_apart(a: Seq<char>, c: char, b: Seq<char>)
    requires
        !a.contains(c),
    ensures
        split_at_first(a.push(c) + b, c) == Some((a, b)),
{
    let s = a.push(c) + b;
    assert(s[a.len() as int] == c);
    lemma_index_from(s, c, 0);
    let i = index_of(s, c)->0;
    if i < a.len() {
        assert(s[i] == a[i]);
        assert(a.contains(a[i]));
    }
    assert(i == a.len());
    assert(s.take(i) =~= a);
    assert(s.skip(i + 1) =~= b);
}

/// White space in front is cut off, and what starts behind it is left.
pub proof fn lemma_trim_start_of(gap: Seq<char>, s: Seq<char>)
    requires
        forall|i: int| 0 <= i < gap.len() ==> is_space(#[trigger] gap[i]),
        s.len() > 0,
        !is_space(s[0]),
    ensures
        trim_start(gap + s) == s,
{
    let all = gap + s;
    lemma_trim_start(all);
    let a = trim_start(all);
    let n = all.len() - a.len();
    if n > gap.len() {
        assert(all[gap.len() as int] == s[0]);
    }
    if n < gap.len() {
        assert(a[0] == all[n]);
        assert(all[n] == gap[n]);
    }
    assert(all.skip(gap.len() as int) =~= s);
}

/// What is put behind a text occurs in it, and so does all that occurred in it
/// before, at the same place.
pub proof fn lemma_appended(s: Seq<char>, part: Seq<char>)
    ensures
        contains(s + part, part),
        forall|b: Seq<char>| #[trigger] contains(s, b) ==> contains(s + part, b),
        forall|b: Seq<char>| #[trigger] has_prefix(s, b) ==> has_prefix(s + part, b),
{
    let all = s + part;
    lemma_find_from(all, part, 0);
    assert(all.subrange(s.len() as int, s.len() + part.len() as int) =~= part);
    assert(occurs_at(all, part, s.len() as int));
    assert forall|b: Seq<char>| #[trigger] contains(s, b) implies contains(all, b) by {
        lemma_find_from(s, b, 0);
        lemma_find_from(all, b, 0);
        let i = find(s, b)->0;
        assert(all.subrange(i, i + b.len()) =~= s.subrange(i, i + b.len()));
        assert(occurs_at(all, b, i));
    }
    assert forall|b: Seq<char>| #[trigger] has_prefix(s, b) implies has_prefix(all, b) by {
        assert(all.subrange(0, b.len() as int) =~= s.subrange(0, b.len() as int));
    }
}

} // verus!
