//! Calls into other crates and into parts of the standard library, each with
//! what is known of its result.
use crate::command::worker_protocol::FrameText;
use crate::duration::Duration;
use crate::span;
use crate::text;
use vstd::prelude::*;

verus! {

broadcast use vstd::string::group_string_axioms;

// ---- humantime ----

/// What `humantime::parse_duration` makes of a text: the nanoseconds of the
/// span that it spells, or the message of the error.
pub uninterp spec fn parsed_span(s: Seq<char>) -> Result<nat, Seq<char>>;

/// `humantime::parse_duration` reads a span such as `1h 12min 5s`. It is not
/// stated here which texts spell which spans. The function panics where it adds
/// a full second of nanoseconds to the largest number of seconds: there the
/// numbers read so far add up to exactly one nanosecond more than the longest
/// span. Texts that can come to this are not admitted.
#[verifier::external_body]
pub(crate) fn parse_span(s: &str) -> (r: Result<Duration, String>)
    requires
        span::adds_up(s@),
    ensures
        match r {
            Ok(d) => parsed_span(s@) is Ok && parsed_span(s@)->Ok_0 == d@,
            Err(e) => parsed_span(s@) is Err && parsed_span(s@)->Err_0 == e@,
        },
{
    match humantime::parse_duration(s) {
        Ok(d) => Ok(Duration::new(d.as_secs(), d.subsec_nanos())),
        Err(e) => Err(e.to_string()),
    }
}

/// What `humantime::format_duration` writes for a span of so many nanoseconds.
pub uninterp spec fn span_text(nanos: nat) -> Seq<char>;

/// `humantime::format_duration` writes a span so that
/// `humantime::parse_duration` reads the same span back. What is written ends
/// in the letter of a unit.
#[verifier::external_body]
pub(crate) fn format_span(d: Duration) -> (r: String)
    ensures
        r@ == span_text(d@),
        parsed_span(r@) is Ok && parsed_span(r@)->Ok_0 == d@,
        r@.len() > 0 && !text::is_digit(r@.last()),
{
    humantime::format_duration(std::time::Duration::new(d.as_secs(), d.subsec_nanos())).to_string()
}

// ---- shell_escape ----

/// Whether a character needs no quoting in a shell.
pub open spec fn shell_safe(c: char) -> bool {
    ||| 'a' <= c <= 'z'
    ||| 'A' <= c <= 'Z'
    ||| '0' <= c <= '9'
    ||| c == '-' || c == '_' || c == '=' || c == '/' || c == ',' || c == '.' || c == '+'
}

/// The characters of `s` inside single quotes: a quote or an exclamation mark
/// stands escaped between two quoted parts.
pub open spec fn shell_quoted(s: Seq<char>) -> Seq<char>
    decreases s.len(),
{
    if s.len() == 0 {
        Seq::empty()
    } else if s.last() == '\'' || s.last() == '!' {
        shell_quoted(s.drop_last()) + seq!['\'', '\\', s.last(), '\'']
    } else {
        shell_quoted(s.drop_last()).push(s.last())
    }
}

/// `s` as one word of a shell command.
pub open spec fn shell_word(s: Seq<char>) -> Seq<char> {
    if s.len() > 0 && (forall|i: int| 0 <= i < s.len() ==> shell_safe(#[trigger] s[i])) {
        s
    } else {
        seq!['\''] + shell_quoted(s) + seq!['\'']
    }
}

/// `shell_escape::unix::escape` leaves a word of safe characters as it is and
/// puts any other text in single quotes.
#[verifier::external_body]
pub(crate) fn shell_escape_word(s: &str) -> (r: String)
    ensures
        r@ == shell_word(s@),
{
    shell_escape::unix::escape(s.into()).into_owned()
}

// ---- infer ----

/// What `infer::is_image` says of the start of a file.
pub uninterp spec fn image_bytes(bytes: Seq<u8>) -> bool;

/// `infer::is_image` knows image formats by their first bytes. Which formats
/// those are is not stated.
#[verifier::external_body]
pub(crate) fn infer_is_image(bytes: &[u8]) -> (r: bool)
    ensures
        r == image_bytes(bytes@),
{
    infer::is_image(bytes)
}

// ---- blake3 ----

/// The BLAKE3 digest of some bytes.
pub uninterp spec fn blake3_digest(bytes: Seq<u8>) -> Seq<u8>;

/// `blake3::hash` gives the digest of its input, which has 32 bytes.
#[verifier::external_body]
pub(crate) fn blake3_hash(bytes: &[u8]) -> (r: Vec<u8>)
    ensures
        r@ == blake3_digest(bytes@),
        r@.len() == 32,
{
    blake3::hash(bytes).as_bytes().to_vec()
}

/// The incremental hasher of `blake3`.
#[verifier::external_type_specification]
#[verifier::external_body]
pub struct ExBlake3Hasher(blake3::Hasher);

/// The bytes that a hasher has taken in, in order.
pub uninterp spec fn hashed_bytes(h: blake3::Hasher) -> Seq<u8>;

/// Whether a hasher counts its input from the start, as every one that
/// `Hasher::new` makes does.
pub uninterp spec fn counts_from_start(h: blake3::Hasher) -> bool;

/// `blake3::Hasher::new` makes a hasher that has taken in nothing.
#[verifier::external_body]
pub(crate) fn blake3_new() -> (r: blake3::Hasher)
    ensures
        hashed_bytes(r) == Seq::<u8>::empty(),
        counts_from_start(r),
{
    blake3::Hasher::new()
}

/// `blake3::Hasher::update` takes in bytes behind those that came before.
#[verifier::external_body]
pub(crate) fn blake3_update(h: &mut blake3::Hasher, bytes: &[u8])
    requires
        counts_from_start(*old(h)),
    ensures
        hashed_bytes(*final(h)) == hashed_bytes(*old(h)) + bytes@,
        counts_from_start(*final(h)),
{
    h.update(bytes);
}

/// `blake3::Hasher::finalize` gives the digest of what was taken in. It panics
/// for a hasher that does not count from the start.
#[verifier::external_body]
pub(crate) fn blake3_finalize(h: &blake3::Hasher) -> (r: Vec<u8>)
    requires
        counts_from_start(*h),
    ensures
        r@ == blake3_digest(hashed_bytes(*h)),
        r@.len() == 32,
{
    h.finalize().as_bytes().to_vec()
}

// ---- crc32fast ----

/// The CRC32 checksum of some bytes.
pub uninterp spec fn crc32_of(bytes: Seq<u8>) -> u32;

/// `crc32fast::hash` gives the CRC32 checksum of its input.
#[verifier::external_body]
pub(crate) fn crc32(bytes: &[u8]) -> (r: u32)
    ensures
        r == crc32_of(bytes@),
{
    crc32fast::hash(bytes)
}

// ---- fastrand ----

/// `fastrand::u64` over all numbers gives any number of 64 bits.
#[verifier::external_body]
pub(crate) fn random_u64() -> (r: u64) {
    fastrand::u64(..)
}

// ---- serde_json ----

/// What `serde_json::from_str` makes of a text that is to be an array of two
/// optional strings, two strings and any value: the second reference, the
/// topic, the event and the value as text.
pub uninterp spec fn phoenix_frame(text: Seq<char>) -> Option<
    (Option<Seq<char>>, Seq<char>, Seq<char>, Seq<char>),
>;

/// `serde_json::from_str` reads a message as an array of five. The value comes
/// back as JSON text. Which texts are such arrays is not stated.
#[verifier::external_body]
pub(crate) fn parse_phoenix_frame(text: &str) -> (r: Option<FrameText>)
    ensures
        match r {
            Some(frame) => phoenix_frame(text@) == Some(frame@),
            None => phoenix_frame(text@) is None,
        },
{
    let parsed: Result<
        (Option<String>, Option<String>, String, String, serde_json::Value),
        serde_json::Error,
    > = serde_json::from_str(text);
    match parsed {
        Ok((_, msg_ref, topic, event, value)) => Some(
            FrameText { msg_ref, topic, event, payload: value.to_string() },
        ),
        Err(_) => None,
    }
}

// ---- indicatif ----

/// How `indicatif::HumanBytes` writes a number of bytes.
pub uninterp spec fn bytes_text(n: u64) -> Seq<char>;

/// `indicatif::HumanBytes` writes a number of bytes with a binary unit, such
/// as `1.50 MiB`. How many digits it shows is not stated.
#[verifier::external_body]
pub(crate) fn human_bytes(n: u64) -> (r: String)
    ensures
        r@ == bytes_text(n),
{
    indicatif::HumanBytes(n).to_string()
}

/// How `indicatif::HumanDuration` writes a span of so many nanoseconds.
pub uninterp spec fn human_span_text(nanos: nat) -> Seq<char>;

/// `indicatif::HumanDuration` writes a span in the largest unit that fits, such
/// as `5 minutes`. How it rounds is not stated.
#[verifier::external_body]
pub(crate) fn human_duration(d: Duration) -> (r: String)
    ensures
        r@ == human_span_text(d@),
{
    indicatif::HumanDuration(std::time::Duration::new(d.as_secs(), d.subsec_nanos())).to_string()
}

// ---- std ----

/// The integer that `s` spells: digits, which one sign may precede.
pub open spec fn spelled_int(s: Seq<char>) -> Option<int> {
    let signed = s.len() > 0 && (s[0] == '+' || s[0] == '-');
    let d = if signed {
        s.skip(1)
    } else {
        s
    };
    if d.len() > 0 && text::all_digits(d) {
        if s[0] == '-' {
            Some(-(text::dec_value(d) as int))
        } else {
            Some(text::dec_value(d) as int)
        }
    } else {
        None
    }
}

/// The number of 32 bits that `s` spells.
pub open spec fn parsed_i32(s: Seq<char>) -> Option<i32> {
    match spelled_int(s) {
        Some(n) => if i32::MIN <= n <= i32::MAX {
            Some(n as i32)
        } else {
            None
        },
        None => None,
    }
}

/// What `str::parse::<i32>` says of a text that is no such number.
pub uninterp spec fn int_error(s: Seq<char>) -> Seq<char>;

/// `str::parse::<i32>` reads an optional sign and decimal digits, if the
/// number fits. What the error says is only named.
#[verifier::external_body]
pub(crate) fn parse_i32(s: &str) -> (r: Result<i32, String>)
    ensures
        match r {
            Ok(n) => parsed_i32(s@) == Some(n),
            Err(e) => parsed_i32(s@) is None && e@ == int_error(s@),
        },
{
    match s.parse::<i32>() {
        Ok(n) => Ok(n),
        Err(e) => Err(e.to_string()),
    }
}

/// How the standard library writes a string between quotes for debugging.
pub uninterp spec fn quoted(s: Seq<char>) -> Seq<char>;

/// The `Debug` form of a string. Which characters it escapes is not stated.
#[verifier::external_body]
pub(crate) fn quote(s: &str) -> (r: String)
    ensures
        r@ == quoted(s@),
{
    format!("{s:?}")
}

/// What is written of a signed number is read back as that number.
pub proof fn law_int_round_trip(n: i32)
    ensures
        parsed_i32(text::dec_int(n as int)) == Some(n),
{
    let m: nat = if n < 0 {
        (-(n as int)) as nat
    } else {
        n as nat
    };
    text::lemma_dec_spells(m);
    let s = text::dec_int(n as int);
    if n < 0 {
        assert(s.skip(1) == text::dec(m));
        assert(s[0] == '-');
    } else {
        assert(text::is_digit(s[0]));
    }
}

} // verus!
