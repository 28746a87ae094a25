//! Binary messages: Phoenix envelopes and the transfer chunks in them.
use crate::command::worker_protocol;
use crate::text;
use vstd::prelude::*;
use vstd::slice::slice_subrange;
use vstd::utf8::*;

verus! {

broadcast use vstd::string::group_string_axioms;

/// The bytes of a chunk before its transfer id.
pub const TRANSFER_CHUNK_HEADER_LEN: usize = 52;

/// The most bytes of a message.
pub const MAX_TRANSFER_FRAME_BYTES: usize = 671_088_640;

// ---- big-endian numbers ----

/// The number that bytes spell, the most significant first.
pub open spec fn be_value(b: Seq<u8>) -> nat
    decreases b.len(),
{
    if b.len() == 0 {
        0
    } else {
        be_value(b.drop_last()) * 256 + b.last() as nat
    }
}

/// The last `k` bytes of a number, the most significant first.
pub open spec fn be_bytes(n: nat, k: nat) -> Seq<u8>
    decreases k,
{
    if k == 0 {
        Seq::empty()
    } else {
        be_bytes(n / 256, (k - 1) as nat).push((n % 256) as u8)
    }
}

/// The number of values that `k` bytes have.
pub open spec fn pow256(k: nat) -> nat
    decreases k,
{
    if k == 0 {
        1
    } else {
        pow256((k - 1) as nat) * 256
    }
}

pub proof fn lemma_be_value_bound(b: Seq<u8>)
    ensures
        be_value(b) < pow256(b.len()),
    decreases b.len(),
{
    if b.len() > 0 {
        lemma_be_value_bound(b.drop_last());
    }
}

pub proof fn lemma_be_bytes(n: nat, k: nat)
    ensures
        be_bytes(n, k).len() == k,
        n < pow256(k) ==> be_value(be_bytes(n, k)) == n,
    decreases k,
{
    if k > 0 {
        lemma_be_bytes(n / 256, (k - 1) as nat);
        assert(be_bytes(n, k).drop_last() =~= be_bytes(n / 256, (k - 1) as nat));
        assert(be_bytes(n, k).last() as nat == n % 256);
        assert(n < pow256(k) ==> n / 256 < pow256((k - 1) as nat));
    }
}

proof fn lemma_pow256()
    ensures
        pow256(2) == 65_536,
        pow256(4) == 4_294_967_296,
        pow256(8) == 18_446_744_073_709_551_616,
{
    reveal_with_fuel(pow256, 9);
}

/// The number in `len` bytes from `offset` on.
fn read_be(bytes: &[u8], offset: usize, len: usize) -> (r: u64)
    requires
        len <= 8,
        offset + len <= bytes@.len(),
    ensures
        r == be_value(bytes@.subrange(offset as int, offset + len)),
{
    let mut n: u64 = 0;
    let mut i: usize = 0;
    while i < len
        invariant
            i <= len <= 8,
            offset + len <= bytes@.len(),
            n == be_value(bytes@.subrange(offset as int, offset + i)),
        decreases len - i,
    {
        proof {
            let next = bytes@.subrange(offset as int, offset + i + 1);
            assert(next.drop_last() =~= bytes@.subrange(offset as int, offset + i));
            lemma_be_value_bound(next);
            lemma_pow256();
            lemma_pow256_monotone((i + 1) as nat, 8);
        }
        assert(offset + i < bytes.len());
        n = n * 256 + bytes[offset + i] as u64;
        i += 1;
    }
    n
}

proof fn lemma_pow256_monotone(a: nat, b: nat)
    requires
        a <= b,
    ensures
        pow256(a) <= pow256(b),
    decreases b - a,
{
    if a < b {
        lemma_pow256_monotone(a + 1, b);
    }
}

/// The number in eight bytes from `offset` on.
pub fn read_u64(bytes: &[u8], offset: usize) -> (r: u64)
    requires
        offset + 8 <= bytes@.len(),
    ensures
        r == be_value(bytes@.subrange(offset as int, offset + 8)),
{
    read_be(bytes, offset, 8)
}

/// The number in four bytes from `offset` on.
pub fn read_u32(bytes: &[u8], offset: usize) -> (r: u32)
    requires
        offset + 4 <= bytes@.len(),
    ensures
        r == be_value(bytes@.subrange(offset as int, offset + 4)),
{
    proof {
        lemma_be_value_bound(bytes@.subrange(offset as int, offset + 4));
        lemma_pow256();
    }
    read_be(bytes, offset, 4) as u32
}

// ---- hexadecimal ----

/// The character of a hexadecimal digit.
pub open spec fn hex_digit(d: int) -> char {
    if d < 10 {
        (48 + d) as char
    } else {
        (87 + d) as char
    }
}

/// Two hexadecimal digits of a byte.
pub open spec fn hex_byte(b: u8) -> Seq<char> {
    seq![hex_digit(b as int / 16), hex_digit(b as int % 16)]
}

/// The bytes in hexadecimal, with spaces between them.
pub open spec fn hex_text(b: Seq<u8>) -> Seq<char> {
    text::joined(b.map_values(|x: u8| hex_byte(x)), " "@)
}

/// As many of the first bytes as `n` allows.
pub open spec fn first_bytes(b: Seq<u8>, n: int) -> Seq<u8> {
    if b.len() <= n {
        b
    } else {
        b.take(n)
    }
}

pub fn hex_char(d: u8) -> (r: char)
    requires
        d < 16,
    ensures
        r == hex_digit(d as int),
{
    if d < 10 {
        (48 + d) as char
    } else {
        (87 + d) as char
    }
}

/// The first bytes in hexadecimal, at most `max_len` of them.
pub fn hex_prefix(bytes: &[u8], max_len: usize) -> (r: String)
    ensures
        r@ == hex_text(first_bytes(bytes@, max_len as int)),
{
    let n: usize = if bytes.len() <= max_len {
        bytes.len()
    } else {
        max_len
    };
    let ghost shown = first_bytes(bytes@, max_len as int);
    let ghost all = shown.map_values(|x: u8| hex_byte(x));
    let mut parts: Vec<String> = Vec::new();
    let mut i: usize = 0;
    assert(shown.len() == n);
    while i < n
        invariant
            i <= n <= bytes@.len(),
            shown == first_bytes(bytes@, max_len as int),
            n == shown.len(),
            all.len() == n,
            forall|j: int| 0 <= j < n ==> all[j] == #[trigger] hex_byte(shown[j]),
            text::views(parts@) == all.take(i as int),
        decreases n - i,
    {
        let b = bytes[i];
        let mut s = String::new();
        s.push(hex_char(b / 16));
        s.push(hex_char(b % 16));
        let ghost before = text::views(parts@);
        parts.push(s);
        proof {
            assert(shown[i as int] == b);
            assert(s@ =~= hex_byte(shown[i as int]));
            assert(text::views(parts@) =~= before.push(all[i as int]));
            assert(before.push(all[i as int]) =~= all.take(i + 1));
        }
        i += 1;
    }
    assert(all.take(i as int) =~= all);
    text::join(parts.as_slice(), " ")
}

// ---- transfer chunks ----

/// A part of an input, as it comes over the socket.
#[derive(Debug, PartialEq, Eq)]
pub struct TransferChunk {
    pub transfer_id: String,
    pub video_id: u64,
    pub chunk_index: u64,
    pub total_chunks: u64,
    pub bytes_sent: u64,
    pub total_bytes: u64,
    pub crc32: u64,
    pub bytes: Vec<u8>,
}

/// A [`TransferChunk`] as mathematical values.
pub struct ChunkView {
    pub transfer_id: Seq<char>,
    pub video_id: u64,
    pub chunk_index: u64,
    pub total_chunks: u64,
    pub bytes_sent: u64,
    pub total_bytes: u64,
    pub crc32: u64,
    pub bytes: Seq<u8>,
}

impl View for TransferChunk {
    type V = ChunkView;

    open spec fn view(&self) -> ChunkView {
        ChunkView {
            transfer_id: self.transfer_id@,
            video_id: self.video_id,
            chunk_index: self.chunk_index,
            total_chunks: self.total_chunks,
            bytes_sent: self.bytes_sent,
            total_bytes: self.total_bytes,
            crc32: self.crc32,
            bytes: self.bytes@,
        }
    }
}

/// Why bytes are no message.
#[derive(Debug, PartialEq, Eq)]
pub enum FrameError {
    ChunkTooShort { len: usize },
    BadMagic { len: usize, prefix: String },
    UnsupportedVersion { version: u8 },
    UnsupportedType { kind: u8 },
    IdTruncated { len: usize, need: usize },
    IdNotUtf8,
    FrameTruncated { len: usize, header: String },
    TopicNotUtf8,
    EventNotUtf8,
}

impl FrameError {
    /// The message of the error.
    pub open spec fn text(&self) -> Seq<char> {
        match self {
            FrameError::ChunkTooShort { len } => "binary transfer chunk too short: got "@
                + text::dec(*len as nat) + " bytes, need at least 52"@,
            FrameError::BadMagic { len, prefix } => "invalid binary transfer chunk magic: len="@
                + text::dec(*len as nat) + " prefix="@ + prefix@,
            FrameError::UnsupportedVersion { version } =>
                "unsupported binary transfer chunk version "@ + text::dec(*version as nat),
            FrameError::UnsupportedType { kind } => "unsupported binary transfer chunk type "@
                + text::dec(*kind as nat),
            FrameError::IdTruncated { len, need } =>
                "binary transfer chunk transfer_id truncated: got "@ + text::dec(*len as nat)
                    + " bytes, need "@ + text::dec(*need as nat),
            FrameError::IdNotUtf8 => "decode binary transfer chunk transfer_id"@,
            FrameError::FrameTruncated { len, header } => "phoenix binary frame truncated: len="@
                + text::dec(*len as nat) + " header="@ + header@,
            FrameError::TopicNotUtf8 => "decode phoenix binary topic"@,
            FrameError::EventNotUtf8 => "decode phoenix binary event"@,
        }
    }

    /// The message of the error.
    pub fn message(&self) -> (r: String)
        ensures
            r@ == self.text(),
    {
        match self {
            Self::ChunkTooShort { len } => text::cat3(
                "binary transfer chunk too short: got ",
                text::dec_string(*len as u64).as_str(),
                " bytes, need at least 52",
            ),
            Self::BadMagic { len, prefix } => text::cat4(
                "invalid binary transfer chunk magic: len=",
                text::dec_string(*len as u64).as_str(),
                " prefix=",
                prefix.as_str(),
            ),
            Self::UnsupportedVersion { version } => text::cat2(
                "unsupported binary transfer chunk version ",
                text::dec_string(*version as u64).as_str(),
            ),
            Self::UnsupportedType { kind } => text::cat2(
                "unsupported binary transfer chunk type ",
                text::dec_string(*kind as u64).as_str(),
            ),
            Self::IdTruncated { len, need } => text::cat4(
                "binary transfer chunk transfer_id truncated: got ",
                text::dec_string(*len as u64).as_str(),
                " bytes, need ",
                text::dec_string(*need as u64).as_str(),
            ),
            Self::IdNotUtf8 => "decode binary transfer chunk transfer_id".to_owned(),
            Self::FrameTruncated { len, header } => text::cat4(
                "phoenix binary frame truncated: len=",
                text::dec_string(*len as u64).as_str(),
                " header=",
                header.as_str(),
            ),
            Self::TopicNotUtf8 => "decode phoenix binary topic".to_owned(),
            Self::EventNotUtf8 => "decode phoenix binary event".to_owned(),
        }
    }
}

/// A [`FrameError`] as mathematical values.
pub enum ErrorView {
    ChunkTooShort(nat),
    BadMagic(nat, Seq<char>),
    UnsupportedVersion(u8),
    UnsupportedType(u8),
    IdTruncated(nat, nat),
    IdNotUtf8,
    FrameTruncated(nat, Seq<char>),
    TopicNotUtf8,
    EventNotUtf8,
}

impl View for FrameError {
    type V = ErrorView;

    open spec fn view(&self) -> ErrorView {
        match self {
            FrameError::ChunkTooShort { len } => ErrorView::ChunkTooShort(*len as nat),
            FrameError::BadMagic { len, prefix } => ErrorView::BadMagic(*len as nat, prefix@),
            FrameError::UnsupportedVersion { version } => ErrorView::UnsupportedVersion(*version),
            FrameError::UnsupportedType { kind } => ErrorView::UnsupportedType(*kind),
            FrameError::IdTruncated { len, need } => ErrorView::IdTruncated(
                *len as nat,
                *need as nat,
            ),
            FrameError::IdNotUtf8 => ErrorView::IdNotUtf8,
            FrameError::FrameTruncated { len, header } => ErrorView::FrameTruncated(
                *len as nat,
                header@,
            ),
            FrameError::TopicNotUtf8 => ErrorView::TopicNotUtf8,
            FrameError::EventNotUtf8 => ErrorView::EventNotUtf8,
        }
    }
}

/// The four bytes with which a chunk begins: `RAV1`.
pub open spec fn chunk_magic() -> Seq<u8> {
    seq![0x52, 0x41, 0x56, 0x31]
}

/// The number in bytes `from` to `to` of a header.
pub open spec fn field(b: Seq<u8>, from: int, to: int) -> u64 {
    be_value(b.subrange(from, to)) as u64
}

/// The chunk that bytes hold, or why they hold none.
pub open spec fn decoded_chunk(b: Seq<u8>) -> Result<ChunkView, ErrorView> {
    if b.len() < TRANSFER_CHUNK_HEADER_LEN {
        Err(ErrorView::ChunkTooShort(b.len()))
    } else if b.take(4) != chunk_magic() {
        Err(ErrorView::BadMagic(b.len(), hex_text(first_bytes(b, 24))))
    } else if b[4] != 1 {
        Err(ErrorView::UnsupportedVersion(b[4]))
    } else if b[5] != 1 {
        Err(ErrorView::UnsupportedType(b[5]))
    } else {
        let data_start = TRANSFER_CHUNK_HEADER_LEN + be_value(b.subrange(6, 8));
        if b.len() < data_start {
            Err(ErrorView::IdTruncated(b.len(), data_start as nat))
        } else {
            let id = b.subrange(TRANSFER_CHUNK_HEADER_LEN as int, data_start);
            if !valid_utf8(id) {
                Err(ErrorView::IdNotUtf8)
            } else {
                Ok(
                    (ChunkView {
                        transfer_id: decode_utf8(id),
                        video_id: field(b, 8, 16),
                        chunk_index: field(b, 16, 24),
                        total_chunks: field(b, 24, 32),
                        bytes_sent: field(b, 32, 40),
                        total_bytes: field(b, 40, 48),
                        crc32: field(b, 48, 52),
                        bytes: b.skip(data_start),
                    }),
                )
            }
        }
    }
}

/// What a result is, as mathematical values.
pub open spec fn chunk_result(r: Result<TransferChunk, FrameError>) -> Result<
    ChunkView,
    ErrorView,
> {
    match r {
        Ok(c) => Ok(c@),
        Err(e) => Err(e@),
    }
}

/// The chunk that bytes hold, or why they hold none.
pub fn decode_binary_transfer_chunk(bytes: &[u8]) -> (r: Result<TransferChunk, FrameError>)
    ensures
        chunk_result(r) == decoded_chunk(bytes@),
{
    if bytes.len() < TRANSFER_CHUNK_HEADER_LEN {
        return Err(FrameError::ChunkTooShort { len: bytes.len() });
    }
    let ghost b = bytes@;
    if bytes[0] != 0x52 || bytes[1] != 0x41 || bytes[2] != 0x56 || bytes[3] != 0x31 {
        proof {
            assert(b.take(4)[0] == b[0] && b.take(4)[1] == b[1] && b.take(4)[2] == b[2] && b.take(
                4,
            )[3] == b[3]);
            assert(b.take(4) != chunk_magic());
        }
        return Err(FrameError::BadMagic { len: bytes.len(), prefix: hex_prefix(bytes, 24) });
    }
    assert(b.take(4) =~= chunk_magic());
    if bytes[4] != 1 {
        return Err(FrameError::UnsupportedVersion { version: bytes[4] });
    }
    if bytes[5] != 1 {
        return Err(FrameError::UnsupportedType { kind: bytes[5] });
    }
    proof {
        lemma_be_value_bound(b.subrange(6, 8));
        lemma_pow256();
        lemma_be_value_bound(b.subrange(8, 16));
        lemma_be_value_bound(b.subrange(16, 24));
        lemma_be_value_bound(b.subrange(24, 32));
        lemma_be_value_bound(b.subrange(32, 40));
        lemma_be_value_bound(b.subrange(40, 48));
        lemma_be_value_bound(b.subrange(48, 52));
    }
    let id_size: usize = read_be(bytes, 6, 2) as usize;
    let data_start: usize = TRANSFER_CHUNK_HEADER_LEN + id_size;
    if bytes.len() < data_start {
        return Err(FrameError::IdTruncated { len: bytes.len(), need: data_start });
    }
    let id = slice_subrange(bytes, TRANSFER_CHUNK_HEADER_LEN, data_start);
    let transfer_id = match core::str::from_utf8(id) {
        Ok(s) => s.to_owned(),
        Err(_) => return Err(FrameError::IdNotUtf8),
    };
    proof {
        encode_utf8_decode_utf8(transfer_id@);
        assert(transfer_id@ == decode_utf8(id@));
    }
    let data = slice_subrange(bytes, data_start, bytes.len());
    assert(data@ =~= b.skip(data_start as int));
    let data = vstd::slice::slice_to_vec(data);
    Ok(
        TransferChunk {
            transfer_id,
            video_id: read_u64(bytes, 8),
            chunk_index: read_u64(bytes, 16),
            total_chunks: read_u64(bytes, 24),
            bytes_sent: read_u64(bytes, 32),
            total_bytes: read_u64(bytes, 40),
            crc32: read_u32(bytes, 48) as u64,
            bytes: data,
        },
    )
}

/// The bytes of a chunk.
pub open spec fn chunk_frame(c: ChunkView) -> Seq<u8> {
    let id = encode_utf8(c.transfer_id);
    chunk_magic() + seq![1u8, 1u8] + be_bytes(id.len(), 2) + be_bytes(c.video_id as nat, 8)
        + be_bytes(c.chunk_index as nat, 8) + be_bytes(c.total_chunks as nat, 8) + be_bytes(
        c.bytes_sent as nat,
        8,
    ) + be_bytes(c.total_bytes as nat, 8) + be_bytes(c.crc32 as nat, 4) + id + c.bytes
}

/// A chunk that was written as bytes is read back as it was.
pub proof fn law_chunk_round_trip(c: ChunkView)
    requires
        encode_utf8(c.transfer_id).len() < 65_536,
        c.crc32 <= u32::MAX,
    ensures
        decoded_chunk(chunk_frame(c)) == Ok::<ChunkView, ErrorView>(c),
{
    let id = encode_utf8(c.transfer_id);
    let b = chunk_frame(c);
    lemma_pow256();
    lemma_be_bytes(id.len(), 2);
    lemma_be_bytes(c.video_id as nat, 8);
    lemma_be_bytes(c.chunk_index as nat, 8);
    lemma_be_bytes(c.total_chunks as nat, 8);
    lemma_be_bytes(c.bytes_sent as nat, 8);
    lemma_be_bytes(c.total_bytes as nat, 8);
    lemma_be_bytes(c.crc32 as nat, 4);
    assert(b.len() == 52 + id.len() + c.bytes.len());
    assert(b.take(4) =~= chunk_magic());
    assert(b[4] == 1 && b[5] == 1);
    assert(b.subrange(6, 8) =~= be_bytes(id.len(), 2));
    assert(b.subrange(8, 16) =~= be_bytes(c.video_id as nat, 8));
    assert(b.subrange(16, 24) =~= be_bytes(c.chunk_index as nat, 8));
    assert(b.subrange(24, 32) =~= be_bytes(c.total_chunks as nat, 8));
    assert(b.subrange(32, 40) =~= be_bytes(c.bytes_sent as nat, 8));
    assert(b.subrange(40, 48) =~= be_bytes(c.total_bytes as nat, 8));
    assert(b.subrange(48, 52) =~= be_bytes(c.crc32 as nat, 4));
    let data_start = 52 + id.len();
    assert(b.subrange(52, data_start as int) =~= id);
    assert(b.skip(data_start as int) =~= c.bytes);
    encode_utf8_valid_utf8(c.transfer_id);
    encode_utf8_decode_utf8(c.transfer_id);
}

// ---- envelopes ----

/// The index at which the topic of an envelope starts.
pub open spec fn topic_start(b: Seq<u8>) -> int {
    4 + b[0] + b[1]
}

/// The index at which the event of an envelope starts.
pub open spec fn event_start(b: Seq<u8>) -> int {
    topic_start(b) + b[2]
}

/// The index at which the body of an envelope starts.
pub open spec fn payload_start(b: Seq<u8>) -> int {
    event_start(b) + b[3]
}

/// The topic, event and body of an envelope. Fewer bytes than it takes for the
/// four sizes are none.
pub open spec fn decoded_envelope(b: Seq<u8>) -> Result<
    Option<(Seq<char>, Seq<char>, Seq<u8>)>,
    ErrorView,
> {
    if b.len() < 4 {
        Ok(None)
    } else if b.len() < payload_start(b) {
        Err(ErrorView::FrameTruncated(b.len(), hex_text(first_bytes(b, 8))))
    } else {
        let topic = b.subrange(topic_start(b), event_start(b));
        let event = b.subrange(event_start(b), payload_start(b));
        if !valid_utf8(topic) {
            Err(ErrorView::TopicNotUtf8)
        } else if !valid_utf8(event) {
            Err(ErrorView::EventNotUtf8)
        } else {
            Ok(Some((decode_utf8(topic), decode_utf8(event), b.skip(payload_start(b)))))
        }
    }
}

/// What a result is, as mathematical values.
pub open spec fn envelope_result(r: Result<Option<(&str, &str, &[u8])>, FrameError>) -> Result<
    Option<(Seq<char>, Seq<char>, Seq<u8>)>,
    ErrorView,
> {
    match r {
        Ok(Some((topic, event, payload))) => Ok(Some((topic@, event@, payload@))),
        Ok(None) => Ok(None),
        Err(e) => Err(e@),
    }
}

/// The topic, event and body of an envelope.
pub fn decode_phoenix_binary_frame<'a>(bytes: &'a [u8]) -> (r: Result<
    Option<(&'a str, &'a str, &'a [u8])>,
    FrameError,
>)
    ensures
        envelope_result(r) == decoded_envelope(bytes@),
{
    if bytes.len() < 4 {
        return Ok(None);
    }
    let topic_start: usize = 4 + bytes[0] as usize + bytes[1] as usize;
    let event_start: usize = topic_start + bytes[2] as usize;
    let payload_start: usize = event_start + bytes[3] as usize;
    if bytes.len() < payload_start {
        return Err(
            FrameError::FrameTruncated { len: bytes.len(), header: hex_prefix(bytes, 8) },
        );
    }
    let topic_bytes = slice_subrange(bytes, topic_start, event_start);
    let topic = match core::str::from_utf8(topic_bytes) {
        Ok(s) => s,
        Err(_) => return Err(FrameError::TopicNotUtf8),
    };
    let event_bytes = slice_subrange(bytes, event_start, payload_start);
    let event = match core::str::from_utf8(event_bytes) {
        Ok(s) => s,
        Err(_) => return Err(FrameError::EventNotUtf8),
    };
    let payload = slice_subrange(bytes, payload_start, bytes.len());
    proof {
        encode_utf8_decode_utf8(topic@);
        encode_utf8_decode_utf8(event@);
        assert(payload@ =~= bytes@.skip(payload_start as int));
    }
    Ok(Some((topic, event, payload)))
}

/// The transfer chunk in an envelope, if it holds one.
pub open spec fn decoded_push(b: Seq<u8>) -> Result<Option<ChunkView>, ErrorView> {
    match decoded_envelope(b) {
        Err(e) => Err(e),
        Ok(None) => Ok(None),
        Ok(Some((topic, event, payload))) => if topic != worker_protocol::topic() || event
            != "transfer_chunk"@ {
            Ok(None)
        } else {
            match decoded_chunk(payload) {
                Ok(c) => Ok(Some(c)),
                Err(e) => Err(e),
            }
        },
    }
}

/// What a result is, as mathematical values.
pub open spec fn push_result(r: Result<Option<TransferChunk>, FrameError>) -> Result<
    Option<ChunkView>,
    ErrorView,
> {
    match r {
        Ok(Some(c)) => Ok(Some(c@)),
        Ok(None) => Ok(None),
        Err(e) => Err(e@),
    }
}

/// The transfer chunk in an envelope, if it holds one.
pub fn decode_binary_worker_push(bytes: &[u8]) -> (r: Result<Option<TransferChunk>, FrameError>)
    ensures
        push_result(r) == decoded_push(bytes@),
{
    let (topic, event, payload) = match decode_phoenix_binary_frame(bytes) {
        Ok(Some(parts)) => parts,
        Ok(None) => return Ok(None),
        Err(e) => return Err(e),
    };
    if !text::same(topic, worker_protocol::crf_search_topic()) || !text::same(
        event,
        "transfer_chunk",
    ) {
        return Ok(None);
    }
    match decode_binary_transfer_chunk(payload) {
        Ok(chunk) => Ok(Some(chunk)),
        Err(e) => Err(e),
    }
}

/// The bytes of an envelope without a join reference.
pub open spec fn envelope(
    reference: Seq<u8>,
    topic: Seq<u8>,
    event: Seq<u8>,
    payload: Seq<u8>,
) -> Seq<u8> {
    seq![0u8, reference.len() as u8, topic.len() as u8, event.len() as u8] + reference + topic
        + event + payload
}

/// What is put in an envelope is found in it again.
pub proof fn law_envelope_round_trip(
    reference: Seq<u8>,
    topic: Seq<char>,
    event: Seq<char>,
    payload: Seq<u8>,
)
    requires
        reference.len() < 256,
        encode_utf8(topic).len() < 256,
        encode_utf8(event).len() < 256,
    ensures
        decoded_envelope(envelope(reference, encode_utf8(topic), encode_utf8(event), payload))
            == Ok::<Option<(Seq<char>, Seq<char>, Seq<u8>)>, ErrorView>(
            Some((topic, event, payload)),
        ),
{
    let t = encode_utf8(topic);
    let e = encode_utf8(event);
    let b = envelope(reference, t, e, payload);
    assert(b[0] == 0 && b[1] == reference.len() && b[2] == t.len() && b[3] == e.len());
    assert(b.subrange(topic_start(b), event_start(b)) =~= t);
    assert(b.subrange(event_start(b), payload_start(b)) =~= e);
    assert(b.skip(payload_start(b)) =~= payload);
    encode_utf8_valid_utf8(topic);
    encode_utf8_decode_utf8(topic);
    encode_utf8_valid_utf8(event);
    encode_utf8_decode_utf8(event);
}

/// A chunk in an envelope of its topic and event is found in it again.
pub proof fn law_push_round_trip(reference: Seq<u8>, c: ChunkView)
    requires
        reference.len() < 256,
        encode_utf8(c.transfer_id).len() < 65_536,
        c.crc32 <= u32::MAX,
    ensures
        decoded_push(
            envelope(
                reference,
                encode_utf8(worker_protocol::topic()),
                encode_utf8("transfer_chunk"@),
                chunk_frame(c),
            ),
        ) == Ok::<Option<ChunkView>, ErrorView>(Some(c)),
{
    reveal_strlit("workers:crf_search");
    reveal_strlit("transfer_chunk");
    is_ascii_chars_encode_utf8(worker_protocol::topic());
    is_ascii_chars_encode_utf8("transfer_chunk"@);
    law_envelope_round_trip(
        reference,
        worker_protocol::topic(),
        "transfer_chunk"@,
        chunk_frame(c),
    );
    law_chunk_round_trip(c);
}

/// Four bytes as a number, the first one counting most.
pub open spec fn four(b: Seq<u8>, i: int) -> int {
    ((b[i] * 256 + b[i + 1]) * 256 + b[i + 2]) * 256 + b[i + 3]
}

/// Eight bytes as a number, the first one counting most.
pub open spec fn eight(b: Seq<u8>, i: int) -> int {
    (((four(b, i) * 256 + b[i + 4]) * 256 + b[i + 5]) * 256 + b[i + 6]) * 256 + b[i + 7]
}

proof fn lemma_two_bytes(b: Seq<u8>, i: int)
    requires
        0 <= i,
        i + 2 <= b.len(),
    ensures
        be_value(b.subrange(i, i + 2)) == b[i] * 256 + b[i + 1],
{
    let none = b.subrange(i, i);
    let one = b.subrange(i, i + 1);
    let two = b.subrange(i, i + 2);
    assert(one.drop_last() =~= none);
    assert(two.drop_last() =~= one);
    assert(be_value(none) == 0);
    assert(be_value(one) == b[i]);
}

proof fn lemma_four_bytes(b: Seq<u8>, i: int)
    requires
        0 <= i,
        i + 4 <= b.len(),
    ensures
        be_value(b.subrange(i, i + 4)) == four(b, i),
{
    lemma_two_bytes(b, i);
    let two = b.subrange(i, i + 2);
    let three = b.subrange(i, i + 3);
    let all = b.subrange(i, i + 4);
    assert(three.drop_last() =~= two);
    assert(all.drop_last() =~= three);
    assert(be_value(three) == be_value(two) * 256 + b[i + 2]);
}

proof fn lemma_eight_bytes(b: Seq<u8>, i: int)
    requires
        0 <= i,
        i + 8 <= b.len(),
    ensures
        be_value(b.subrange(i, i + 8)) == eight(b, i),
        0 <= eight(b, i) <= u64::MAX,
{
    lemma_four_bytes(b, i);
    let d = b.subrange(i, i + 4);
    let e = b.subrange(i, i + 5);
    let f = b.subrange(i, i + 6);
    let g = b.subrange(i, i + 7);
    let h = b.subrange(i, i + 8);
    assert(e.drop_last() =~= d);
    assert(f.drop_last() =~= e);
    assert(g.drop_last() =~= f);
    assert(h.drop_last() =~= g);
    assert(be_value(e) == be_value(d) * 256 + b[i + 4]);
    assert(be_value(f) == be_value(e) * 256 + b[i + 5]);
    assert(be_value(g) == be_value(f) * 256 + b[i + 6]);
}

/// A chunk is read by place: behind `RAV1`, a version and a type of one each, and
/// the length of its id, stand its numbers with their most significant byte
/// first, then its id, and the rest is its bytes.
pub proof fn law_chunk_is_read_by_place(b: Seq<u8>)
    ensures
        match decoded_chunk(b) {
            Ok(c) => {
                let id = b[6] * 256 + b[7];
                &&& b.len() >= 52 + id
                &&& b[0] == 0x52 && b[1] == 0x41 && b[2] == 0x56 && b[3] == 0x31
                &&& b[4] == 1 && b[5] == 1
                &&& encode_utf8(c.transfer_id) == b.subrange(52, 52 + id)
                &&& c.video_id == eight(b, 8)
                &&& c.chunk_index == eight(b, 16)
                &&& c.total_chunks == eight(b, 24)
                &&& c.bytes_sent == eight(b, 32)
                &&& c.total_bytes == eight(b, 40)
                &&& c.crc32 == four(b, 48)
                &&& c.bytes == b.skip(52 + id)
            },
            Err(_) => true,
        },
{
    if decoded_chunk(b) is Ok {
        assert(b.take(4)[0] == b[0] && b.take(4)[1] == b[1] && b.take(4)[2] == b[2] && b.take(
            4,
        )[3] == b[3]);
        lemma_two_bytes(b, 6);
        lemma_eight_bytes(b, 8);
        lemma_eight_bytes(b, 16);
        lemma_eight_bytes(b, 24);
        lemma_eight_bytes(b, 32);
        lemma_eight_bytes(b, 40);
        lemma_four_bytes(b, 48);
        let id = b[6] * 256 + b[7];
        decode_utf8_encode_utf8(b.subrange(52, 52 + id));
    }
}

/// Why bytes are no chunk: they are too short for its numbers, start otherwise,
/// are of another version or type, or are too short for its id, and the first of
/// these is told. All others are a chunk, if the id is a text.
pub proof fn law_bytes_that_are_no_chunk(b: Seq<u8>)
    ensures
        ({
            let r = decoded_chunk(b);
            let starts = b[0] == 0x52 && b[1] == 0x41 && b[2] == 0x56 && b[3] == 0x31;
            let id = b[6] * 256 + b[7];
            &&& b.len() < 52 <==> r is Err && r->Err_0 is ChunkTooShort
            &&& b.len() >= 52 && !starts <==> r is Err && r->Err_0 is BadMagic
            &&& b.len() >= 52 && starts && b[4] != 1 <==> r == Err::<ChunkView, ErrorView>(
                ErrorView::UnsupportedVersion(b[4]),
            )
            &&& b.len() >= 52 && starts && b[4] == 1 && b[5] != 1 <==> r == Err::<
                ChunkView,
                ErrorView,
            >(ErrorView::UnsupportedType(b[5]))
            &&& b.len() >= 52 + id && starts && b[4] == 1 && b[5] == 1 && valid_utf8(
                b.subrange(52, 52 + id),
            ) ==> r is Ok
        }),
{
    if b.len() >= 52 {
        lemma_two_bytes(b, 6);
        let front = b.take(4);
        assert(front[0] == b[0] && front[1] == b[1] && front[2] == b[2] && front[3] == b[3]);
        if b[0] == 0x52 && b[1] == 0x41 && b[2] == 0x56 && b[3] == 0x31 {
            assert(front =~= chunk_magic());
        }
    }
}

/// A message on another topic, or of another event, is no chunk, whatever it
/// holds.
pub proof fn law_other_messages_are_no_chunks(
    reference: Seq<u8>,
    topic: Seq<char>,
    event: Seq<char>,
    payload: Seq<u8>,
)
    requires
        reference.len() < 256,
        encode_utf8(topic).len() < 256,
        encode_utf8(event).len() < 256,
        topic != "workers:crf_search"@ || event != "transfer_chunk"@,
    ensures
        decoded_push(envelope(reference, encode_utf8(topic), encode_utf8(event), payload)) == Ok::<
            Option<ChunkView>,
            ErrorView,
        >(None),
{
    law_envelope_round_trip(reference, topic, event, payload);
}

/// A byte is shown by two digits, the higher one first, from `0` to `9` and from
/// `a` to `f`, and of many bytes only the first are shown.
pub proof fn law_bytes_shown_in_hexadecimal(d: int, b: Seq<u8>, n: int)
    requires
        0 <= d < 16,
        0 <= n,
    ensures
        d < 10 ==> hex_digit(d) as int == '0' as int + d,
        d >= 10 ==> hex_digit(d) as int == 'a' as int + (d - 10),
        forall|x: u8|
            (#[trigger] hex_byte(x)) == seq![hex_digit(x as int / 16), hex_digit(x as int % 16)],
        first_bytes(b, n).len() == (if b.len() <= n {
            b.len() as int
        } else {
            n
        }),
        first_bytes(b, n) == b.take(first_bytes(b, n).len() as int),
{
    assert(b.take(b.len() as int) =~= b);
}

} // verus!
