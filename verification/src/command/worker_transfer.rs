//! Receiving a worker's input in chunks.
use crate::outside;
use crate::path;
use crate::text;
use vstd::prelude::*;

verus! {

broadcast use vstd::string::group_string_axioms;

/// What the bytes of a chunk are checked against.
#[derive(Debug, PartialEq, Eq)]
pub enum Checksum {
    Blake3(Vec<u8>),
    Crc32(u64),
}

/// Whether bytes have a checksum.
pub open spec fn checks_out(checksum: Checksum, bytes: Seq<u8>) -> bool {
    match checksum {
        Checksum::Blake3(digest) => digest@ == outside::blake3_digest(bytes),
        Checksum::Crc32(sum) => sum == outside::crc32_of(bytes) as u64,
    }
}

/// Whether two lists hold the same bytes.
pub fn same_bytes(a: &[u8], b: &[u8]) -> (r: bool)
    ensures
        r == (a@ == b@),
{
    if a.len() != b.len() {
        return false;
    }
    let mut i: usize = 0;
    while i < a.len()
        invariant
            i <= a.len(),
            a.len() == b.len(),
            forall|j: int| 0 <= j < i ==> a@[j] == b@[j],
        decreases a.len() - i,
    {
        if a[i] != b[i] {
            return false;
        }
        i += 1;
    }
    assert(a@ =~= b@);
    true
}

impl Checksum {
    /// The checksum of bytes by their digest.
    pub fn blake3(bytes: &[u8]) -> (r: Self)
        ensures
            r matches Checksum::Blake3(d) && d@ == outside::blake3_digest(bytes@),
            checks_out(r, bytes@),
    {
        Self::Blake3(outside::blake3_hash(bytes))
    }

    /// The checksum of bytes by their CRC32.
    pub fn crc32(bytes: &[u8]) -> (r: Self)
        ensures
            r == Checksum::Crc32(outside::crc32_of(bytes@) as u64),
            checks_out(r, bytes@),
    {
        Self::Crc32(outside::crc32(bytes) as u64)
    }

    /// Whether bytes have this checksum.
    pub fn matches(&self, bytes: &[u8]) -> (r: bool)
        ensures
            r == checks_out(*self, bytes@),
    {
        match self {
            Self::Blake3(digest) => {
                let d = outside::blake3_hash(bytes);
                same_bytes(digest.as_slice(), d.as_slice())
            },
            Self::Crc32(sum) => *sum == outside::crc32(bytes) as u64,
        }
    }
}

/// A part of a file.
#[derive(Debug, PartialEq, Eq)]
pub struct Chunk {
    pub index: u64,
    pub offset: u64,
    pub bytes: Vec<u8>,
    pub checksum: Checksum,
}

/// Why a chunk was not taken or a file not finished.
#[derive(Debug, PartialEq, Eq)]
pub enum ChunkReceiverError {
    OutOfOrder { index: u64, expected_index: u64 },
    UnexpectedOffset { index: u64, offset: u64, expected_offset: u64 },
    CorruptChunk { index: u64 },
    DuplicateChunk { index: u64 },
    DigestMismatch,
    SizeMismatch,
    DestinationExists,
    FileTooLarge { size: u64, max_size: u64 },
    Finished,
    Io(String),
}

impl ChunkReceiverError {
    /// The message of the error.
    pub open spec fn text(&self) -> Seq<char> {
        match self {
            ChunkReceiverError::OutOfOrder { index, expected_index } => "chunk "@ + text::dec(
                *index as nat,
            ) + " arrived out of order; expected index "@ + text::dec(*expected_index as nat),
            ChunkReceiverError::UnexpectedOffset { index, offset, expected_offset } => "chunk "@
                + text::dec(*index as nat) + " starts at offset "@ + text::dec(*offset as nat)
                + ", expected "@ + text::dec(*expected_offset as nat),
            ChunkReceiverError::CorruptChunk { index } => "chunk "@ + text::dec(*index as nat)
                + " failed checksum validation"@,
            ChunkReceiverError::DuplicateChunk { index } => "chunk "@ + text::dec(*index as nat)
                + " was already received"@,
            ChunkReceiverError::DigestMismatch => "final digest mismatch"@,
            ChunkReceiverError::SizeMismatch => "final size mismatch"@,
            ChunkReceiverError::DestinationExists => "destination already exists"@,
            ChunkReceiverError::FileTooLarge { max_size, .. } => "file would exceed max size "@
                + text::dec(*max_size as nat) + " bytes"@,
            ChunkReceiverError::Finished => "receiver already finished"@,
            ChunkReceiverError::Io(e) => e@,
        }
    }

    /// The message of the error.
    pub fn message(&self) -> (r: String)
        ensures
            r@ == self.text(),
    {
        match self {
            Self::OutOfOrder { index, expected_index } => text::cat4(
                "chunk ",
                text::dec_string(*index).as_str(),
                " arrived out of order; expected index ",
                text::dec_string(*expected_index).as_str(),
            ),
            Self::UnexpectedOffset { index, offset, expected_offset } => {
                let mut out = text::cat4(
                    "chunk ",
                    text::dec_string(*index).as_str(),
                    " starts at offset ",
                    text::dec_string(*offset).as_str(),
                );
                out.append(", expected ");
                out.append(text::dec_string(*expected_offset).as_str());
                out
            },
            Self::CorruptChunk { index } => text::cat3(
                "chunk ",
                text::dec_string(*index).as_str(),
                " failed checksum validation",
            ),
            Self::DuplicateChunk { index } => text::cat3(
                "chunk ",
                text::dec_string(*index).as_str(),
                " was already received",
            ),
            Self::DigestMismatch => "final digest mismatch".to_owned(),
            Self::SizeMismatch => "final size mismatch".to_owned(),
            Self::DestinationExists => "destination already exists".to_owned(),
            Self::FileTooLarge { max_size, .. } => text::cat3(
                "file would exceed max size ",
                text::dec_string(*max_size).as_str(),
                " bytes",
            ),
            Self::Finished => "receiver already finished".to_owned(),
            Self::Io(e) => e.clone(),
        }
    }
}

/// The least of a sum and the greatest number of 64 bits.
pub open spec fn saturating_sum(a: int, b: int) -> int {
    if a + b > u64::MAX {
        u64::MAX as int
    } else {
        a + b
    }
}

/// The name of a file that is being received.
pub open spec fn part_name(pid: u32, n: u64) -> Seq<char> {
    ".ab-av1-worker-"@ + text::dec(pid as nat) + "-"@ + text::dec(n as nat) + ".part"@
}

/// The name of a file that is being received by a process, with a given number.
pub fn part_file_name(pid: u32, n: u64) -> (r: String)
    ensures
        r@ == part_name(pid, n),
{
    let mut out = text::cat4(
        ".ab-av1-worker-",
        text::dec_string(pid as u64).as_str(),
        "-",
        text::dec_string(n).as_str(),
    );
    out.append(".part");
    out
}

/// A name for a file that is to be received by a process, with a number that
/// is left to chance.
pub fn new_part_file_name(pid: u32) -> (r: String)
    ensures
        exists|n: u64| r@ == #[trigger] part_name(pid, n),
{
    let n: u64 = outside::random_u64();
    part_file_name(pid, n)
}

/// Takes the chunks of a file in order, each once, and checks them.
pub struct ChunkReceiver {
    final_path: String,
    temp_path: String,
    max_size: Option<u64>,
    next_index: u64,
    next_offset: u64,
    finished: bool,
    hasher: blake3::Hasher,
}

impl ChunkReceiver {
    pub closed spec fn spec_final_path(&self) -> Seq<char> {
        self.final_path@
    }

    pub closed spec fn spec_temp_path(&self) -> Seq<char> {
        self.temp_path@
    }

    pub closed spec fn spec_max_size(&self) -> Option<u64> {
        self.max_size
    }

    /// The number of chunks that were taken.
    pub closed spec fn chunks_taken(&self) -> u64 {
        self.next_index
    }

    /// Whether the receiver takes no more chunks.
    pub closed spec fn is_finished(&self) -> bool {
        self.finished
    }

    /// The bytes that were received, in order.
    pub closed spec fn received(&self) -> Seq<u8> {
        outside::hashed_bytes(self.hasher)
    }

    /// The offset of the next chunk is the number of bytes received, which is
    /// no more than the maximum.
    pub closed spec fn well_formed(&self) -> bool {
        &&& outside::counts_from_start(self.hasher)
        &&& self.next_offset == outside::hashed_bytes(self.hasher).len()
        &&& self.max_size matches Some(max) ==> self.next_offset <= max
    }

    /// A receiver that has taken nothing.
    pub fn new(final_path: String, temp_path: String, max_size: Option<u64>) -> (r: Self)
        ensures
            r.well_formed(),
            r.spec_final_path() == final_path@,
            r.spec_temp_path() == temp_path@,
            r.spec_max_size() == max_size,
            r.chunks_taken() == 0,
            r.received() == Seq::<u8>::empty(),
            !r.is_finished(),
    {
        Self {
            final_path,
            temp_path,
            max_size,
            next_index: 0,
            next_offset: 0,
            finished: false,
            hasher: outside::blake3_new(),
        }
    }

    /// The number of bytes received.
    pub fn received_bytes(&self) -> (r: u64)
        requires
            self.well_formed(),
        ensures
            r == self.received().len(),
    {
        self.next_offset
    }

    /// The number of chunks that were taken.
    pub fn taken_chunks(&self) -> (r: u64)
        ensures
            r == self.chunks_taken(),
    {
        self.next_index
    }

    /// The file that is written to until it is complete.
    pub fn temp_path(&self) -> (r: &str)
        ensures
            r@ == self.spec_temp_path(),
    {
        self.temp_path.as_str()
    }

    /// Why a chunk is not taken, if it is not.
    pub open spec fn refusal(&self, chunk: Chunk) -> Option<ChunkReceiverError> {
        self.refusal_of(chunk, checks_out(chunk.checksum, chunk.bytes@))
    }

    /// Why a chunk is not taken, if it is not, by whether its checksum holds.
    pub open spec fn refusal_of(&self, chunk: Chunk, whole: bool) -> Option<ChunkReceiverError> {
        let size = saturating_sum(self.received().len() as int, chunk.bytes@.len() as int);
        if self.is_finished() {
            Some(ChunkReceiverError::Finished)
        } else if chunk.index < self.chunks_taken() {
            Some((ChunkReceiverError::DuplicateChunk { index: chunk.index }))
        } else if chunk.index > self.chunks_taken() {
            Some(
                (ChunkReceiverError::OutOfOrder {
                    index: chunk.index,
                    expected_index: self.chunks_taken(),
                }),
            )
        } else if chunk.offset != self.received().len() {
            Some(
                (ChunkReceiverError::UnexpectedOffset {
                    index: chunk.index,
                    offset: chunk.offset,
                    expected_offset: self.received().len() as u64,
                }),
            )
        } else if self.spec_max_size() matches Some(max) && size > max {
            Some(
                (ChunkReceiverError::FileTooLarge {
                    size: size as u64,
                    max_size: self.spec_max_size()->0,
                }),
            )
        } else if !whole {
            Some((ChunkReceiverError::CorruptChunk { index: chunk.index }))
        } else {
            None
        }
    }

    /// Whether only the number of chunks differs, by one, and the bytes
    /// received, by `bytes` at their end.
    pub open spec fn extended(&self, after: &Self, bytes: Seq<u8>) -> bool {
        &&& after.spec_final_path() == self.spec_final_path()
        &&& after.spec_temp_path() == self.spec_temp_path()
        &&& after.spec_max_size() == self.spec_max_size()
        &&& after.is_finished() == self.is_finished()
        &&& after.chunks_taken() == self.chunks_taken() + 1
        &&& after.received() == self.received() + bytes
    }

    /// Takes the next chunk. `write` appends its bytes to the file; it is
    /// called for a chunk that is in order and whole, and only for that. A
    /// chunk that is refused or not written changes nothing.
    pub fn push<W: FnOnce(&[u8]) -> Result<(), String>>(&mut self, chunk: Chunk, write: W) -> (r:
        Result<(), ChunkReceiverError>)
        requires
            old(self).well_formed(),
            old(self).chunks_taken() < u64::MAX,
            old(self).received().len() + chunk.bytes@.len() <= u64::MAX || (
            old(self).spec_max_size() matches Some(max) && max < u64::MAX),
            old(self).refusal(chunk) is None ==> forall|b: &[u8]|
                b@ == chunk.bytes@ ==> #[trigger] write.requires((b,)),
        ensures
            final(self).well_formed(),
            old(self).refusal(chunk) matches Some(e) ==> r == Err::<(), ChunkReceiverError>(e)
                && *final(self) == *old(self),
            old(self).refusal(chunk) is None && r is Ok ==> old(self).extended(
                final(self),
                chunk.bytes@,
            ) && exists|b: &[u8], done: Result<(), String>|
                b@ == chunk.bytes@ && done is Ok && #[trigger] write.ensures((b,), done),
            old(self).refusal(chunk) is None && r is Err ==> *final(self) == *old(self) && exists|
                b: &[u8],
                e: String,
            |
                b@ == chunk.bytes@ && r->Err_0 == ChunkReceiverError::Io(e)
                    && #[trigger] write.ensures((b,), Err(e)),
    {
        let whole = chunk.checksum.matches(chunk.bytes.as_slice());
        self.push_checked(chunk, whole, write)
    }

    /// Takes the next chunk, of which it is known whether its checksum holds.
    /// `write` is called as for [`push`](Self::push).
    pub fn push_checked<W: FnOnce(&[u8]) -> Result<(), String>>(
        &mut self,
        chunk: Chunk,
        whole: bool,
        write: W,
    ) -> (r: Result<(), ChunkReceiverError>)
        requires
            old(self).well_formed(),
            old(self).chunks_taken() < u64::MAX,
            old(self).received().len() + chunk.bytes@.len() <= u64::MAX || (
            old(self).spec_max_size() matches Some(max) && max < u64::MAX),
            old(self).refusal_of(chunk, whole) is None ==> forall|b: &[u8]|
                b@ == chunk.bytes@ ==> #[trigger] write.requires((b,)),
        ensures
            final(self).well_formed(),
            old(self).refusal_of(chunk, whole) matches Some(e) ==> r == Err::<(), ChunkReceiverError>(e)
                && *final(self) == *old(self),
            old(self).refusal_of(chunk, whole) is None && r is Ok ==> old(self).extended(
                final(self),
                chunk.bytes@,
            ) && exists|b: &[u8], done: Result<(), String>|
                b@ == chunk.bytes@ && done is Ok && #[trigger] write.ensures((b,), done),
            old(self).refusal_of(chunk, whole) is None && r is Err ==> *final(self) == *old(self) && exists|
                b: &[u8],
                e: String,
            |
                b@ == chunk.bytes@ && r->Err_0 == ChunkReceiverError::Io(e)
                    && #[trigger] write.ensures((b,), Err(e)),
    {
        if self.finished {
            return Err(ChunkReceiverError::Finished);
        }
        if chunk.index < self.next_index {
            return Err(ChunkReceiverError::DuplicateChunk { index: chunk.index });
        }
        if chunk.index > self.next_index {
            return Err(
                ChunkReceiverError::OutOfOrder {
                    index: chunk.index,
                    expected_index: self.next_index,
                },
            );
        }
        if chunk.offset != self.next_offset {
            return Err(
                ChunkReceiverError::UnexpectedOffset {
                    index: chunk.index,
                    offset: chunk.offset,
                    expected_offset: self.next_offset,
                },
            );
        }
        let len: u64 = chunk.bytes.len() as u64;
        let size: u64 = self.next_offset.saturating_add(len);
        if let Some(max_size) = self.max_size {
            if size > max_size {
                return Err(ChunkReceiverError::FileTooLarge { size, max_size });
            }
        }
        if !whole {
            return Err(ChunkReceiverError::CorruptChunk { index: chunk.index });
        }
        let bytes = chunk.bytes.as_slice();
        let written = write(bytes);
        match written {
            Ok(()) => {
                assert(write.ensures((bytes,), written));
                outside::blake3_update(&mut self.hasher, bytes);
                self.next_index = self.next_index + 1;
                self.next_offset = size;
                Ok(())
            },
            Err(e) => {
                assert(write.ensures((bytes,), Err(e)));
                Err(ChunkReceiverError::Io(e))
            },
        }
    }

    /// Why a file is not finished, if it is not.
    pub open spec fn finish_refusal(
        &self,
        expected_size: Option<u64>,
        expected_digest: Option<Seq<u8>>,
    ) -> Option<ChunkReceiverError> {
        if self.is_finished() {
            Some(ChunkReceiverError::Finished)
        } else if expected_size matches Some(size) && size != self.received().len() {
            Some(ChunkReceiverError::SizeMismatch)
        } else if expected_digest matches Some(digest) && digest != outside::blake3_digest(
            self.received(),
        ) {
            Some(ChunkReceiverError::DigestMismatch)
        } else {
            None
        }
    }

    /// Ends the transfer: the file is complete if it has the expected size and
    /// digest.
    pub fn finish(self, expected_size: Option<u64>, expected_digest: Option<&[u8]>) -> (r: Result<
        ReceivedFile,
        ChunkReceiverError,
    >)
        requires
            self.well_formed(),
        ensures
            match self.finish_refusal(
                expected_size,
                match expected_digest {
                    Some(d) => Some(d@),
                    None => None,
                },
            ) {
                Some(e) => r == Err::<ReceivedFile, ChunkReceiverError>(e),
                None => r matches Ok(file) && file.temp_path@ == self.spec_temp_path()
                    && file.final_path@ == self.spec_final_path(),
            },
    {
        if self.finished {
            return Err(ChunkReceiverError::Finished);
        }
        if let Some(size) = expected_size {
            if size != self.next_offset {
                return Err(ChunkReceiverError::SizeMismatch);
            }
        }
        if let Some(expected) = expected_digest {
            let digest = outside::blake3_finalize(&self.hasher);
            if !same_bytes(expected, digest.as_slice()) {
                return Err(ChunkReceiverError::DigestMismatch);
            }
        }
        Ok(ReceivedFile { temp_path: self.temp_path, final_path: self.final_path })
    }

    /// Takes no more chunks.
    pub fn close(&mut self)
        requires
            old(self).well_formed(),
        ensures
            final(self).well_formed(),
            final(self).is_finished(),
            final(self).received() == old(self).received(),
            final(self).chunks_taken() == old(self).chunks_taken(),
            final(self).spec_max_size() == old(self).spec_max_size(),
            final(self).spec_final_path() == old(self).spec_final_path(),
            final(self).spec_temp_path() == old(self).spec_temp_path(),
    {
        self.finished = true;
    }
}

/// A complete file that is still where it was received.
#[derive(Debug, PartialEq, Eq)]
pub struct ReceivedFile {
    pub temp_path: String,
    pub final_path: String,
}

impl ReceivedFile {
    /// The directory that has to be there before the file is moved.
    pub fn final_dir(&self) -> (r: Option<String>)
        ensures
            match r {
                Some(dir) => path::parent(self.final_path@) == Some(dir@),
                None => path::parent(self.final_path@) is None,
            },
    {
        path::path_parent(self.final_path.as_str())
    }

    /// Where the file is moved to, unless something is there.
    pub fn place(self, destination_exists: bool) -> (r: Result<String, ChunkReceiverError>)
        ensures
            r == (if destination_exists {
                Err::<String, ChunkReceiverError>(ChunkReceiverError::DestinationExists)
            } else {
                Ok(self.final_path)
            }),
    {
        if destination_exists {
            Err(ChunkReceiverError::DestinationExists)
        } else {
            Ok(self.final_path)
        }
    }
}

/// The bytes of chunks, one behind the other.
pub open spec fn all_bytes(chunks: Seq<Chunk>) -> Seq<u8>
    decreases chunks.len(),
{
    if chunks.len() == 0 {
        Seq::empty()
    } else {
        all_bytes(chunks.drop_last()) + chunks.last().bytes@
    }
}

/// Whether a receiver went from one state to the next by taking each chunk.
pub open spec fn takes_all(states: Seq<ChunkReceiver>, chunks: Seq<Chunk>) -> bool {
    &&& states.len() == chunks.len() + 1
    &&& states[0].received() == Seq::<u8>::empty()
    &&& states[0].chunks_taken() == 0
    &&& forall|i: int|
        0 <= i < chunks.len() ==> {
            &&& (#[trigger] states[i]).refusal(chunks[i]) is None
            &&& states[i].extended(&states[i + 1], chunks[i].bytes@)
        }
}

/// What was received after any number of chunks is the file: the bytes of the
/// chunks in the order of their indices, without gaps and without repeats.
pub proof fn law_received_is_concatenation(states: Seq<ChunkReceiver>, chunks: Seq<Chunk>)
    requires
        takes_all(states, chunks),
    ensures
        states.last().received() == all_bytes(chunks),
        states.last().chunks_taken() == chunks.len(),
        forall|i: int| 0 <= i < chunks.len() ==> (#[trigger] chunks[i]).index == i,
        forall|i: int|
            0 <= i < chunks.len() ==> (#[trigger] chunks[i]).offset == all_bytes(
                chunks.take(i),
            ).len(),
    decreases chunks.len(),
{
    if chunks.len() > 0 {
        let n = chunks.len() - 1;
        let s = states.drop_last();
        let c = chunks.drop_last();
        assert forall|i: int| 0 <= i < c.len() implies {
            &&& (#[trigger] s[i]).refusal(c[i]) is None
            &&& s[i].extended(&s[i + 1], c[i].bytes@)
        } by {
            assert(s[i] == states[i]);
            assert(s[i + 1] == states[i + 1]);
            assert(c[i] == chunks[i]);
            assert(states[i].refusal(chunks[i]) is None);
        }
        law_received_is_concatenation(s, c);
        assert(s.last() == states[n]);
        assert(states[n].refusal(chunks[n]) is None);
        assert(states[n + 1] == states.last());
        assert forall|i: int| 0 <= i < chunks.len() implies (#[trigger] chunks[i]).index == i
            && chunks[i].offset == all_bytes(chunks.take(i)).len() by {
            if i < n {
                assert(c[i] == chunks[i]);
                assert(c.take(i) =~= chunks.take(i));
            } else {
                assert(chunks.take(n) =~= c);
            }
        }
    } else {
        assert(states.last() == states[0]);
    }
}

/// A file that is finished with an expected digest and size holds bytes of
/// that digest and size.
pub proof fn law_finished_file_checks_out(
    receiver: ChunkReceiver,
    expected_size: u64,
    expected_digest: Seq<u8>,
)
    ensures
        receiver.finish_refusal(Some(expected_size), Some(expected_digest)) is None ==> {
            &&& receiver.received().len() == expected_size
            &&& outside::blake3_digest(receiver.received()) == expected_digest
        },
{
}

/// A chunk is taken exactly where it is the next one, starts where the file
/// ends, keeps it within its limit, and is whole; a receiver that has finished
/// takes none. A chunk that came before, one that comes too early, and one that
/// is damaged are told apart.
pub proof fn law_chunk_taken_iff(receiver: ChunkReceiver, chunk: Chunk)
    requires
        receiver.well_formed(),
        receiver.received().len() + chunk.bytes@.len() <= u64::MAX,
    ensures
        receiver.refusal(chunk) is None <==> {
            &&& !receiver.is_finished()
            &&& chunk.index == receiver.chunks_taken()
            &&& chunk.offset == receiver.received().len()
            &&& receiver.spec_max_size() is Some ==> receiver.received().len() + chunk.bytes@.len()
                <= receiver.spec_max_size()->0
            &&& checks_out(chunk.checksum, chunk.bytes@)
        },
        receiver.refusal(chunk) == Some(ChunkReceiverError::Finished) <==> receiver.is_finished(),
        !receiver.is_finished() ==> (receiver.refusal(chunk) == Some(
            (ChunkReceiverError::DuplicateChunk { index: chunk.index }),
        ) <==> chunk.index < receiver.chunks_taken()),
        !receiver.is_finished() ==> (receiver.refusal(chunk) == Some(
            (ChunkReceiverError::OutOfOrder {
                index: chunk.index,
                expected_index: receiver.chunks_taken(),
            }),
        ) <==> chunk.index > receiver.chunks_taken()),
        receiver.refusal(chunk) == Some(
            (ChunkReceiverError::CorruptChunk { index: chunk.index }),
        ) ==> !checks_out(chunk.checksum, chunk.bytes@),
{
}

/// A file is refused at its end exactly where it has finished before, or where
/// its size or its digest is not the one that is expected.
pub proof fn law_finish_refused_iff(
    receiver: ChunkReceiver,
    size: Option<u64>,
    digest: Option<Seq<u8>>,
)
    ensures
        receiver.finish_refusal(size, digest) is None <==> {
            &&& !receiver.is_finished()
            &&& size is Some ==> size->0 == receiver.received().len()
            &&& digest is Some ==> digest->0 == outside::blake3_digest(receiver.received())
        },
        receiver.finish_refusal(size, digest) == Some(ChunkReceiverError::SizeMismatch)
            <==> !receiver.is_finished() && size is Some && size->0 != receiver.received().len(),
{
}

/// Two parts that one process receives have different names.
pub proof fn law_part_names_distinct(pid: u32, a: u64, b: u64)
    requires
        part_name(pid, a) == part_name(pid, b),
    ensures
        a == b,
{
    let front = ".ab-av1-worker-"@ + text::dec(pid as nat) + "-"@;
    let x = text::dec(a as nat);
    let y = text::dec(b as nat);
    let end = ".part"@;
    assert(part_name(pid, a) == front + x + end && part_name(pid, b) == front + y + end);
    assert((front + x + end).len() == front.len() + x.len() + end.len());
    assert((front + y + end).len() == front.len() + y.len() + end.len());
    assert(x.len() == y.len());
    assert(x =~= y) by {
        assert forall|i: int| 0 <= i < x.len() implies x[i] == y[i] by {
            assert((front + x + end)[front.len() + i] == x[i]);
            assert((front + y + end)[front.len() + i] == y[i]);
        }
    }
    text::law_dec_round_trip(a);
    text::law_dec_round_trip(b);
}

/// Bytes check out exactly where the checksum is the one that they have, of
/// either kind.
pub proof fn law_bytes_check_out_by_their_sum(sum: u64, digest: Vec<u8>, bytes: Seq<u8>)
    ensures
        checks_out(Checksum::Crc32(sum), bytes) <==> sum == outside::crc32_of(bytes),
        checks_out(Checksum::Blake3(digest), bytes) <==> outside::blake3_digest(bytes) == digest@,
{
}

} // verus!
