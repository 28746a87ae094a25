//! A job whose input is on its way.
use crate::command::sample_encode::result::Fraction;
use crate::command::worker::frames;
use crate::command::worker::frames::{ChunkView, FrameError, TransferChunk};
use crate::command::worker::job::WorkerJob;
use crate::command::worker_protocol::{
    CancelPayload, TransferProgressPayload, TransferStartedPayload,
};
use crate::command::worker_transfer;
use crate::command::worker_transfer::{
    Checksum, Chunk, ChunkReceiver, ChunkReceiverError, ReceivedFile,
};
use crate::float::Double;
use crate::path;
use crate::text;
use vstd::prelude::*;

verus! {

broadcast use vstd::string::group_string_axioms;

/// What came of waiting for an input.
#[derive(Debug, Clone, Copy, PartialEq, Eq, Structural)]
pub enum PendingJobOutcome {
    Waiting,
    Ready,
    Canceled,
}

/// A job whose input is on its way, and what was received of it.
pub struct PendingJob {
    pub job: WorkerJob,
    pub receiver: Option<ChunkReceiver>,
}

/// Why a part of an input was not taken, or an input not finished.
#[allow(inconsistent_fields)]
#[derive(Debug, PartialEq, Eq)]
pub enum PendingError {
    Job { expected: String, got: String },
    Video { expected: u64, got: u64 },
    Size { expected: u64, got: u64 },
    Cumulative { index: u64, sent: u64, got: u64 },
    Receiver(ChunkReceiverError),
    MissingReceiver,
    Finalize(ChunkReceiverError),
}

impl PendingError {
    /// What went wrong.
    pub open spec fn text(self) -> Seq<char> {
        match self {
            PendingError::Job { expected, got } => "chunk transfer job mismatch: expected "@
                + expected@ + ", got "@ + got@,
            PendingError::Video { expected, got } => "chunk transfer video mismatch: expected "@
                + text::dec(expected as nat) + ", got "@ + text::dec(got as nat),
            PendingError::Size { expected, got } => "chunk transfer size mismatch: expected "@
                + text::dec(expected as nat) + ", got "@ + text::dec(got as nat),
            PendingError::Cumulative { index, sent, got } => "chunk "@ + text::dec(index as nat)
                + " size mismatch: expected cumulative "@ + text::dec(sent as nat) + ", got "@
                + text::dec(got as nat),
            PendingError::Receiver(e) => e.text(),
            PendingError::MissingReceiver => "missing chunk receiver"@,
            PendingError::Finalize(_) => "finalize worker input transfer"@,
        }
    }

    /// What went wrong.
    pub fn message(&self) -> (r: String)
        ensures
            r@ == self.text(),
    {
        match self {
            Self::Job { expected, got } => text::cat4(
                "chunk transfer job mismatch: expected ",
                expected.as_str(),
                ", got ",
                got.as_str(),
            ),
            Self::Video { expected, got } => text::cat4(
                "chunk transfer video mismatch: expected ",
                text::dec_string(*expected).as_str(),
                ", got ",
                text::dec_string(*got).as_str(),
            ),
            Self::Size { expected, got } => text::cat4(
                "chunk transfer size mismatch: expected ",
                text::dec_string(*expected).as_str(),
                ", got ",
                text::dec_string(*got).as_str(),
            ),
            Self::Cumulative { index, sent, got } => {
                let mut out = text::cat4(
                    "chunk ",
                    text::dec_string(*index).as_str(),
                    " size mismatch: expected cumulative ",
                    text::dec_string(*sent).as_str(),
                );
                out.append(", got ");
                out.append(text::dec_string(*got).as_str());
                out
            },
            Self::Receiver(e) => e.message(),
            Self::MissingReceiver => "missing chunk receiver".to_owned(),
            Self::Finalize(_) => "finalize worker input transfer".to_owned(),
        }
    }
}

impl PendingJob {
    /// What was received of the input.
    pub open spec fn received(self) -> Seq<u8> {
        match self.receiver {
            Some(r) => r.received(),
            None => Seq::empty(),
        }
    }

    /// The number of parts that were taken.
    pub open spec fn taken(self) -> u64 {
        match self.receiver {
            Some(r) => r.chunks_taken(),
            None => 0,
        }
    }

    /// What is received goes to the job's input, which is no larger than the
    /// job says.
    pub open spec fn wf(self) -> bool {
        self.receiver matches Some(r) ==> {
            &&& r.well_formed()
            &&& !r.is_finished()
            &&& r.spec_final_path() == self.job.input_path@
            &&& r.spec_max_size() == Some(self.job.assignment.size_bytes)
        }
    }

    /// Whether the input is received into the file that it was received into
    /// before, or else into a new one of the process beside the input.
    pub open spec fn keeps_part(self, after: Self, pid: u32) -> bool {
        match (self.receiver, after.receiver) {
            (Some(before), Some(now)) => now.spec_temp_path() == before.spec_temp_path(),
            (Some(_), None) => false,
            (None, Some(now)) => exists|n: u64|
                now.spec_temp_path() == path::joined(
                    self.job.input_dir@,
                    #[trigger] worker_transfer::part_name(pid, n),
                ),
            (None, None) => true,
        }
    }

    /// Whether `file` is the one that the input is received into or, where
    /// nothing is received yet, a new one of the process beside the input.
    pub open spec fn own_file(self, file: Seq<char>, pid: u32) -> bool {
        match self.receiver {
            Some(rec) => file == rec.spec_temp_path(),
            None => exists|n: u64|
                file == path::joined(
                    self.job.input_dir@,
                    #[trigger] worker_transfer::part_name(pid, n),
                ),
        }
    }

    /// A job of whose input nothing was received.
    pub fn waiting(job: WorkerJob) -> (r: Self)
        ensures
            r.wf(),
            r.job == job,
            r.receiver is None,
    {
        Self { job, receiver: None }
    }

    /// Gets ready to receive the input, into a new file beside it.
    pub fn ensure_receiver(&mut self, pid: u32)
        requires
            old(self).wf(),
        ensures
            final(self).wf(),
            final(self).job == old(self).job,
            final(self).received() == old(self).received(),
            final(self).taken() == old(self).taken(),
            final(self).receiver is Some,
            old(self).keeps_part(*final(self), pid),
            old(self).receiver is Some ==> *final(self) == *old(self),
    {
        if self.receiver.is_some() {
            return ;
        }
        let name = worker_transfer::new_part_file_name(pid);
        let temp_path = path::path_join(self.job.input_dir.as_str(), name.as_str());
        self.receiver = Some(
            ChunkReceiver::new(
                self.job.input_path.clone(),
                temp_path,
                Some(self.job.assignment.size_bytes),
            ),
        );
        assert(self.received() =~= old(self).received());
    }

    /// Why a part of an input is not even looked at, if it is not.
    pub open spec fn mismatch(self, chunk: TransferChunk) -> Option<PendingError> {
        if chunk.transfer_id@ != self.job.assignment.job_id@ {
            Some(
                PendingError::Job {
                    expected: self.job.assignment.job_id,
                    got: chunk.transfer_id,
                },
            )
        } else {
            self.misfit(chunk@)
        }
    }

    /// Why a part that is sent for the job is not even looked at, if it is not:
    /// it is of another video or of an input of another size, or what was
    /// received does not lead up to it.
    pub open spec fn misfit(self, c: ChunkView) -> Option<PendingError> {
        let got = worker_transfer::saturating_sum(
            self.received().len() as int,
            c.bytes.len() as int,
        ) as u64;
        if c.video_id != self.job.assignment.video_id {
            Some(
                PendingError::Video { expected: self.job.assignment.video_id, got: c.video_id },
            )
        } else if c.total_bytes != self.job.assignment.size_bytes {
            Some(
                PendingError::Size {
                    expected: self.job.assignment.size_bytes,
                    got: c.total_bytes,
                },
            )
        } else if got != c.bytes_sent {
            Some(PendingError::Cumulative { index: c.chunk_index, sent: c.bytes_sent, got })
        } else {
            None
        }
    }

    /// Why a part of an input that fits to the job is not taken, if it is not:
    /// it is not the next one, the input would get too large, or its checksum
    /// is wrong.
    pub open spec fn refusal(self, c: ChunkView) -> Option<ChunkReceiverError> {
        let size = worker_transfer::saturating_sum(
            self.received().len() as int,
            c.bytes.len() as int,
        );
        if c.chunk_index < self.taken() {
            Some(ChunkReceiverError::DuplicateChunk { index: c.chunk_index })
        } else if c.chunk_index > self.taken() {
            Some(
                ChunkReceiverError::OutOfOrder {
                    index: c.chunk_index,
                    expected_index: self.taken(),
                },
            )
        } else if size > self.job.assignment.size_bytes {
            Some(
                ChunkReceiverError::FileTooLarge {
                    size: size as u64,
                    max_size: self.job.assignment.size_bytes,
                },
            )
        } else if !worker_transfer::checks_out(Checksum::Crc32(c.crc32), c.bytes) {
            Some(ChunkReceiverError::CorruptChunk { index: c.chunk_index })
        } else {
            None
        }
    }

    /// Whether `write` can be called for a part of the input, where it is one
    /// that is taken: with the file that is received and the part's bytes. A
    /// part that is refused is not written at all.
    pub open spec fn writable<W: FnOnce(&str, &[u8]) -> Result<(), String>>(
        self,
        c: ChunkView,
        pid: u32,
        write: W,
    ) -> bool {
        self.misfit(c) is None && self.refusal(c) is None ==> forall|p: &str, b: &[u8]|
            self.own_file(p@, pid) && b@ == c.bytes ==> #[trigger] write.requires((p, b))
    }

    /// Whether `write` can be called for a frame of binary data, where it holds a
    /// part of this job's input.
    pub open spec fn binary_writable<W: FnOnce(&str, &[u8]) -> Result<(), String>>(
        self,
        bytes: Seq<u8>,
        pid: u32,
        write: W,
    ) -> bool {
        match frames::decoded_push(bytes) {
            Ok(Some(c)) => c.transfer_id == self.job.assignment.job_id@ ==> self.writable(
                c,
                pid,
                write,
            ),
            _ => true,
        }
    }

    /// Whether `write` was called with the file that is received and `bytes`,
    /// and came to `done`.
    pub open spec fn written<W: FnOnce(&str, &[u8]) -> Result<(), String>>(
        self,
        write: W,
        bytes: Seq<u8>,
        done: Result<(), String>,
    ) -> bool {
        self.receiver matches Some(rec) && exists|p: &str, b: &[u8]|
            p@ == rec.spec_temp_path() && b@ == bytes && #[trigger] write.ensures((p, b), done)
    }

    /// Whether a part was taken: its bytes were written and stand behind those
    /// received before.
    pub open spec fn took<W: FnOnce(&str, &[u8]) -> Result<(), String>>(
        self,
        after: Self,
        c: ChunkView,
        write: W,
    ) -> bool {
        &&& after.received() == self.received() + c.bytes
        &&& after.received().len() == c.bytes_sent
        &&& c.bytes_sent <= self.job.assignment.size_bytes
        &&& after.taken() == self.taken() + 1
        &&& exists|done: Result<(), String>|
            done is Ok && #[trigger] after.written(write, c.bytes, done)
    }

    /// Takes the next part of the input. `write` appends bytes to the file that
    /// is received; `pid` is the process. What does not fit to the job or to
    /// what was received is not written, and changes nothing of what was
    /// received.
    pub fn apply_raw_chunk<W: FnOnce(&str, &[u8]) -> Result<(), String>>(
        &mut self,
        chunk: TransferChunk,
        pid: u32,
        write: W,
    ) -> (r: Result<(), PendingError>)
        requires
            old(self).wf(),
            old(self).taken() < u64::MAX,
            old(self).job.assignment.size_bytes < u64::MAX,
            old(self).mismatch(chunk) is None ==> old(self).writable(chunk@, pid, write),
        ensures
            final(self).wf(),
            final(self).job == old(self).job,
            old(self).keeps_part(*final(self), pid),
            match old(self).mismatch(chunk) {
                Some(e) => r == Err::<(), PendingError>(e),
                None => match old(self).refusal(chunk@) {
                    Some(e) => r == Err::<(), PendingError>(PendingError::Receiver(e)),
                    None => match r {
                        Ok(_) => old(self).took(*final(self), chunk@, write),
                        Err(PendingError::Receiver(ChunkReceiverError::Io(e))) =>
                            final(self).written(write, chunk.bytes@, Err(e)),
                        _ => false,
                    },
                },
            },
            r is Err ==> final(self).received() == old(self).received() && final(self).taken()
                == old(self).taken(),
    {
        if !text::same(chunk.transfer_id.as_str(), self.job.assignment.job_id.as_str()) {
            return Err(
                PendingError::Job {
                    expected: self.job.assignment.job_id.clone(),
                    got: chunk.transfer_id,
                },
            );
        }
        if chunk.video_id != self.job.assignment.video_id {
            return Err(
                PendingError::Video {
                    expected: self.job.assignment.video_id,
                    got: chunk.video_id,
                },
            );
        }
        if chunk.total_bytes != self.job.assignment.size_bytes {
            return Err(
                PendingError::Size {
                    expected: self.job.assignment.size_bytes,
                    got: chunk.total_bytes,
                },
            );
        }
        self.ensure_receiver(pid);
        let mut receiver = match self.receiver.take() {
            Some(receiver) => receiver,
            None => return Err(PendingError::MissingReceiver),
        };
        let offset: u64 = receiver.received_bytes();
        let got: u64 = offset.saturating_add(chunk.bytes.len() as u64);
        if got != chunk.bytes_sent {
            self.receiver = Some(receiver);
            return Err(
                PendingError::Cumulative { index: chunk.chunk_index, sent: chunk.bytes_sent, got },
            );
        }
        let temp_path = receiver.temp_path().to_owned();
        let part = Chunk {
            index: chunk.chunk_index,
            offset,
            bytes: chunk.bytes,
            checksum: Checksum::Crc32(chunk.crc32),
        };
        let append = |b: &[u8]| -> (done: Result<(), String>)
            requires
                forall|p: &str| p@ == temp_path@ ==> #[trigger] write.requires((p, b)),
            ensures
                exists|p: &str| p@ == temp_path@ && #[trigger] write.ensures((p, b), done),
            {
                let p = temp_path.as_str();
                let done = write(p, b);
                assert(write.ensures((p, b), done));
                done
            };
        let pushed = receiver.push(part, append);
        self.receiver = Some(receiver);
        match pushed {
            Ok(_) => {
                proof {
                    let (b, done) = choose|b: &[u8], done: Result<(), String>|
                        b@ == part.bytes@ && done is Ok && #[trigger] append.ensures((b,), done);
                    let p = choose|p: &str|
                        p@ == temp_path@ && #[trigger] write.ensures((p, b), done);
                    assert(write.ensures((p, b), done));
                    assert(self.written(write, part.bytes@, done));
                }
                Ok(())
            },
            Err(e) => Err(PendingError::Receiver(e)),
        }
    }

    /// Whether the parts that were taken can be counted on.
    pub fn takes_parts(&self) -> (r: bool)
        ensures
            r == (self.taken() < u64::MAX),
    {
        match &self.receiver {
            Some(receiver) => receiver.taken_chunks() < u64::MAX,
            None => true,
        }
    }

    /// Whether all of the input was received.
    pub fn is_complete(&self) -> (r: bool)
        requires
            self.wf(),
        ensures
            r == (self.receiver is Some && self.received().len()
                == self.job.assignment.size_bytes),
    {
        match &self.receiver {
            Some(receiver) => receiver.received_bytes() == self.job.assignment.size_bytes,
            None => false,
        }
    }

    /// The number of bytes that a report names: those received, or all where
    /// nothing is being received any more.
    pub fn reported_bytes(&self) -> (r: u64)
        requires
            self.wf(),
        ensures
            r == (match self.receiver {
                Some(rec) => rec.received().len() as int,
                None => self.job.assignment.size_bytes as int,
            }),
    {
        match &self.receiver {
            Some(receiver) => receiver.received_bytes(),
            None => self.job.assignment.size_bytes,
        }
    }

    /// How far the transfer has come after so many seconds. `percent` is the
    /// received part in percent.
    pub fn transfer_progress_payload(
        &self,
        chunk_index: u64,
        total_chunks: u64,
        elapsed_secs: u64,
        percent: Double,
    ) -> (r: TransferProgressPayload)
        requires
            self.wf(),
        ensures
            r.job_id == self.job.assignment.job_id,
            r.filename == self.job.assignment.source_name,
            r.video_id == self.job.assignment.video_id,
            r.chunk_index == chunk_index,
            r.total_chunks == total_chunks,
            r.percent == percent,
            progress_is(
                r,
                match self.receiver {
                    Some(rec) => rec.received().len() as u64,
                    None => self.job.assignment.size_bytes,
                },
                self.job.assignment.size_bytes,
                elapsed_secs,
            ),
    {
        let received: u64 = self.reported_bytes();
        let progress = http_transfer_progress_payload(&self.job, received, elapsed_secs, percent);
        TransferProgressPayload { chunk_index, total_chunks, ..progress }
    }

    /// Why an input cannot be finished, if it cannot: none is being received, or
    /// it does not have the size that the job names.
    pub open spec fn finish_error(self) -> Option<PendingError> {
        match self.receiver {
            None => Some(PendingError::MissingReceiver),
            Some(rec) => if rec.received().len() != self.job.assignment.size_bytes {
                Some(PendingError::Finalize(ChunkReceiverError::SizeMismatch))
            } else {
                None
            },
        }
    }

    /// The input is complete: it is still where it was received.
    pub fn finish(&mut self) -> (r: Result<ReceivedFile, PendingError>)
        requires
            old(self).wf(),
        ensures
            final(self).receiver is None,
            final(self).job == old(self).job,
            match old(self).finish_error() {
                Some(e) => r == Err::<ReceivedFile, PendingError>(e),
                None => r matches Ok(file) && file.final_path@ == old(self).job.input_path@
                    && file.temp_path@ == old(self).receiver->0.spec_temp_path(),
            },
    {
        match self.receiver.take() {
            None => Err(PendingError::MissingReceiver),
            Some(receiver) => match receiver.finish(Some(self.job.assignment.size_bytes), None) {
                Ok(file) => Ok(file),
                Err(e) => Err(PendingError::Finalize(e)),
            },
        }
    }

    /// The server cancels a job: whether it is this one, and what is reported.
    pub fn on_cancel(&self, cancel: &CancelPayload) -> (r: (PendingJobOutcome, Option<String>))
        ensures
            if cancel.job_id@ == self.job.assignment.job_id@ {
                r.0 == PendingJobOutcome::Canceled && (r.1 matches Some(m) && m@ == cancel_text(
                    cancel.job_id@,
                    cancel.reason@,
                ))
            } else {
                r.0 == PendingJobOutcome::Waiting && r.1 is None
            },
    {
        if text::same(cancel.job_id.as_str(), self.job.assignment.job_id.as_str()) {
            (PendingJobOutcome::Canceled, Some(cancel_message(cancel)))
        } else {
            (PendingJobOutcome::Waiting, None)
        }
    }

    /// The server starts a transfer: gets ready if it is for this job.
    pub fn on_started(&mut self, started: &TransferStartedPayload, pid: u32)
        requires
            old(self).wf(),
        ensures
            final(self).wf(),
            final(self).job == old(self).job,
            final(self).received() == old(self).received(),
            final(self).taken() == old(self).taken(),
            old(self).keeps_part(*final(self), pid),
            started.transfer_id@ == old(self).job.assignment.job_id@ ==> final(self).receiver is Some,
            started.transfer_id@ != old(self).job.assignment.job_id@ || old(self).receiver is Some
                ==> *final(self) == *old(self),
    {
        if text::same(started.transfer_id.as_str(), self.job.assignment.job_id.as_str()) {
            self.ensure_receiver(pid);
        }
    }
}

/// What comes while an input is waited for: a message, its end, or nothing for
/// a while. Texts that are pushes for workers come with their bodies read.
#[derive(Debug, PartialEq, Eq)]
pub enum WaitFrame {
    Ping,
    Pong,
    Cancel(CancelPayload),
    Started(TransferStartedPayload),
    OtherText,
    Binary(Vec<u8>),
    Raw,
    Close(String),
    Failed,
    Ended,
    Idle,
}

/// What is to be done with what came.
#[derive(Debug, PartialEq, Eq)]
pub enum WaitStep {
    /// Nothing: the input is waited for.
    Waiting,
    /// A ping is answered.
    SendPong,
    /// A sign of life is sent.
    SendHeartbeat,
    /// The job is over, for this reason.
    Canceled(String),
    /// Progress is reported; then a complete input is finished.
    Progress { chunk_index: u64, total_chunks: u64, complete: bool },
}

/// Why waiting for an input fails.
#[derive(Debug, PartialEq, Eq)]
pub enum WaitError {
    Frame(FrameError),
    Pending(PendingError),
    Closed(String),
    Failed,
    Ended,
}

impl WaitError {
    /// What went wrong.
    pub open spec fn text(self) -> Seq<char> {
        match self {
            WaitError::Frame(e) => e.text(),
            WaitError::Pending(e) => e.text(),
            WaitError::Closed(frame) => "websocket closed while waiting for worker input: "@
                + frame@,
            WaitError::Failed => "read websocket message"@,
            WaitError::Ended => "websocket ended while waiting for worker input"@,
        }
    }

    /// What went wrong.
    pub fn message(&self) -> (r: String)
        ensures
            r@ == self.text(),
    {
        match self {
            Self::Frame(e) => e.message(),
            Self::Pending(e) => e.message(),
            Self::Closed(frame) => text::cat2(
                "websocket closed while waiting for worker input: ",
                frame.as_str(),
            ),
            Self::Failed => "read websocket message".to_owned(),
            Self::Ended => "websocket ended while waiting for worker input".to_owned(),
        }
    }
}

impl PendingJob {
    /// What comes of a frame of binary data. A part of the input that does not
    /// fit to the job or to what was received is refused and not taken; any
    /// other is written, and taken unless that fails.
    pub open spec fn binary_taken<W: FnOnce(&str, &[u8]) -> Result<(), String>>(
        self,
        after: Self,
        bytes: Seq<u8>,
        write: W,
        r: Result<WaitStep, WaitError>,
    ) -> bool {
        match frames::decoded_push(bytes) {
            Err(e) => after == self && (r matches Err(WaitError::Frame(f)) && f@ == e),
            Ok(None) => after == self && (r matches Ok(WaitStep::Waiting)),
            Ok(Some(c)) => if c.transfer_id != self.job.assignment.job_id@ {
                after == self && (r matches Ok(WaitStep::Waiting))
            } else {
                &&& r is Err ==> after.received() == self.received() && after.taken()
                    == self.taken()
                &&& match (self.misfit(c), self.refusal(c)) {
                    (Some(e), _) => r == Err::<WaitStep, WaitError>(WaitError::Pending(e)),
                    (None, Some(e)) => r == Err::<WaitStep, WaitError>(
                        WaitError::Pending(PendingError::Receiver(e)),
                    ),
                    (None, None) => match r {
                        Ok(step) => {
                            &&& step == (WaitStep::Progress {
                                chunk_index: c.chunk_index,
                                total_chunks: c.total_chunks,
                                complete: after.received().len()
                                    == self.job.assignment.size_bytes,
                            })
                            &&& self.took(after, c, write)
                            &&& worker_transfer::checks_out(Checksum::Crc32(c.crc32), c.bytes)
                        },
                        Err(
                            WaitError::Pending(PendingError::Receiver(ChunkReceiverError::Io(e))),
                        ) => after.written(write, c.bytes, Err(e)),
                        _ => false,
                    },
                }
            },
        }
    }

    fn on_binary<W: FnOnce(&str, &[u8]) -> Result<(), String>>(
        &mut self,
        bytes: &[u8],
        pid: u32,
        write: W,
    ) -> (r: Result<WaitStep, WaitError>)
        requires
            old(self).wf(),
            old(self).taken() < u64::MAX,
            old(self).job.assignment.size_bytes < u64::MAX,
            old(self).binary_writable(bytes@, pid, write),
        ensures
            final(self).wf(),
            final(self).job == old(self).job,
            old(self).keeps_part(*final(self), pid),
            old(self).binary_taken(*final(self), bytes@, write, r),
    {
        match frames::decode_binary_worker_push(bytes) {
            Err(e) => Err(WaitError::Frame(e)),
            Ok(None) => Ok(WaitStep::Waiting),
            Ok(Some(chunk)) => {
                if !text::same(chunk.transfer_id.as_str(), self.job.assignment.job_id.as_str()) {
                    return Ok(WaitStep::Waiting);
                }
                let chunk_index: u64 = chunk.chunk_index;
                let total_chunks: u64 = chunk.total_chunks;
                match self.apply_raw_chunk(chunk, pid, write) {
                    Ok(_) => Ok(
                        WaitStep::Progress {
                            chunk_index,
                            total_chunks,
                            complete: self.is_complete(),
                        },
                    ),
                    Err(e) => Err(WaitError::Pending(e)),
                }
            },
        }
    }

    /// Takes what came while the input is waited for. `write` appends bytes to
    /// the file that is received, which is done for the next part of the input
    /// and for nothing else; `pid` is the process.
    pub fn wait_for_pending_job<W: FnOnce(&str, &[u8]) -> Result<(), String>>(
        &mut self,
        frame: WaitFrame,
        pid: u32,
        write: W,
    ) -> (r: Result<WaitStep, WaitError>)
        requires
            old(self).wf(),
            old(self).taken() < u64::MAX,
            old(self).job.assignment.size_bytes < u64::MAX,
            frame matches WaitFrame::Binary(bytes) ==> old(self).binary_writable(
                bytes@,
                pid,
                write,
            ),
        ensures
            final(self).wf(),
            final(self).job == old(self).job,
            old(self).keeps_part(*final(self), pid),
            match frame {
                WaitFrame::Ping => *final(self) == *old(self) && (r matches Ok(WaitStep::SendPong)),
                WaitFrame::Pong => *final(self) == *old(self) && (r matches Ok(WaitStep::Waiting)),
                WaitFrame::OtherText => *final(self) == *old(self) && (r matches Ok(
                    WaitStep::Waiting,
                )),
                WaitFrame::Raw => *final(self) == *old(self) && (r matches Ok(WaitStep::Waiting)),
                WaitFrame::Idle => *final(self) == *old(self) && (r matches Ok(
                    WaitStep::SendHeartbeat,
                )),
                WaitFrame::Cancel(cancel) => *final(self) == *old(self) && (if cancel.job_id@
                    == old(self).job.assignment.job_id@ {
                    r matches Ok(WaitStep::Canceled(m)) && m@ == cancel_text(
                        cancel.job_id@,
                        cancel.reason@,
                    )
                } else {
                    r matches Ok(WaitStep::Waiting)
                }),
                WaitFrame::Started(started) => {
                    &&& r matches Ok(WaitStep::Waiting)
                    &&& final(self).received() == old(self).received()
                    &&& final(self).taken() == old(self).taken()
                    &&& started.transfer_id@ == old(self).job.assignment.job_id@ ==> final(self).receiver is Some
                    &&& started.transfer_id@ != old(self).job.assignment.job_id@
                        || old(self).receiver is Some ==> *final(self) == *old(self)
                },
                WaitFrame::Binary(bytes) => old(self).binary_taken(*final(self), bytes@, write, r),
                WaitFrame::Close(f) => *final(self) == *old(self) && (r matches Err(
                    WaitError::Closed(g),
                ) && g == f),
                WaitFrame::Failed => *final(self) == *old(self) && (r matches Err(
                    WaitError::Failed,
                )),
                WaitFrame::Ended => *final(self) == *old(self) && (r matches Err(WaitError::Ended)),
            },
    {
        match frame {
            WaitFrame::Ping => Ok(WaitStep::SendPong),
            WaitFrame::Pong => Ok(WaitStep::Waiting),
            WaitFrame::OtherText => Ok(WaitStep::Waiting),
            WaitFrame::Raw => Ok(WaitStep::Waiting),
            WaitFrame::Idle => Ok(WaitStep::SendHeartbeat),
            WaitFrame::Cancel(cancel) => match self.on_cancel(&cancel).1 {
                Some(reason) => Ok(WaitStep::Canceled(reason)),
                None => Ok(WaitStep::Waiting),
            },
            WaitFrame::Started(started) => {
                self.on_started(&started, pid);
                Ok(WaitStep::Waiting)
            },
            WaitFrame::Binary(bytes) => self.on_binary(bytes.as_slice(), pid, write),
            WaitFrame::Close(f) => Err(WaitError::Closed(f)),
            WaitFrame::Failed => Err(WaitError::Failed),
            WaitFrame::Ended => Err(WaitError::Ended),
        }
    }
}

/// What is reported of a job that the server cancels.
pub open spec fn cancel_text(job_id: Seq<char>, reason: Seq<char>) -> Seq<char> {
    "worker job "@ + job_id + " canceled: "@ + reason
}

/// What is reported of a job that the server cancels.
pub fn cancel_message(cancel: &CancelPayload) -> (r: String)
    ensures
        r@ == cancel_text(cancel.job_id@, cancel.reason@),
{
    text::cat4("worker job ", cancel.job_id.as_str(), " canceled: ", cancel.reason.as_str())
}

/// The received part of an input. `None` stands for all of an empty one.
pub fn transfer_fraction(received: u64, expected: u64) -> (r: Option<Fraction>)
    ensures
        r == (if expected == 0 {
            None
        } else {
            Some(Fraction { part: received, whole: expected })
        }),
{
    if expected == 0 {
        None
    } else {
        Some(Fraction { part: received, whole: expected })
    }
}

/// Whether a report has the numbers of a transfer: bytes per second over the
/// time, one second at least, and the time that the rest takes at that speed.
pub open spec fn progress_is(
    p: TransferProgressPayload,
    received: u64,
    expected: u64,
    elapsed_secs: u64,
) -> bool {
    let elapsed: u64 = if elapsed_secs == 0 {
        1
    } else {
        elapsed_secs
    };
    let speed: u64 = received / elapsed;
    let rest: u64 = if received >= expected {
        0
    } else {
        (expected - received) as u64
    };
    &&& p.transfer_id@ == p.job_id@
    &&& p.received_bytes == received
    &&& p.expected_bytes == Some(expected)
    &&& p.bytes_per_second == speed
    &&& p.eta == (if speed > 0 {
        Some(rest / speed)
    } else {
        None
    })
}

/// How far the download of an input has come after so many seconds. `percent`
/// is the received part in percent.
pub fn http_transfer_progress_payload(
    job: &WorkerJob,
    received_bytes: u64,
    elapsed_secs: u64,
    percent: Double,
) -> (r: TransferProgressPayload)
    ensures
        r.job_id == job.assignment.job_id,
        r.filename == job.assignment.source_name,
        r.video_id == job.assignment.video_id,
        r.chunk_index == 0,
        r.total_chunks == 0,
        r.percent == percent,
        progress_is(r, received_bytes, job.assignment.size_bytes, elapsed_secs),
{
    let expected_size: u64 = job.assignment.size_bytes;
    let elapsed: u64 = if elapsed_secs == 0 {
        1
    } else {
        elapsed_secs
    };
    let bytes_per_second: u64 = received_bytes / elapsed;
    let remaining_bytes: u64 = if received_bytes >= expected_size {
        0
    } else {
        expected_size - received_bytes
    };
    let eta = if bytes_per_second > 0 {
        Some(remaining_bytes / bytes_per_second)
    } else {
        None
    };
    TransferProgressPayload {
        job_id: job.assignment.job_id.clone(),
        transfer_id: job.assignment.job_id.clone(),
        video_id: job.assignment.video_id,
        filename: job.assignment.source_name.clone(),
        received_bytes,
        expected_bytes: Some(expected_size),
        percent,
        bytes_per_second,
        eta,
        chunk_index: 0,
        total_chunks: 0,
    }
}

/// What is to be done to download an input.
#[derive(Debug, PartialEq, Eq)]
pub enum DownloadStart {
    /// Nothing: the server does not offer the input for download.
    NotOffered,
    /// Nothing: the input is there.
    Present,
    /// Download to this file beside the input, then move it there.
    Fetch { part_path: String },
}

/// What is to be done to download an input, by whether it is there.
pub fn download_worker_input(job: &WorkerJob, present: bool) -> (r: Result<DownloadStart, String>)
    ensures
        if job.assignment.transfer is None {
            r matches Ok(DownloadStart::NotOffered)
        } else if present {
            r matches Ok(DownloadStart::Present)
        } else {
            match (path::parent(job.input_path@), r) {
                (Some(dir), Ok(DownloadStart::Fetch { part_path })) => part_path@ == path::joined(
                    dir,
                    ".ab-av1-http.part"@,
                ),
                (None, Err(e)) => e@ == "worker input has no parent: "@ + job.input_path@,
                _ => false,
            }
        },
{
    if job.assignment.transfer.is_none() {
        return Ok(DownloadStart::NotOffered);
    }
    if present {
        return Ok(DownloadStart::Present);
    }
    match http_part_path(job.input_path.as_str()) {
        Ok(part_path) => Ok(DownloadStart::Fetch { part_path }),
        Err(e) => Err(e),
    }
}

/// The name of a file that is being downloaded.
fn http_part_path(input_path: &str) -> (r: Result<String, String>)
    ensures
        match (path::parent(input_path@), r) {
            (Some(dir), Ok(p)) => p@ == path::joined(dir, ".ab-av1-http.part"@),
            (None, Err(e)) => e@ == "worker input has no parent: "@ + input_path@,
            _ => false,
        },
{
    match path::path_parent(input_path) {
        Some(dir) => Ok(path::path_join(dir.as_str(), ".ab-av1-http.part")),
        None => Err(text::cat2("worker input has no parent: ", input_path)),
    }
}

/// Whether a download has brought all of the input. Any length will do where
/// the job names none.
pub fn check_download(job_id: &str, bytes: u64, expected_size: u64) -> (r: Result<u64, String>)
    ensures
        match r {
            Ok(n) => n == bytes && (expected_size == 0 || bytes == expected_size),
            Err(e) => expected_size > 0 && bytes != expected_size && e@
                == "HTTP input download for job "@ + job_id@ + " wrote "@ + text::dec(bytes as nat)
                + " bytes, expected "@ + text::dec(expected_size as nat),
        },
{
    if expected_size > 0 && bytes != expected_size {
        let mut out = text::cat4(
            "HTTP input download for job ",
            job_id,
            " wrote ",
            text::dec_string(bytes).as_str(),
        );
        out.append(" bytes, expected ");
        out.append(text::dec_string(expected_size).as_str());
        return Err(out);
    }
    Ok(bytes)
}

/// The part that brings what was received to the size that the job names makes
/// the input whole: it can be finished, and it goes to the job's input. No
/// earlier part does.
pub proof fn law_received_input_is_whole<W: FnOnce(&str, &[u8]) -> Result<(), String>>(
    before: PendingJob,
    after: PendingJob,
    c: ChunkView,
    write: W,
)
    requires
        after.wf(),
        after.job == before.job,
        before.took(after, c, write),
    ensures
        after.finish_error() is None <==> c.bytes_sent == after.job.assignment.size_bytes,
        after.finish_error() is None ==> (before.received() + c.bytes).len()
            == after.job.assignment.size_bytes && after.receiver->0.spec_final_path()
            == after.job.input_path@,
{
}

/// A chunk belongs to a job exactly where it names the job, its video and its
/// size, and ends where it says that the file then ends.
pub proof fn law_chunk_belongs_iff(pending: PendingJob, chunk: TransferChunk)
    requires
        pending.received().len() + chunk.bytes@.len() <= u64::MAX,
    ensures
        pending.mismatch(chunk) is None <==> {
            &&& chunk.transfer_id@ == pending.job.assignment.job_id@
            &&& chunk.video_id == pending.job.assignment.video_id
            &&& chunk.total_bytes == pending.job.assignment.size_bytes
            &&& chunk.bytes_sent == pending.received().len() + chunk.bytes@.len()
        },
        pending.mismatch(chunk) is Some && pending.mismatch(chunk)->0 is Job <==> chunk.transfer_id@
            != pending.job.assignment.job_id@,
{
}

/// A chunk that belongs to a job is taken exactly where it is the next one, does
/// not make the file larger than the job says, and is whole.
pub proof fn law_next_whole_chunk_is_taken(pending: PendingJob, c: ChunkView)
    requires
        pending.received().len() + c.bytes.len() <= u64::MAX,
    ensures
        pending.refusal(c) is None <==> {
            &&& c.chunk_index == pending.taken()
            &&& pending.received().len() + c.bytes.len() <= pending.job.assignment.size_bytes
            &&& worker_transfer::checks_out(Checksum::Crc32(c.crc32), c.bytes)
        },
        pending.refusal(c) == Some(
            (ChunkReceiverError::DuplicateChunk { index: c.chunk_index }),
        ) <==> c.chunk_index < pending.taken(),
{
}

/// An input can be finished exactly where something was received and it has the
/// size that the job names.
pub proof fn law_finished_at_its_size(pending: PendingJob)
    ensures
        pending.finish_error() is None <==> pending.receiver is Some
            && pending.received().len() == pending.job.assignment.size_bytes,
{
}

/// The speed that is told is what came in per second since the start, and the
/// time that is left what that speed needs for the rest; both are rounded down,
/// and without a speed there is no time.
pub proof fn law_progress_tells_speed_and_rest(
    p: TransferProgressPayload,
    received: u64,
    expected: u64,
    elapsed_secs: u64,
)
    requires
        progress_is(p, received, expected, elapsed_secs),
        elapsed_secs > 0,
    ensures
        p.transfer_id@ == p.job_id@,
        p.received_bytes == received,
        p.expected_bytes == Some(expected),
        p.bytes_per_second * elapsed_secs <= received < (p.bytes_per_second + 1) * elapsed_secs,
        p.eta is Some <==> p.bytes_per_second > 0,
        p.eta is Some && received < expected ==> p.eta->0 * p.bytes_per_second <= expected
            - received < (p.eta->0 + 1) * p.bytes_per_second,
        p.eta is Some && received >= expected ==> p.eta->0 == 0,
{
    let speed = p.bytes_per_second;
    assert(speed == received / elapsed_secs);
    assert(speed * elapsed_secs <= received < (speed + 1) * elapsed_secs) by (nonlinear_arith)
        requires
            speed == received / elapsed_secs,
            elapsed_secs > 0,
    ;
    if speed > 0 {
        let eta = p.eta->0;
        if received < expected {
            let rest = (expected - received) as u64;
            assert(eta == rest / speed);
            assert(eta * speed <= rest < (eta + 1) * speed) by (nonlinear_arith)
                requires
                    eta == rest / speed,
                    speed > 0,
            ;
        } else {
            let none: u64 = 0;
            assert(eta == none / speed);
            assert(eta == 0) by (nonlinear_arith)
                requires
                    eta == none / speed,
                    none == 0,
                    speed > 0,
            ;
        }
    }
}

/// A chunk that is taken is put behind what was received, is counted, and brings
/// the input to where it says, within its size.
pub proof fn law_taken_chunk_extends_the_input<W: FnOnce(&str, &[u8]) -> Result<(), String>>(
    before: PendingJob,
    after: PendingJob,
    c: ChunkView,
    write: W,
)
    requires
        before.took(after, c, write),
    ensures
        after.received() == before.received() + c.bytes,
        after.received().len() == c.bytes_sent,
        after.received().len() <= before.job.assignment.size_bytes,
        after.taken() == before.taken() + 1,
{
}

/// A message that is no chunk of this job changes nothing and is waited past,
/// one that is refused leaves what was received as it was, and progress is told
/// as complete exactly where the input has its size.
pub proof fn law_only_own_chunks_count<W: FnOnce(&str, &[u8]) -> Result<(), String>>(
    before: PendingJob,
    after: PendingJob,
    bytes: Seq<u8>,
    write: W,
    r: Result<WaitStep, WaitError>,
)
    requires
        before.binary_taken(after, bytes, write, r),
    ensures
        frames::decoded_push(bytes) is Ok && frames::decoded_push(bytes)->Ok_0 is None ==> after
            == before && r matches Ok(WaitStep::Waiting),
        match frames::decoded_push(bytes) {
            Ok(Some(c)) => c.transfer_id != before.job.assignment.job_id@ ==> after == before && r
                matches Ok(WaitStep::Waiting),
            Ok(None) => true,
            Err(_) => after == before && r is Err,
        },
        r is Err ==> after.received() == before.received() && after.taken() == before.taken(),
        r matches Ok(WaitStep::Progress { complete, .. }) ==> (complete <==> after.received().len()
            == before.job.assignment.size_bytes),
{
}

} // verus!
