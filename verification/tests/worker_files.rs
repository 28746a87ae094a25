use ab_av1::command::worker_transfer::{
    part_file_name, same_bytes, Checksum, Chunk, ChunkReceiver, ChunkReceiverError,
};

fn chunk(index: u64, offset: u64, bytes: &[u8]) -> Chunk {
    Chunk {
        index,
        offset,
        bytes: bytes.to_vec(),
        checksum: Checksum::blake3(bytes),
    }
}

fn receiver(max_size: Option<u64>) -> ChunkReceiver {
    ChunkReceiver::new("/in/movie.mkv".into(), "/in/movie.part".into(), max_size)
}

fn push(
    receiver: &mut ChunkReceiver,
    file: &mut Vec<u8>,
    chunk: Chunk,
) -> Result<(), ChunkReceiverError> {
    let mut written = Vec::new();
    let done = receiver.push(chunk, |bytes: &[u8]| {
        written.extend_from_slice(bytes);
        Ok(())
    });
    file.extend_from_slice(&written);
    done
}

fn digest(bytes: &[u8]) -> Vec<u8> {
    blake3::hash(bytes).as_bytes().to_vec()
}

#[test]
fn valid_transfer_writes_final_file() {
    let mut file = Vec::new();
    let mut receiver = receiver(None);

    push(&mut receiver, &mut file, chunk(0, 0, b"hello ")).expect("chunk 0");
    push(&mut receiver, &mut file, chunk(1, 6, b"world")).expect("chunk 1");

    let received = receiver
        .finish(Some(11), Some(&digest(b"hello world")))
        .expect("finish");
    assert_eq!(received.temp_path, "/in/movie.part");
    let written = received.place(false).expect("place");

    assert_eq!(written, "/in/movie.mkv");
    assert_eq!(file, b"hello world");
}

#[test]
fn finish_creates_parent_directory() {
    let mut file = Vec::new();
    let mut receiver = ChunkReceiver::new("/in/nested/movie.mkv".into(), "/in/movie.part".into(), None);
    push(&mut receiver, &mut file, chunk(0, 0, b"hello")).expect("chunk 0");
    let received = receiver.finish(Some(5), Some(&digest(b"hello"))).expect("finish");
    assert_eq!(received.final_dir().as_deref(), Some("/in/nested"));
    assert_eq!(received.place(false).as_deref(), Ok("/in/nested/movie.mkv"));
}

#[test]
fn finish_refuses_to_overwrite_existing_destination() {
    let mut file = Vec::new();
    let mut receiver = receiver(None);
    push(&mut receiver, &mut file, chunk(0, 0, b"hello")).expect("chunk 0");
    let received = receiver.finish(Some(5), Some(&digest(b"hello"))).expect("finish");
    assert_eq!(received.place(true), Err(ChunkReceiverError::DestinationExists));
}

#[test]
fn corrupt_chunk_is_rejected() {
    let mut file = Vec::new();
    let mut receiver = receiver(None);

    let mut bad = chunk(0, 0, b"hello");
    bad.checksum = Checksum::blake3(b"hell0");

    assert_eq!(
        push(&mut receiver, &mut file, bad),
        Err(ChunkReceiverError::CorruptChunk { index: 0 })
    );
    assert!(file.is_empty());
}

#[test]
fn missing_chunk_is_rejected_by_offset() {
    let mut file = Vec::new();
    let mut receiver = receiver(None);

    push(&mut receiver, &mut file, chunk(0, 0, b"hello")).expect("chunk 0");
    assert_eq!(
        push(&mut receiver, &mut file, chunk(1, 10, b"world")),
        Err(ChunkReceiverError::UnexpectedOffset {
            index: 1,
            offset: 10,
            expected_offset: 5
        })
    );
}

#[test]
fn duplicate_chunk_is_rejected() {
    let mut file = Vec::new();
    let mut receiver = receiver(None);

    push(&mut receiver, &mut file, chunk(0, 0, b"hello")).expect("chunk 0");
    assert_eq!(
        push(&mut receiver, &mut file, chunk(0, 0, b"hello")),
        Err(ChunkReceiverError::DuplicateChunk { index: 0 })
    );
    assert_eq!(file, b"hello");
}

#[test]
fn out_of_order_chunk_is_rejected() {
    let mut file = Vec::new();
    let mut receiver = receiver(None);

    assert_eq!(
        push(&mut receiver, &mut file, chunk(1, 0, b"hello")),
        Err(ChunkReceiverError::OutOfOrder {
            index: 1,
            expected_index: 0
        })
    );
}

#[test]
fn final_digest_mismatch_is_rejected() {
    let mut file = Vec::new();
    let mut receiver = receiver(None);

    push(&mut receiver, &mut file, chunk(0, 0, b"hello")).expect("chunk 0");
    assert_eq!(
        receiver.finish(Some(5), Some(&digest(b"hell0"))),
        Err(ChunkReceiverError::DigestMismatch)
    );
}

#[test]
fn final_size_mismatch_is_rejected() {
    let mut file = Vec::new();
    let mut receiver = receiver(None);
    push(&mut receiver, &mut file, chunk(0, 0, b"hello")).expect("chunk 0");
    assert_eq!(receiver.finish(Some(6), None), Err(ChunkReceiverError::SizeMismatch));
}

#[test]
fn max_size_limit_is_enforced() {
    let mut file = Vec::new();
    let mut receiver = receiver(Some(10));

    push(&mut receiver, &mut file, chunk(0, 0, b"hello")).expect("chunk 0");
    assert_eq!(receiver.received_bytes(), 5);
    assert_eq!(
        push(&mut receiver, &mut file, chunk(1, 5, b"world!")),
        Err(ChunkReceiverError::FileTooLarge {
            size: 11,
            max_size: 10
        })
    );
}

#[test]
fn a_failed_write_is_reported() {
    let mut receiver = receiver(None);
    assert_eq!(
        receiver.push(chunk(0, 0, b"hello"), |_: &[u8]| Err("disk full".to_string())),
        Err(ChunkReceiverError::Io("disk full".into()))
    );
}

#[test]
fn a_closed_receiver_takes_nothing() {
    let mut file = Vec::new();
    let mut receiver = receiver(None);
    receiver.close();
    assert_eq!(
        push(&mut receiver, &mut file, chunk(0, 0, b"hello")),
        Err(ChunkReceiverError::Finished)
    );
    assert!(!ChunkReceiverError::Finished.message().is_empty());
}

#[test]
fn checksums_tell_bytes_apart() {
    // the check value of CRC-32
    assert_eq!(Checksum::crc32(b"123456789"), Checksum::Crc32(0xcbf4_3926));
    assert!(Checksum::crc32(b"data").matches(b"data"));
    assert!(!Checksum::crc32(b"data").matches(b"dat4"));
    assert!(!Checksum::Crc32(u64::MAX).matches(b"data"));
    assert_eq!(Checksum::blake3(b"data"), Checksum::Blake3(digest(b"data")));
    assert!(Checksum::blake3(b"data").matches(b"data"));
    assert!(!Checksum::blake3(b"data").matches(b"dat4"));
    assert!(same_bytes(b"ab", b"ab"));
    assert!(!same_bytes(b"ab", b"abc"));
    assert!(!same_bytes(b"ab", b"ac"));
}

#[test]
fn part_names_hold_the_process_and_a_number() {
    let name = part_file_name(12, 345);
    assert!(name.contains("12") && name.contains("345"), "{name}");
    assert_ne!(part_file_name(1, 2), part_file_name(1, 3));
}

#[test]
fn a_chunk_that_is_not_whole_is_refused_last() {
    let mut receiver = ChunkReceiver::new("input.mkv".into(), "part".into(), Some(10));
    let write = |_: &[u8]| Ok(());
    assert!(matches!(
        receiver.push_checked(chunk(1, 0, b"hello"), false, write),
        Err(ChunkReceiverError::OutOfOrder { index: 1, expected_index: 0 })
    ));
    assert!(matches!(
        receiver.push_checked(chunk(0, 0, b"hello"), false, write),
        Err(ChunkReceiverError::CorruptChunk { index: 0 })
    ));
    assert_eq!(receiver.received_bytes(), 0);
    assert!(receiver.push_checked(chunk(0, 0, b"hello"), true, write).is_ok());
    assert_eq!(receiver.received_bytes(), 5);
}
