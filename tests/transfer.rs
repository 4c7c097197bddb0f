use topal::transfer::{ChunkCursor, Delivery};

#[test]
fn chunks_are_read_in_turn() {
    let mut c = ChunkCursor::new();
    assert!(c.wants_delivery());
    assert_eq!(c.fill(), Ok(&b""[..]));
    c.deliver(Delivery::Chunk(b"hello".to_vec()));
    assert!(!c.wants_delivery());
    assert_eq!(c.fill(), Ok(&b"hello"[..]));
    c.consume(2);
    assert_eq!(c.fill(), Ok(&b"llo"[..]));
    c.consume(10);
    assert_eq!(c.fill(), Ok(&b""[..]));
    assert!(c.wants_delivery());
    c.deliver(Delivery::Chunk(b"!".to_vec()));
    assert_eq!(c.fill(), Ok(&b"!"[..]));
}

#[test]
fn empty_chunk_still_wants_delivery() {
    let mut c = ChunkCursor::new();
    c.deliver(Delivery::Chunk(Vec::new()));
    assert!(c.wants_delivery());
}

#[test]
fn finished_transfer_reads_empty() {
    let mut c = ChunkCursor::new();
    c.deliver(Delivery::Finished);
    assert!(!c.wants_delivery());
    assert_eq!(c.fill(), Ok(&b""[..]));
}

#[test]
fn failed_transfer_reports_reason() {
    let mut c = ChunkCursor::new();
    c.deliver(Delivery::Failure("[6] Couldn't resolve host name".to_string()));
    assert!(!c.wants_delivery());
    assert_eq!(c.fill(), Err("[6] Couldn't resolve host name".to_string()));
    c.consume(3);
    assert_eq!(c.fill(), Err("[6] Couldn't resolve host name".to_string()));
}
