use osc52::reader::ReaderEvent;
use osc52::reader::ReaderStatus;
use osc52::reader::ResponseReader;

#[test]
fn times_out_when_no_readiness_event_arrives() {
    let mut reader = ResponseReader::new();
    assert_eq!(reader.status, ReaderStatus::AwaitReadable);
    reader.step(ReaderEvent::WaitElapsed);
    assert_eq!(reader.status, ReaderStatus::TimedOut);
    assert!(reader.content.is_empty());
}

#[test]
fn completes_single_burst_ending_with_bel() {
    let mut reader = ResponseReader::new();
    reader.step(ReaderEvent::BecameReadable);
    assert_eq!(reader.status, ReaderStatus::Draining);
    reader.step(ReaderEvent::ChunkRead(b"\x1b]52;c;aGVsbG8=\x07".to_vec()));
    reader.step(ReaderEvent::WouldBlock);
    assert_eq!(reader.status, ReaderStatus::Complete);
    assert_eq!(reader.content, b"\x1b]52;c;aGVsbG8=\x07".to_vec());
}

#[test]
fn reassembles_response_across_multiple_readiness_events() {
    let mut reader = ResponseReader::new();
    reader.step(ReaderEvent::BecameReadable);
    reader.step(ReaderEvent::ChunkRead(b"\x1b]52;c;aGVs".to_vec()));
    reader.step(ReaderEvent::WouldBlock);
    assert_eq!(reader.status, ReaderStatus::AwaitReadable);
    reader.step(ReaderEvent::BecameReadable);
    reader.step(ReaderEvent::ChunkRead(b"bG8=".to_vec()));
    reader.step(ReaderEvent::WouldBlock);
    assert_eq!(reader.status, ReaderStatus::AwaitReadable);
    reader.step(ReaderEvent::BecameReadable);
    reader.step(ReaderEvent::ChunkRead(b"\x07".to_vec()));
    reader.step(ReaderEvent::WouldBlock);
    assert_eq!(reader.status, ReaderStatus::Complete);
    assert_eq!(reader.content, b"\x1b]52;c;aGVsbG8=\x07".to_vec());
}

#[test]
fn several_reads_of_one_burst_accumulate_in_order() {
    let mut reader = ResponseReader::new();
    reader.step(ReaderEvent::BecameReadable);
    reader.step(ReaderEvent::ChunkRead(b"\x1b]52;c;".to_vec()));
    reader.step(ReaderEvent::ChunkRead(b"aGVsbG8=".to_vec()));
    reader.step(ReaderEvent::ChunkRead(b"\x07".to_vec()));
    reader.step(ReaderEvent::WouldBlock);
    assert_eq!(reader.status, ReaderStatus::Complete);
    assert_eq!(reader.content, b"\x1b]52;c;aGVsbG8=\x07".to_vec());
}

#[test]
fn bel_inside_a_burst_completes_only_after_the_drain() {
    let mut reader = ResponseReader::new();
    reader.step(ReaderEvent::BecameReadable);
    reader.step(ReaderEvent::ChunkRead(b"\x1b]52;c;aGVsbG8=\x07".to_vec()));
    assert_eq!(reader.status, ReaderStatus::Draining);
    reader.step(ReaderEvent::WouldBlock);
    assert_eq!(reader.status, ReaderStatus::Complete);
}

#[test]
fn zero_byte_read_is_unexpected_eof() {
    let mut reader = ResponseReader::new();
    reader.step(ReaderEvent::BecameReadable);
    reader.step(ReaderEvent::ChunkRead(b"\x1b]52".to_vec()));
    reader.step(ReaderEvent::StreamClosed);
    assert_eq!(reader.status, ReaderStatus::UnexpectedEof);
}
