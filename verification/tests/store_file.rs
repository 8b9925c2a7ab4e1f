use nuclei::store_file::{Op, SeekError, SeekFrom, StoreFile};

#[test]
fn new_file_starts_at_zero() {
    let f = StoreFile::new(3);
    assert_eq!(f.receive_fd(), 3);
    assert_eq!(f.pos(), 0);
    assert_eq!(f.op_state(), Op::Nothing);
    assert!(f.internal.is_empty());
    assert!(f.internal.capacity() >= 8192);
}

#[test]
fn seek_from_start_and_current() {
    let mut f = StoreFile::new(3);
    assert_eq!(f.poll_seek(SeekFrom::Start(100), 0), Ok(100));
    assert_eq!(f.poll_seek(SeekFrom::Current(-40), 0), Ok(60));
    assert_eq!(f.poll_seek(SeekFrom::Current(5), 0), Ok(65));
    assert_eq!(f.pos(), 65);
}

#[test]
fn seek_from_end_uses_file_size() {
    let mut f = StoreFile::new(3);
    assert_eq!(f.poll_seek(SeekFrom::End(-10), 11587), Ok(11577));
    assert_eq!(f.poll_seek(SeekFrom::End(0), 11587), Ok(11587));
}

#[test]
fn seek_before_start_is_refused() {
    let mut f = StoreFile::new(3);
    f.poll_seek(SeekFrom::Start(10), 0).unwrap();
    assert_eq!(f.poll_seek(SeekFrom::Current(-11), 0), Err(SeekError::BeforeStart));
    assert_eq!(f.pos(), 10);
}

#[test]
fn seek_past_largest_position_is_refused() {
    let mut f = StoreFile::new(3);
    assert_eq!(f.poll_seek(SeekFrom::End(1), usize::MAX), Err(SeekError::Overflow));
    assert_eq!(f.pos(), 0);
}

#[test]
fn operation_state_transitions() {
    let mut f = StoreFile::new(3);
    f.guard_op(Op::Read);
    assert_eq!(f.op_state(), Op::Read);
    f.poll_file_size();
    assert_eq!(f.op_state(), Op::Statx);
    f.cancel();
    assert_eq!(f.op_state(), Op::Nothing);
}

#[test]
fn filler_advances_position() {
    let mut f = StoreFile::new(3);
    assert_eq!(f.filler(512), 512);
    assert_eq!(f.filler(100), 100);
    assert_eq!(f.pos(), 612);
}

#[test]
fn filler_at_end_of_file_completes_with_zero() {
    let mut f = StoreFile::new(3);
    assert_eq!(f.filler(11587), 11587);
    // End of file: the read completes with 0 and the position stays.
    assert_eq!(f.filler(0), 0);
    assert_eq!(f.pos(), 11587);
}

#[test]
fn seek_by_most_negative_offset_is_before_start() {
    let mut f = StoreFile::new(3);
    assert_eq!(f.poll_seek(SeekFrom::Start(10), 0), Ok(10));
    assert_eq!(f.poll_seek(SeekFrom::Current(i64::MIN), 0), Err(SeekError::BeforeStart));
    assert_eq!(f.poll_seek(SeekFrom::End(i64::MIN), 100), Err(SeekError::BeforeStart));
    assert_eq!(f.pos(), 10);
}

#[test]
fn read_ahead_buffer_fills_and_consumes() {
    let mut f = StoreFile::new(3);
    assert!(f.needs_fill());
    assert_eq!(f.fill_buf(vec![1, 2, 3, 4]), 4);
    assert_eq!(f.pos(), 4);
    assert!(!f.needs_fill());
    f.consume(1);
    assert_eq!(f.buffered(), vec![2, 3, 4]);
    f.consume(10);
    assert!(f.buffered().is_empty());
    assert!(f.needs_fill());
    // End of file: nothing read, the position stays.
    assert_eq!(f.fill_buf(vec![]), 0);
    assert_eq!(f.pos(), 4);
}

#[test]
fn seek_drops_read_ahead_buffer() {
    let mut f = StoreFile::new(3);
    f.fill_buf(vec![9, 8, 7]);
    assert_eq!(f.poll_seek(SeekFrom::Start(1), 0), Ok(1));
    assert!(f.buffered().is_empty());
    assert!(f.needs_fill());
    // A refused seek keeps the buffer.
    f.fill_buf(vec![5, 6]);
    assert_eq!(f.poll_seek(SeekFrom::Current(-10), 0), Err(SeekError::BeforeStart));
    assert_eq!(f.buffered(), vec![5, 6]);
}

#[test]
fn cancel_drops_read_ahead_buffer() {
    let mut f = StoreFile::new(3);
    f.fill_buf(vec![1]);
    f.cancel();
    assert!(f.buffered().is_empty());
}
