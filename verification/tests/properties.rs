use byte_rb::AppendError;
use byte_rb::BrBuffer;
use byte_rb::BufferFullReason;
use byte_rb::ReadError;
use byte_rb::ERR_STR_BUFFER_FULL;
use byte_rb::ERR_STR_INVALID_LEN;

#[test]
fn occupancy_stays_within_capacity() {
    let mut cbuf = BrBuffer::new(4);
    assert!(cbuf.cumulated_len() <= cbuf.capacity());
    assert!(cbuf.append(3, b"abc").is_ok());
    assert!(cbuf.cumulated_len() <= cbuf.capacity());
    assert!(cbuf.get(2).is_ok());
    assert!(cbuf.cumulated_len() <= cbuf.capacity());
    assert!(cbuf.append(3, b"xyz").is_ok());
    assert_eq!(cbuf.cumulated_len(), 4);
    assert!(cbuf.cumulated_len() <= cbuf.capacity());
    let _ = cbuf.append(1, b"q");
    assert!(cbuf.cumulated_len() <= cbuf.capacity());
    let result = cbuf.get(4).unwrap();
    assert_eq!(result, b"cxyz");
    assert_eq!(cbuf.cumulated_len(), 0);
}

#[test]
fn round_trip_returns_appended_bytes() {
    let mut cbuf = BrBuffer::new(8);
    let before = cbuf.cumulated_len();
    assert!(cbuf.append(5, b"hello").is_ok());
    assert_eq!(cbuf.cumulated_len(), before + 5);
    let result = cbuf.get(5).unwrap();
    assert_eq!(result, b"hello");
    assert_eq!(cbuf.cumulated_len(), before);
}

#[test]
fn full_buffer_rejects_every_append() {
    let mut cbuf = BrBuffer::new(3);
    assert!(cbuf.append(3, b"abc").is_ok());
    assert_eq!(
        cbuf.append(1, b"x"),
        Err(AppendError::BufferFull(BufferFullReason::NoFreeSpace))
    );
    assert_eq!(
        cbuf.append(3, b"xyz"),
        Err(AppendError::BufferFull(BufferFullReason::NoFreeSpace))
    );
    // An oversized length is reported as invalid even when the buffer is full.
    assert_eq!(cbuf.append(4, b"wxyz"), Err(AppendError::InvalidLength));
}

#[test]
fn oversized_append_rejected_at_any_occupancy() {
    let mut cbuf = BrBuffer::new(4);
    assert_eq!(cbuf.append(5, b"abcde"), Err(AppendError::InvalidLength));
    assert!(cbuf.append(2, b"ab").is_ok());
    assert_eq!(cbuf.append(5, b"abcde"), Err(AppendError::InvalidLength));
}

#[test]
fn peek_leaves_state_unchanged() {
    let mut cbuf = BrBuffer::new(6);
    assert!(cbuf.append(6, b"123456").is_ok());
    assert!(cbuf.get(4).is_ok());
    assert!(cbuf.append(3, b"789").is_ok());
    // The content is now "56789" and wraps past the end of the storage.
    let rpos = cbuf.rpos();
    let wpos = cbuf.wpos();
    let occupied = cbuf.cumulated_len();
    let peeked = cbuf.peek(5).unwrap();
    assert_eq!(cbuf.rpos(), rpos);
    assert_eq!(cbuf.wpos(), wpos);
    assert_eq!(cbuf.cumulated_len(), occupied);
    let gotten = cbuf.get(5).unwrap();
    assert_eq!(peeked, gotten);
    assert_eq!(peeked, b"56789");
}

#[test]
fn read_beyond_occupancy_fails() {
    let mut cbuf = BrBuffer::new(6);
    assert_eq!(cbuf.get(1), Err(ReadError::InvalidLength));
    assert_eq!(cbuf.peek(1), Err(ReadError::InvalidLength));
    assert!(cbuf.append(2, b"ab").is_ok());
    let err = cbuf.get(3);
    assert_eq!(err, Err(ReadError::InvalidLength));
    assert_eq!(err.unwrap_err().message(), ERR_STR_INVALID_LEN);
    assert_eq!(cbuf.get(2).unwrap(), b"ab");
}

#[test]
fn zero_length_operations() {
    let mut cbuf = BrBuffer::new(3);
    assert!(cbuf.append(0, b"").is_ok());
    assert_eq!(cbuf.cumulated_len(), 0);
    assert_eq!(cbuf.get(0).unwrap(), b"");
    // A full buffer refuses even an empty append: no free byte exists.
    assert!(cbuf.append(3, b"abc").is_ok());
    assert_eq!(
        cbuf.append(0, b""),
        Err(AppendError::BufferFull(BufferFullReason::NoFreeSpace))
    );
}

#[test]
fn zero_capacity_buffer() {
    let mut cbuf = BrBuffer::new(0);
    assert_eq!(cbuf.capacity(), 0);
    assert_eq!(cbuf.append(1, b"a"), Err(AppendError::InvalidLength));
    assert_eq!(
        cbuf.append(0, b""),
        Err(AppendError::BufferFull(BufferFullReason::NoFreeSpace))
    );
    assert_eq!(cbuf.get(0).unwrap(), b"");
    assert_eq!(cbuf.get(1), Err(ReadError::InvalidLength));
}

#[test]
fn wrapped_gap_too_small() {
    let mut cbuf = BrBuffer::new(6);
    assert!(cbuf.append(6, b"abcdef").is_ok());
    assert!(cbuf.get(2).is_ok());
    assert!(cbuf.append(2, b"gh").is_ok());
    assert!(cbuf.get(1).is_ok());
    // rpos=3, wpos=2: the free gap holds one byte, two do not fit.
    let err = cbuf.append(2, b"ij");
    assert_eq!(err, Err(AppendError::BufferFull(BufferFullReason::GapTooSmall)));
    assert_eq!(err.unwrap_err().message(), ERR_STR_BUFFER_FULL);
    assert!(cbuf.append(1, b"i").is_ok());
    assert_eq!(cbuf.cumulated_len(), 6);
}

#[test]
fn split_append_does_not_fit() {
    let mut cbuf = BrBuffer::new(6);
    assert!(cbuf.append(6, b"123456").is_ok());
    assert!(cbuf.get(2).is_ok());
    assert_eq!(cbuf.rpos(), 2);
    assert_eq!(cbuf.wpos(), 6);
    assert_eq!(cbuf.cumulated_len(), 4);
    // The wrapped second segment would need 4 bytes before rpos=2.
    assert_eq!(
        cbuf.append(4, b"789A"),
        Err(AppendError::BufferFull(BufferFullReason::SplitDoesNotFit))
    );
}

#[test]
fn error_messages() {
    assert_eq!(AppendError::InvalidLength.message(), ERR_STR_INVALID_LEN);
    assert_eq!(
        AppendError::BufferFull(BufferFullReason::NoFreeSpace).message(),
        ERR_STR_BUFFER_FULL
    );
    assert_eq!(
        AppendError::BufferFull(BufferFullReason::GapTooSmall).message(),
        ERR_STR_BUFFER_FULL
    );
    assert_eq!(
        AppendError::BufferFull(BufferFullReason::SplitDoesNotFit).message(),
        ERR_STR_BUFFER_FULL
    );
    assert_eq!(ReadError::InvalidLength.message(), ERR_STR_INVALID_LEN);
}
