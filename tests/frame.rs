use wavcast::frame::{
    classify_read_error, frame_header, frame_length, is_peer_gone, map_read_error,
    StreamErrorKind, TcpClientError, MAX_FRAME_SIZE,
};

#[test]
fn header_is_little_endian_length() {
    assert_eq!(frame_header(5), Some([5, 0, 0, 0]));
    assert_eq!(frame_header(0x0102_0304), Some([4, 3, 2, 1]));
    assert_eq!(frame_header(u32::MAX as usize), Some([0xFF, 0xFF, 0xFF, 0xFF]));
}

#[test]
fn header_refuses_lengths_over_32_bits() {
    assert_eq!(frame_header(u32::MAX as usize + 1), None);
}

#[test]
fn length_within_limit_is_read() {
    assert_eq!(frame_length([5, 0, 0, 0], MAX_FRAME_SIZE).unwrap(), 5);
    assert_eq!(frame_length([0, 0, 0, 1], MAX_FRAME_SIZE).unwrap(), MAX_FRAME_SIZE);
}

#[test]
fn length_over_limit_is_refused() {
    match frame_length([1, 0, 0, 1], MAX_FRAME_SIZE) {
        Err(TcpClientError::FrameTooLarge { length, max }) => {
            assert_eq!(length, MAX_FRAME_SIZE + 1);
            assert_eq!(max, MAX_FRAME_SIZE);
        }
        other => panic!("unexpected: {:?}", other),
    }
}

#[test]
fn header_reads_back_as_its_length() {
    let h = frame_header(123_456).unwrap();
    assert_eq!(frame_length(h, MAX_FRAME_SIZE).unwrap(), 123_456);
}

#[test]
fn peer_gone_kinds() {
    assert!(is_peer_gone(StreamErrorKind::BrokenPipe));
    assert!(is_peer_gone(StreamErrorKind::ConnectionReset));
    assert!(is_peer_gone(StreamErrorKind::ConnectionAborted));
    assert!(is_peer_gone(StreamErrorKind::UnexpectedEof));
    assert!(!is_peer_gone(StreamErrorKind::Other));
}

#[test]
fn read_errors_are_sorted_by_kind() {
    let gone = std::io::Error::new(std::io::ErrorKind::UnexpectedEof, "eof");
    assert!(matches!(map_read_error(gone), TcpClientError::ServerDisconnected(_)));
    let reset = std::io::Error::new(std::io::ErrorKind::ConnectionReset, "reset");
    assert!(matches!(map_read_error(reset), TcpClientError::ServerDisconnected(_)));
    let other = std::io::Error::new(std::io::ErrorKind::PermissionDenied, "denied");
    assert!(matches!(map_read_error(other), TcpClientError::Io(_)));
    let e = std::io::Error::new(std::io::ErrorKind::Other, "x");
    assert!(matches!(classify_read_error(e, StreamErrorKind::BrokenPipe), TcpClientError::ServerDisconnected(_)));
}
