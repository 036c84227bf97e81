use quad_net::error::Error;

#[test]
fn io_error_is_handed_back() {
    let e = Error::from(std::io::Error::new(std::io::ErrorKind::TimedOut, "slow"));
    let io = e.into_io_error();
    assert_eq!(io.kind(), std::io::ErrorKind::TimedOut);
}

#[test]
fn other_errors_become_io_errors() {
    assert_eq!(Error::DecodeError.into_io_error().kind(), std::io::ErrorKind::InvalidData);
    assert_eq!(Error::InvalidAddress.into_io_error().kind(), std::io::ErrorKind::InvalidInput);
    assert_eq!(Error::PayloadTooLarge.into_io_error().kind(), std::io::ErrorKind::InvalidInput);
    let ws = Error::from(tungstenite::Error::ConnectionClosed);
    assert!(matches!(ws, Error::TungsteniteError(_)));
    assert_eq!(ws.into_io_error().kind(), std::io::ErrorKind::Other);
}
