use bytes::Bytes;
use tinytun::stream::{
    closing_piece, h2_error_to_io_error, shutdown_reset, write_demand, write_granted, write_reset,
    write_sent, Capacity, DataEvent, ProtocolError, ReadStep, ResetEvent, StreamError, StreamFault,
    TunnelStream, WriteStep,
};

fn data(bytes: &'static [u8], last: bool) -> DataEvent<u8, u8> {
    DataEvent::Data(Bytes::from_static(bytes), last)
}

#[test]
fn pieces_are_delivered_in_order() {
    let mut stream = TunnelStream::new();
    assert!(stream.is_drained());
    assert!(matches!(stream.receive(data(b"hello ", false)), ReadStep::Deliver));
    assert!(!stream.is_drained());
    assert_eq!(stream.deliver(4), b"hell");
    assert_eq!(stream.deliver(0), b"");
    assert_eq!(stream.deliver(100), b"o ");
    assert!(stream.is_drained());
    assert!(matches!(stream.receive(data(b"world", true)), ReadStep::Deliver));
    assert_eq!(stream.deliver(5), b"world");
}

#[test]
fn empty_pieces_are_passed_over_until_the_last() {
    let mut stream = TunnelStream::new();
    assert!(matches!(stream.receive(data(b"", false)), ReadStep::Poll));
    assert!(matches!(stream.receive(data(b"", true)), ReadStep::Deliver));
    assert_eq!(stream.deliver(10), b"");
    assert!(matches!(stream.receive(DataEvent::<u8, u8>::End), ReadStep::End));
}

#[test]
fn failed_reads_end_or_fail() {
    let fail = |fault: StreamFault<u8, u8>| TunnelStream::new().receive(DataEvent::Failed(fault));
    assert!(matches!(fail(StreamFault::Protocol(Some(0), 1)), ReadStep::End));
    assert!(matches!(fail(StreamFault::Protocol(Some(8), 1)), ReadStep::End));
    assert!(matches!(
        fail(StreamFault::Protocol(Some(5), 1)),
        ReadStep::Fail(StreamError::BrokenPipe(Some(1)))
    ));
    assert!(matches!(
        fail(StreamFault::Protocol(Some(2), 1)),
        ReadStep::Fail(StreamError::Other(ProtocolError::Given(1)))
    ));
    assert!(matches!(
        fail(StreamFault::Protocol(None, 1)),
        ReadStep::Fail(StreamError::Other(ProtocolError::Given(1)))
    ));
    assert!(matches!(fail(StreamFault::Io(9)), ReadStep::Fail(StreamError::Io(9))));
}

#[test]
fn writes_send_what_is_granted() {
    assert_eq!(write_demand(b""), None);
    assert_eq!(write_demand(b"abc"), Some(3));
    match write_granted(b"abc", Capacity::Granted(2)) {
        WriteStep::Send(bytes) => assert_eq!(&bytes[..], b"ab"),
        _ => panic!("not sent"),
    }
    assert!(matches!(write_granted(b"abc", Capacity::Closed), WriteStep::Written(0)));
    assert!(matches!(write_granted(b"abc", Capacity::Failed), WriteStep::AwaitReset));
    assert!(matches!(write_sent(true, 2), WriteStep::Written(2)));
    assert!(matches!(write_sent(false, 2), WriteStep::AwaitReset));
}

#[test]
fn reset_writes_fail() {
    for code in [0, 5, 8] {
        let err = write_reset::<u8, u8>(ResetEvent::Reset(code));
        assert!(matches!(err, StreamError::BrokenPipe(None)));
    }
    let err = write_reset::<u8, u8>(ResetEvent::Reset(1));
    assert!(matches!(err, StreamError::Other(ProtocolError::Code(1))));
    let err = write_reset::<u8, u8>(ResetEvent::Failed(StreamFault::Io(4)));
    assert!(matches!(err, StreamError::Io(4)));
}

#[test]
fn shutdown_succeeds_after_a_clean_reset() {
    assert!(closing_piece().is_empty());
    assert!(shutdown_reset::<u8, u8>(ResetEvent::Reset(0)).is_ok());
    for code in [5, 8] {
        let err = shutdown_reset::<u8, u8>(ResetEvent::Reset(code)).unwrap_err();
        assert!(matches!(err, StreamError::BrokenPipe(None)));
    }
    let err = shutdown_reset::<u8, u8>(ResetEvent::Reset(2)).unwrap_err();
    assert!(matches!(err, StreamError::Other(ProtocolError::Code(2))));
    let err = shutdown_reset::<u8, u8>(ResetEvent::Failed(StreamFault::Io(4))).unwrap_err();
    assert!(matches!(err, StreamError::Io(4)));
}

#[test]
fn errors_of_the_connection_come_through() {
    assert!(matches!(h2_error_to_io_error::<u8, u8>(StreamFault::Io(1)), StreamError::Io(1)));
    assert!(matches!(
        h2_error_to_io_error::<u8, u8>(StreamFault::Protocol(Some(0), 1)),
        StreamError::Other(ProtocolError::Given(1))
    ));
}
