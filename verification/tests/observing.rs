use logged_tcp_proxy::args::LoggingLevel;
use logged_tcp_proxy::args::PayloadFormatingKind;
use logged_tcp_proxy::filter::RecordFilter;
use logged_tcp_proxy::filter::RecordKind;
use logged_tcp_proxy::formatter::Formatter;
use logged_tcp_proxy::observed::Observation;
use logged_tcp_proxy::observed::ObservedStream;

fn client() -> ObservedStream {
    ObservedStream::new(
        "client",
        "192.0.2.7:50000",
        Formatter::new(PayloadFormatingKind::LowerHex, ":"),
        RecordFilter::accept_all(),
        LoggingLevel::Debug,
    )
}

fn upstream() -> ObservedStream {
    ObservedStream::new(
        "upstream",
        "198.51.100.1:80",
        Formatter::new(PayloadFormatingKind::LowerHex, ":"),
        RecordFilter::excluding(&[RecordKind::Read, RecordKind::Write]),
        LoggingLevel::Debug,
    )
}

#[test]
fn observed_stream_keeps_what_it_was_given() {
    let stream = client();
    assert_eq!(stream.label(), "client");
    assert_eq!(stream.peer(), "192.0.2.7:50000");
    assert!(stream.accepts(RecordKind::Read));
    let other = upstream();
    assert_eq!(other.label(), "upstream");
    assert_eq!(other.peer(), "198.51.100.1:80");
    assert!(!other.accepts(RecordKind::Read));
    assert!(other.accepts(RecordKind::Shutdown));
}

#[test]
fn read_is_recorded_with_formatted_payload_and_length() {
    let stream = client();
    let record = stream.observe(RecordKind::Read, &[0x41, 0x42, 0x43]).unwrap();
    assert_eq!(record.kind(), RecordKind::Read);
    assert_eq!(record.label(), "client");
    assert_eq!(record.text(), "41:42:43");
    assert_eq!(record.length(), 3);
    assert_eq!(stream.line(&record, ""), "client 41:42:43 (length - 3)");
}

#[test]
fn write_is_recorded_like_a_read() {
    let stream = client();
    let record = stream.observe(RecordKind::Write, &[0x58, 0x59, 0x5a]).unwrap();
    assert_eq!(record.kind(), RecordKind::Write);
    assert_eq!(record.text(), "58:59:5a");
    assert_eq!(stream.line(&record, "unused"), "client 58:59:5a (length - 3)");
}

#[test]
fn length_is_written_in_decimal() {
    let stream = ObservedStream::new(
        "client",
        "peer",
        Formatter::new(PayloadFormatingKind::Decimal, ""),
        RecordFilter::accept_all(),
        LoggingLevel::Debug,
    );
    let empty = stream.observe(RecordKind::Read, &[]).unwrap();
    assert_eq!(stream.line(&empty, ""), "client  (length - 0)");
    let ten = stream.observe(RecordKind::Read, &[0; 10]).unwrap();
    assert_eq!(stream.line(&ten, ""), "client 0000000000 (length - 10)");
    let full = stream.observe(RecordKind::Write, &[1; 2048]).unwrap();
    assert_eq!(full.length(), 2048);
    assert!(stream.line(&full, "").ends_with(" (length - 2048)"));
}

#[test]
fn filtered_kinds_leave_no_record() {
    let stream = upstream();
    assert!(stream.observe(RecordKind::Read, &[1, 2, 3]).is_none());
    assert!(stream.observe(RecordKind::Write, &[1, 2, 3]).is_none());
    assert!(stream.observe(RecordKind::Drop, &[]).is_some());
    assert!(stream.observe(RecordKind::Error, &[]).is_some());
    assert!(stream.observe(RecordKind::Shutdown, &[]).is_some());
}

#[test]
fn status_records_carry_no_payload() {
    let stream = client();
    for kind in [RecordKind::Drop, RecordKind::Error, RecordKind::Shutdown] {
        let record = stream.observe(kind, &[0x41, 0x42]).unwrap();
        assert_eq!(record.kind(), kind);
        assert_eq!(record.text(), "");
        assert!(!stream.line(&record, "reset").contains("41"));
        assert!(!stream.line(&record, "reset").contains("(length"));
    }
}

#[test]
fn status_lines_name_the_peer() {
    let stream = upstream();
    let shutdown = stream.observe(RecordKind::Shutdown, &[]).unwrap();
    assert_eq!(stream.line(&shutdown, ""), "upstream shutdown 198.51.100.1:80");
    let dropped = stream.observe(RecordKind::Drop, &[]).unwrap();
    assert_eq!(stream.line(&dropped, "ignored"), "upstream drop 198.51.100.1:80");
}

#[test]
fn error_line_describes_the_failure() {
    let stream = upstream();
    let record = stream.observe(RecordKind::Error, &[]).unwrap();
    assert_eq!(
        stream.line(&record, "connection reset by peer"),
        "upstream error 198.51.100.1:80: connection reset by peer"
    );
}

#[test]
fn observing_leaves_the_payload_alone() {
    let stream = client();
    let payload = vec![9u8, 8, 7];
    let first = stream.observe(RecordKind::Read, &payload).unwrap();
    let second = stream.observe(RecordKind::Read, &payload).unwrap();
    assert_eq!(first.text(), second.text());
    assert_eq!(payload, vec![9u8, 8, 7]);
}

#[test]
fn copies_of_a_stream_observe_alike() {
    let stream = upstream();
    let copy = stream.clone();
    assert_eq!(copy.label(), stream.label());
    assert_eq!(copy.peer(), stream.peer());
    for kind in [
        RecordKind::Read,
        RecordKind::Write,
        RecordKind::Drop,
        RecordKind::Error,
        RecordKind::Shutdown,
    ] {
        assert_eq!(copy.accepts(kind), stream.accepts(kind));
    }
}

#[test]
fn records_go_out_at_the_severity_of_the_stream_and_errors_as_errors() {
    let stream = ObservedStream::new(
        "client",
        "peer",
        Formatter::new(PayloadFormatingKind::LowerHex, ":"),
        RecordFilter::accept_all(),
        LoggingLevel::Info,
    );
    for kind in [RecordKind::Read, RecordKind::Write, RecordKind::Drop, RecordKind::Shutdown] {
        assert_eq!(stream.observe(kind, &[1]).unwrap().severity(), LoggingLevel::Info);
    }
    assert_eq!(stream.observe(RecordKind::Error, &[]).unwrap().severity(), LoggingLevel::Error);
    let usual = client();
    assert_eq!(usual.observe(RecordKind::Read, &[1]).unwrap().severity(), LoggingLevel::Debug);
    assert_eq!(usual.observe(RecordKind::Error, &[]).unwrap().severity(), LoggingLevel::Error);
}

#[test]
fn what_a_leg_sees_is_recorded_under_its_kind() {
    let stream = client();
    let read = stream.record(Observation::Read(&[0x41, 0x42, 0x43])).unwrap();
    assert_eq!(read.kind(), RecordKind::Read);
    assert_eq!(stream.line(&read, ""), "client 41:42:43 (length - 3)");
    let written = stream.record(Observation::Written(&[0x58])).unwrap();
    assert_eq!(written.kind(), RecordKind::Write);
    assert_eq!(written.text(), "58");
    let failed = stream.record(Observation::Failed).unwrap();
    assert_eq!(failed.kind(), RecordKind::Error);
    assert_eq!(failed.text(), "");
    assert_eq!(failed.length(), 0);
    let closed = stream.record(Observation::Closed).unwrap();
    assert_eq!(closed.kind(), RecordKind::Shutdown);
    assert_eq!(closed.text(), "");
}

#[test]
fn a_read_without_bytes_is_a_drop() {
    let stream = client();
    let dropped = stream.record(Observation::Read(&[])).unwrap();
    assert_eq!(dropped.kind(), RecordKind::Drop);
    assert_eq!(dropped.text(), "");
    assert_eq!(dropped.length(), 0);
    assert_eq!(stream.line(&dropped, ""), "client drop 192.0.2.7:50000");
    let quiet = upstream();
    assert!(quiet.record(Observation::Read(&[1])).is_none());
    assert!(quiet.record(Observation::Written(&[1])).is_none());
    assert_eq!(quiet.record(Observation::Read(&[])).unwrap().kind(), RecordKind::Drop);
    assert_eq!(quiet.record(Observation::Failed).unwrap().kind(), RecordKind::Error);
    assert_eq!(quiet.record(Observation::Closed).unwrap().kind(), RecordKind::Shutdown);
}
