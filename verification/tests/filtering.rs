use logged_tcp_proxy::filter::RecordFilter;
use logged_tcp_proxy::filter::RecordKind;

fn every_kind() -> Vec<RecordKind> {
    vec![
        RecordKind::Read,
        RecordKind::Write,
        RecordKind::Drop,
        RecordKind::Error,
        RecordKind::Shutdown,
    ]
}

#[test]
fn accept_all_accepts_every_kind() {
    let filter = RecordFilter::accept_all();
    for kind in every_kind() {
        assert!(filter.accepts(kind));
    }
}

#[test]
fn allowing_accepts_the_listed_kinds_only() {
    let filter = RecordFilter::allowing(&[RecordKind::Drop, RecordKind::Error, RecordKind::Shutdown]);
    assert!(!filter.accepts(RecordKind::Read));
    assert!(!filter.accepts(RecordKind::Write));
    assert!(filter.accepts(RecordKind::Drop));
    assert!(filter.accepts(RecordKind::Error));
    assert!(filter.accepts(RecordKind::Shutdown));
}

#[test]
fn allowing_nothing_accepts_nothing() {
    let filter = RecordFilter::allowing(&[]);
    for kind in every_kind() {
        assert!(!filter.accepts(kind));
    }
}

#[test]
fn allowing_counts_a_repeated_kind_once() {
    let filter = RecordFilter::allowing(&[RecordKind::Read, RecordKind::Read]);
    assert!(filter.accepts(RecordKind::Read));
    assert!(!filter.accepts(RecordKind::Write));
}

#[test]
fn excluding_accepts_what_is_not_listed() {
    let filter = RecordFilter::excluding(&[RecordKind::Read, RecordKind::Write]);
    assert!(!filter.accepts(RecordKind::Read));
    assert!(!filter.accepts(RecordKind::Write));
    assert!(filter.accepts(RecordKind::Drop));
    assert!(filter.accepts(RecordKind::Error));
    assert!(filter.accepts(RecordKind::Shutdown));
}

#[test]
fn excluding_nothing_accepts_every_kind() {
    let filter = RecordFilter::excluding(&[]);
    for kind in every_kind() {
        assert!(filter.accepts(kind));
    }
}

#[test]
fn excluding_everything_accepts_nothing() {
    let filter = RecordFilter::excluding(&every_kind());
    for kind in every_kind() {
        assert!(!filter.accepts(kind));
    }
}

#[test]
fn filters_from_one_exclusion_list_decide_alike_every_time() {
    let excluded = [RecordKind::Write, RecordKind::Drop];
    let first = RecordFilter::excluding(&excluded);
    let second = RecordFilter::excluding(&excluded);
    let copy = first.clone();
    for _ in 0..3 {
        for kind in every_kind() {
            let expected = !excluded.contains(&kind);
            assert_eq!(first.accepts(kind), expected);
            assert_eq!(second.accepts(kind), expected);
            assert_eq!(copy.accepts(kind), expected);
        }
    }
}

#[test]
fn payload_is_carried_by_reads_and_writes_only() {
    assert!(RecordKind::Read.carries_payload());
    assert!(RecordKind::Write.carries_payload());
    assert!(!RecordKind::Drop.carries_payload());
    assert!(!RecordKind::Error.carries_payload());
    assert!(!RecordKind::Shutdown.carries_payload());
}
