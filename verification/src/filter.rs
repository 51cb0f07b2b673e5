//! Event kinds and the filter that selects which of them are logged.

use vstd::prelude::*;
use vstd::seq_lib::lemma_seq_contains_after_push;
use vstd::slice::slice_to_vec;

verus! {

/// What an observed stream can report.
#[derive(Clone, Copy, Debug, PartialEq, Eq, Structural)]
pub enum RecordKind {
    /// Bytes arrived from the peer.
    Read,
    /// Bytes were handed to the peer.
    Write,
    /// A read that carried no bytes.
    Drop,
    /// The transport reported a failure.
    Error,
    /// The stream was closed.
    Shutdown,
}

impl RecordKind {
    /// Whether records of this kind carry formatted payload.
    pub open spec fn bears_payload(self) -> bool {
        self == RecordKind::Read || self == RecordKind::Write
    }

    /// Whether records of this kind carry formatted payload.
    pub fn carries_payload(self) -> (carries: bool)
        ensures
            carries == self.bears_payload(),
    {
        match self {
            RecordKind::Read => true,
            RecordKind::Write => true,
            _ => false,
        }
    }
}

/// The five kinds, in the order in which they are declared.
pub open spec fn all_kinds() -> Seq<RecordKind> {
    seq![
        RecordKind::Read,
        RecordKind::Write,
        RecordKind::Drop,
        RecordKind::Error,
        RecordKind::Shutdown,
    ]
}

/// The kinds that are left when `excluded` is taken away from all five.
pub open spec fn kinds_without(excluded: Seq<RecordKind>) -> Set<RecordKind> {
    Set::new(|kind: RecordKind| !excluded.contains(kind))
}

/// A predicate over event kinds: it accepts a kind when records of that kind
/// are to be logged. The decision reads the kind and nothing else, and a
/// filter never changes after it was built.
pub struct RecordFilter {
    allowed: Vec<RecordKind>,
}

impl View for RecordFilter {
    type V = Set<RecordKind>;

    /// The kinds that the filter accepts.
    closed spec fn view(&self) -> Set<RecordKind> {
        self.allowed@.to_set()
    }
}

/// Whether `kind` occurs in `kinds`.
fn occurs(kinds: &[RecordKind], kind: RecordKind) -> (found: bool)
    ensures
        found == kinds@.contains(kind),
{
    let mut i: usize = 0;
    while i < kinds.len()
        invariant
            i <= kinds.len(),
            forall|j: int| 0 <= j < i ==> kinds@[j] != kind,
        decreases kinds.len() - i,
    {
        if kinds[i] == kind {
            return true;
        }
        i += 1;
    }
    false
}

/// The five kinds as a vector.
fn every_kind() -> (kinds: Vec<RecordKind>)
    ensures
        kinds@ == all_kinds(),
{
    let kinds = vec![
        RecordKind::Read,
        RecordKind::Write,
        RecordKind::Drop,
        RecordKind::Error,
        RecordKind::Shutdown,
    ];
    assert(kinds@ =~= all_kinds());
    kinds
}

impl RecordFilter {
    /// A filter that accepts every kind.
    pub fn accept_all() -> (filter: RecordFilter)
        ensures
            filter@ == Set::<RecordKind>::full(),
    {
        let filter = RecordFilter { allowed: every_kind() };
        proof {
            assert forall|kind: RecordKind| filter@.contains(kind) by {
                lemma_all_kinds_is_complete(kind);
            }
            assert(filter@ =~= Set::<RecordKind>::full());
        }
        filter
    }

    /// A filter that accepts exactly the kinds listed in `kinds`. A kind that
    /// is listed twice counts once.
    pub fn allowing(kinds: &[RecordKind]) -> (filter: RecordFilter)
        ensures
            filter@ == kinds@.to_set(),
    {
        RecordFilter { allowed: slice_to_vec(kinds) }
    }

    /// A filter that accepts every kind but those listed in `excluded`.
    pub fn excluding(excluded: &[RecordKind]) -> (filter: RecordFilter)
        ensures
            filter@ == kinds_without(excluded@),
    {
        let every = every_kind();
        let mut allowed: Vec<RecordKind> = Vec::new();
        let mut i: usize = 0;
        while i < every.len()
            invariant
                i <= every.len(),
                every@ == all_kinds(),
                forall|k: RecordKind|
                    allowed@.contains(k) <==> (every@.take(i as int).contains(k)
                        && !excluded@.contains(k)),
            decreases every.len() - i,
        {
            let kind = every[i];
            let ghost before = allowed@;
            let ghost seen = every@.take(i as int);
            let ghost next = every@.take(i + 1);
            let dropped = occurs(excluded, kind);
            if !dropped {
                allowed.push(kind);
            }
            proof {
                assert(next =~= seen.push(kind));
                assert forall|k: RecordKind|
                    allowed@.contains(k) <==> (next.contains(k) && !excluded@.contains(k)) by {
                    lemma_seq_contains_after_push(seen, kind, k);
                    lemma_seq_contains_after_push(before, kind, k);
                }
            }
            i += 1;
        }
        let filter = RecordFilter { allowed };
        proof {
            assert(every@.take(every.len() as int) =~= every@);
            assert forall|k: RecordKind| filter@.contains(k) <==> kinds_without(
                excluded@,
            ).contains(k) by {
                lemma_all_kinds_is_complete(k);
            }
            assert(filter@ =~= kinds_without(excluded@));
        }
        filter
    }

    /// Whether records of `kind` are to be logged.
    pub fn accepts(&self, kind: RecordKind) -> (accepted: bool)
        ensures
            accepted == self@.contains(kind),
    {
        occurs(self.allowed.as_slice(), kind)
    }
}

impl Clone for RecordFilter {
    /// A filter that accepts the same kinds.
    fn clone(&self) -> (copy: RecordFilter)
        ensures
            copy@ == self@,
    {
        RecordFilter { allowed: slice_to_vec(self.allowed.as_slice()) }
    }
}

/// Every kind is one of the five.
pub proof fn lemma_all_kinds_is_complete(kind: RecordKind)
    ensures
        all_kinds().contains(kind),
{
    let i: int = match kind {
        RecordKind::Read => 0,
        RecordKind::Write => 1,
        RecordKind::Drop => 2,
        RecordKind::Error => 3,
        RecordKind::Shutdown => 4,
    };
    assert(all_kinds()[i] == kind);
}

/// Two filters built from one exclusion list decide alike on every kind, and
/// the decision is that the kind is not on the list.
pub proof fn lemma_filters_from_one_list_agree(
    excluded: Seq<RecordKind>,
    first: RecordFilter,
    second: RecordFilter,
    kind: RecordKind,
)
    requires
        first@ == kinds_without(excluded),
        second@ == kinds_without(excluded),
    ensures
        first@.contains(kind) == second@.contains(kind),
        first@.contains(kind) == !excluded.contains(kind),
{
}

} // verus!
