//! Which records of an append-only store are live, and which version of a record is the latest.
use vstd::prelude::*;

use crate::ir::{GraphRecord, NodeRecord, NodeRecordView, RecordView};
use crate::text::same;

verus! {

/// A tombstone removes `id`.
pub open spec fn deleted(s: Seq<RecordView>, id: Seq<char>) -> bool {
    exists|i: int| 0 <= i < s.len() && #[trigger] removes(s[i], id)
}

pub open spec fn removes(r: RecordView, id: Seq<char>) -> bool {
    r matches RecordView::Tombstone(t) && t.deleted_id == id
}

/// The position of the last node with this identity.
pub open spec fn latest_node_at(s: Seq<RecordView>, id: Seq<char>) -> Option<int>
    decreases s.len(),
{
    if s.len() == 0 {
        None
    } else if s.last() matches RecordView::Node(n) && n.id == id {
        Some(s.len() - 1)
    } else {
        latest_node_at(s.drop_last(), id)
    }
}

/// The latest version of the node with this identity.
pub open spec fn latest_node(s: Seq<RecordView>, id: Seq<char>) -> Option<NodeRecordView> {
    match latest_node_at(s, id) {
        Some(i) => if s[i] is Node {
            Some(s[i]->Node_0)
        } else {
            None
        },
        None => None,
    }
}

pub open spec fn is_edge_with_id(r: RecordView, id: Seq<char>) -> bool {
    r matches RecordView::Edge(e) && e.id == id
}

/// No edge with this identity stands behind position `i`.
pub open spec fn is_latest_edge_version(s: Seq<RecordView>, id: Seq<char>, i: int) -> bool {
    forall|j: int| i < j < s.len() ==> !#[trigger] is_edge_with_id(s[j], id)
}

/// What `latest_node_at` finds is a node with that identity and no later one has it.
pub proof fn lemma_latest_node_at(s: Seq<RecordView>, id: Seq<char>)
    ensures
        latest_node_at(s, id) matches Some(i) ==> 0 <= i < s.len() && s[i] is Node && s[i].id() == id
            && (forall|j: int| i < j < s.len() && s[j] is Node ==> (#[trigger] s[j]).id() != id),
        latest_node_at(s, id) is None ==> (forall|j: int|
            0 <= j < s.len() && s[j] is Node ==> (#[trigger] s[j]).id() != id),
    decreases s.len(),
{
    if s.len() > 0 && !(s.last() matches RecordView::Node(n) && n.id == id) {
        let t = s.drop_last();
        lemma_latest_node_at(t, id);
        assert(forall|j: int| 0 <= j < t.len() ==> t[j] == s[j]);
    }
}

/// Liveness over a fixed slice of records.
pub struct Liveness<'a> {
    pub records: &'a [GraphRecord],
}

impl<'a> Liveness<'a> {
    pub open spec fn store(&self) -> Seq<RecordView> {
        self.records.deep_view()
    }

    pub fn new(records: &'a [GraphRecord]) -> (r: Liveness<'a>)
        ensures
            r.store() == records.deep_view(),
    {
        Liveness { records }
    }

    pub fn deleted(&self, id: &str) -> (r: bool)
        ensures
            r == deleted(self.store(), id@),
    {
        let ghost s = self.store();
        let mut i: usize = 0;
        while i < self.records.len()
            invariant
                i <= self.records@.len(),
                s == self.records.deep_view(),
                forall|j: int| 0 <= j < i ==> !#[trigger] removes(s[j], id@),
            decreases self.records.len() - i,
        {
            assert(s[i as int] == self.records@[i as int].deep_view());
            if let GraphRecord::Tombstone(t) = &self.records[i] {
                if same(t.deleted_id.as_str(), id) {
                    assert(removes(s[i as int], id@));
                    return true;
                }
            }
            i += 1;
        }
        false
    }

    pub fn latest_node(&self, id: &str) -> (r: Option<&'a NodeRecord>)
        ensures
            (match r {
                Some(n) => latest_node(self.store(), id@) == Some(n.deep_view()),
                None => latest_node(self.store(), id@) is None,
            }),
    {
        let ghost s = self.store();
        let mut i: usize = self.records.len();
        assert(s.take(i as int) =~= s);
        while i > 0
            invariant
                i <= self.records@.len(),
                s == self.records.deep_view(),
                latest_node_at(s, id@) == latest_node_at(s.take(i as int), id@),
            decreases i,
        {
            i -= 1;
            proof {
                let t = s.take(i + 1);
                assert(t.last() == self.records@[i as int].deep_view());
                assert(t.drop_last() =~= s.take(i as int));
            }
            if let GraphRecord::Node(n) = &self.records[i] {
                if same(n.id.as_str(), id) {
                    return Some(n);
                }
            }
        }
        None
    }

    pub fn is_latest_edge_version(&self, id: &str, index: usize) -> (r: bool)
        requires
            index < self.records.len(),
        ensures
            r == is_latest_edge_version(self.store(), id@, index as int),
    {
        let ghost s = self.store();
        let mut j: usize = index + 1;
        while j < self.records.len()
            invariant
                index < j <= self.records@.len(),
                s == self.records.deep_view(),
                forall|k: int| index < k < j ==> !#[trigger] is_edge_with_id(s[k], id@),
            decreases self.records.len() - j,
        {
            assert(s[j as int] == self.records@[j as int].deep_view());
            if let GraphRecord::Edge(e) = &self.records[j] {
                if same(e.id.as_str(), id) {
                    assert(is_edge_with_id(s[j as int], id@));
                    return false;
                }
            }
            j += 1;
        }
        true
    }
}

} // verus!
