//! Which version of a record is the one in view.
use vstd::prelude::*;

use crate::ir::{NodeKind, NodeRecordView, RecordView};
use crate::query::{
    in_view, recency_le, recency_rank, recency_time, time_le, viewed, viewed_among,
};
use crate::time::{rfc3339_instant, Instant};

verus! {

proof fn lemma_time_total(a: Option<Instant>, b: Option<Instant>)
    ensures
        time_le(a, b) || time_le(b, a),
        time_le(a, a),
{
}

proof fn lemma_time_trans(a: Option<Instant>, b: Option<Instant>, c: Option<Instant>)
    requires
        time_le(a, b),
        time_le(b, c),
    ensures
        time_le(a, c),
{
}

/// No later than, as far as ranks and times tell.
pub open spec fn no_later(a: NodeRecordView, b: NodeRecordView) -> bool {
    recency_rank(a) < recency_rank(b) || (recency_rank(a) == recency_rank(b) && time_le(
        recency_time(a),
        recency_time(b),
    ))
}

proof fn lemma_no_later(a: NodeRecordView, b: NodeRecordView, c: NodeRecordView)
    requires
        no_later(a, b),
        no_later(b, c),
    ensures
        no_later(a, c),
{
    if recency_rank(a) == recency_rank(b) && recency_rank(b) == recency_rank(c) {
        lemma_time_trans(recency_time(a), recency_time(b), recency_time(c));
    }
}

proof fn lemma_viewed_is_latest(
    s: Seq<RecordView>,
    at: Option<Seq<char>>,
    kind: NodeKind,
    id: Seq<char>,
    n: nat,
)
    requires
        n <= s.len(),
    ensures
        viewed_among(s, at, kind, id, n) matches Some(m) ==> forall|i: int|
            0 <= i < n && (#[trigger] s[i] matches RecordView::Node(o) && o.kind == kind && o.id
                == id && in_view(s, at, o)) ==> no_later(s[i]->Node_0, m),
        viewed_among(s, at, kind, id, n) is None ==> forall|i: int|
            0 <= i < n ==> !(#[trigger] s[i] matches RecordView::Node(o) && o.kind == kind && o.id
                == id && in_view(s, at, o)),
    decreases n,
{
    if n > 0 {
        lemma_viewed_is_latest(s, at, kind, id, (n - 1) as nat);
        let best = viewed_among(s, at, kind, id, (n - 1) as nat);
        let next = viewed_among(s, at, kind, id, n);
        if let Some(m) = next {
            lemma_time_total(recency_time(m), recency_time(m));
            assert forall|i: int|
                0 <= i < n && (#[trigger] s[i] matches RecordView::Node(o) && o.kind == kind && o.id
                    == id && in_view(s, at, o)) implies no_later(s[i]->Node_0, m) by {
                let o = s[i]->Node_0;
                if i < n - 1 {
                    assert(no_later(o, best->0));
                    if best->0 != m {
                        lemma_time_total(recency_time(best->0), recency_time(m));
                        assert(recency_le(best->0, m));
                        lemma_no_later(o, best->0, m);
                    }
                } else if o != m {
                    lemma_time_total(recency_time(o), recency_time(m));
                    assert(!recency_le(m, o));
                }
            }
        }
    }
}

/// Of several versions in view, the one with the latest valid time is shown; one without a commit is
/// later than all.
pub proof fn law_the_latest_version_is_shown(
    s: Seq<RecordView>,
    at: Option<Seq<char>>,
    kind: NodeKind,
    id: Seq<char>,
    i: int,
    o: NodeRecordView,
)
    requires
        0 <= i < s.len(),
        s[i] == RecordView::Node(o),
        o.kind == kind,
        o.id == id,
        in_view(s, at, o),
    ensures
        viewed(s, at, kind, id) matches Some(m) && {
            &&& o.temporal is None ==> m.temporal is None
            &&& m.temporal matches Some(mt) ==> (o.temporal matches Some(ot) && (rfc3339_instant(
                ot.valid_time,
            ) matches Some(x) ==> (rfc3339_instant(mt.valid_time) matches Some(y)
                && crate::time::instant_le(x, y))))
        },
{
    lemma_viewed_is_latest(s, at, kind, id, s.len());
    let m = viewed(s, at, kind, id)->0;
    assert(no_later(s[i]->Node_0, m));
}

} // verus!
