//! Store-wide health of the evidence that agent memories cite.
//!
//! Every live observation, decision and failure cites targets. A citation resolves live, has
//! drifted, or dangles. The citation array of a node and its stored evidence edges have to agree;
//! every disagreement is reported. The sweep reads records and nothing else.
use vstd::prelude::*;

use crate::duplicate::{duplicate_opt, extend_with, lemma_push, Duplicate};
use crate::ir::{
    EdgeLabel, EvidenceLink, EvidenceLinkView, GraphRecord, NodeKind, NodeRecord, NodeRecordView,
    RecordView, SemanticDriftMetadataView,
};
use crate::json::{flag, no_members, number, Json, JsonView, Members};
use crate::liveness::{deleted, is_latest_edge_version, latest_node, Liveness};
use crate::order::{distinct, insert_distinct, sort_by_keys, sorted_by, KeyPart, KeyPartView};
use crate::text::{lt, same, text_lt};

verus! {

/// Health of one citation. Exactly one applies.
#[derive(Debug, Clone, Copy, PartialEq, Eq, PartialOrd, Ord, Structural)]
pub enum LinkBucket {
    /// The target exists and no drift verdict applies.
    ResolvesLive,
    /// The target exists but a drift verdict applies.
    Drifted,
    /// The target is absent from the store, or tombstoned.
    Dangling,
}

/// Which of the two representations lacks a citation.
#[derive(Debug, Clone, Copy, PartialEq, Eq, PartialOrd, Ord, Structural)]
pub enum IntegrityViolationKind {
    /// The array cites a pair more often than the stored edges do.
    ArrayWithoutEdge,
    /// The stored edges hold a pair more often than the array cites it.
    EdgeWithoutArray,
}

/// Health of one citation, and what it cites.
#[derive(Debug, PartialEq, Eq)]
pub struct LinkHealthRow {
    pub source_record_id: String,
    pub source_kind: String,
    /// Empty where the citation names no record.
    pub target_record_id: String,
    pub target_domain: String,
    pub relation: String,
    pub bucket: LinkBucket,
    /// The drift record that applies; only where the citation has drifted.
    pub drift_record_id: Option<String>,
    /// Whether the target was once there; only where the citation dangles.
    pub tombstoned: Option<bool>,
}

#[verifier::ext_equal]
pub struct LinkHealthRowView {
    pub source_record_id: Seq<char>,
    pub source_kind: Seq<char>,
    pub target_record_id: Seq<char>,
    pub target_domain: Seq<char>,
    pub relation: Seq<char>,
    pub bucket: LinkBucket,
    pub drift_record_id: Option<Seq<char>>,
    pub tombstoned: Option<bool>,
}

impl DeepView for LinkHealthRow {
    type V = LinkHealthRowView;

    open spec fn deep_view(&self) -> LinkHealthRowView {
        LinkHealthRowView {
            source_record_id: self.source_record_id@,
            source_kind: self.source_kind@,
            target_record_id: self.target_record_id@,
            target_domain: self.target_domain@,
            relation: self.relation@,
            bucket: self.bucket,
            drift_record_id: self.drift_record_id.deep_view(),
            tombstoned: self.tombstoned,
        }
    }
}

impl Duplicate for LinkHealthRow {
    fn duplicate(&self) -> (r: LinkHealthRow) {
        LinkHealthRow {
            source_record_id: self.source_record_id.clone(),
            source_kind: self.source_kind.clone(),
            target_record_id: self.target_record_id.clone(),
            target_domain: self.target_domain.clone(),
            relation: self.relation.clone(),
            bucket: self.bucket,
            drift_record_id: duplicate_opt(&self.drift_record_id),
            tombstoned: self.tombstoned,
        }
    }
}

/// One pair of target and relation on which array and edges disagree.
#[derive(Debug, PartialEq, Eq)]
pub struct IntegrityViolationRow {
    pub source_record_id: String,
    pub source_kind: String,
    pub violation: IntegrityViolationKind,
    pub target_record_id: String,
    pub relation: String,
    pub array_count: usize,
    pub edge_count: usize,
}

#[verifier::ext_equal]
pub struct IntegrityViolationRowView {
    pub source_record_id: Seq<char>,
    pub source_kind: Seq<char>,
    pub violation: IntegrityViolationKind,
    pub target_record_id: Seq<char>,
    pub relation: Seq<char>,
    pub array_count: int,
    pub edge_count: int,
}

impl DeepView for IntegrityViolationRow {
    type V = IntegrityViolationRowView;

    open spec fn deep_view(&self) -> IntegrityViolationRowView {
        IntegrityViolationRowView {
            source_record_id: self.source_record_id@,
            source_kind: self.source_kind@,
            violation: self.violation,
            target_record_id: self.target_record_id@,
            relation: self.relation@,
            array_count: self.array_count as int,
            edge_count: self.edge_count as int,
        }
    }
}

impl Duplicate for IntegrityViolationRow {
    fn duplicate(&self) -> (r: IntegrityViolationRow) {
        IntegrityViolationRow {
            source_record_id: self.source_record_id.clone(),
            source_kind: self.source_kind.clone(),
            violation: self.violation,
            target_record_id: self.target_record_id.clone(),
            relation: self.relation.clone(),
            array_count: self.array_count,
            edge_count: self.edge_count,
        }
    }
}

/// Store-wide counts.
#[derive(Debug, PartialEq, Eq)]
pub struct MemoryEvidenceHealthSummary {
    /// No citation dangles and the representations agree. Drift is a lead, not rot.
    pub ok: bool,
    /// Live observation-class nodes that carry at least one citation.
    pub sources_checked: usize,
    pub links_checked: usize,
    pub resolves_live: usize,
    pub drifted: usize,
    pub dangling: usize,
    pub integrity_violations: usize,
}

/// One line of the report.
#[derive(Debug, PartialEq, Eq)]
pub enum MemoryEvidenceHealthLine {
    Link(LinkHealthRow),
    IntegrityViolation(IntegrityViolationRow),
    /// Always last.
    Summary(MemoryEvidenceHealthSummary),
}

#[verifier::ext_equal]
pub struct SummaryView {
    pub ok: bool,
    pub sources_checked: int,
    pub links_checked: int,
    pub resolves_live: int,
    pub drifted: int,
    pub dangling: int,
    pub integrity_violations: int,
}

#[verifier::ext_equal]
pub enum LineView {
    Link(LinkHealthRowView),
    IntegrityViolation(IntegrityViolationRowView),
    Summary(SummaryView),
}

impl DeepView for MemoryEvidenceHealthLine {
    type V = LineView;

    open spec fn deep_view(&self) -> LineView {
        match self {
            MemoryEvidenceHealthLine::Link(row) => LineView::Link(row.deep_view()),
            MemoryEvidenceHealthLine::IntegrityViolation(row) => LineView::IntegrityViolation(
                row.deep_view(),
            ),
            MemoryEvidenceHealthLine::Summary(s) => LineView::Summary(
                SummaryView {
                    ok: s.ok,
                    sources_checked: s.sources_checked as int,
                    links_checked: s.links_checked as int,
                    resolves_live: s.resolves_live as int,
                    drifted: s.drifted as int,
                    dangling: s.dangling as int,
                    integrity_violations: s.integrity_violations as int,
                },
            ),
        }
    }
}

// ── What counts ─────────────────────────────────────────────────────────────

pub open spec fn observation_class(kind: NodeKind) -> bool {
    kind == NodeKind::Observation || kind == NodeKind::Decision || kind == NodeKind::Failure
}

/// The node kinds whose citations are swept.
pub fn is_observation_class_kind(kind: NodeKind) -> (r: bool)
    ensures
        r == observation_class(kind),
{
    matches!(kind, NodeKind::Observation | NodeKind::Decision | NodeKind::Failure)
}

/// Edges that ground a claim in evidence. Structural topology and the scaffolding among agent
/// records are no evidence.
pub open spec fn grounds(label: EdgeLabel) -> bool {
    label == EdgeLabel::Observes || label == EdgeLabel::MentionsSymbol || label
        == EdgeLabel::ValidatedBy || label == EdgeLabel::ExplainsChange || label
        == EdgeLabel::ReferencesTask
}

pub fn is_integrity_checked_evidence_edge(label: EdgeLabel) -> (r: bool)
    ensures
        r == grounds(label),
{
    matches!(
        label,
        EdgeLabel::Observes
            | EdgeLabel::MentionsSymbol
            | EdgeLabel::ValidatedBy
            | EdgeLabel::ExplainsChange
            | EdgeLabel::ReferencesTask
    )
}

/// The node's latest version is observation-class and the node is not removed.
pub open spec fn live_source(s: Seq<RecordView>, id: Seq<char>) -> bool {
    latest_node(s, id) matches Some(n) && observation_class(n.kind) && !deleted(s, id)
}

pub open spec fn node_ids(s: Seq<RecordView>) -> Seq<Seq<char>>
    decreases s.len(),
{
    if s.len() == 0 {
        Seq::empty()
    } else {
        match s.last() {
            RecordView::Node(n) => node_ids(s.drop_last()).push(n.id),
            _ => node_ids(s.drop_last()),
        }
    }
}

/// The live observation-class nodes, by identity.
pub open spec fn source_ids(s: Seq<RecordView>) -> Seq<Seq<char>> {
    distinct(node_ids(s)).filter(|id: Seq<char>| live_source(s, id))
}

pub open spec fn links_of(n: NodeRecordView) -> Seq<EvidenceLinkView> {
    match n.evidence_links {
        Some(links) => links,
        None => Seq::empty(),
    }
}

pub open spec fn target_of(link: EvidenceLinkView) -> Seq<char> {
    match link.target_record_id {
        Some(id) => id,
        None => Seq::empty(),
    }
}

// ── Drift ───────────────────────────────────────────────────────────────────

/// The drift measurement that a record carries, where it is a drift record.
pub open spec fn drift_of(r: RecordView) -> Option<SemanticDriftMetadataView> {
    match r {
        RecordView::Node(n) => if n.kind == NodeKind::SemanticDrift {
            n.semantic_drift
        } else {
            None
        },
        _ => None,
    }
}

/// The latest measurement recorded under a drift record's identity.
pub open spec fn latest_drift(s: Seq<RecordView>, id: Seq<char>) -> Option<
    SemanticDriftMetadataView,
>
    decreases s.len(),
{
    if s.len() == 0 {
        None
    } else if s.last().id() == id && drift_of(s.last()) is Some {
        drift_of(s.last())
    } else {
        latest_drift(s.drop_last(), id)
    }
}

/// Drift record `id` is live and its latest measurement was taken from `target`.
pub open spec fn drift_applies(s: Seq<RecordView>, id: Seq<char>, target: Seq<char>) -> bool {
    !deleted(s, id) && (latest_drift(s, id) matches Some(m) && m.prior_record_id == target)
}

pub open spec fn drift_time(s: Seq<RecordView>, id: Seq<char>) -> Seq<char> {
    match latest_drift(s, id) {
        Some(m) => m.after_valid_time,
        None => Seq::empty(),
    }
}

/// `a` was measured before `b`; at one instant the smaller identity comes first.
pub open spec fn drift_before(s: Seq<RecordView>, a: Seq<char>, b: Seq<char>) -> bool {
    text_lt(drift_time(s, a), drift_time(s, b)) || (drift_time(s, a) == drift_time(s, b)
        && text_lt(a, b))
}

/// The earliest drift record that applies to `target`, among the first `n` records.
pub open spec fn earliest_drift_among(s: Seq<RecordView>, target: Seq<char>, n: nat) -> Option<
    Seq<char>,
>
    decreases n,
{
    if n == 0 {
        None
    } else {
        let best = earliest_drift_among(s, target, (n - 1) as nat);
        let id = s[n - 1].id();
        if drift_of(s[n - 1]) is Some && drift_applies(s, id, target) && (best is None
            || drift_before(s, id, best->0)) {
            Some(id)
        } else {
            best
        }
    }
}

pub open spec fn earliest_drift(s: Seq<RecordView>, target: Seq<char>) -> Option<Seq<char>> {
    earliest_drift_among(s, target, s.len())
}

fn find_latest_drift<'a>(records: &'a [GraphRecord], id: &str) -> (r: Option<(
    &'a String,
    &'a String,
)>)
    ensures
        (match r {
            Some((prior, time)) => latest_drift(records.deep_view(), id@) matches Some(m)
                && m.prior_record_id == prior@ && m.after_valid_time == time@,
            None => latest_drift(records.deep_view(), id@) is None,
        }),
{
    let ghost s = records.deep_view();
    let mut i: usize = records.len();
    assert(s.take(i as int) =~= s);
    while i > 0
        invariant
            i <= records@.len(),
            s == records.deep_view(),
            latest_drift(s, id@) == latest_drift(s.take(i as int), id@),
        decreases i,
    {
        i -= 1;
        proof {
            let t = s.take(i + 1);
            assert(t.last() == records@[i as int].deep_view());
            assert(t.drop_last() =~= s.take(i as int));
        }
        if let GraphRecord::Node(n) = &records[i] {
            if n.kind == NodeKind::SemanticDrift && same(n.id.as_str(), id) {
                if let Some(m) = &n.semantic_drift {
                    return Some((&m.prior_record_id, &m.after_valid_time));
                }
            }
        }
    }
    None
}

fn drift_is_before(records: &[GraphRecord], a: &str, b: &str) -> (r: bool)
    ensures
        r == drift_before(records.deep_view(), a@, b@),
{
    let none: String = String::new();
    let ta: &String = match find_latest_drift(records, a) {
        Some((_, t)) => t,
        None => &none,
    };
    let tb: &String = match find_latest_drift(records, b) {
        Some((_, t)) => t,
        None => &none,
    };
    lt(ta.as_str(), tb.as_str()) || (same(ta.as_str(), tb.as_str()) && lt(a, b))
}

fn find_earliest_drift(liveness: &Liveness, target: &str) -> (r: Option<String>)
    ensures
        r.deep_view() == earliest_drift(liveness.store(), target@),
{
    let ghost s = liveness.store();
    let mut best: Option<String> = None;
    let mut i: usize = 0;
    while i < liveness.records.len()
        invariant
            i <= liveness.records@.len(),
            s == liveness.store(),
            best.deep_view() == earliest_drift_among(s, target@, i as nat),
        decreases liveness.records.len() - i,
    {
        assert(s[i as int] == liveness.records@[i as int].deep_view());
        if let GraphRecord::Node(n) = &liveness.records[i] {
            if n.kind == NodeKind::SemanticDrift && n.semantic_drift.is_some() {
                let applies: bool = !liveness.deleted(n.id.as_str()) && (match find_latest_drift(
                    liveness.records,
                    n.id.as_str(),
                ) {
                    Some((prior, _)) => same(prior.as_str(), target),
                    None => false,
                });
                if applies {
                    let better: bool = match &best {
                        Some(b) => drift_is_before(liveness.records, n.id.as_str(), b.as_str()),
                        None => true,
                    };
                    if better {
                        best = Some(n.id.clone());
                    }
                }
            }
        }
        i += 1;
    }
    best
}

// ── Citations ───────────────────────────────────────────────────────────────

pub open spec fn target_live(s: Seq<RecordView>, target: Seq<char>) -> bool {
    target.len() > 0 && latest_node(s, target) is Some && !deleted(s, target)
}

/// The row of one citation.
pub open spec fn link_row(
    s: Seq<RecordView>,
    source: Seq<char>,
    kind: Seq<char>,
    link: EvidenceLinkView,
) -> LinkHealthRowView {
    let target = target_of(link);
    let drift = earliest_drift(s, target);
    let live = target_live(s, target);
    LinkHealthRowView {
        source_record_id: source,
        source_kind: kind,
        target_record_id: target,
        target_domain: link.target_domain,
        relation: link.relation,
        bucket: if !live {
            LinkBucket::Dangling
        } else if drift is Some {
            LinkBucket::Drifted
        } else {
            LinkBucket::ResolvesLive
        },
        drift_record_id: if live {
            drift
        } else {
            None
        },
        tombstoned: if live {
            None
        } else {
            Some(target.len() > 0 && (latest_node(s, target) is Some || deleted(s, target)))
        },
    }
}

fn classify_link(
    source_id: &str,
    source_kind: &str,
    link: &EvidenceLink,
    liveness: &Liveness,
) -> (r: LinkHealthRow)
    ensures
        r.deep_view() == link_row(liveness.store(), source_id@, source_kind@, link.deep_view()),
{
    let target: String = match &link.target_record_id {
        Some(id) => id.clone(),
        None => String::new(),
    };
    let present: bool = !target.as_str().is_empty() && liveness.latest_node(
        target.as_str(),
    ).is_some();
    let gone: bool = liveness.deleted(target.as_str());
    let live: bool = present && !gone;
    let drift: Option<String> = if live {
        find_earliest_drift(liveness, target.as_str())
    } else {
        None
    };
    let bucket: LinkBucket = if !live {
        LinkBucket::Dangling
    } else if drift.is_some() {
        LinkBucket::Drifted
    } else {
        LinkBucket::ResolvesLive
    };
    let tombstoned: Option<bool> = if live {
        None
    } else {
        Some(!target.as_str().is_empty() && (present || gone))
    };
    LinkHealthRow {
        source_record_id: source_id.to_owned(),
        source_kind: source_kind.to_owned(),
        target_record_id: target,
        target_domain: link.target_domain.clone(),
        relation: link.relation.clone(),
        bucket,
        drift_record_id: drift,
        tombstoned,
    }
}

// ── Agreement of the two representations ────────────────────────────────────

/// The pairs of target and relation that a node's array cites.
pub open spec fn array_pairs(n: NodeRecordView) -> Seq<(Seq<char>, Seq<char>)> {
    links_of(n).map_values(|l: EvidenceLinkView| (target_of(l), l.relation))
}

/// The edge at `i` is a live, latest-version evidence edge of `source`.
pub open spec fn evidence_edge_at(s: Seq<RecordView>, source: Seq<char>, i: int) -> bool {
    s[i] matches RecordView::Edge(e) && grounds(e.label) && e.source == source
        && is_latest_edge_version(s, e.id, i) && !deleted(s, e.id)
}

/// The pairs of target and label of a node's live evidence edges, among the first `n` records.
pub open spec fn edge_pairs(s: Seq<RecordView>, source: Seq<char>, n: nat) -> Seq<
    (Seq<char>, Seq<char>),
>
    decreases n,
{
    if n == 0 {
        Seq::empty()
    } else {
        let before = edge_pairs(s, source, (n - 1) as nat);
        if evidence_edge_at(s, source, n - 1) {
            before.push((s[n - 1]->Edge_0.target, s[n - 1]->Edge_0.label.name()))
        } else {
            before
        }
    }
}

/// How often `p` occurs.
pub open spec fn occurrences(pairs: Seq<(Seq<char>, Seq<char>)>, p: (Seq<char>, Seq<char>)) -> int
    decreases pairs.len(),
{
    if pairs.len() == 0 {
        0
    } else {
        occurrences(pairs.drop_last(), p) + if pairs.last() == p {
            1int
        } else {
            0
        }
    }
}

/// One row for every distinct pair among the first `n` of `all` that occurs a different number of
/// times in the array than among the edges.
pub open spec fn disagreements(
    source: Seq<char>,
    kind: Seq<char>,
    array: Seq<(Seq<char>, Seq<char>)>,
    edges: Seq<(Seq<char>, Seq<char>)>,
    n: nat,
) -> Seq<IntegrityViolationRowView>
    decreases n,
{
    if n == 0 {
        Seq::empty()
    } else {
        let all = array + edges;
        let before = disagreements(source, kind, array, edges, (n - 1) as nat);
        let p = all[n - 1];
        let a = occurrences(array, p);
        let e = occurrences(edges, p);
        if a == e || all.take(n - 1).contains(p) {
            before
        } else {
            before.push(
                IntegrityViolationRowView {
                    source_record_id: source,
                    source_kind: kind,
                    violation: if a > e {
                        IntegrityViolationKind::ArrayWithoutEdge
                    } else {
                        IntegrityViolationKind::EdgeWithoutArray
                    },
                    target_record_id: p.0,
                    relation: p.1,
                    array_count: a,
                    edge_count: e,
                },
            )
        }
    }
}

pub open spec fn pair_key(r: IntegrityViolationRowView) -> Seq<KeyPartView> {
    seq![KeyPartView::Text(r.target_record_id), KeyPartView::Text(r.relation)]
}

/// One row for every pair that occurs a different number of times in the array than among the
/// edges, by target and relation.
pub open spec fn agreement_rows(
    source: Seq<char>,
    kind: Seq<char>,
    array: Seq<(Seq<char>, Seq<char>)>,
    edges: Seq<(Seq<char>, Seq<char>)>,
) -> Seq<IntegrityViolationRowView> {
    let rows = disagreements(source, kind, array, edges, array.len() + edges.len());
    sorted_by(rows, rows.map_values(|r: IntegrityViolationRowView| pair_key(r)))
}

pub open spec fn violations_of(s: Seq<RecordView>, source: Seq<char>) -> Seq<
    IntegrityViolationRowView,
> {
    match latest_node(s, source) {
        Some(n) => {
            let array = array_pairs(n);
            let edges = edge_pairs(s, source, s.len());
            agreement_rows(source, n.kind.name(), array, edges)
        },
        None => Seq::empty(),
    }
}

fn collect_array_pairs(links: &Option<Vec<EvidenceLink>>, n: Ghost<NodeRecordView>) -> (r: Vec<
    (String, String),
>)
    requires
        n@.evidence_links == links.deep_view(),
    ensures
        r.deep_view() == array_pairs(n@),
{
    let mut out: Vec<(String, String)> = Vec::new();
    assert(out.deep_view() =~= Seq::<(Seq<char>, Seq<char>)>::empty());
    let ghost pairs = array_pairs(n@);
    match links {
        None => {
            assert(pairs =~= Seq::empty());
        },
        Some(v) => {
            let mut i: usize = 0;
            assert(out.deep_view() =~= pairs.take(0));
            while i < v.len()
                invariant
                    i <= v.len(),
                    pairs == v.deep_view().map_values(
                        |l: EvidenceLinkView| (target_of(l), l.relation),
                    ),
                    out.deep_view() == pairs.take(i as int),
                decreases v.len() - i,
            {
                let ghost before = out;
                let link: &EvidenceLink = &v[i];
                let target: String = match &link.target_record_id {
                    Some(id) => id.clone(),
                    None => String::new(),
                };
                out.push((target, link.relation.clone()));
                proof {
                    lemma_push(before, out);
                    assert(v.deep_view()[i as int] == v@[i as int].deep_view());
                    assert(pairs.take(i + 1) =~= pairs.take(i as int).push(pairs[i as int]));
                }
                i += 1;
            }
            assert(pairs.take(v.len() as int) =~= pairs);
        },
    }
    out
}

fn collect_edge_pairs(liveness: &Liveness, source: &str) -> (r: Vec<(String, String)>)
    ensures
        r.deep_view() == edge_pairs(liveness.store(), source@, liveness.store().len()),
{
    let ghost s = liveness.store();
    let mut out: Vec<(String, String)> = Vec::new();
    let mut i: usize = 0;
    assert(out.deep_view() =~= edge_pairs(s, source@, 0));
    while i < liveness.records.len()
        invariant
            i <= liveness.records@.len(),
            s == liveness.store(),
            out.deep_view() == edge_pairs(s, source@, i as nat),
        decreases liveness.records.len() - i,
    {
        assert(s[i as int] == liveness.records@[i as int].deep_view());
        if let GraphRecord::Edge(e) = &liveness.records[i] {
            if is_integrity_checked_evidence_edge(e.label) && same(e.source.as_str(), source)
                && liveness.is_latest_edge_version(e.id.as_str(), i) && !liveness.deleted(
                e.id.as_str(),
            ) {
                let ghost before = out;
                out.push((e.target.clone(), e.label.as_str().to_owned()));
                proof {
                    lemma_push(before, out);
                }
            }
        }
        i += 1;
    }
    out
}

fn count_pair(pairs: &Vec<(String, String)>, target: &str, relation: &str) -> (r: usize)
    ensures
        r == occurrences(pairs.deep_view(), (target@, relation@)),
        r <= pairs.len(),
{
    let ghost ps = pairs.deep_view();
    let mut n: usize = 0;
    let mut i: usize = 0;
    assert(ps.take(0) =~= Seq::empty());
    while i < pairs.len()
        invariant
            i <= pairs.len(),
            n <= i,
            ps == pairs.deep_view(),
            n == occurrences(ps.take(i as int), (target@, relation@)),
        decreases pairs.len() - i,
    {
        proof {
            let t = ps.take(i + 1);
            assert(t.drop_last() =~= ps.take(i as int));
            assert(t.last() == pairs@[i as int].deep_view());
        }
        if same(pairs[i].0.as_str(), target) && same(pairs[i].1.as_str(), relation) {
            n += 1;
        }
        i += 1;
    }
    assert(ps.take(pairs.len() as int) =~= ps);
    n
}

fn pair_seen(pairs: &Vec<(String, String)>, n: usize, target: &str, relation: &str) -> (r: bool)
    requires
        n <= pairs.len(),
    ensures
        r == pairs.deep_view().take(n as int).contains((target@, relation@)),
{
    let ghost ps = pairs.deep_view().take(n as int);
    let mut i: usize = 0;
    while i < n
        invariant
            i <= n <= pairs.len(),
            ps == pairs.deep_view().take(n as int),
            forall|k: int| 0 <= k < i ==> ps[k] != (target@, relation@),
        decreases n - i,
    {
        assert(ps[i as int] == pairs@[i as int].deep_view());
        if same(pairs[i].0.as_str(), target) && same(pairs[i].1.as_str(), relation) {
            assert(ps[i as int] == (target@, relation@));
            return true;
        }
        i += 1;
    }
    false
}

fn duplicate_pairs(pairs: &Vec<(String, String)>, out: &mut Vec<(String, String)>)
    ensures
        final(out).deep_view() == old(out).deep_view() + pairs.deep_view(),
{
    let ghost start = out.deep_view();
    let ghost ps = pairs.deep_view();
    let mut i: usize = 0;
    assert(start + ps.take(0) =~= start);
    while i < pairs.len()
        invariant
            i <= pairs.len(),
            ps == pairs.deep_view(),
            out.deep_view() == start + ps.take(i as int),
        decreases pairs.len() - i,
    {
        let ghost before = *out;
        out.push((pairs[i].0.clone(), pairs[i].1.clone()));
        proof {
            lemma_push(before, *out);
            assert(start + ps.take(i + 1) =~= (start + ps.take(i as int)).push(ps[i as int]));
        }
        i += 1;
    }
    assert(ps.take(pairs.len() as int) =~= ps);
}

fn pair_keys(rows: &Vec<IntegrityViolationRow>) -> (r: Vec<Vec<KeyPart>>)
    ensures
        r.deep_view() == rows.deep_view().map_values(|r: IntegrityViolationRowView| pair_key(r)),
        r.len() == rows.len(),
{
    let mut out: Vec<Vec<KeyPart>> = Vec::new();
    let ghost all = rows.deep_view().map_values(|r: IntegrityViolationRowView| pair_key(r));
    let mut i: usize = 0;
    assert(out.deep_view() =~= all.take(0));
    while i < rows.len()
        invariant
            i <= rows.len(),
            out.len() == i,
            all == rows.deep_view().map_values(|r: IntegrityViolationRowView| pair_key(r)),
            out.deep_view() == all.take(i as int),
        decreases rows.len() - i,
    {
        let ghost before = out;
        let row: &IntegrityViolationRow = &rows[i];
        let key: Vec<KeyPart> = vec![
            KeyPart::Text(row.target_record_id.clone()),
            KeyPart::Text(row.relation.clone()),
        ];
        out.push(key);
        proof {
            lemma_push(before, out);
            assert(rows.deep_view()[i as int] == row.deep_view());
            assert(key.deep_view() =~= pair_key(row.deep_view()));
            assert(all.take(i + 1) =~= all.take(i as int).push(all[i as int]));
        }
        i += 1;
    }
    assert(all.take(rows.len() as int) =~= all);
    out
}

/// Compares the pairs that a node's array cites with those of its evidence edges: as multisets
/// they must be equal.
pub fn check_representation_agreement(
    source_id: &str,
    source_kind: &str,
    array: &Vec<(String, String)>,
    edges: &Vec<(String, String)>,
) -> (r: Vec<IntegrityViolationRow>)
    ensures
        r.deep_view() == agreement_rows(
            source_id@,
            source_kind@,
            array.deep_view(),
            edges.deep_view(),
        ),
{
    let ghost a = array.deep_view();
    let ghost e = edges.deep_view();
    let mut all: Vec<(String, String)> = Vec::new();
    duplicate_pairs(array, &mut all);
    duplicate_pairs(edges, &mut all);
    assert(all.deep_view() =~= a + e);
    let mut out: Vec<IntegrityViolationRow> = Vec::new();
    let mut i: usize = 0;
    assert(out.deep_view() =~= disagreements(source_id@, source_kind@, a, e, 0));
    while i < all.len()
        invariant
            i <= all.len(),
            a == array.deep_view(),
            e == edges.deep_view(),
            all.deep_view() == a + e,
            out.deep_view() == disagreements(source_id@, source_kind@, a, e, i as nat),
        decreases all.len() - i,
    {
        assert((a + e)[i as int] == all@[i as int].deep_view());
        let target: &String = &all[i].0;
        let relation: &String = &all[i].1;
        let in_array: usize = count_pair(array, target.as_str(), relation.as_str());
        let in_edges: usize = count_pair(edges, target.as_str(), relation.as_str());
        if in_array != in_edges && !pair_seen(&all, i, target.as_str(), relation.as_str()) {
            let ghost before = out;
            let violation: IntegrityViolationKind = if in_array > in_edges {
                IntegrityViolationKind::ArrayWithoutEdge
            } else {
                IntegrityViolationKind::EdgeWithoutArray
            };
            out.push(
                IntegrityViolationRow {
                    source_record_id: source_id.to_owned(),
                    source_kind: source_kind.to_owned(),
                    violation,
                    target_record_id: target.clone(),
                    relation: relation.clone(),
                    array_count: in_array,
                    edge_count: in_edges,
                },
            );
            proof {
                lemma_push(before, out);
            }
        }
        i += 1;
    }
    sort_by_keys(&out, &pair_keys(&out))
}

// ── The report ──────────────────────────────────────────────────────────────

pub open spec fn links_rows_of(s: Seq<RecordView>, source: Seq<char>) -> Seq<LinkHealthRowView> {
    match latest_node(s, source) {
        Some(n) => links_of(n).map_values(
            |l: EvidenceLinkView| link_row(s, source, n.kind.name(), l),
        ),
        None => Seq::empty(),
    }
}

/// The citation rows of the given sources, source by source.
pub open spec fn all_link_rows(s: Seq<RecordView>, sources: Seq<Seq<char>>) -> Seq<
    LinkHealthRowView,
>
    decreases sources.len(),
{
    if sources.len() == 0 {
        Seq::empty()
    } else {
        all_link_rows(s, sources.drop_last()) + links_rows_of(s, sources.last())
    }
}

/// The disagreement rows of the given sources, source by source.
pub open spec fn all_violations(s: Seq<RecordView>, sources: Seq<Seq<char>>) -> Seq<
    IntegrityViolationRowView,
>
    decreases sources.len(),
{
    if sources.len() == 0 {
        Seq::empty()
    } else {
        all_violations(s, sources.drop_last()) + violations_of(s, sources.last())
    }
}

pub open spec fn link_key(r: LinkHealthRowView) -> Seq<KeyPartView> {
    seq![
        KeyPartView::Text(r.source_record_id),
        KeyPartView::Text(r.target_record_id),
        KeyPartView::Text(r.relation),
    ]
}

pub open spec fn violation_rank(v: IntegrityViolationKind) -> u64 {
    match v {
        IntegrityViolationKind::ArrayWithoutEdge => 0,
        IntegrityViolationKind::EdgeWithoutArray => 1,
    }
}

pub open spec fn violation_key(r: IntegrityViolationRowView) -> Seq<KeyPartView> {
    seq![
        KeyPartView::Text(r.source_record_id),
        KeyPartView::Num(violation_rank(r.violation)),
        KeyPartView::Text(r.target_record_id),
        KeyPartView::Text(r.relation),
    ]
}

/// The citation rows of the store, by source, target and relation.
pub open spec fn link_rows(s: Seq<RecordView>) -> Seq<LinkHealthRowView> {
    let rows = all_link_rows(s, source_ids(s));
    sorted_by(rows, rows.map_values(|r: LinkHealthRowView| link_key(r)))
}

/// The disagreement rows of the store, by source, direction, target and relation.
pub open spec fn violation_rows(s: Seq<RecordView>) -> Seq<IntegrityViolationRowView> {
    let rows = all_violations(s, source_ids(s));
    sorted_by(rows, rows.map_values(|r: IntegrityViolationRowView| violation_key(r)))
}

pub open spec fn bucket_count(rows: Seq<LinkHealthRowView>, bucket: LinkBucket) -> int
    decreases rows.len(),
{
    if rows.len() == 0 {
        0
    } else {
        bucket_count(rows.drop_last(), bucket) + if rows.last().bucket == bucket {
            1int
        } else {
            0
        }
    }
}

pub open spec fn cites(s: Seq<RecordView>, id: Seq<char>) -> bool {
    latest_node(s, id) matches Some(n) && links_of(n).len() > 0
}

pub open spec fn citing_count(s: Seq<RecordView>, sources: Seq<Seq<char>>) -> int
    decreases sources.len(),
{
    if sources.len() == 0 {
        0
    } else {
        citing_count(s, sources.drop_last()) + if cites(s, sources.last()) {
            1int
        } else {
            0
        }
    }
}

pub open spec fn summary(s: Seq<RecordView>) -> SummaryView {
    let links = link_rows(s);
    let violations = violation_rows(s);
    SummaryView {
        ok: bucket_count(links, LinkBucket::Dangling) == 0 && violations.len() == 0,
        sources_checked: citing_count(s, source_ids(s)),
        links_checked: links.len() as int,
        resolves_live: bucket_count(links, LinkBucket::ResolvesLive),
        drifted: bucket_count(links, LinkBucket::Drifted),
        dangling: bucket_count(links, LinkBucket::Dangling),
        integrity_violations: violations.len() as int,
    }
}

/// The whole report: citation rows, disagreement rows, and the summary last.
pub open spec fn report(s: Seq<RecordView>) -> Seq<LineView> {
    link_rows(s).map_values(|r: LinkHealthRowView| LineView::Link(r)) + violation_rows(s).map_values(
        |r: IntegrityViolationRowView| LineView::IntegrityViolation(r),
    ) + seq![LineView::Summary(summary(s))]
}

fn collect_sources(liveness: &Liveness) -> (r: Vec<String>)
    ensures
        r.deep_view() == source_ids(liveness.store()),
{
    let ghost s = liveness.store();
    let mut ids: Vec<String> = Vec::new();
    let mut i: usize = 0;
    assert(s.take(0) =~= Seq::empty());
    assert(ids.deep_view() =~= distinct(node_ids(s.take(0))));
    while i < liveness.records.len()
        invariant
            i <= liveness.records@.len(),
            s == liveness.store(),
            ids.deep_view() == distinct(node_ids(s.take(i as int))),
        decreases liveness.records.len() - i,
    {
        proof {
            let t = s.take(i + 1);
            assert(t.drop_last() =~= s.take(i as int));
            assert(t.last() == liveness.records@[i as int].deep_view());
        }
        if let GraphRecord::Node(n) = &liveness.records[i] {
            proof {
                let before = node_ids(s.take(i as int));
                assert(before.push(n.id@).drop_last() =~= before);
            }
            insert_distinct(&mut ids, n.id.as_str());
        }
        i += 1;
    }
    assert(s.take(s.len() as int) =~= s);
    let mut out: Vec<String> = Vec::new();
    let ghost all = ids.deep_view();
    let ghost keep = |id: Seq<char>| live_source(s, id);
    let mut k: usize = 0;
    proof {
        reveal(Seq::filter);
        assert(out.deep_view() =~= all.take(0).filter(keep));
    }
    while k < ids.len()
        invariant
            k <= ids.len(),
            s == liveness.store(),
            all == ids.deep_view(),
            keep == (|id: Seq<char>| live_source(s, id)),
            out.deep_view() == all.take(k as int).filter(keep),
        decreases ids.len() - k,
    {
        proof {
            reveal(Seq::filter);
            assert(all.take(k + 1).drop_last() =~= all.take(k as int));
            assert(all[k as int] == ids@[k as int]@);
        }
        let live: bool = match liveness.latest_node(ids[k].as_str()) {
            Some(n) => is_observation_class_kind(n.kind) && !liveness.deleted(ids[k].as_str()),
            None => false,
        };
        if live {
            let ghost before = out;
            out.push(ids[k].clone());
            proof {
                lemma_push(before, out);
            }
        }
        k += 1;
    }
    assert(all.take(all.len() as int) =~= all);
    out
}

fn link_keys(rows: &Vec<LinkHealthRow>) -> (r: Vec<Vec<KeyPart>>)
    ensures
        r.deep_view() == rows.deep_view().map_values(|r: LinkHealthRowView| link_key(r)),
        r.len() == rows.len(),
{
    let mut out: Vec<Vec<KeyPart>> = Vec::new();
    let ghost all = rows.deep_view().map_values(|r: LinkHealthRowView| link_key(r));
    let mut i: usize = 0;
    assert(out.deep_view() =~= all.take(0));
    while i < rows.len()
        invariant
            i <= rows.len(),
            out.len() == i,
            all == rows.deep_view().map_values(|r: LinkHealthRowView| link_key(r)),
            out.deep_view() == all.take(i as int),
        decreases rows.len() - i,
    {
        let ghost before = out;
        let row: &LinkHealthRow = &rows[i];
        let key: Vec<KeyPart> = vec![
            KeyPart::Text(row.source_record_id.clone()),
            KeyPart::Text(row.target_record_id.clone()),
            KeyPart::Text(row.relation.clone()),
        ];
        out.push(key);
        proof {
            lemma_push(before, out);
            assert(rows.deep_view()[i as int] == row.deep_view());
            assert(key.deep_view() =~= link_key(row.deep_view()));
            assert(all.take(i + 1) =~= all.take(i as int).push(all[i as int]));
        }
        i += 1;
    }
    assert(all.take(rows.len() as int) =~= all);
    out
}

fn violation_keys(rows: &Vec<IntegrityViolationRow>) -> (r: Vec<Vec<KeyPart>>)
    ensures
        r.deep_view() == rows.deep_view().map_values(
            |r: IntegrityViolationRowView| violation_key(r),
        ),
        r.len() == rows.len(),
{
    let mut out: Vec<Vec<KeyPart>> = Vec::new();
    let ghost all = rows.deep_view().map_values(|r: IntegrityViolationRowView| violation_key(r));
    let mut i: usize = 0;
    assert(out.deep_view() =~= all.take(0));
    while i < rows.len()
        invariant
            i <= rows.len(),
            out.len() == i,
            all == rows.deep_view().map_values(|r: IntegrityViolationRowView| violation_key(r)),
            out.deep_view() == all.take(i as int),
        decreases rows.len() - i,
    {
        let ghost before = out;
        let row: &IntegrityViolationRow = &rows[i];
        let rank: u64 = match row.violation {
            IntegrityViolationKind::ArrayWithoutEdge => 0,
            IntegrityViolationKind::EdgeWithoutArray => 1,
        };
        let key: Vec<KeyPart> = vec![
            KeyPart::Text(row.source_record_id.clone()),
            KeyPart::Num(rank),
            KeyPart::Text(row.target_record_id.clone()),
            KeyPart::Text(row.relation.clone()),
        ];
        out.push(key);
        proof {
            lemma_push(before, out);
            assert(rows.deep_view()[i as int] == row.deep_view());
            assert(key.deep_view() =~= violation_key(row.deep_view()));
            assert(all.take(i + 1) =~= all.take(i as int).push(all[i as int]));
        }
        i += 1;
    }
    assert(all.take(rows.len() as int) =~= all);
    out
}

fn count_bucket(rows: &Vec<LinkHealthRow>, bucket: LinkBucket) -> (r: usize)
    ensures
        r == bucket_count(rows.deep_view(), bucket),
        r <= rows.len(),
{
    let ghost all = rows.deep_view();
    let mut n: usize = 0;
    let mut i: usize = 0;
    assert(all.take(0) =~= Seq::empty());
    while i < rows.len()
        invariant
            i <= rows.len(),
            n <= i,
            all == rows.deep_view(),
            n == bucket_count(all.take(i as int), bucket),
        decreases rows.len() - i,
    {
        proof {
            let t = all.take(i + 1);
            assert(t.drop_last() =~= all.take(i as int));
            assert(t.last() == rows@[i as int].deep_view());
        }
        if rows[i].bucket == bucket {
            n += 1;
        }
        i += 1;
    }
    assert(all.take(rows.len() as int) =~= all);
    n
}

fn push_link_rows(
    liveness: &Liveness,
    source: &str,
    node: &NodeRecord,
    out: &mut Vec<LinkHealthRow>,
)
    requires
        latest_node(liveness.store(), source@) == Some(node.deep_view()),
    ensures
        final(out).deep_view() == old(out).deep_view() + links_rows_of(liveness.store(), source@),
{
    let ghost s = liveness.store();
    let ghost start = out.deep_view();
    let ghost rows = links_rows_of(s, source@);
    match &node.evidence_links {
        None => {
            assert(start + rows =~= start);
        },
        Some(links) => {
            let mut i: usize = 0;
            assert(start + rows.take(0) =~= start);
            while i < links.len()
                invariant
                    i <= links.len(),
                    s == liveness.store(),
                    rows == links.deep_view().map_values(
                        |l: EvidenceLinkView| link_row(s, source@, node.kind.name(), l),
                    ),
                    out.deep_view() == start + rows.take(i as int),
                decreases links.len() - i,
            {
                let ghost before = *out;
                out.push(classify_link(source, node.kind.as_str(), &links[i], liveness));
                proof {
                    lemma_push(before, *out);
                    assert(links.deep_view()[i as int] == links@[i as int].deep_view());
                    assert(start + rows.take(i + 1) =~= (start + rows.take(i as int)).push(
                        rows[i as int],
                    ));
                }
                i += 1;
            }
            assert(rows.take(links.len() as int) =~= rows);
        },
    }
}

/// Classifies every citation of every live observation-class node, reports where the two
/// representations of citations disagree, and closes with the summary.
pub fn run_memory_evidence_health_audit(records: &[GraphRecord]) -> (r: Vec<
    MemoryEvidenceHealthLine,
>)
    ensures
        r.deep_view() == report(records.deep_view()),
{
    let liveness: Liveness = Liveness::new(records);
    let ghost s = liveness.store();
    let sources: Vec<String> = collect_sources(&liveness);
    let ghost ids = sources.deep_view();
    let mut links: Vec<LinkHealthRow> = Vec::new();
    let mut violations: Vec<IntegrityViolationRow> = Vec::new();
    let mut citing: usize = 0;
    let mut i: usize = 0;
    assert(ids.take(0) =~= Seq::empty());
    assert(links.deep_view() =~= all_link_rows(s, ids.take(0)));
    assert(violations.deep_view() =~= all_violations(s, ids.take(0)));
    while i < sources.len()
        invariant
            i <= sources.len(),
            citing <= i,
            s == liveness.store(),
            s == records.deep_view(),
            ids == sources.deep_view(),
            links.deep_view() == all_link_rows(s, ids.take(i as int)),
            violations.deep_view() == all_violations(s, ids.take(i as int)),
            citing == citing_count(s, ids.take(i as int)),
        decreases sources.len() - i,
    {
        let source: &str = sources[i].as_str();
        proof {
            let t = ids.take(i + 1);
            assert(t.drop_last() =~= ids.take(i as int));
            assert(t.last() == source@);
        }
        match liveness.latest_node(source) {
            Some(node) => {
                push_link_rows(&liveness, source, node, &mut links);
                let array: Vec<(String, String)> = collect_array_pairs(
                    &node.evidence_links,
                    Ghost(node.deep_view()),
                );
                let edges: Vec<(String, String)> = collect_edge_pairs(&liveness, source);
                let found: Vec<IntegrityViolationRow> = check_representation_agreement(
                    source,
                    node.kind.as_str(),
                    &array,
                    &edges,
                );
                extend_with(&mut violations, &found);
                let cites_any: bool = match &node.evidence_links {
                    Some(v) => v.len() > 0,
                    None => false,
                };
                if cites_any {
                    citing += 1;
                }
            },
            None => {
                assert(links.deep_view() + links_rows_of(s, source@) =~= links.deep_view());
                assert(violations.deep_view() + violations_of(s, source@)
                    =~= violations.deep_view());
            },
        }
        i += 1;
    }
    assert(ids.take(ids.len() as int) =~= ids);
    let links: Vec<LinkHealthRow> = sort_by_keys(&links, &link_keys(&links));
    let violations: Vec<IntegrityViolationRow> = sort_by_keys(
        &violations,
        &violation_keys(&violations),
    );
    let resolves_live: usize = count_bucket(&links, LinkBucket::ResolvesLive);
    let drifted: usize = count_bucket(&links, LinkBucket::Drifted);
    let dangling: usize = count_bucket(&links, LinkBucket::Dangling);
    let closing: MemoryEvidenceHealthSummary = MemoryEvidenceHealthSummary {
        ok: dangling == 0 && violations.is_empty(),
        sources_checked: citing,
        links_checked: links.len(),
        resolves_live,
        drifted,
        dangling,
        integrity_violations: violations.len(),
    };
    assemble(&links, &violations, closing)
}

fn assemble(
    links: &Vec<LinkHealthRow>,
    violations: &Vec<IntegrityViolationRow>,
    closing: MemoryEvidenceHealthSummary,
) -> (r: Vec<MemoryEvidenceHealthLine>)
    ensures
        r.deep_view() == links.deep_view().map_values(|r: LinkHealthRowView| LineView::Link(r))
            + violations.deep_view().map_values(
            |r: IntegrityViolationRowView| LineView::IntegrityViolation(r),
        ) + seq![MemoryEvidenceHealthLine::Summary(closing).deep_view()],
{
    let mut out: Vec<MemoryEvidenceHealthLine> = Vec::new();
    let ghost a = links.deep_view().map_values(|r: LinkHealthRowView| LineView::Link(r));
    let ghost b = violations.deep_view().map_values(
        |r: IntegrityViolationRowView| LineView::IntegrityViolation(r),
    );
    let mut i: usize = 0;
    assert(out.deep_view() =~= a.take(0));
    while i < links.len()
        invariant
            i <= links.len(),
            a == links.deep_view().map_values(|r: LinkHealthRowView| LineView::Link(r)),
            out.deep_view() == a.take(i as int),
        decreases links.len() - i,
    {
        let ghost before = out;
        out.push(MemoryEvidenceHealthLine::Link(links[i].duplicate()));
        proof {
            lemma_push(before, out);
            assert(links.deep_view()[i as int] == links@[i as int].deep_view());
            assert(a.take(i + 1) =~= a.take(i as int).push(a[i as int]));
        }
        i += 1;
    }
    assert(a.take(links.len() as int) =~= a);
    let mut k: usize = 0;
    assert(out.deep_view() =~= a + b.take(0));
    while k < violations.len()
        invariant
            k <= violations.len(),
            b == violations.deep_view().map_values(
                |r: IntegrityViolationRowView| LineView::IntegrityViolation(r),
            ),
            out.deep_view() == a + b.take(k as int),
        decreases violations.len() - k,
    {
        let ghost before = out;
        out.push(MemoryEvidenceHealthLine::IntegrityViolation(violations[k].duplicate()));
        proof {
            lemma_push(before, out);
            assert(violations.deep_view()[k as int] == violations@[k as int].deep_view());
            assert(a + b.take(k + 1) =~= (a + b.take(k as int)).push(b[k as int]));
        }
        k += 1;
    }
    assert(b.take(violations.len() as int) =~= b);
    let ghost before = out;
    out.push(MemoryEvidenceHealthLine::Summary(closing));
    proof {
        lemma_push(before, out);
        assert(out.deep_view() =~= a + b + seq![
            MemoryEvidenceHealthLine::Summary(closing).deep_view(),
        ]);
    }
    out
}

// ── Laws ────────────────────────────────────────────────────────────────────

proof fn lemma_bucket_partition(rows: Seq<LinkHealthRowView>)
    ensures
        bucket_count(rows, LinkBucket::ResolvesLive) + bucket_count(rows, LinkBucket::Drifted)
            + bucket_count(rows, LinkBucket::Dangling) == rows.len(),
        bucket_count(rows, LinkBucket::ResolvesLive) >= 0,
        bucket_count(rows, LinkBucket::Drifted) >= 0,
        bucket_count(rows, LinkBucket::Dangling) >= 0,
    decreases rows.len(),
{
    if rows.len() > 0 {
        lemma_bucket_partition(rows.drop_last());
    }
}

/// Every citation lands in exactly one bucket: the three counts add up to all citations.
pub proof fn law_buckets_partition(s: Seq<RecordView>)
    ensures
        summary(s).resolves_live + summary(s).drifted + summary(s).dangling == summary(
            s,
        ).links_checked,
{
    lemma_bucket_partition(link_rows(s));
}

/// The store is in order exactly when no citation dangles and no disagreement is reported; drift
/// never counts against it.
pub proof fn law_ok(s: Seq<RecordView>)
    ensures
        summary(s).ok <==> summary(s).dangling == 0 && summary(s).integrity_violations == 0,
{
}

/// The summary is the last line, and the only one of its kind.
pub proof fn law_summary_is_last(s: Seq<RecordView>)
    ensures
        report(s).len() > 0,
        report(s).last() == LineView::Summary(summary(s)),
        forall|i: int| 0 <= i < report(s).len() - 1 ==> !(#[trigger] report(s)[i] is Summary),
{
}

/// A citation row is drifted exactly when it names a drift record, and dangles exactly when it
/// says whether its target was once there.
pub proof fn law_row_annotations(
    s: Seq<RecordView>,
    source: Seq<char>,
    kind: Seq<char>,
    link: EvidenceLinkView,
)
    ensures
        (link_row(s, source, kind, link).bucket == LinkBucket::Drifted) <==> link_row(
            s,
            source,
            kind,
            link,
        ).drift_record_id is Some,
        (link_row(s, source, kind, link).bucket == LinkBucket::Dangling) <==> link_row(
            s,
            source,
            kind,
            link,
        ).tombstoned is Some,
{
}

/// The citation rows come in ascending order of source, target and relation.
pub proof fn law_rows_are_sorted(s: Seq<RecordView>)
    ensures
        forall|i: int, j: int|
            0 <= i < j < link_rows(s).len() ==> crate::order::key_le(
                link_key(#[trigger] link_rows(s)[i]),
                link_key(#[trigger] link_rows(s)[j]),
            ),
        forall|i: int, j: int|
            0 <= i < j < violation_rows(s).len() ==> crate::order::key_le(
                violation_key(#[trigger] violation_rows(s)[i]),
                violation_key(#[trigger] violation_rows(s)[j]),
            ),
{
    let rows = all_link_rows(s, source_ids(s));
    let keys = rows.map_values(|r: LinkHealthRowView| link_key(r));
    crate::order::law_order_of(keys, rows.len());
    let order = crate::order::order_of(keys, rows.len());
    assert forall|i: int, j: int| 0 <= i < j < link_rows(s).len() implies crate::order::key_le(
        link_key(#[trigger] link_rows(s)[i]),
        link_key(#[trigger] link_rows(s)[j]),
    ) by {
        assert(crate::order::key_le(keys[order[i]], keys[order[j]]));
    }
    let vrows = all_violations(s, source_ids(s));
    let vkeys = vrows.map_values(|r: IntegrityViolationRowView| violation_key(r));
    crate::order::law_order_of(vkeys, vrows.len());
    let vorder = crate::order::order_of(vkeys, vrows.len());
    assert forall|i: int, j: int| 0 <= i < j < violation_rows(s).len() implies crate::order::key_le(
        violation_key(#[trigger] violation_rows(s)[i]),
        violation_key(#[trigger] violation_rows(s)[j]),
    ) by {
        assert(crate::order::key_le(vkeys[vorder[i]], vkeys[vorder[j]]));
    }
}

// ── Rendering ───────────────────────────────────────────────────────────────

impl LinkBucket {
    pub open spec fn name(self) -> Seq<char> {
        match self {
            LinkBucket::ResolvesLive => "resolves_live"@,
            LinkBucket::Drifted => "drifted"@,
            LinkBucket::Dangling => "dangling"@,
        }
    }

    pub fn as_str(self) -> (r: &'static str)
        ensures
            r@ == self.name(),
    {
        match self {
            LinkBucket::ResolvesLive => "resolves_live",
            LinkBucket::Drifted => "drifted",
            LinkBucket::Dangling => "dangling",
        }
    }
}

impl IntegrityViolationKind {
    pub open spec fn name(self) -> Seq<char> {
        match self {
            IntegrityViolationKind::ArrayWithoutEdge => "array_without_edge"@,
            IntegrityViolationKind::EdgeWithoutArray => "edge_without_array"@,
        }
    }

    pub fn as_str(self) -> (r: &'static str)
        ensures
            r@ == self.name(),
    {
        match self {
            IntegrityViolationKind::ArrayWithoutEdge => "array_without_edge",
            IntegrityViolationKind::EdgeWithoutArray => "edge_without_array",
        }
    }
}

/// A citation row as JSON; what does not apply to it is left out.
pub open spec fn link_row_json(r: LinkHealthRowView) -> Seq<(Seq<char>, JsonView)> {
    let base = no_members()
        .push(("type"@, JsonView::Str("link"@)))
        .push(("source_record_id"@, JsonView::Str(r.source_record_id)))
        .push(("source_kind"@, JsonView::Str(r.source_kind)))
        .push(("target_record_id"@, JsonView::Str(r.target_record_id)))
        .push(("target_domain"@, JsonView::Str(r.target_domain)))
        .push(("relation"@, JsonView::Str(r.relation)))
        .push(("bucket"@, JsonView::Str(r.bucket.name())));
    let drifted = match r.drift_record_id {
        Some(id) => base.push(("drift_record_id"@, JsonView::Str(id))),
        None => base,
    };
    match r.tombstoned {
        Some(b) => drifted.push(("tombstoned"@, JsonView::Bool(b))),
        None => drifted,
    }
}

fn build_link_row(r: &LinkHealthRow) -> (j: Members)
    ensures
        j@ == link_row_json(r.deep_view()),
{
    let base: Members = Members::new()
        .with_text("type", "link")
        .with_text("source_record_id", r.source_record_id.as_str())
        .with_text("source_kind", r.source_kind.as_str())
        .with_text("target_record_id", r.target_record_id.as_str())
        .with_text("target_domain", r.target_domain.as_str())
        .with_text("relation", r.relation.as_str())
        .with_text("bucket", r.bucket.as_str());
    let drifted: Members = match &r.drift_record_id {
        Some(id) => base.with_text("drift_record_id", id.as_str()),
        None => base,
    };
    match r.tombstoned {
        Some(b) => drifted.with("tombstoned", flag(b)),
        None => drifted,
    }
}

/// A line of the report as JSON, with its type.
pub open spec fn line_json(l: LineView) -> JsonView {
    match l {
        LineView::Link(r) => JsonView::Obj(link_row_json(r)),
        LineView::IntegrityViolation(r) => JsonView::Obj(
            no_members()
                .push(("type"@, JsonView::Str("integrity_violation"@)))
                .push(("source_record_id"@, JsonView::Str(r.source_record_id)))
                .push(("source_kind"@, JsonView::Str(r.source_kind)))
                .push(("violation"@, JsonView::Str(r.violation.name())))
                .push(("target_record_id"@, JsonView::Str(r.target_record_id)))
                .push(("relation"@, JsonView::Str(r.relation)))
                .push(("array_count"@, JsonView::UInt(r.array_count as u64)))
                .push(("edge_count"@, JsonView::UInt(r.edge_count as u64))),
        ),
        LineView::Summary(r) => JsonView::Obj(
            no_members()
                .push(("type"@, JsonView::Str("summary"@)))
                .push(("ok"@, JsonView::Bool(r.ok)))
                .push(("sources_checked"@, JsonView::UInt(r.sources_checked as u64)))
                .push(("links_checked"@, JsonView::UInt(r.links_checked as u64)))
                .push(("resolves_live"@, JsonView::UInt(r.resolves_live as u64)))
                .push(("drifted"@, JsonView::UInt(r.drifted as u64)))
                .push(("dangling"@, JsonView::UInt(r.dangling as u64)))
                .push(("integrity_violations"@, JsonView::UInt(r.integrity_violations as u64))),
        ),
    }
}

impl MemoryEvidenceHealthLine {
    pub fn to_json(&self) -> (r: Json)
        ensures
            r.deep_view() == line_json(self.deep_view()),
    {
        match self {
            MemoryEvidenceHealthLine::Link(r) => build_link_row(r).object(),
            MemoryEvidenceHealthLine::IntegrityViolation(r) => Members::new()
                .with_text("type", "integrity_violation")
                .with_text("source_record_id", r.source_record_id.as_str())
                .with_text("source_kind", r.source_kind.as_str())
                .with_text("violation", r.violation.as_str())
                .with_text("target_record_id", r.target_record_id.as_str())
                .with_text("relation", r.relation.as_str())
                .with("array_count", number(r.array_count as u64))
                .with("edge_count", number(r.edge_count as u64))
                .object(),
            MemoryEvidenceHealthLine::Summary(r) => Members::new()
                .with_text("type", "summary")
                .with("ok", flag(r.ok))
                .with("sources_checked", number(r.sources_checked as u64))
                .with("links_checked", number(r.links_checked as u64))
                .with("resolves_live", number(r.resolves_live as u64))
                .with("drifted", number(r.drifted as u64))
                .with("dangling", number(r.dangling as u64))
                .with("integrity_violations", number(r.integrity_violations as u64))
                .object(),
        }
    }
}

} // verus!
