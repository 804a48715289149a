//! The query engine: existential graph-pattern matching.
//!
//! A graph query maps query-node identifiers to per-node property predicates
//! plus required edge constraints. Evaluation anchors each candidate
//! query-node at the start uid in turn; one attempt matches a node by first
//! evaluating its predicate (failing fast, without touching edges), then
//! requiring for every edge constraint at least one neighbor that matches
//! the constraint's subquery. A visited set over (query-node-id, uid) pairs
//! guards against cycles: a pair already under consideration counts as
//! matched, and since every recursive step visits a fresh pair drawn from
//! the finite set of such pairs, evaluation always terminates.

use vstd::prelude::*;

use crate::store::{GraphStore, PropTable, PropValueV};
use crate::types::{EdgeName, NodeType, PropertyName, Uid};
use vstd::string::StringExecFns;

verus! {

/// A predicate over one stored string property value.
#[derive(Clone, Debug)]
pub enum StringCmp {
    /// Equality with the given literal; negated when the flag is set.
    Eq(String, bool),
}

impl StringCmp {
    /// The comparison `eq(value, negated)` of the query grammar.
    pub fn eq(value: &str, negated: bool) -> (r: StringCmp)
        ensures
            r matches StringCmp::Eq(v, n) && v@ == value@ && n == negated,
    {
        StringCmp::Eq(String::from_str(value), negated)
    }
}

/// Whether one comparison holds of a stored string value.
pub open spec fn cmp_holds(c: StringCmp, stored: Seq<char>) -> bool {
    match c {
        StringCmp::Eq(v, negated) => if negated {
            stored != v@
        } else {
            stored == v@
        },
    }
}

/// All comparisons a node query makes against one property.
#[derive(Clone, Debug)]
pub struct StringFilter {
    pub property_name: PropertyName,
    pub comparisons: Vec<StringCmp>,
}

/// The per-node part of a graph query: a required node type and string
/// property comparisons.
#[derive(Clone, Debug)]
pub struct NodePropertiesQuery {
    pub query_id: u64,
    pub node_type: NodeType,
    pub string_filters: Vec<StringFilter>,
}

/// One required edge constraint: from the source query node, over the named
/// edge, to a neighbor matching the target query node.
#[derive(Clone, Debug)]
pub struct QueryEdge {
    pub source_query_id: u64,
    pub edge_name: EdgeName,
    pub neighbor_query_id: u64,
}

/// A graph query: node predicates keyed by query-node-id, edge constraints,
/// and the query-node-id whose match anchors the returned view.
#[derive(Clone, Debug)]
pub struct GraphQuery {
    pub root_query_id: u64,
    pub nodes: Vec<NodePropertiesQuery>,
    pub edges: Vec<QueryEdge>,
}

/// The first node query with the given identifier, if any.
pub open spec fn find_node(nodes: Seq<NodePropertiesQuery>, query_id: u64) -> Option<
    NodePropertiesQuery,
>
    decreases nodes.len(),
{
    if nodes.len() == 0 {
        Option::None
    } else if nodes[0].query_id == query_id {
        Option::Some(nodes[0])
    } else {
        find_node(nodes.drop_first(), query_id)
    }
}

proof fn lemma_find_node_first_match(nodes: Seq<NodePropertiesQuery>, i: int)
    requires
        0 <= i < nodes.len(),
        forall|j: int| 0 <= j < i ==> nodes[j].query_id != nodes[i].query_id,
    ensures
        find_node(nodes, nodes[i].query_id) == Option::Some(nodes[i]),
    decreases nodes.len(),
{
    if i > 0 {
        assert forall|j: int|
            0 <= j < i - 1 implies nodes.drop_first()[j].query_id != nodes[i].query_id by {
            assert(nodes.drop_first()[j] == nodes[j + 1]);
        }
        assert(nodes.drop_first()[i - 1] == nodes[i]);
        lemma_find_node_first_match(nodes.drop_first(), i - 1);
    }
}

proof fn lemma_find_node_absent(nodes: Seq<NodePropertiesQuery>, query_id: u64)
    requires
        forall|j: int| 0 <= j < nodes.len() ==> nodes[j].query_id != query_id,
    ensures
        find_node(nodes, query_id) is None,
    decreases nodes.len(),
{
    if nodes.len() > 0 {
        assert forall|j: int|
            0 <= j < nodes.drop_first().len() implies nodes.drop_first()[j].query_id != query_id by {
            assert(nodes.drop_first()[j] == nodes[j + 1]);
        }
        lemma_find_node_absent(nodes.drop_first(), query_id);
    }
}

proof fn lemma_find_node_contains(nodes: Seq<NodePropertiesQuery>, query_id: u64)
    requires
        find_node(nodes, query_id) is Some,
    ensures
        nodes.map_values(|n: NodePropertiesQuery| n.query_id).contains(query_id),
    decreases nodes.len(),
{
    if nodes.len() > 0 {
        if nodes[0].query_id == query_id {
            assert(nodes.map_values(|n: NodePropertiesQuery| n.query_id)[0] == query_id);
        } else {
            lemma_find_node_contains(nodes.drop_first(), query_id);
            let m = nodes.drop_first().map_values(|n: NodePropertiesQuery| n.query_id);
            let j = choose|j: int| 0 <= j < m.len() && m[j] == query_id;
            assert(nodes.drop_first()[j] == nodes[j + 1]);
            assert(nodes.map_values(|n: NodePropertiesQuery| n.query_id)[j + 1] == query_id);
        }
    }
}

impl GraphQuery {
    /// A query with one root node predicate and no edge constraints yet.
    pub fn root(node: NodePropertiesQuery) -> (r: GraphQuery)
        ensures
            r.root_query_id == node.query_id,
            r.nodes@ == seq![node],
            r.edges@ == Seq::<QueryEdge>::empty(),
    {
        let root_query_id = node.query_id;
        let ghost n0 = node;
        let mut nodes: Vec<NodePropertiesQuery> = Vec::new();
        nodes.push(node);
        proof {
            assert(nodes@ =~= seq![n0]);
        }
        GraphQuery { root_query_id, nodes, edges: Vec::new() }
    }

    /// Add one node predicate.
    pub fn add_node(&mut self, node: NodePropertiesQuery)
        ensures
            final(self).root_query_id == old(self).root_query_id,
            final(self).nodes@ == old(self).nodes@.push(node),
            final(self).edges@ == old(self).edges@,
    {
        self.nodes.push(node);
    }

    /// Add one edge constraint together with its reverse: the source node
    /// requires a neighbor over `edge_name` matching the target, and the
    /// target requires a neighbor back over `reverse_edge_name` matching
    /// the source — which is what lets a match anchor at either end.
    pub fn add_edge(
        &mut self,
        source_query_id: u64,
        edge_name: EdgeName,
        reverse_edge_name: EdgeName,
        neighbor_query_id: u64,
    )
        ensures
            final(self).root_query_id == old(self).root_query_id,
            final(self).nodes@ == old(self).nodes@,
            final(self).edges@ == old(self).edges@.push(
                QueryEdge { source_query_id, edge_name, neighbor_query_id },
            ).push(
                QueryEdge {
                    source_query_id: neighbor_query_id,
                    edge_name: reverse_edge_name,
                    neighbor_query_id: source_query_id,
                },
            ),
    {
        self.edges.push(QueryEdge { source_query_id, edge_name, neighbor_query_id });
        self.edges.push(
            QueryEdge {
                source_query_id: neighbor_query_id,
                edge_name: reverse_edge_name,
                neighbor_query_id: source_query_id,
            },
        );
    }

    /// The identifiers of all declared query nodes, every one a candidate
    /// root for evaluation.
    pub open spec fn spec_node_ids(self) -> Seq<u64> {
        self.nodes@.map_values(|n: NodePropertiesQuery| n.query_id)
    }

    fn get_node(&self, query_id: u64) -> (r: Option<&NodePropertiesQuery>)
        ensures
            match r {
                Option::Some(n) => find_node(self.nodes@, query_id) == Option::Some(*n),
                Option::None => find_node(self.nodes@, query_id) is None,
            },
    {
        let mut idx: usize = 0;
        while idx < self.nodes.len()
            invariant
                idx <= self.nodes@.len(),
                forall|j: int| 0 <= j < idx ==> self.nodes@[j].query_id != query_id,
            decreases self.nodes@.len() - idx,
        {
            if self.nodes[idx].query_id == query_id {
                proof {
                    lemma_find_node_first_match(self.nodes@, idx as int);
                }
                return Option::Some(&self.nodes[idx]);
            }
            idx = idx + 1;
        }
        proof {
            lemma_find_node_absent(self.nodes@, query_id);
        }
        Option::None
    }
}

/// Whether one string filter holds: the property must be stored, and every
/// comparison must accept its value.
pub open spec fn filter_holds(store: GraphStore, f: StringFilter, tenant: u128, uid: u64) -> bool {
    match store.spec_prop_at((tenant, PropTable::ImmString, uid, f.property_name.value@)) {
        Option::Some(row) => {
            &&& row.value matches PropValueV::S(s)
            &&& forall|j: int|
                0 <= j < f.comparisons@.len() ==> cmp_holds(#[trigger] f.comparisons@[j], s)
        },
        Option::None => false,
    }
}

/// Whether a node's own predicate holds: the stored node type equals the
/// declared one, and every string filter holds.
pub open spec fn node_predicate_holds(
    store: GraphStore,
    nq: NodePropertiesQuery,
    tenant: u128,
    uid: u64,
) -> bool {
    &&& store.spec_node_type(tenant, uid) == Option::Some(nq.node_type.value@)
    &&& forall|i: int|
        0 <= i < nq.string_filters@.len() ==> filter_holds(
            store,
            #[trigger] nq.string_filters@[i],
            tenant,
            uid,
        )
}

/// All (query-node-id, uid) pairs that evaluation could ever visit.
pub open spec fn pair_seq(qids: Seq<u64>, uids: Seq<u64>) -> Seq<(u64, u64)>
    decreases qids.len(),
{
    if qids.len() == 0 {
        Seq::empty()
    } else {
        uids.map_values(|u: u64| (qids[0], u)) + pair_seq(qids.drop_first(), uids)
    }
}

/// How many pairs of `s` are not yet visited: the recursion bound.
pub open spec fn count_unvisited(s: Seq<(u64, u64)>, visited: Set<(u64, u64)>) -> nat
    decreases s.len(),
{
    if s.len() == 0 {
        0nat
    } else {
        count_unvisited(s.drop_first(), visited) + if visited.contains(s[0]) {
            0nat
        } else {
            1nat
        }
    }
}

/// The termination measure of one evaluation attempt: the number of
/// visitable pairs not yet in the visited set.
pub open spec fn rec_measure(store: GraphStore, q: GraphQuery, visited: Set<(u64, u64)>) -> nat {
    count_unvisited(pair_seq(q.spec_node_ids(), store.spec_uid_seq()), visited)
}

proof fn lemma_count_insert_le(s: Seq<(u64, u64)>, visited: Set<(u64, u64)>, p: (u64, u64))
    ensures
        count_unvisited(s, visited.insert(p)) <= count_unvisited(s, visited),
    decreases s.len(),
{
    if s.len() > 0 {
        lemma_count_insert_le(s.drop_first(), visited, p);
    }
}

proof fn lemma_count_insert_lt(s: Seq<(u64, u64)>, visited: Set<(u64, u64)>, p: (u64, u64))
    requires
        s.contains(p),
        !visited.contains(p),
    ensures
        count_unvisited(s, visited.insert(p)) < count_unvisited(s, visited),
    decreases s.len(),
{
    if s[0] == p {
        lemma_count_insert_le(s.drop_first(), visited, p);
    } else {
        let i = choose|i: int| 0 <= i < s.len() && s[i] == p;
        assert(s.drop_first()[i - 1] == s[i]);
        assert(s.drop_first().contains(p));
        lemma_count_insert_lt(s.drop_first(), visited, p);
    }
}

proof fn lemma_pair_seq_contains(qids: Seq<u64>, uids: Seq<u64>, qp: u64, up: u64)
    requires
        qids.contains(qp),
        uids.contains(up),
    ensures
        pair_seq(qids, uids).contains((qp, up)),
    decreases qids.len(),
{
    let mapped = uids.map_values(|u: u64| (qids[0], u));
    if qids[0] == qp {
        let i = choose|i: int| 0 <= i < uids.len() && uids[i] == up;
        assert(mapped[i] == (qp, up));
        assert(pair_seq(qids, uids)[i] == (qp, up));
    } else {
        let i = choose|i: int| 0 <= i < qids.len() && qids[i] == qp;
        assert(qids.drop_first()[i - 1] == qids[i]);
        assert(qids.drop_first().contains(qp));
        lemma_pair_seq_contains(qids.drop_first(), uids, qp, up);
        let rest = pair_seq(qids.drop_first(), uids);
        let j = choose|j: int| 0 <= j < rest.len() && rest[j] == (qp, up);
        assert(pair_seq(qids, uids)[mapped.len() + j] == (qp, up));
    }
}

/// The measure strictly shrinks when evaluation visits a fresh pair whose
/// query node is declared and whose uid has a node record.
pub proof fn lemma_measure_decreases(
    store: GraphStore,
    q: GraphQuery,
    visited: Set<(u64, u64)>,
    query_id: u64,
    uid: u64,
)
    requires
        q.spec_node_ids().contains(query_id),
        store.spec_uid_seq().contains(uid),
        !visited.contains((query_id, uid)),
    ensures
        rec_measure(store, q, visited.insert((query_id, uid))) < rec_measure(store, q, visited),
{
    lemma_pair_seq_contains(q.spec_node_ids(), store.spec_uid_seq(), query_id, uid);
    lemma_count_insert_lt(
        pair_seq(q.spec_node_ids(), store.spec_uid_seq()),
        visited,
        (query_id, uid),
    );
}

/// Whether the query node `query_id` matches the stored node `uid`:
/// the node's predicate holds, and every edge constraint at this query node
/// has at least one neighbor that either is already under consideration
/// (cycle guard) or recursively matches the constraint's target. A pair
/// already in the visited set never re-enters evaluation, so the measure of
/// unvisited pairs bounds the recursion.
pub open spec fn spec_matches(
    store: GraphStore,
    q: GraphQuery,
    query_id: u64,
    uid: u64,
    tenant: u128,
    visited: Set<(u64, u64)>,
) -> bool
    decreases rec_measure(store, q, visited)
        when !visited.contains((query_id, uid))
        via spec_matches_decreases
{
    match find_node(q.nodes@, query_id) {
        Option::None => false,
        Option::Some(nq) => {
            &&& node_predicate_holds(store, nq, tenant, uid)
            &&& forall|j: int|
                0 <= j < q.edges@.len() && (#[trigger] q.edges@[j]).source_query_id == query_id
                    ==> exists|n: u64|
                    (#[trigger] store.spec_neighbors(
                        tenant,
                        uid,
                        q.edges@[j].edge_name.value@,
                    ).contains(n) && (visited.insert((query_id, uid)).contains(
                        (q.edges@[j].neighbor_query_id, n),
                    ) || spec_matches(
                        store,
                        q,
                        q.edges@[j].neighbor_query_id,
                        n,
                        tenant,
                        visited.insert((query_id, uid)),
                    )))
        },
    }
}

#[via_fn]
proof fn spec_matches_decreases(
    store: GraphStore,
    q: GraphQuery,
    query_id: u64,
    uid: u64,
    tenant: u128,
    visited: Set<(u64, u64)>,
) {
    match find_node(q.nodes@, query_id) {
        Option::None => {},
        Option::Some(nq) => {
            if node_predicate_holds(store, nq, tenant, uid) {
                lemma_find_node_contains(q.nodes@, query_id);
                crate::store::lemma_node_uid_in_universe(store, tenant, uid);
                lemma_measure_decreases(store, q, visited, query_id, uid);
            }
        },
    }
}

/// Whether one edge constraint is satisfied at a node, given the visited
/// pairs of the running attempt: some neighbor over the constraint's edge is
/// either already under consideration or matches the constraint's target.
pub open spec fn edge_sat(
    store: GraphStore,
    q: GraphQuery,
    e: QueryEdge,
    tenant: u128,
    uid: u64,
    vset2: Set<(u64, u64)>,
) -> bool {
    exists|n: u64|
        #[trigger] store.spec_neighbors(tenant, uid, e.edge_name.value@).contains(n) && (
        vset2.contains((e.neighbor_query_id, n)) || spec_matches(
            store,
            q,
            e.neighbor_query_id,
            n,
            tenant,
            vset2,
        ))
}

/// `spec_matches`, written over `edge_sat`: the form the evaluator's loops
/// establish constraint by constraint.
pub proof fn lemma_matches_unfold(
    store: GraphStore,
    q: GraphQuery,
    query_id: u64,
    uid: u64,
    tenant: u128,
    visited: Set<(u64, u64)>,
)
    requires
        !visited.contains((query_id, uid)),
    ensures
        spec_matches(store, q, query_id, uid, tenant, visited) == match find_node(
            q.nodes@,
            query_id,
        ) {
            Option::None => false,
            Option::Some(nq) => node_predicate_holds(store, nq, tenant, uid) && forall|j: int|
                0 <= j < q.edges@.len() && (#[trigger] q.edges@[j]).source_query_id == query_id
                    ==> edge_sat(
                    store,
                    q,
                    q.edges@[j],
                    tenant,
                    uid,
                    visited.insert((query_id, uid)),
                ),
        },
{
    let vset2 = visited.insert((query_id, uid));
    match find_node(q.nodes@, query_id) {
        Option::None => {},
        Option::Some(nq) => {
            if node_predicate_holds(store, nq, tenant, uid) {
                if spec_matches(store, q, query_id, uid, tenant, visited) {
                    assert forall|j: int|
                        0 <= j < q.edges@.len() && (#[trigger] q.edges@[j]).source_query_id
                            == query_id implies edge_sat(
                        store,
                        q,
                        q.edges@[j],
                        tenant,
                        uid,
                        vset2,
                    ) by {
                        let n = choose|n: u64|
                            #[trigger] store.spec_neighbors(
                                tenant,
                                uid,
                                q.edges@[j].edge_name.value@,
                            ).contains(n) && (vset2.contains((q.edges@[j].neighbor_query_id, n))
                                || spec_matches(
                                store,
                                q,
                                q.edges@[j].neighbor_query_id,
                                n,
                                tenant,
                                vset2,
                            ));
                        assert(store.spec_neighbors(
                            tenant,
                            uid,
                            q.edges@[j].edge_name.value@,
                        ).contains(n));
                    }
                } else {
                    if (forall|j: int|
                        0 <= j < q.edges@.len() && (#[trigger] q.edges@[j]).source_query_id
                            == query_id ==> edge_sat(store, q, q.edges@[j], tenant, uid, vset2)) {
                        assert forall|j: int|
                            0 <= j < q.edges@.len() && (#[trigger] q.edges@[j]).source_query_id
                                == query_id implies exists|n: u64|
                            (#[trigger] store.spec_neighbors(
                                tenant,
                                uid,
                                q.edges@[j].edge_name.value@,
                            ).contains(n) && (vset2.contains((q.edges@[j].neighbor_query_id, n))
                                || spec_matches(
                                store,
                                q,
                                q.edges@[j].neighbor_query_id,
                                n,
                                tenant,
                                vset2,
                            ))) by {
                            assert(edge_sat(store, q, q.edges@[j], tenant, uid, vset2));
                            let n = choose|n: u64|
                                #[trigger] store.spec_neighbors(
                                    tenant,
                                    uid,
                                    q.edges@[j].edge_name.value@,
                                ).contains(n) && (vset2.contains(
                                    (q.edges@[j].neighbor_query_id, n),
                                ) || spec_matches(
                                    store,
                                    q,
                                    q.edges@[j].neighbor_query_id,
                                    n,
                                    tenant,
                                    vset2,
                                ));
                            assert(store.spec_neighbors(
                                tenant,
                                uid,
                                q.edges@[j].edge_name.value@,
                            ).contains(n));
                        }
                        assert(spec_matches(store, q, query_id, uid, tenant, visited));
                    }
                }
            }
        },
    }
}

/// The visited set of one evaluation attempt: the (query-node-id, uid)
/// pairs currently under consideration, the cycle guard.
pub struct Visited {
    items: Vec<(u64, u64)>,
}

impl Visited {
    pub closed spec fn spec_set(self) -> Set<(u64, u64)> {
        Set::new(|p: (u64, u64)| self.items@.contains(p))
    }

    /// A fresh, empty visited set; every top-level query evaluation starts
    /// one of its own.
    pub fn new() -> (r: Visited)
        ensures
            r.spec_set() == Set::<(u64, u64)>::empty(),
    {
        let r = Visited { items: Vec::new() };
        proof {
            assert(r.spec_set() =~= Set::<(u64, u64)>::empty());
        }
        r
    }

    pub fn contains(&self, query_id: u64, uid: u64) -> (r: bool)
        ensures
            r == self.spec_set().contains((query_id, uid)),
    {
        let mut idx: usize = 0;
        while idx < self.items.len()
            invariant
                idx <= self.items@.len(),
                forall|j: int| 0 <= j < idx ==> self.items@[j] != (query_id, uid),
            decreases self.items@.len() - idx,
        {
            let p = self.items[idx];
            if p.0 == query_id && p.1 == uid {
                return true;
            }
            idx = idx + 1;
        }
        false
    }

    /// This visited set extended by one pair, as a fresh value: sibling
    /// neighbor attempts each see only the pairs on their own path.
    pub fn plus(&self, query_id: u64, uid: u64) -> (r: Visited)
        ensures
            r.spec_set() == self.spec_set().insert((query_id, uid)),
    {
        let mut items: Vec<(u64, u64)> = Vec::new();
        let mut idx: usize = 0;
        while idx < self.items.len()
            invariant
                idx <= self.items@.len(),
                items@ == self.items@.subrange(0, idx as int),
            decreases self.items@.len() - idx,
        {
            items.push(self.items[idx]);
            proof {
                assert(items@ =~= self.items@.subrange(0, idx + 1));
            }
            idx = idx + 1;
        }
        proof {
            assert(items@ =~= self.items@);
        }
        items.push((query_id, uid));
        let r = Visited { items };
        proof {
            assert forall|p: (u64, u64)|
                r.spec_set().contains(p) == self.spec_set().insert((query_id, uid)).contains(
                    p,
                ) by {
                if r.items@.contains(p) {
                    let i = choose|i: int| 0 <= i < r.items@.len() && r.items@[i] == p;
                    if i < self.items@.len() {
                        assert(self.items@[i] == p);
                    }
                }
                if self.items@.contains(p) {
                    let i = choose|i: int| 0 <= i < self.items@.len() && self.items@[i] == p;
                    assert(r.items@[i] == p);
                }
                if p == (query_id, uid) {
                    assert(r.items@[self.items@.len() as int] == p);
                }
            }
            assert(r.spec_set() =~= self.spec_set().insert((query_id, uid)));
        }
        r
    }
}

/// The cross-attempt short-circuit signal: set by the first attempt to
/// succeed so that remaining attempts are skipped.
pub struct ShortCircuit {
    matched: bool,
}

impl ShortCircuit {
    pub closed spec fn spec_matched(self) -> bool {
        self.matched
    }

    pub fn new() -> (r: ShortCircuit)
        ensures
            !r.spec_matched(),
    {
        ShortCircuit { matched: false }
    }

    pub fn set_short_circuit(&mut self)
        ensures
            final(self).spec_matched(),
    {
        self.matched = true;
    }

    pub fn should_short_circuit(&self) -> (r: bool)
        ensures
            r == self.spec_matched(),
    {
        self.matched
    }
}

/// One matched edge of a result view.
#[derive(Clone, Debug)]
pub struct MatchedEdge {
    pub source_uid: u64,
    pub edge_name: String,
    pub destination_uid: u64,
}

/// The result of a successful match: the matched nodes, keyed by query-node
/// identifier and physical uid, and the edges traversed between them.
/// Scoped to one query evaluation.
#[derive(Clone, Debug)]
pub struct GraphView {
    nodes: Vec<(u64, u64)>,
    edges: Vec<MatchedEdge>,
}

/// The first uid matched to the given query node, if any.
pub open spec fn find_pair(s: Seq<(u64, u64)>, query_id: u64) -> Option<u64>
    decreases s.len(),
{
    if s.len() == 0 {
        Option::None
    } else if s[0].0 == query_id {
        Option::Some(s[0].1)
    } else {
        find_pair(s.drop_first(), query_id)
    }
}

proof fn lemma_find_pair_first_match(s: Seq<(u64, u64)>, i: int)
    requires
        0 <= i < s.len(),
        forall|j: int| 0 <= j < i ==> s[j].0 != s[i].0,
    ensures
        find_pair(s, s[i].0) == Option::Some(s[i].1),
    decreases s.len(),
{
    if i > 0 {
        assert forall|j: int| 0 <= j < i - 1 implies s.drop_first()[j].0 != s[i].0 by {
            assert(s.drop_first()[j] == s[j + 1]);
        }
        assert(s.drop_first()[i - 1] == s[i]);
        lemma_find_pair_first_match(s.drop_first(), i - 1);
    }
}

proof fn lemma_find_pair_absent(s: Seq<(u64, u64)>, query_id: u64)
    requires
        forall|j: int| 0 <= j < s.len() ==> s[j].0 != query_id,
    ensures
        find_pair(s, query_id) is None,
    decreases s.len(),
{
    if s.len() > 0 {
        assert forall|j: int| 0 <= j < s.drop_first().len() implies s.drop_first()[j].0 != query_id by {
            assert(s.drop_first()[j] == s[j + 1]);
        }
        lemma_find_pair_absent(s.drop_first(), query_id);
    }
}

impl GraphView {
    pub closed spec fn spec_nodes(self) -> Seq<(u64, u64)> {
        self.nodes@
    }

    pub closed spec fn spec_edges(self) -> Seq<MatchedEdge> {
        self.edges@
    }

    /// The first uid this view matched to the given query node.
    pub open spec fn spec_find(self, query_id: u64) -> Option<u64> {
        find_pair(self.spec_nodes(), query_id)
    }

    fn new_with(query_id: u64, uid: u64) -> (r: GraphView)
        ensures
            r.spec_nodes() == seq![(query_id, uid)],
            r.spec_edges() == Seq::<MatchedEdge>::empty(),
    {
        let mut nodes: Vec<(u64, u64)> = Vec::new();
        nodes.push((query_id, uid));
        proof {
            assert(nodes@ =~= seq![(query_id, uid)]);
        }
        GraphView { nodes, edges: Vec::new() }
    }

    fn push_edge(&mut self, source_uid: u64, edge_name: &EdgeName, destination_uid: u64)
        ensures
            final(self).spec_nodes() == old(self).spec_nodes(),
            final(self).spec_edges().len() == old(self).spec_edges().len() + 1,
            final(self).spec_edges().last().source_uid == source_uid,
            final(self).spec_edges().last().edge_name@ == edge_name.value@,
            final(self).spec_edges().last().destination_uid == destination_uid,
    {
        self.edges.push(
            MatchedEdge { source_uid, edge_name: edge_name.value.clone(), destination_uid },
        );
    }

    fn merge(&mut self, other: GraphView)
        ensures
            final(self).spec_nodes() == old(self).spec_nodes() + other.spec_nodes(),
    {
        let mut o = other;
        self.nodes.append(&mut o.nodes);
        self.edges.append(&mut o.edges);
    }

    /// All matched (query-node-id, uid) pairs.
    pub fn get_nodes(&self) -> (r: &Vec<(u64, u64)>)
        ensures
            r@ == self.spec_nodes(),
    {
        &self.nodes
    }

    /// All traversed edges.
    pub fn get_edges(&self) -> (r: &Vec<MatchedEdge>)
        ensures
            r@ == self.spec_edges(),
    {
        &self.edges
    }

    /// The physical node matched to a query-node identifier, if any.
    pub fn find_node_by_query_id(&self, query_id: u64) -> (r: Option<u64>)
        ensures
            r == self.spec_find(query_id),
    {
        let mut idx: usize = 0;
        while idx < self.nodes.len()
            invariant
                idx <= self.nodes@.len(),
                forall|j: int| 0 <= j < idx ==> self.nodes@[j].0 != query_id,
            decreases self.nodes@.len() - idx,
        {
            let p = self.nodes[idx];
            if p.0 == query_id {
                proof {
                    lemma_find_pair_first_match(self.nodes@, idx as int);
                }
                return Option::Some(p.1);
            }
            idx = idx + 1;
        }
        proof {
            lemma_find_pair_absent(self.nodes@, query_id);
        }
        Option::None
    }
}

/// Evaluate a node's own predicate against the store: the stored type must
/// equal the declared one and every string filter must accept its stored
/// value. Edges are not examined.
#[verifier::loop_isolation(false)]
fn node_predicate_eval(
    store: &GraphStore,
    nq: &NodePropertiesQuery,
    tenant_id: u128,
    uid: u64,
) -> (r: bool)
    requires
        store.wf(),
    ensures
        r == node_predicate_holds(*store, *nq, tenant_id, uid),
{
    let stored_type = match store.get_node_type(tenant_id, uid) {
        Option::Some(t) => t,
        Option::None => {
            return false;
        },
    };
    if !(stored_type == nq.node_type.value) {
        return false;
    }
    let mut fi: usize = 0;
    while fi < nq.string_filters.len()
        invariant
            store.wf(),
            fi <= nq.string_filters@.len(),
            store.spec_node_type(tenant_id, uid) == Option::Some(nq.node_type.value@),
            forall|i: int|
                0 <= i < fi ==> filter_holds(*store, #[trigger] nq.string_filters@[i], tenant_id, uid),
        decreases nq.string_filters@.len() - fi,
    {
        let f = &nq.string_filters[fi];
        let stored = match store.get_prop_value(
            tenant_id,
            PropTable::ImmString,
            uid,
            &f.property_name.value,
        ) {
            Option::Some(crate::store::PropValue::S(s)) => s,
            Option::Some(_) => {
                return false;
            },
            Option::None => {
                return false;
            },
        };
        let mut ci: usize = 0;
        while ci < f.comparisons.len()
            invariant
                ci <= f.comparisons@.len(),
                store.spec_prop_at((tenant_id, PropTable::ImmString, uid, f.property_name.value@))
                    matches Option::Some(row) && row.value == PropValueV::S(stored@),
                forall|j: int| 0 <= j < ci ==> cmp_holds(#[trigger] f.comparisons@[j], stored@),
            decreases f.comparisons@.len() - ci,
        {
            match &f.comparisons[ci] {
                StringCmp::Eq(v, negated) => {
                    let eq = stored == *v;
                    if *negated == eq {
                        return false;
                    }
                },
            }
            ci = ci + 1;
        }
        fi = fi + 1;
    }
    true
}

/// One evaluation attempt: match the query node `query_id` at the stored
/// node `uid`. The node's predicate is evaluated first — a non-matching
/// node fails before any edge is examined — then every edge constraint at
/// this query node must find at least one satisfying neighbor; neighbors
/// already in the visited set count as satisfying (cycle guard). The
/// attempt succeeds exactly when `spec_matches` holds, and a returned view
/// records this (query-node-id, uid) pair first.
#[verifier::loop_isolation(false)]
pub fn fetch_node_with_edges(
    store: &GraphStore,
    graph_query: &GraphQuery,
    query_id: u64,
    uid: u64,
    tenant_id: u128,
    visited: &Visited,
) -> (r: Option<GraphView>)
    requires
        store.wf(),
        !visited.spec_set().contains((query_id, uid)),
    ensures
        r is Some == spec_matches(*store, *graph_query, query_id, uid, tenant_id, visited.spec_set()),
        r matches Option::Some(v) ==> v.spec_nodes().len() > 0 && v.spec_nodes()[0] == (
            query_id,
            uid,
        ),
    decreases rec_measure(*store, *graph_query, visited.spec_set()),
{
    proof {
        lemma_matches_unfold(
            *store,
            *graph_query,
            query_id,
            uid,
            tenant_id,
            visited.spec_set(),
        );
    }
    let node_query = match graph_query.get_node(query_id) {
        Option::Some(nq) => nq,
        Option::None => {
            return Option::None;
        },
    };
    if !node_predicate_eval(store, node_query, tenant_id, uid) {
        return Option::None;
    }
    let visited2 = visited.plus(query_id, uid);
    let ghost vset2 = visited.spec_set().insert((query_id, uid));
    proof {
        lemma_find_node_contains(graph_query.nodes@, query_id);
        crate::store::lemma_node_uid_in_universe(*store, tenant_id, uid);
        lemma_measure_decreases(*store, *graph_query, visited.spec_set(), query_id, uid);
    }
    let mut view = GraphView::new_with(query_id, uid);
    let mut ei: usize = 0;
    while ei < graph_query.edges.len()
        invariant
            ei <= graph_query.edges@.len(),
            forall|j: int|
                0 <= j < ei && (#[trigger] graph_query.edges@[j]).source_query_id == query_id
                    ==> edge_sat(*store, *graph_query, graph_query.edges@[j], tenant_id, uid, vset2),
            view.spec_nodes().len() > 0,
            view.spec_nodes()[0] == (query_id, uid),
        decreases graph_query.edges@.len() - ei,
    {
        let e = &graph_query.edges[ei];
        if e.source_query_id == query_id {
            let neighbors = store.neighbors(tenant_id, uid, &e.edge_name.value);
            let mut ni: usize = 0;
            let mut found: bool = false;
            while ni < neighbors.len() && !found
                invariant
                    ni <= neighbors@.len(),
                    !found ==> forall|k: int|
                        0 <= k < ni ==> !(vset2.contains(
                            (e.neighbor_query_id, #[trigger] neighbors@[k]),
                        ) || spec_matches(
                            *store,
                            *graph_query,
                            e.neighbor_query_id,
                            neighbors@[k],
                            tenant_id,
                            vset2,
                        )),
                    found ==> edge_sat(*store, *graph_query, *e, tenant_id, uid, vset2),
                    view.spec_nodes().len() > 0,
                    view.spec_nodes()[0] == (query_id, uid),
                decreases neighbors@.len() - ni,
            {
                let n = neighbors[ni];
                proof {
                    assert(neighbors@.contains(n));
                    assert(store.spec_neighbors(tenant_id, uid, e.edge_name.value@).contains(n));
                }
                if visited2.contains(e.neighbor_query_id, n) {
                    view.push_edge(uid, &e.edge_name, n);
                    found = true;
                } else {
                    match fetch_node_with_edges(
                        store,
                        graph_query,
                        e.neighbor_query_id,
                        n,
                        tenant_id,
                        &visited2,
                    ) {
                        Option::Some(sub) => {
                            view.push_edge(uid, &e.edge_name, n);
                            view.merge(sub);
                            found = true;
                        },
                        Option::None => {},
                    }
                }
                ni = ni + 1;
            }
            if !found {
                proof {
                    assert(!edge_sat(*store, *graph_query, *e, tenant_id, uid, vset2)) by {
                        if edge_sat(*store, *graph_query, *e, tenant_id, uid, vset2) {
                            let n = choose|n: u64|
                                #[trigger] store.spec_neighbors(
                                    tenant_id,
                                    uid,
                                    e.edge_name.value@,
                                ).contains(n) && (vset2.contains((e.neighbor_query_id, n))
                                    || spec_matches(
                                    *store,
                                    *graph_query,
                                    e.neighbor_query_id,
                                    n,
                                    tenant_id,
                                    vset2,
                                ));
                            assert(neighbors@.contains(n));
                            let k = choose|k: int|
                                0 <= k < neighbors@.len() && neighbors@[k] == n;
                            assert(false);
                        }
                    }
                    assert(graph_query.edges@[ei as int] == *e);
                }
                return Option::None;
            }
        }
        ei = ei + 1;
    }
    proof {
        assert forall|j: int|
            0 <= j < graph_query.edges@.len() && (#[trigger] graph_query.edges@[j]).source_query_id
                == query_id implies edge_sat(
            *store,
            *graph_query,
            graph_query.edges@[j],
            tenant_id,
            uid,
            vset2,
        ) by {}
        assert(spec_matches(*store, *graph_query, query_id, uid, tenant_id, visited.spec_set()));
    }
    Option::Some(view)
}

/// Evaluate a graph query against the stored graph, anchored at `uid`.
///
/// Every declared query node is a candidate root: each one gets an attempt
/// with a fresh visited set, and the first attempt to succeed short-circuits
/// the rest. A successful attempt whose view does not identify the physical
/// node matched to the root query-node-id is an internal inconsistency: it
/// is discarded and the remaining attempts are still considered. If no
/// attempt succeeds the query answers "no match", which is not an error.
#[verifier::loop_isolation(false)]
pub fn query_graph(graph_query: &GraphQuery, uid: Uid, tenant_id: u128, store: &GraphStore) -> (r:
    Option<(GraphView, Uid)>)
    requires
        store.wf(),
        uid.wf(),
    ensures
        r matches Option::Some((view, root_uid)) ==> {
            &&& exists|qid: u64|
                #[trigger] graph_query.spec_node_ids().contains(qid) && spec_matches(
                    *store,
                    *graph_query,
                    qid,
                    uid.spec_as_u64(),
                    tenant_id,
                    Set::empty(),
                )
            &&& view.spec_find(graph_query.root_query_id) == Option::Some(root_uid.spec_as_u64())
            &&& root_uid.wf()
        },
        r is None ==> !spec_matches(
            *store,
            *graph_query,
            graph_query.root_query_id,
            uid.spec_as_u64(),
            tenant_id,
            Set::empty(),
        ),
{
    let short_circuiter = ShortCircuit::new();
    let mut short_circuiter = short_circuiter;
    let mut qi: usize = 0;
    while qi < graph_query.nodes.len()
        invariant
            !short_circuiter.spec_matched(),
            qi <= graph_query.nodes@.len(),
            forall|j: int|
                0 <= j < qi && (#[trigger] graph_query.nodes@[j]).query_id
                    == graph_query.root_query_id ==> !spec_matches(
                    *store,
                    *graph_query,
                    graph_query.root_query_id,
                    uid.spec_as_u64(),
                    tenant_id,
                    Set::empty(),
                ),
        decreases graph_query.nodes@.len() - qi,
    {
        if short_circuiter.should_short_circuit() {
            qi = qi + 1;
            continue ;
        }
        let candidate_root_id = graph_query.nodes[qi].query_id;
        let visited = Visited::new();
        let attempt = fetch_node_with_edges(
            store,
            graph_query,
            candidate_root_id,
            uid.as_u64(),
            tenant_id,
            &visited,
        );
        match attempt {
            Option::Some(view) => {
                match view.find_node_by_query_id(graph_query.root_query_id) {
                    Option::Some(root_raw) => {
                        match Uid::from_u64(root_raw) {
                            Option::Some(root_uid) => {
                                short_circuiter.set_short_circuit();
                                proof {
                                    assert(graph_query.spec_node_ids()[qi as int]
                                        == candidate_root_id);
                                    assert(graph_query.spec_node_ids().contains(
                                        candidate_root_id,
                                    ));
                                }
                                return Option::Some((view, root_uid));
                            },
                            Option::None => {
                                // A zero physical uid cannot be surfaced as
                                // the root; treat the attempt as failed and
                                // let the remaining attempts run.
                                proof {
                                    if candidate_root_id == graph_query.root_query_id {
                                        assert(view.spec_nodes()[0] == (
                                            candidate_root_id,
                                            uid.spec_as_u64(),
                                        ));
                                        lemma_find_pair_first_match(view.spec_nodes(), 0);
                                        assert(false);
                                    }
                                }
                            },
                        }
                    },
                    Option::None => {
                        // A match without an identifiable root physical node
                        // is an internal inconsistency; it is discarded and
                        // other attempts are still considered.
                        proof {
                            if candidate_root_id == graph_query.root_query_id {
                                assert(view.spec_nodes()[0] == (
                                    candidate_root_id,
                                    uid.spec_as_u64(),
                                ));
                                lemma_find_pair_first_match(view.spec_nodes(), 0);
                                assert(false);
                            }
                        }
                    },
                }
            },
            Option::None => {},
        }
        qi = qi + 1;
    }
    proof {
        if spec_matches(
            *store,
            *graph_query,
            graph_query.root_query_id,
            uid.spec_as_u64(),
            tenant_id,
            Set::empty(),
        ) {
            lemma_matches_unfold(
                *store,
                *graph_query,
                graph_query.root_query_id,
                uid.spec_as_u64(),
                tenant_id,
                Set::empty(),
            );
            let nq = find_node(graph_query.nodes@, graph_query.root_query_id)->Some_0;
            lemma_find_node_exists_index(graph_query.nodes@, graph_query.root_query_id);
        }
    }
    Option::None
}

proof fn lemma_find_node_exists_index(nodes: Seq<NodePropertiesQuery>, query_id: u64)
    requires
        find_node(nodes, query_id) is Some,
    ensures
        exists|i: int| 0 <= i < nodes.len() && (#[trigger] nodes[i]).query_id == query_id,
    decreases nodes.len(),
{
    if nodes.len() > 0 {
        if nodes[0].query_id == query_id {
            assert(0 <= 0 < nodes.len() && nodes[0].query_id == query_id);
        } else {
            lemma_find_node_exists_index(nodes.drop_first(), query_id);
            let j = choose|j: int|
                0 <= j < nodes.drop_first().len() && (#[trigger] nodes.drop_first()[j]).query_id
                    == query_id;
            assert(nodes.drop_first()[j] == nodes[j + 1]);
            assert(0 <= j + 1 < nodes.len() && nodes[j + 1].query_id == query_id);
        }
    }
}

/// LAW: a required edge constraint with zero satisfying neighbors makes the
/// node fail to match, even when the node's own predicate holds.
pub proof fn lemma_unsatisfied_edge_constraint_fails(
    store: GraphStore,
    q: GraphQuery,
    j: int,
    tenant: u128,
    query_id: u64,
    uid: u64,
    visited: Set<(u64, u64)>,
)
    requires
        0 <= j < q.edges@.len(),
        q.edges@[j].source_query_id == query_id,
        !visited.contains((query_id, uid)),
        forall|n: u64|
            #[trigger] store.spec_neighbors(tenant, uid, q.edges@[j].edge_name.value@).contains(n)
                ==> !visited.insert((query_id, uid)).contains((q.edges@[j].neighbor_query_id, n))
                && !spec_matches(
                store,
                q,
                q.edges@[j].neighbor_query_id,
                n,
                tenant,
                visited.insert((query_id, uid)),
            ),
    ensures
        !spec_matches(store, q, query_id, uid, tenant, visited),
{
    lemma_matches_unfold(store, q, query_id, uid, tenant, visited);
    if spec_matches(store, q, query_id, uid, tenant, visited) {
        assert(edge_sat(store, q, q.edges@[j], tenant, uid, visited.insert((query_id, uid))));
        let n = choose|n: u64|
            #[trigger] store.spec_neighbors(tenant, uid, q.edges@[j].edge_name.value@).contains(n)
                && (visited.insert((query_id, uid)).contains((q.edges@[j].neighbor_query_id, n))
                || spec_matches(
                store,
                q,
                q.edges@[j].neighbor_query_id,
                n,
                tenant,
                visited.insert((query_id, uid)),
            ));
        assert(false);
    }
}

/// LAW: a materialized edge makes the two-node traversal query match. For a
/// query of two predicate-free node queries joined by one edge constraint
/// pair — the shape `add_edge` builds — a stored edge between two typed
/// nodes lets the match anchor at either endpoint; in particular, a query
/// traversing the reverse name from the destination reaches the source.
pub proof fn lemma_edge_pair_query_matches(
    store: GraphStore,
    q: GraphQuery,
    qa: u64,
    qb: u64,
    na: NodePropertiesQuery,
    nb: NodePropertiesQuery,
    ea: QueryEdge,
    eb: QueryEdge,
    tenant: u128,
    a: u64,
    b: u64,
)
    requires
        q.nodes@ == seq![na, nb],
        q.edges@ == seq![ea, eb],
        na.query_id == qa,
        nb.query_id == qb,
        qa != qb,
        na.string_filters@.len() == 0,
        nb.string_filters@.len() == 0,
        ea == (QueryEdge {
            source_query_id: qa,
            edge_name: ea.edge_name,
            neighbor_query_id: qb,
        }),
        eb == (QueryEdge {
            source_query_id: qb,
            edge_name: eb.edge_name,
            neighbor_query_id: qa,
        }),
        store.spec_node_type(tenant, a) == Option::Some(na.node_type.value@),
        store.spec_node_type(tenant, b) == Option::Some(nb.node_type.value@),
        store.spec_neighbors(tenant, a, ea.edge_name.value@).contains(b),
        store.spec_neighbors(tenant, b, eb.edge_name.value@).contains(a),
    ensures
        spec_matches(store, q, qa, a, tenant, Set::empty()),
        spec_matches(store, q, qb, b, tenant, Set::empty()),
{
    lemma_edge_pair_anchor(store, q, qa, qb, na, nb, ea, eb, tenant, a, b);
    lemma_edge_pair_anchor_rev(store, q, qa, qb, na, nb, ea, eb, tenant, a, b);
}

proof fn lemma_edge_pair_anchor(
    store: GraphStore,
    q: GraphQuery,
    qa: u64,
    qb: u64,
    na: NodePropertiesQuery,
    nb: NodePropertiesQuery,
    ea: QueryEdge,
    eb: QueryEdge,
    tenant: u128,
    a: u64,
    b: u64,
)
    requires
        q.nodes@ == seq![na, nb],
        q.edges@ == seq![ea, eb],
        na.query_id == qa,
        nb.query_id == qb,
        qa != qb,
        na.string_filters@.len() == 0,
        nb.string_filters@.len() == 0,
        ea.source_query_id == qa,
        ea.neighbor_query_id == qb,
        eb.source_query_id == qb,
        eb.neighbor_query_id == qa,
        store.spec_node_type(tenant, a) == Option::Some(na.node_type.value@),
        store.spec_node_type(tenant, b) == Option::Some(nb.node_type.value@),
        store.spec_neighbors(tenant, a, ea.edge_name.value@).contains(b),
        store.spec_neighbors(tenant, b, eb.edge_name.value@).contains(a),
    ensures
        spec_matches(store, q, qa, a, tenant, Set::empty()),
{
    let empty = Set::<(u64, u64)>::empty();
    let v1 = empty.insert((qa, a));
    let v2 = v1.insert((qb, b));
    assert(find_node(q.nodes@, qa) == Option::Some(na)) by {
        assert(q.nodes@[0] == na);
    }
    assert(find_node(q.nodes@, qb) == Option::Some(nb)) by {
        assert(q.nodes@[0] == na && q.nodes@[1] == nb);
        assert(q.nodes@.drop_first() =~= seq![nb]);
        assert(find_node(seq![nb], qb) == Option::Some(nb)) by {
            assert(seq![nb][0] == nb);
        }
    }
    assert(node_predicate_holds(store, na, tenant, a));
    assert(node_predicate_holds(store, nb, tenant, b));
    // The inner match: `qb` at `b`, with `(qa, a)` already visited, so its
    // back-constraint is satisfied by the visited pair.
    lemma_matches_unfold(store, q, qb, b, tenant, v1);
    assert forall|j: int|
        0 <= j < q.edges@.len() && (#[trigger] q.edges@[j]).source_query_id == qb implies edge_sat(
        store,
        q,
        q.edges@[j],
        tenant,
        b,
        v2,
    ) by {
        assert(q.edges@[j] == eb);
        assert(store.spec_neighbors(tenant, b, eb.edge_name.value@).contains(a) && v2.contains(
            (qa, a),
        ));
    }
    assert(spec_matches(store, q, qb, b, tenant, v1));
    // The outer match: `qa` at `a`, whose one constraint is satisfied by the
    // matching neighbor `b`.
    lemma_matches_unfold(store, q, qa, a, tenant, empty);
    assert forall|j: int|
        0 <= j < q.edges@.len() && (#[trigger] q.edges@[j]).source_query_id == qa implies edge_sat(
        store,
        q,
        q.edges@[j],
        tenant,
        a,
        v1,
    ) by {
        assert(q.edges@[j] == ea);
        assert(store.spec_neighbors(tenant, a, ea.edge_name.value@).contains(b) && spec_matches(
            store,
            q,
            qb,
            b,
            tenant,
            v1,
        ));
    }
    assert(spec_matches(store, q, qa, a, tenant, empty));
}

proof fn lemma_edge_pair_anchor_rev(
    store: GraphStore,
    q: GraphQuery,
    qa: u64,
    qb: u64,
    na: NodePropertiesQuery,
    nb: NodePropertiesQuery,
    ea: QueryEdge,
    eb: QueryEdge,
    tenant: u128,
    a: u64,
    b: u64,
)
    requires
        q.nodes@ == seq![na, nb],
        q.edges@ == seq![ea, eb],
        na.query_id == qa,
        nb.query_id == qb,
        qa != qb,
        na.string_filters@.len() == 0,
        nb.string_filters@.len() == 0,
        ea.source_query_id == qa,
        ea.neighbor_query_id == qb,
        eb.source_query_id == qb,
        eb.neighbor_query_id == qa,
        store.spec_node_type(tenant, a) == Option::Some(na.node_type.value@),
        store.spec_node_type(tenant, b) == Option::Some(nb.node_type.value@),
        store.spec_neighbors(tenant, a, ea.edge_name.value@).contains(b),
        store.spec_neighbors(tenant, b, eb.edge_name.value@).contains(a),
    ensures
        spec_matches(store, q, qb, b, tenant, Set::empty()),
{
    let empty = Set::<(u64, u64)>::empty();
    let v1 = empty.insert((qb, b));
    let v2 = v1.insert((qa, a));
    assert(find_node(q.nodes@, qa) == Option::Some(na)) by {
        assert(q.nodes@[0] == na);
    }
    assert(find_node(q.nodes@, qb) == Option::Some(nb)) by {
        assert(q.nodes@[0] == na && q.nodes@[1] == nb);
        assert(q.nodes@.drop_first() =~= seq![nb]);
        assert(find_node(seq![nb], qb) == Option::Some(nb)) by {
            assert(seq![nb][0] == nb);
        }
    }
    assert(node_predicate_holds(store, na, tenant, a));
    assert(node_predicate_holds(store, nb, tenant, b));
    lemma_matches_unfold(store, q, qa, a, tenant, v1);
    assert forall|j: int|
        0 <= j < q.edges@.len() && (#[trigger] q.edges@[j]).source_query_id == qa implies edge_sat(
        store,
        q,
        q.edges@[j],
        tenant,
        a,
        v2,
    ) by {
        assert(q.edges@[j] == ea);
        assert(store.spec_neighbors(tenant, a, ea.edge_name.value@).contains(b) && v2.contains(
            (qb, b),
        ));
    }
    assert(spec_matches(store, q, qa, a, tenant, v1));
    lemma_matches_unfold(store, q, qb, b, tenant, empty);
    assert forall|j: int|
        0 <= j < q.edges@.len() && (#[trigger] q.edges@[j]).source_query_id == qb implies edge_sat(
        store,
        q,
        q.edges@[j],
        tenant,
        b,
        v1,
    ) by {
        assert(q.edges@[j] == eb);
        assert(store.spec_neighbors(tenant, b, eb.edge_name.value@).contains(a) && spec_matches(
            store,
            q,
            qa,
            a,
            tenant,
            v1,
        ));
    }
    assert(spec_matches(store, q, qb, b, tenant, empty));
}

} // verus!
