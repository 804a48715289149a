//! In-memory model of the property store adapter.
//!
//! The engine's storage contract assumes per-row conflict resolution that
//! keeps, for each key, the write with the greatest logical timestamp
//! (last-write-wins). This module realizes exactly that contract over plain
//! values: one row per key, each upsert either replaces the row (greater
//! timestamp) or leaves it unchanged. Writes without an explicit timestamp
//! (immutable property kinds and node type records) are resolved
//! first-write-wins, the documented policy for divergent immutable writes.
//! Edge rows form a set: inserting an existing row is a no-op, which is what
//! makes edge writes idempotent.

use vstd::prelude::*;

use crate::types::NodeType;

verus! {

/// The per-kind property tables of a tenant keyspace.
#[derive(Clone, Copy, Debug, PartialEq, Eq, Structural)]
pub enum PropTable {
    MaxU64,
    MinU64,
    ImmU64,
    MaxI64,
    MinI64,
    ImmI64,
    ImmString,
}

/// A stored property value.
#[derive(Clone, Debug)]
pub enum PropValue {
    U(u64),
    I(i64),
    S(String),
}

/// The mathematical image of a stored property value.
pub enum PropValueV {
    U(u64),
    I(i64),
    S(Seq<char>),
}

impl View for PropValue {
    type V = PropValueV;

    open spec fn view(&self) -> PropValueV {
        match self {
            PropValue::U(v) => PropValueV::U(*v),
            PropValue::I(v) => PropValueV::I(*v),
            PropValue::S(s) => PropValueV::S(s@),
        }
    }
}

impl PropValue {
    /// A copy of the value with the same mathematical image.
    pub fn duplicate(&self) -> (r: PropValue)
        ensures
            r@ == self@,
    {
        match self {
            PropValue::U(v) => PropValue::U(*v),
            PropValue::I(v) => PropValue::I(*v),
            PropValue::S(s) => PropValue::S(s.clone()),
        }
    }
}

/// One row of a property table.
#[derive(Clone, Debug)]
pub struct PropRow {
    pub tenant: u128,
    pub table: PropTable,
    pub uid: u64,
    pub property_name: String,
    pub node_type: String,
    pub value: PropValue,
    pub ts: i64,
}

/// The key columns of a property row.
pub type PropKeyV = (u128, PropTable, u64, Seq<char>);

/// The value columns of a property row.
pub struct PropStoredV {
    pub node_type: Seq<char>,
    pub value: PropValueV,
    pub ts: i64,
}

impl PropRow {
    pub open spec fn key(self) -> PropKeyV {
        (self.tenant, self.table, self.uid, self.property_name@)
    }

    pub open spec fn stored(self) -> PropStoredV {
        PropStoredV { node_type: self.node_type@, value: self.value@, ts: self.ts }
    }
}

/// The type record of a node.
#[derive(Clone, Debug)]
pub struct NodeTypeRow {
    pub tenant: u128,
    pub uid: u64,
    pub node_type: String,
}

/// One direction of a materialized edge.
#[derive(Clone, Debug)]
pub struct EdgeRow {
    pub tenant: u128,
    pub source_uid: u64,
    pub f_edge_name: String,
    pub r_edge_name: String,
    pub destination_uid: u64,
}

/// The mathematical image of an edge row.
pub type EdgeV = (u128, u64, Seq<char>, Seq<char>, u64);

impl EdgeRow {
    pub open spec fn edge_v(self) -> EdgeV {
        (self.tenant, self.source_uid, self.f_edge_name@, self.r_edge_name@, self.destination_uid)
    }
}

/// Conflict resolution for a timestamped upsert: the write with the greater
/// logical timestamp wins; on a tie the stored row is kept.
pub open spec fn lww_value(cur: Option<PropStoredV>, new: PropStoredV) -> PropStoredV {
    match cur {
        Option::None => new,
        Option::Some(c) => if new.ts > c.ts {
            new
        } else {
            c
        },
    }
}

/// Conflict resolution for a write without an explicit timestamp: the first
/// stored value is kept.
pub open spec fn first_write_value(cur: Option<PropStoredV>, new: PropStoredV) -> PropStoredV {
    match cur {
        Option::None => new,
        Option::Some(c) => c,
    }
}

/// The per-tenant property graph: property tables, node type records, and
/// the edge table.
pub struct GraphStore {
    prop_rows: Vec<PropRow>,
    node_rows: Vec<NodeTypeRow>,
    edge_rows: Vec<EdgeRow>,
}

impl GraphStore {
    pub closed spec fn props_map_of(rows: Seq<PropRow>) -> Map<PropKeyV, PropStoredV>
        decreases rows.len(),
    {
        if rows.len() == 0 {
            Map::empty()
        } else {
            Self::props_map_of(rows.drop_first()).insert(rows[0].key(), rows[0].stored())
        }
    }

    pub closed spec fn nodes_map_of(rows: Seq<NodeTypeRow>) -> Map<(u128, u64), Seq<char>>
        decreases rows.len(),
    {
        if rows.len() == 0 {
            Map::empty()
        } else {
            Self::nodes_map_of(rows.drop_first()).insert(
                (rows[0].tenant, rows[0].uid),
                rows[0].node_type@,
            )
        }
    }

    pub closed spec fn edges_set_of(rows: Seq<EdgeRow>) -> Set<EdgeV>
        decreases rows.len(),
    {
        if rows.len() == 0 {
            Set::empty()
        } else {
            Self::edges_set_of(rows.drop_first()).insert(rows[0].edge_v())
        }
    }

    /// The property tables, as a map from key columns to value columns.
    pub closed spec fn spec_props(self) -> Map<PropKeyV, PropStoredV> {
        Self::props_map_of(self.prop_rows@)
    }

    /// The node type records, as a map from (tenant, uid) to the type name.
    pub closed spec fn spec_nodes(self) -> Map<(u128, u64), Seq<char>> {
        Self::nodes_map_of(self.node_rows@)
    }

    /// The edge table, as a set of rows.
    pub closed spec fn spec_edges(self) -> Set<EdgeV> {
        Self::edges_set_of(self.edge_rows@)
    }

    /// The stored row for a property key, if any.
    pub open spec fn spec_prop_at(self, k: PropKeyV) -> Option<PropStoredV> {
        if self.spec_props().contains_key(k) {
            Option::Some(self.spec_props()[k])
        } else {
            Option::None
        }
    }

    /// The stored type of a node, if any.
    pub open spec fn spec_node_type(self, tenant: u128, uid: u64) -> Option<Seq<char>> {
        if self.spec_nodes().contains_key((tenant, uid)) {
            Option::Some(self.spec_nodes()[(tenant, uid)])
        } else {
            Option::None
        }
    }

    /// The destinations reachable from `uid` over the named forward edge.
    pub open spec fn spec_neighbors(self, tenant: u128, uid: u64, edge_name: Seq<char>) -> Set<
        u64,
    > {
        Set::new(
            |d: u64|
                exists|r: Seq<char>| self.spec_edges().contains((tenant, uid, edge_name, r, d)),
        )
    }

    /// Every uid that owns a node type record; recursion in the query engine
    /// only ever visits uids drawn from this sequence.
    pub closed spec fn spec_uid_seq(self) -> Seq<u64> {
        self.node_rows@.map_values(|r: NodeTypeRow| r.uid)
    }

    /// Keys are pairwise distinct in every table, so each key names one row.
    pub closed spec fn wf(self) -> bool {
        &&& (forall|i: int, j: int|
            0 <= i < j < self.prop_rows@.len() ==> self.prop_rows@[i].key()
                != self.prop_rows@[j].key())
        &&& (forall|i: int, j: int|
            0 <= i < j < self.node_rows@.len() ==> (
            self.node_rows@[i].tenant,
            self.node_rows@[i].uid,
            ) != (self.node_rows@[j].tenant, self.node_rows@[j].uid))
    }

    pub fn new() -> (r: GraphStore)
        ensures
            r.wf(),
            r.spec_props() == Map::<PropKeyV, PropStoredV>::empty(),
            r.spec_nodes() == Map::<(u128, u64), Seq<char>>::empty(),
            r.spec_edges() == Set::<EdgeV>::empty(),
    {
        GraphStore { prop_rows: Vec::new(), node_rows: Vec::new(), edge_rows: Vec::new() }
    }

    fn find_prop_index(
        &self,
        tenant: u128,
        table: PropTable,
        uid: u64,
        property_name: &String,
    ) -> (r: Option<usize>)
        requires
            self.wf(),
        ensures
            match r {
                Option::Some(i) => {
                    &&& i < self.prop_rows@.len()
                    &&& self.prop_rows@[i as int].key() == (tenant, table, uid, property_name@)
                    &&& self.spec_prop_at((tenant, table, uid, property_name@)) == Option::Some(
                        self.prop_rows@[i as int].stored(),
                    )
                },
                Option::None => self.spec_prop_at((tenant, table, uid, property_name@))
                    is None,
            },
    {
        let ghost k: PropKeyV = (tenant, table, uid, property_name@);
        let mut idx: usize = 0;
        while idx < self.prop_rows.len()
            invariant
                self.wf(),
                idx <= self.prop_rows@.len(),
                forall|j: int| 0 <= j < idx ==> self.prop_rows@[j].key() != k,
                k == (tenant, table, uid, property_name@),
            decreases self.prop_rows@.len() - idx,
        {
            let row = &self.prop_rows[idx];
            if row.tenant == tenant && row.table == table && row.uid == uid && row.property_name
                == *property_name {
                proof {
                    lemma_props_map_index(self.prop_rows@, idx as int);
                }
                return Option::Some(idx);
            }
            idx = idx + 1;
        }
        proof {
            lemma_props_map_absent(self.prop_rows@, k);
        }
        Option::None
    }

    /// A timestamped upsert: storage keeps, per key, the row whose logical
    /// timestamp is greatest.
    pub fn upsert_prop_lww(&mut self, row: PropRow)
        requires
            old(self).wf(),
        ensures
            final(self).wf(),
            final(self).spec_props() == old(self).spec_props().insert(
                row.key(),
                lww_value(old(self).spec_prop_at(row.key()), row.stored()),
            ),
            final(self).spec_nodes() == old(self).spec_nodes(),
            final(self).spec_edges() == old(self).spec_edges(),
            final(self).spec_uid_seq() == old(self).spec_uid_seq(),
    {
        let found = self.find_prop_index(row.tenant, row.table, row.uid, &row.property_name);
        match found {
            Option::Some(i) => {
                if row.ts > self.prop_rows[i].ts {
                    proof {
                        lemma_props_map_update(self.prop_rows@, i as int, row);
                        assert forall|a: int, b: int|
                            0 <= a < b < self.prop_rows@.update(i as int, row).len() implies self
                            .prop_rows@.update(i as int, row)[a].key() != self.prop_rows@.update(
                            i as int,
                            row,
                        )[b].key() by {
                            assert(self.prop_rows@[a].key() != self.prop_rows@[b].key());
                        }
                    }
                    self.prop_rows.set(i, row);
                } else {
                    proof {
                        assert(final(self).spec_props() =~= old(self).spec_props().insert(
                            row.key(),
                            lww_value(old(self).spec_prop_at(row.key()), row.stored()),
                        ));
                    }
                }
            },
            Option::None => {
                proof {
                    assert forall|j: int|
                        0 <= j < self.prop_rows@.len() implies self.prop_rows@[j].key()
                        != row.key() by {
                        if self.prop_rows@[j].key() == row.key() {
                            lemma_props_map_index(self.prop_rows@, j);
                        }
                    }
                    lemma_props_map_push(self.prop_rows@, row);
                    assert forall|a: int, b: int|
                        0 <= a < b < self.prop_rows@.push(row).len() implies self.prop_rows@.push(
                        row,
                    )[a].key() != self.prop_rows@.push(row)[b].key() by {
                        if b < self.prop_rows@.len() {
                            assert(self.prop_rows@[a].key() != self.prop_rows@[b].key());
                        } else {
                            assert(self.prop_rows@.push(row)[b] == row);
                        }
                    }
                }
                self.prop_rows.push(row);
            },
        }
    }

    /// An upsert without an explicit timestamp: the first stored value for
    /// the key is kept, the documented policy for immutable kinds.
    pub fn insert_prop_first_wins(&mut self, row: PropRow)
        requires
            old(self).wf(),
        ensures
            final(self).wf(),
            final(self).spec_props() == old(self).spec_props().insert(
                row.key(),
                first_write_value(old(self).spec_prop_at(row.key()), row.stored()),
            ),
            final(self).spec_nodes() == old(self).spec_nodes(),
            final(self).spec_edges() == old(self).spec_edges(),
            final(self).spec_uid_seq() == old(self).spec_uid_seq(),
    {
        let found = self.find_prop_index(row.tenant, row.table, row.uid, &row.property_name);
        match found {
            Option::Some(_) => {
                proof {
                    assert(final(self).spec_props() =~= old(self).spec_props().insert(
                        row.key(),
                        first_write_value(old(self).spec_prop_at(row.key()), row.stored()),
                    ));
                }
            },
            Option::None => {
                proof {
                    assert forall|j: int|
                        0 <= j < self.prop_rows@.len() implies self.prop_rows@[j].key()
                        != row.key() by {
                        if self.prop_rows@[j].key() == row.key() {
                            lemma_props_map_index(self.prop_rows@, j);
                        }
                    }
                    lemma_props_map_push(self.prop_rows@, row);
                    assert forall|a: int, b: int|
                        0 <= a < b < self.prop_rows@.push(row).len() implies self.prop_rows@.push(
                        row,
                    )[a].key() != self.prop_rows@.push(row)[b].key() by {
                        if b < self.prop_rows@.len() {
                            assert(self.prop_rows@[a].key() != self.prop_rows@[b].key());
                        } else {
                            assert(self.prop_rows@.push(row)[b] == row);
                        }
                    }
                }
                self.prop_rows.push(row);
            },
        }
    }

    fn find_node_index(&self, tenant: u128, uid: u64) -> (r: Option<usize>)
        requires
            self.wf(),
        ensures
            match r {
                Option::Some(i) => {
                    &&& i < self.node_rows@.len()
                    &&& self.node_rows@[i as int].tenant == tenant
                    &&& self.node_rows@[i as int].uid == uid
                    &&& self.spec_node_type(tenant, uid) == Option::Some(
                        self.node_rows@[i as int].node_type@,
                    )
                },
                Option::None => self.spec_node_type(tenant, uid) is None,
            },
    {
        let mut idx: usize = 0;
        while idx < self.node_rows.len()
            invariant
                self.wf(),
                idx <= self.node_rows@.len(),
                forall|j: int|
                    0 <= j < idx ==> (self.node_rows@[j].tenant, self.node_rows@[j].uid) != (
                    tenant,
                    uid,
                    ),
            decreases self.node_rows@.len() - idx,
        {
            let row = &self.node_rows[idx];
            if row.tenant == tenant && row.uid == uid {
                proof {
                    lemma_nodes_map_index(self.node_rows@, idx as int);
                }
                return Option::Some(idx);
            }
            idx = idx + 1;
        }
        proof {
            lemma_nodes_map_absent(self.node_rows@, (tenant, uid));
        }
        Option::None
    }

    /// Record a node's type. The record is written once; a later write for
    /// the same node leaves the first value in place.
    pub fn write_node_type(&mut self, tenant: u128, uid: u64, node_type: &NodeType)
        requires
            old(self).wf(),
        ensures
            final(self).wf(),
            final(self).spec_nodes() == old(self).spec_nodes().insert(
                (tenant, uid),
                match old(self).spec_node_type(tenant, uid) {
                    Option::Some(t) => t,
                    Option::None => node_type.value@,
                },
            ),
            final(self).spec_props() == old(self).spec_props(),
            final(self).spec_edges() == old(self).spec_edges(),
            old(self).spec_node_type(tenant, uid) is Some ==> final(self).spec_uid_seq() == old(
                self,
            ).spec_uid_seq(),
            old(self).spec_node_type(tenant, uid) is None ==> final(self).spec_uid_seq() == old(
                self,
            ).spec_uid_seq().push(uid),
    {
        let found = self.find_node_index(tenant, uid);
        match found {
            Option::Some(_) => {
                proof {
                    assert(final(self).spec_nodes() =~= old(self).spec_nodes().insert(
                        (tenant, uid),
                        old(self).spec_nodes()[(tenant, uid)],
                    ));
                }
            },
            Option::None => {
                let row = NodeTypeRow { tenant, uid, node_type: node_type.value.clone() };
                proof {
                    assert forall|j: int|
                        0 <= j < self.node_rows@.len() implies (
                        self.node_rows@[j].tenant,
                        self.node_rows@[j].uid,
                        ) != (tenant, uid) by {
                        if (self.node_rows@[j].tenant, self.node_rows@[j].uid) == (tenant, uid) {
                            lemma_nodes_map_index(self.node_rows@, j);
                        }
                    }
                    lemma_nodes_map_push(self.node_rows@, row);
                    assert forall|a: int, b: int|
                        0 <= a < b < self.node_rows@.push(row).len() implies (
                        self.node_rows@.push(row)[a].tenant,
                        self.node_rows@.push(row)[a].uid,
                        ) != (self.node_rows@.push(row)[b].tenant, self.node_rows@.push(row)[b].uid)
                        by {
                        if b < self.node_rows@.len() {
                            assert((self.node_rows@[a].tenant, self.node_rows@[a].uid) != (
                                self.node_rows@[b].tenant,
                                self.node_rows@[b].uid,
                            ));
                        } else {
                            assert(self.node_rows@.push(row)[b] == row);
                        }
                    }
                    assert(self.node_rows@.push(row).map_values(|r: NodeTypeRow| r.uid)
                        =~= self.node_rows@.map_values(|r: NodeTypeRow| r.uid).push(uid));
                }
                self.node_rows.push(row);
            },
        }
    }

    /// Insert one direction of an edge. Edge rows form a set, which is what
    /// makes the two-statement edge batch safe to retry.
    pub fn insert_edge_row(&mut self, row: EdgeRow)
        requires
            old(self).wf(),
        ensures
            final(self).wf(),
            final(self).spec_edges() == old(self).spec_edges().insert(row.edge_v()),
            final(self).spec_props() == old(self).spec_props(),
            final(self).spec_nodes() == old(self).spec_nodes(),
            final(self).spec_uid_seq() == old(self).spec_uid_seq(),
    {
        let mut idx: usize = 0;
        while idx < self.edge_rows.len()
            invariant
                self == old(self),
                old(self).wf(),
                forall|j: int| 0 <= j < idx ==> self.edge_rows@[j].edge_v() != row.edge_v(),
                idx <= self.edge_rows@.len(),
            decreases self.edge_rows@.len() - idx,
        {
            let cur = &self.edge_rows[idx];
            if cur.tenant == row.tenant && cur.source_uid == row.source_uid && cur.destination_uid
                == row.destination_uid && cur.f_edge_name == row.f_edge_name && cur.r_edge_name
                == row.r_edge_name {
                proof {
                    lemma_edges_set_index(self.edge_rows@, idx as int);
                    assert(final(self).spec_edges() =~= old(self).spec_edges().insert(
                        row.edge_v(),
                    ));
                }
                return ;
            }
            idx = idx + 1;
        }
        proof {
            lemma_edges_set_push(self.edge_rows@, row);
        }
        self.edge_rows.push(row);
    }

    /// The stored type record of a node.
    pub fn get_node_type(&self, tenant: u128, uid: u64) -> (r: Option<String>)
        requires
            self.wf(),
        ensures
            match r {
                Option::Some(t) => self.spec_node_type(tenant, uid) == Option::Some(t@),
                Option::None => self.spec_node_type(tenant, uid) is None,
            },
    {
        let found = self.find_node_index(tenant, uid);
        match found {
            Option::Some(i) => Option::Some(self.node_rows[i].node_type.clone()),
            Option::None => Option::None,
        }
    }

    /// The stored value of a property, if any.
    pub fn get_prop_value(
        &self,
        tenant: u128,
        table: PropTable,
        uid: u64,
        property_name: &String,
    ) -> (r: Option<PropValue>)
        requires
            self.wf(),
        ensures
            match r {
                Option::Some(v) => {
                    &&& self.spec_prop_at((tenant, table, uid, property_name@)) matches Option::Some(
                        s,
                    )
                    &&& s.value == v@
                },
                Option::None => self.spec_prop_at((tenant, table, uid, property_name@))
                    is None,
            },
    {
        let found = self.find_prop_index(tenant, table, uid, property_name);
        match found {
            Option::Some(i) => Option::Some(self.prop_rows[i].value.duplicate()),
            Option::None => Option::None,
        }
    }

    /// All destinations reachable from `uid` over the named forward edge,
    /// as a vector whose element set is exactly `spec_neighbors`.
    pub fn neighbors(&self, tenant: u128, uid: u64, edge_name: &String) -> (r: Vec<u64>)
        ensures
            forall|d: u64|
                #[trigger] r@.contains(d) <==> self.spec_neighbors(
                    tenant,
                    uid,
                    edge_name@,
                ).contains(d),
    {
        let mut result: Vec<u64> = Vec::new();
        let mut idx: usize = 0;
        while idx < self.edge_rows.len()
            invariant
                idx <= self.edge_rows@.len(),
                forall|d: u64|
                    #[trigger] result@.contains(d) <==> exists|j: int|
                        0 <= j < idx && self.edge_rows@[j].edge_v() == (
                        tenant,
                        uid,
                        edge_name@,
                        self.edge_rows@[j].r_edge_name@,
                        d,
                        ),
            decreases self.edge_rows@.len() - idx,
        {
            let row = &self.edge_rows[idx];
            if row.tenant == tenant && row.source_uid == uid && row.f_edge_name == *edge_name {
                let d = row.destination_uid;
                let ghost prev = result@;
                result.push(d);
                proof {
                    assert(self.edge_rows@[idx as int].edge_v() == (
                        tenant,
                        uid,
                        edge_name@,
                        self.edge_rows@[idx as int].r_edge_name@,
                        d,
                    ));
                    assert(result@[prev.len() as int] == d);
                    assert forall|x: u64| #[trigger]
                        result@.contains(x) implies prev.contains(x) || x == d by {
                        let i = choose|i: int| 0 <= i < result@.len() && result@[i] == x;
                        if i < prev.len() {
                            assert(prev[i] == x);
                        }
                    }
                    assert forall|x: u64| prev.contains(x) implies #[trigger] result@.contains(
                        x,
                    ) by {
                        let i = choose|i: int| 0 <= i < prev.len() && prev[i] == x;
                        assert(result@[i] == x);
                    }
                }
            }
            idx = idx + 1;
        }
        proof {
            assert forall|d: u64| #[trigger]
                result@.contains(d) implies self.spec_neighbors(tenant, uid, edge_name@).contains(
                d,
            ) by {
                let j = choose|j: int|
                    0 <= j < self.edge_rows@.len() && self.edge_rows@[j].edge_v() == (
                    tenant,
                    uid,
                    edge_name@,
                    self.edge_rows@[j].r_edge_name@,
                    d,
                    );
                lemma_edges_set_index(self.edge_rows@, j);
            }
            assert forall|d: u64|
                self.spec_neighbors(tenant, uid, edge_name@).contains(d) implies #[trigger] result@
                .contains(d) by {
                let rn = choose|rn: Seq<char>|
                    self.spec_edges().contains((tenant, uid, edge_name@, rn, d));
                lemma_edges_set_exists(self.edge_rows@, (tenant, uid, edge_name@, rn, d));
            }
        }
        result
    }
}

spec fn prop_keys_distinct(rows: Seq<PropRow>) -> bool {
    forall|a: int, b: int| 0 <= a < b < rows.len() ==> rows[a].key() != rows[b].key()
}

proof fn lemma_prop_keys_distinct_drop_first(rows: Seq<PropRow>)
    requires
        rows.len() > 0,
        prop_keys_distinct(rows),
    ensures
        prop_keys_distinct(rows.drop_first()),
{
    assert forall|a: int, b: int|
        0 <= a < b < rows.drop_first().len() implies rows.drop_first()[a].key()
        != rows.drop_first()[b].key() by {
        assert(rows.drop_first()[a] == rows[a + 1]);
        assert(rows.drop_first()[b] == rows[b + 1]);
    }
}

proof fn lemma_props_map_index(rows: Seq<PropRow>, i: int)
    requires
        0 <= i < rows.len(),
        prop_keys_distinct(rows),
    ensures
        GraphStore::props_map_of(rows).contains_key(rows[i].key()),
        GraphStore::props_map_of(rows)[rows[i].key()] == rows[i].stored(),
    decreases rows.len(),
{
    if i > 0 {
        lemma_prop_keys_distinct_drop_first(rows);
        lemma_props_map_index(rows.drop_first(), i - 1);
        assert(rows.drop_first()[i - 1] == rows[i]);
        assert(rows[0].key() != rows[i].key());
    }
}

proof fn lemma_props_map_absent(rows: Seq<PropRow>, k: PropKeyV)
    requires
        forall|i: int| 0 <= i < rows.len() ==> rows[i].key() != k,
    ensures
        !GraphStore::props_map_of(rows).contains_key(k),
    decreases rows.len(),
{
    if rows.len() > 0 {
        assert forall|i: int|
            0 <= i < rows.drop_first().len() implies rows.drop_first()[i].key() != k by {
            assert(rows.drop_first()[i] == rows[i + 1]);
        }
        lemma_props_map_absent(rows.drop_first(), k);
    }
}

proof fn lemma_props_map_push(rows: Seq<PropRow>, row: PropRow)
    requires
        forall|i: int| 0 <= i < rows.len() ==> rows[i].key() != row.key(),
    ensures
        GraphStore::props_map_of(rows.push(row)) =~= GraphStore::props_map_of(rows).insert(
            row.key(),
            row.stored(),
        ),
    decreases rows.len(),
{
    let s = rows.push(row);
    assert(s.len() == rows.len() + 1);
    if rows.len() == 0 {
        assert(s.drop_first() =~= Seq::<PropRow>::empty());
        assert(s[0] == row);
        assert(GraphStore::props_map_of(s) == GraphStore::props_map_of(s.drop_first()).insert(
            s[0].key(),
            s[0].stored(),
        ));
    } else {
        assert(s.drop_first() =~= rows.drop_first().push(row));
        assert forall|i: int|
            0 <= i < rows.drop_first().len() implies rows.drop_first()[i].key() != row.key() by {
            assert(rows.drop_first()[i] == rows[i + 1]);
        }
        lemma_props_map_push(rows.drop_first(), row);
        assert(s[0] == rows[0]);
        assert(rows[0].key() != row.key());
        assert(GraphStore::props_map_of(s) == GraphStore::props_map_of(s.drop_first()).insert(
            s[0].key(),
            s[0].stored(),
        ));
        assert(GraphStore::props_map_of(s.drop_first()) =~= GraphStore::props_map_of(
            rows.drop_first(),
        ).insert(row.key(), row.stored()));
    }
}

proof fn lemma_props_map_update(rows: Seq<PropRow>, i: int, row: PropRow)
    requires
        0 <= i < rows.len(),
        prop_keys_distinct(rows),
        rows[i].key() == row.key(),
    ensures
        GraphStore::props_map_of(rows.update(i, row)) =~= GraphStore::props_map_of(rows).insert(
            row.key(),
            row.stored(),
        ),
    decreases rows.len(),
{
    if i == 0 {
        assert(rows.update(0, row).drop_first() =~= rows.drop_first());
        assert(rows.update(0, row)[0] == row);
    } else {
        assert(rows.update(i, row).drop_first() =~= rows.drop_first().update(i - 1, row));
        lemma_prop_keys_distinct_drop_first(rows);
        assert(rows.drop_first()[i - 1] == rows[i]);
        lemma_props_map_update(rows.drop_first(), i - 1, row);
        assert(rows.update(i, row)[0] == rows[0]);
        assert(rows[0].key() != row.key());
    }
}

spec fn node_keys_distinct(rows: Seq<NodeTypeRow>) -> bool {
    forall|a: int, b: int|
        0 <= a < b < rows.len() ==> (rows[a].tenant, rows[a].uid) != (rows[b].tenant, rows[b].uid)
}

proof fn lemma_nodes_map_index(rows: Seq<NodeTypeRow>, i: int)
    requires
        0 <= i < rows.len(),
        node_keys_distinct(rows),
    ensures
        GraphStore::nodes_map_of(rows).contains_key((rows[i].tenant, rows[i].uid)),
        GraphStore::nodes_map_of(rows)[(rows[i].tenant, rows[i].uid)] == rows[i].node_type@,
    decreases rows.len(),
{
    if i > 0 {
        assert forall|a: int, b: int|
            0 <= a < b < rows.drop_first().len() implies (
            rows.drop_first()[a].tenant,
            rows.drop_first()[a].uid,
            ) != (rows.drop_first()[b].tenant, rows.drop_first()[b].uid) by {
            assert(rows.drop_first()[a] == rows[a + 1]);
            assert(rows.drop_first()[b] == rows[b + 1]);
        }
        lemma_nodes_map_index(rows.drop_first(), i - 1);
        assert(rows.drop_first()[i - 1] == rows[i]);
        assert((rows[0].tenant, rows[0].uid) != (rows[i].tenant, rows[i].uid));
    }
}

proof fn lemma_nodes_map_absent(rows: Seq<NodeTypeRow>, k: (u128, u64))
    requires
        forall|i: int| 0 <= i < rows.len() ==> (rows[i].tenant, rows[i].uid) != k,
    ensures
        !GraphStore::nodes_map_of(rows).contains_key(k),
    decreases rows.len(),
{
    if rows.len() > 0 {
        assert forall|i: int|
            0 <= i < rows.drop_first().len() implies (
            rows.drop_first()[i].tenant,
            rows.drop_first()[i].uid,
            ) != k by {
            assert(rows.drop_first()[i] == rows[i + 1]);
        }
        lemma_nodes_map_absent(rows.drop_first(), k);
    }
}

proof fn lemma_nodes_map_push(rows: Seq<NodeTypeRow>, row: NodeTypeRow)
    requires
        forall|i: int| 0 <= i < rows.len() ==> (rows[i].tenant, rows[i].uid) != (row.tenant, row.uid),
    ensures
        GraphStore::nodes_map_of(rows.push(row)) =~= GraphStore::nodes_map_of(rows).insert(
            (row.tenant, row.uid),
            row.node_type@,
        ),
    decreases rows.len(),
{
    let s = rows.push(row);
    assert(s.len() == rows.len() + 1);
    if rows.len() == 0 {
        assert(s.drop_first() =~= Seq::<NodeTypeRow>::empty());
        assert(s[0] == row);
        assert(GraphStore::nodes_map_of(s) == GraphStore::nodes_map_of(s.drop_first()).insert(
            (s[0].tenant, s[0].uid),
            s[0].node_type@,
        ));
    } else {
        assert(s.drop_first() =~= rows.drop_first().push(row));
        assert forall|i: int|
            0 <= i < rows.drop_first().len() implies (
            rows.drop_first()[i].tenant,
            rows.drop_first()[i].uid,
            ) != (row.tenant, row.uid) by {
            assert(rows.drop_first()[i] == rows[i + 1]);
        }
        lemma_nodes_map_push(rows.drop_first(), row);
        assert(s[0] == rows[0]);
        assert((rows[0].tenant, rows[0].uid) != (row.tenant, row.uid));
        assert(GraphStore::nodes_map_of(s) == GraphStore::nodes_map_of(s.drop_first()).insert(
            (s[0].tenant, s[0].uid),
            s[0].node_type@,
        ));
        assert(GraphStore::nodes_map_of(s.drop_first()) =~= GraphStore::nodes_map_of(
            rows.drop_first(),
        ).insert((row.tenant, row.uid), row.node_type@));
    }
}

proof fn lemma_nodes_map_exists(rows: Seq<NodeTypeRow>, k: (u128, u64))
    requires
        GraphStore::nodes_map_of(rows).contains_key(k),
    ensures
        exists|i: int| 0 <= i < rows.len() && (rows[i].tenant, rows[i].uid) == k,
    decreases rows.len(),
{
    if rows.len() > 0 {
        if (rows[0].tenant, rows[0].uid) == k {
            assert(0 <= 0 < rows.len() && (rows[0].tenant, rows[0].uid) == k);
        } else {
            lemma_nodes_map_exists(rows.drop_first(), k);
            let j = choose|j: int|
                0 <= j < rows.drop_first().len() && (
                rows.drop_first()[j].tenant,
                rows.drop_first()[j].uid,
                ) == k;
            assert(rows.drop_first()[j] == rows[j + 1]);
            assert(0 <= j + 1 < rows.len() && (rows[j + 1].tenant, rows[j + 1].uid) == k);
        }
    }
}

/// Every node with a stored type record appears in the uid universe, the
/// sequence that bounds the query engine's recursion.
pub proof fn lemma_node_uid_in_universe(s: GraphStore, tenant: u128, uid: u64)
    requires
        s.spec_node_type(tenant, uid) is Some,
    ensures
        s.spec_uid_seq().contains(uid),
{
    lemma_nodes_map_exists(s.node_rows@, (tenant, uid));
    let i = choose|i: int|
        0 <= i < s.node_rows@.len() && (s.node_rows@[i].tenant, s.node_rows@[i].uid) == (
        tenant,
        uid,
        );
    assert(s.spec_uid_seq()[i] == uid);
}

proof fn lemma_edges_set_index(rows: Seq<EdgeRow>, i: int)
    requires
        0 <= i < rows.len(),
    ensures
        GraphStore::edges_set_of(rows).contains(rows[i].edge_v()),
    decreases rows.len(),
{
    if i > 0 {
        lemma_edges_set_index(rows.drop_first(), i - 1);
        assert(rows.drop_first()[i - 1] == rows[i]);
    }
}

proof fn lemma_edges_set_exists(rows: Seq<EdgeRow>, e: EdgeV)
    requires
        GraphStore::edges_set_of(rows).contains(e),
    ensures
        exists|i: int| 0 <= i < rows.len() && rows[i].edge_v() == e,
    decreases rows.len(),
{
    if rows.len() > 0 {
        if rows[0].edge_v() == e {
            assert(0 <= 0 < rows.len() && rows[0].edge_v() == e);
        } else {
            lemma_edges_set_exists(rows.drop_first(), e);
            let j = choose|j: int|
                0 <= j < rows.drop_first().len() && rows.drop_first()[j].edge_v() == e;
            assert(rows.drop_first()[j] == rows[j + 1]);
            assert(0 <= j + 1 < rows.len() && rows[j + 1].edge_v() == e);
        }
    }
}

proof fn lemma_edges_set_push(rows: Seq<EdgeRow>, row: EdgeRow)
    ensures
        GraphStore::edges_set_of(rows.push(row)) =~= GraphStore::edges_set_of(rows).insert(
            row.edge_v(),
        ),
    decreases rows.len(),
{
    let s = rows.push(row);
    assert(s.len() == rows.len() + 1);
    if rows.len() == 0 {
        assert(s.drop_first() =~= Seq::<EdgeRow>::empty());
        assert(s[0] == row);
        assert(GraphStore::edges_set_of(s) == GraphStore::edges_set_of(s.drop_first()).insert(
            s[0].edge_v(),
        ));
        assert(GraphStore::edges_set_of(s) =~= Set::<EdgeV>::empty().insert(row.edge_v()));
    } else {
        assert(s.drop_first() =~= rows.drop_first().push(row));
        lemma_edges_set_push(rows.drop_first(), row);
        assert(s[0] == rows[0]);
        assert(GraphStore::edges_set_of(s) == GraphStore::edges_set_of(s.drop_first()).insert(
            s[0].edge_v(),
        ));
        assert(GraphStore::edges_set_of(s.drop_first()) =~= GraphStore::edges_set_of(
            rows.drop_first(),
        ).insert(row.edge_v()));
    }
}

} // verus!
