//! The mutation manager: idempotent, lock-free graph mutations.
//!
//! The three mutation operations — node creation, property upsert dispatch by
//! property kind, and bidirectional edge creation — all funnel their storage
//! writes through the write-redundancy cache, and all rely on the store's
//! last-write-wins conflict resolution instead of locks. The conflict
//! timestamp of a monotone property write is the value itself (negated for
//! the min-converging kinds), so that concurrent writers in any order leave
//! the maximum (or minimum) in place without a read-before-write round trip.
//! Immutable kinds carry no explicit timestamp: the first stored value wins.

use vstd::prelude::*;

use crate::allocator::UidAllocator;
use crate::resolver::ReverseEdgeResolver;
use crate::store::{
    first_write_value, lww_value, EdgeRow, GraphStore, PropKeyV, PropRow, PropStoredV, PropTable,
    PropValue, PropValueV,
};
use crate::types::{
    EdgeName, GraphMutationManagerError, MutationRedundancy, NodeType, Property, PropertyName,
    PropertyV, Uid, Write,
};
use crate::write_dropper::{
    dominates, edge_drop_key, gate_post, node_type_drop_key, prop_drop_key, DropKey, DropKeyV,
    DropKind, DropVal, WriteDropper,
};

verus! {

/// Values strictly below this bound survive the unsigned-to-signed
/// timestamp encoding with their order intact.
pub open spec fn half_u64() -> u64 {
    0x8000_0000_0000_0000u64
}

/// The conflict timestamp of an increment-only unsigned write.
pub open spec fn u64_max_ts(v: u64) -> i64 {
    v as i64
}

/// The conflict timestamp of a decrement-only unsigned write.
pub open spec fn u64_min_ts(v: u64) -> i64 {
    0i64.wrapping_sub(v as i64)
}

/// The conflict timestamp of a decrement-only signed write.
pub open spec fn i64_min_ts(v: i64) -> i64 {
    0i64.wrapping_sub(v)
}

/// The table and timestamped row of one property write, by property kind.
pub open spec fn prop_table_of(pv: PropertyV) -> PropTable {
    match pv {
        PropertyV::IncrementOnlyUintProp(_) => PropTable::MaxU64,
        PropertyV::DecrementOnlyUintProp(_) => PropTable::MinU64,
        PropertyV::ImmutableUintProp(_) => PropTable::ImmU64,
        PropertyV::IncrementOnlyIntProp(_) => PropTable::MaxI64,
        PropertyV::DecrementOnlyIntProp(_) => PropTable::MinI64,
        PropertyV::ImmutableIntProp(_) => PropTable::ImmI64,
        PropertyV::ImmutableStrProp(_) => PropTable::ImmString,
    }
}

/// What a stored row in each table must look like: the value kind of its
/// table, with the timestamp that encodes the value for the monotone kinds.
pub open spec fn row_encoded(table: PropTable, row: PropStoredV) -> bool {
    match table {
        PropTable::MaxU64 => row.value matches PropValueV::U(w) && row.ts == u64_max_ts(w),
        PropTable::MinU64 => row.value matches PropValueV::U(w) && row.ts == u64_min_ts(w),
        PropTable::MaxI64 => row.value matches PropValueV::I(w) && row.ts == w,
        PropTable::MinI64 => row.value matches PropValueV::I(w) && row.ts == i64_min_ts(w),
        PropTable::ImmU64 => row.value is U,
        PropTable::ImmI64 => row.value is I,
        PropTable::ImmString => row.value is S,
    }
}

/// Every stored property row carries its table's value kind and timestamp
/// encoding.
pub open spec fn store_rows_encoded(s: GraphStore) -> bool {
    forall|k: PropKeyV|
        s.spec_props().contains_key(k) ==> row_encoded(k.1, #[trigger] s.spec_props()[k])
}

/// What a cache entry under key `k` promises about the store: the row it
/// gates exists, and for the monotone kinds the stored row's conflict
/// timestamp has reached at least the cached bound's encoding — which is
/// exactly the condition under which the store itself would discard the
/// writes that the cache drops.
pub open spec fn coupled_entry(k: DropKeyV, val: DropVal, s: GraphStore) -> bool {
    match val {
        DropVal::MaxU(m) => {
            &&& k.0 == DropKind::MaxU64
            &&& s.spec_prop_at((k.1, PropTable::MaxU64, k.2, k.5)) matches Option::Some(row)
            &&& row.value is U
            &&& row.ts >= u64_max_ts(m)
        },
        DropVal::MinU(m) => {
            &&& k.0 == DropKind::MinU64
            &&& s.spec_prop_at((k.1, PropTable::MinU64, k.2, k.5)) matches Option::Some(row)
            &&& row.value is U
            &&& row.ts >= u64_min_ts(m)
        },
        DropVal::MaxI(m) => {
            &&& k.0 == DropKind::MaxI64
            &&& s.spec_prop_at((k.1, PropTable::MaxI64, k.2, k.5)) matches Option::Some(row)
            &&& row.value is I
            &&& row.ts >= m
        },
        DropVal::MinI(m) => {
            &&& k.0 == DropKind::MinI64
            &&& s.spec_prop_at((k.1, PropTable::MinI64, k.2, k.5)) matches Option::Some(row)
            &&& row.value is I
            &&& row.ts >= i64_min_ts(m)
        },
        DropVal::Seen => {
            match k.0 {
                DropKind::ImmU64 => s.spec_prop_at((k.1, PropTable::ImmU64, k.2, k.5)) is Some,
                DropKind::ImmI64 => s.spec_prop_at((k.1, PropTable::ImmI64, k.2, k.5)) is Some,
                DropKind::ImmString => s.spec_prop_at((k.1, PropTable::ImmString, k.2, k.5))
                    is Some,
                DropKind::NodeType => s.spec_node_type(k.1, k.2) is Some,
                DropKind::Edge => {
                    &&& s.spec_edges().contains((k.1, k.2, k.4, k.5, k.3))
                    &&& s.spec_edges().contains((k.1, k.3, k.5, k.4, k.2))
                },
                _ => false,
            }
        },
    }
}

/// Every cache entry is backed by the store: what the cache calls redundant,
/// the store's own conflict resolution would also discard.
pub open spec fn cache_store_coupled(d: WriteDropper, s: GraphStore) -> bool {
    forall|k: DropKeyV|
        match #[trigger] d.spec_cached(k) {
            Option::Some(val) => coupled_entry(k, val, s),
            Option::None => true,
        }
}

/// The mutation manager: owns the store, the allocator, the reverse edge
/// resolver and the write-redundancy cache.
pub struct GraphMutationManager {
    store: GraphStore,
    uid_allocator: UidAllocator,
    reverse_edge_resolver: ReverseEdgeResolver,
    write_dropper: WriteDropper,
}

impl GraphMutationManager {
    pub closed spec fn spec_store(self) -> GraphStore {
        self.store
    }

    pub closed spec fn spec_allocator(self) -> UidAllocator {
        self.uid_allocator
    }

    pub closed spec fn spec_resolver(self) -> ReverseEdgeResolver {
        self.reverse_edge_resolver
    }

    pub closed spec fn spec_dropper(self) -> WriteDropper {
        self.write_dropper
    }

    pub open spec fn wf(self) -> bool {
        &&& self.spec_store().wf()
        &&& self.spec_allocator().wf()
        &&& self.spec_resolver().wf()
        &&& self.spec_dropper().wf()
        &&& store_rows_encoded(self.spec_store())
        &&& cache_store_coupled(self.spec_dropper(), self.spec_store())
    }

    /// A manager over a fresh, empty store.
    pub fn new(
        uid_allocator: UidAllocator,
        reverse_edge_resolver: ReverseEdgeResolver,
        max_write_drop_size: usize,
    ) -> (r: GraphMutationManager)
        requires
            uid_allocator.wf(),
            reverse_edge_resolver.wf(),
        ensures
            r.wf(),
            r.spec_allocator() == uid_allocator,
            r.spec_resolver() == reverse_edge_resolver,
            r.spec_dropper().spec_capacity() == max_write_drop_size,
            r.spec_store().spec_props() == Map::<PropKeyV, PropStoredV>::empty(),
            r.spec_store().spec_nodes() == Map::<(u128, u64), Seq<char>>::empty(),
            r.spec_store().spec_edges() == Set::<crate::store::EdgeV>::empty(),
    {
        GraphMutationManager {
            store: GraphStore::new(),
            uid_allocator,
            reverse_edge_resolver,
            write_dropper: WriteDropper::new(max_write_drop_size),
        }
    }

    /// The stored graph, for query evaluation.
    pub fn graph_store(&self) -> (r: &GraphStore)
        ensures
            *r == self.spec_store(),
    {
        &self.store
    }

    /// One gated property write: consult the cache, and on a miss send the
    /// row to the store under the kind's conflict resolution.
    fn gated_prop_write(&mut self, key: DropKey, probe: DropVal, row: PropRow, lww: bool) -> (w:
        Write)
        requires
            old(self).wf(),
            gated_write_consistent(key, probe, row, lww),
        ensures
            prop_write_post(
                *old(self),
                *final(self),
                key.key_v(),
                probe,
                row.key(),
                row.stored(),
                lww,
                w,
            ),
    {
        let ghost dk = key.key_v();
        let ghost pk = row.key();
        let ghost d0 = self.write_dropper;
        let ghost s0 = self.store;
        let w = self.write_dropper.check_gate(key, probe);
        match w {
            Write::Dropped => Write::Dropped,
            Write::Issued => {
                let ghost d1 = self.write_dropper;
                if lww {
                    self.store.upsert_prop_lww(row);
                } else {
                    self.store.insert_prop_first_wins(row);
                }
                proof {
                    let s1 = self.store;
                    let winner = if lww {
                        lww_value(s0.spec_prop_at(pk), row.stored())
                    } else {
                        first_write_value(s0.spec_prop_at(pk), row.stored())
                    };
                    assert(s1.spec_props() =~= s0.spec_props().insert(pk, winner));
                    assert forall|k: PropKeyV| s1.spec_props().contains_key(k) implies row_encoded(
                        k.1,
                        #[trigger] s1.spec_props()[k],
                    ) by {
                        if k == pk {
                            assert(row_encoded(row.table, row.stored()));
                        } else {
                            assert(s1.spec_props()[k] == s0.spec_props()[k]);
                        }
                    }
                    assert forall|k2: DropKeyV|
                        match #[trigger] d1.spec_cached(k2) {
                            Option::Some(val2) => coupled_entry(k2, val2, s1),
                            Option::None => true,
                        } by {
                        match d1.spec_cached(k2) {
                            Option::Some(val2) => {
                                if k2 == dk && d0.spec_capacity() > 0 {
                                    assert(val2 == probe);
                                    assert(s1.spec_prop_at(pk) == Option::Some(winner));
                                    assert(coupled_entry(k2, val2, s1));
                                } else {
                                    assert(d1.spec_cached(k2) == d0.spec_cached(k2)
                                        || d1.spec_cached(k2) is None);
                                    assert(coupled_entry(k2, val2, s0));
                                    match val2 {
                                        DropVal::MaxU(m) => {
                                            let pk2 = (k2.1, PropTable::MaxU64, k2.2, k2.5);
                                            if pk2 == pk {
                                                assert(s1.spec_prop_at(pk) == Option::Some(winner));
                                            } else {
                                                assert(s1.spec_prop_at(pk2) == s0.spec_prop_at(
                                                    pk2,
                                                ));
                                            }
                                        },
                                        DropVal::MinU(m) => {
                                            let pk2 = (k2.1, PropTable::MinU64, k2.2, k2.5);
                                            if pk2 == pk {
                                                assert(s1.spec_prop_at(pk) == Option::Some(winner));
                                            } else {
                                                assert(s1.spec_prop_at(pk2) == s0.spec_prop_at(
                                                    pk2,
                                                ));
                                            }
                                        },
                                        DropVal::MaxI(m) => {
                                            let pk2 = (k2.1, PropTable::MaxI64, k2.2, k2.5);
                                            if pk2 == pk {
                                                assert(s1.spec_prop_at(pk) == Option::Some(winner));
                                            } else {
                                                assert(s1.spec_prop_at(pk2) == s0.spec_prop_at(
                                                    pk2,
                                                ));
                                            }
                                        },
                                        DropVal::MinI(m) => {
                                            let pk2 = (k2.1, PropTable::MinI64, k2.2, k2.5);
                                            if pk2 == pk {
                                                assert(s1.spec_prop_at(pk) == Option::Some(winner));
                                            } else {
                                                assert(s1.spec_prop_at(pk2) == s0.spec_prop_at(
                                                    pk2,
                                                ));
                                            }
                                        },
                                        DropVal::Seen => {
                                            match k2.0 {
                                                DropKind::ImmU64 => {
                                                    let pk2 = (k2.1, PropTable::ImmU64, k2.2, k2.5);
                                                    assert(s1.spec_props().contains_key(pk2));
                                                },
                                                DropKind::ImmI64 => {
                                                    let pk2 = (k2.1, PropTable::ImmI64, k2.2, k2.5);
                                                    assert(s1.spec_props().contains_key(pk2));
                                                },
                                                DropKind::ImmString => {
                                                    let pk2 = (
                                                        k2.1,
                                                        PropTable::ImmString,
                                                        k2.2,
                                                        k2.5,
                                                    );
                                                    assert(s1.spec_props().contains_key(pk2));
                                                },
                                                _ => {},
                                            }
                                        },
                                    }
                                }
                            },
                            Option::None => {},
                        }
                    }
                }
                Write::Issued
            },
        }
    }

    fn upsert_max_u64(
        &mut self,
        tenant_keyspace: u128,
        uid: Uid,
        node_type: &NodeType,
        property_name: &PropertyName,
        property_value: u64,
    ) -> (w: Write)
        requires
            old(self).wf(),
        ensures
            prop_write_post(
                *old(self),
                *final(self),
                prop_drop_key(
                    DropKind::MaxU64,
                    tenant_keyspace,
                    uid.spec_as_u64(),
                    node_type.value@,
                    property_name.value@,
                ),
                DropVal::MaxU(property_value),
                (tenant_keyspace, PropTable::MaxU64, uid.spec_as_u64(), property_name.value@),
                PropStoredV {
                    node_type: node_type.value@,
                    value: PropValueV::U(property_value),
                    ts: u64_max_ts(property_value),
                },
                true,
                w,
            ),
    {
        #[verifier::truncate]
        let ts: i64 = property_value as i64;
        let key = DropKey {
            kind: DropKind::MaxU64,
            tenant: tenant_keyspace,
            uid_a: uid.as_u64(),
            uid_b: 0,
            name_a: node_type.value.clone(),
            name_b: property_name.value.clone(),
        };
        let row = PropRow {
            tenant: tenant_keyspace,
            table: PropTable::MaxU64,
            uid: uid.as_u64(),
            property_name: property_name.value.clone(),
            node_type: node_type.value.clone(),
            value: PropValue::U(property_value),
            ts,
        };
        self.gated_prop_write(key, DropVal::MaxU(property_value), row, true)
    }

    fn upsert_min_u64(
        &mut self,
        tenant_keyspace: u128,
        uid: Uid,
        node_type: &NodeType,
        property_name: &PropertyName,
        property_value: u64,
    ) -> (w: Write)
        requires
            old(self).wf(),
        ensures
            prop_write_post(
                *old(self),
                *final(self),
                prop_drop_key(
                    DropKind::MinU64,
                    tenant_keyspace,
                    uid.spec_as_u64(),
                    node_type.value@,
                    property_name.value@,
                ),
                DropVal::MinU(property_value),
                (tenant_keyspace, PropTable::MinU64, uid.spec_as_u64(), property_name.value@),
                PropStoredV {
                    node_type: node_type.value@,
                    value: PropValueV::U(property_value),
                    ts: u64_min_ts(property_value),
                },
                true,
                w,
            ),
    {
        #[verifier::truncate]
        let signed: i64 = property_value as i64;
        let ts: i64 = 0i64.wrapping_sub(signed);
        let key = DropKey {
            kind: DropKind::MinU64,
            tenant: tenant_keyspace,
            uid_a: uid.as_u64(),
            uid_b: 0,
            name_a: node_type.value.clone(),
            name_b: property_name.value.clone(),
        };
        let row = PropRow {
            tenant: tenant_keyspace,
            table: PropTable::MinU64,
            uid: uid.as_u64(),
            property_name: property_name.value.clone(),
            node_type: node_type.value.clone(),
            value: PropValue::U(property_value),
            ts,
        };
        self.gated_prop_write(key, DropVal::MinU(property_value), row, true)
    }

    fn upsert_max_i64(
        &mut self,
        tenant_keyspace: u128,
        uid: Uid,
        node_type: &NodeType,
        property_name: &PropertyName,
        property_value: i64,
    ) -> (w: Write)
        requires
            old(self).wf(),
        ensures
            prop_write_post(
                *old(self),
                *final(self),
                prop_drop_key(
                    DropKind::MaxI64,
                    tenant_keyspace,
                    uid.spec_as_u64(),
                    node_type.value@,
                    property_name.value@,
                ),
                DropVal::MaxI(property_value),
                (tenant_keyspace, PropTable::MaxI64, uid.spec_as_u64(), property_name.value@),
                PropStoredV {
                    node_type: node_type.value@,
                    value: PropValueV::I(property_value),
                    ts: property_value,
                },
                true,
                w,
            ),
    {
        let key = DropKey {
            kind: DropKind::MaxI64,
            tenant: tenant_keyspace,
            uid_a: uid.as_u64(),
            uid_b: 0,
            name_a: node_type.value.clone(),
            name_b: property_name.value.clone(),
        };
        let row = PropRow {
            tenant: tenant_keyspace,
            table: PropTable::MaxI64,
            uid: uid.as_u64(),
            property_name: property_name.value.clone(),
            node_type: node_type.value.clone(),
            value: PropValue::I(property_value),
            ts: property_value,
        };
        self.gated_prop_write(key, DropVal::MaxI(property_value), row, true)
    }

    fn upsert_min_i64(
        &mut self,
        tenant_keyspace: u128,
        uid: Uid,
        node_type: &NodeType,
        property_name: &PropertyName,
        property_value: i64,
    ) -> (w: Write)
        requires
            old(self).wf(),
        ensures
            prop_write_post(
                *old(self),
                *final(self),
                prop_drop_key(
                    DropKind::MinI64,
                    tenant_keyspace,
                    uid.spec_as_u64(),
                    node_type.value@,
                    property_name.value@,
                ),
                DropVal::MinI(property_value),
                (tenant_keyspace, PropTable::MinI64, uid.spec_as_u64(), property_name.value@),
                PropStoredV {
                    node_type: node_type.value@,
                    value: PropValueV::I(property_value),
                    ts: i64_min_ts(property_value),
                },
                true,
                w,
            ),
    {
        let ts: i64 = 0i64.wrapping_sub(property_value);
        let key = DropKey {
            kind: DropKind::MinI64,
            tenant: tenant_keyspace,
            uid_a: uid.as_u64(),
            uid_b: 0,
            name_a: node_type.value.clone(),
            name_b: property_name.value.clone(),
        };
        let row = PropRow {
            tenant: tenant_keyspace,
            table: PropTable::MinI64,
            uid: uid.as_u64(),
            property_name: property_name.value.clone(),
            node_type: node_type.value.clone(),
            value: PropValue::I(property_value),
            ts,
        };
        self.gated_prop_write(key, DropVal::MinI(property_value), row, true)
    }

    fn upsert_immutable_u64(
        &mut self,
        tenant_keyspace: u128,
        uid: Uid,
        node_type: &NodeType,
        property_name: &PropertyName,
        property_value: u64,
    ) -> (w: Write)
        requires
            old(self).wf(),
        ensures
            prop_write_post(
                *old(self),
                *final(self),
                prop_drop_key(
                    DropKind::ImmU64,
                    tenant_keyspace,
                    uid.spec_as_u64(),
                    node_type.value@,
                    property_name.value@,
                ),
                DropVal::Seen,
                (tenant_keyspace, PropTable::ImmU64, uid.spec_as_u64(), property_name.value@),
                PropStoredV {
                    node_type: node_type.value@,
                    value: PropValueV::U(property_value),
                    ts: 0i64,
                },
                false,
                w,
            ),
    {
        let key = DropKey {
            kind: DropKind::ImmU64,
            tenant: tenant_keyspace,
            uid_a: uid.as_u64(),
            uid_b: 0,
            name_a: node_type.value.clone(),
            name_b: property_name.value.clone(),
        };
        let row = PropRow {
            tenant: tenant_keyspace,
            table: PropTable::ImmU64,
            uid: uid.as_u64(),
            property_name: property_name.value.clone(),
            node_type: node_type.value.clone(),
            value: PropValue::U(property_value),
            ts: 0,
        };
        self.gated_prop_write(key, DropVal::Seen, row, false)
    }

    fn upsert_immutable_i64(
        &mut self,
        tenant_keyspace: u128,
        uid: Uid,
        node_type: &NodeType,
        property_name: &PropertyName,
        property_value: i64,
    ) -> (w: Write)
        requires
            old(self).wf(),
        ensures
            prop_write_post(
                *old(self),
                *final(self),
                prop_drop_key(
                    DropKind::ImmI64,
                    tenant_keyspace,
                    uid.spec_as_u64(),
                    node_type.value@,
                    property_name.value@,
                ),
                DropVal::Seen,
                (tenant_keyspace, PropTable::ImmI64, uid.spec_as_u64(), property_name.value@),
                PropStoredV {
                    node_type: node_type.value@,
                    value: PropValueV::I(property_value),
                    ts: 0i64,
                },
                false,
                w,
            ),
    {
        let key = DropKey {
            kind: DropKind::ImmI64,
            tenant: tenant_keyspace,
            uid_a: uid.as_u64(),
            uid_b: 0,
            name_a: node_type.value.clone(),
            name_b: property_name.value.clone(),
        };
        let row = PropRow {
            tenant: tenant_keyspace,
            table: PropTable::ImmI64,
            uid: uid.as_u64(),
            property_name: property_name.value.clone(),
            node_type: node_type.value.clone(),
            value: PropValue::I(property_value),
            ts: 0,
        };
        self.gated_prop_write(key, DropVal::Seen, row, false)
    }

    fn upsert_immutable_string(
        &mut self,
        tenant_keyspace: u128,
        uid: Uid,
        node_type: &NodeType,
        property_name: &PropertyName,
        property_value: String,
    ) -> (w: Write)
        requires
            old(self).wf(),
        ensures
            prop_write_post(
                *old(self),
                *final(self),
                prop_drop_key(
                    DropKind::ImmString,
                    tenant_keyspace,
                    uid.spec_as_u64(),
                    node_type.value@,
                    property_name.value@,
                ),
                DropVal::Seen,
                (tenant_keyspace, PropTable::ImmString, uid.spec_as_u64(), property_name.value@),
                PropStoredV {
                    node_type: node_type.value@,
                    value: PropValueV::S(property_value@),
                    ts: 0i64,
                },
                false,
                w,
            ),
    {
        let key = DropKey {
            kind: DropKind::ImmString,
            tenant: tenant_keyspace,
            uid_a: uid.as_u64(),
            uid_b: 0,
            name_a: node_type.value.clone(),
            name_b: property_name.value.clone(),
        };
        let row = PropRow {
            tenant: tenant_keyspace,
            table: PropTable::ImmString,
            uid: uid.as_u64(),
            property_name: property_name.value.clone(),
            node_type: node_type.value.clone(),
            value: PropValue::S(property_value),
            ts: 0,
        };
        self.gated_prop_write(key, DropVal::Seen, row, false)
    }

    fn set_node_type(&mut self, tenant_keyspace: u128, uid: Uid, node_type: &NodeType) -> (w:
        Write)
        requires
            old(self).wf(),
        ensures
            node_type_write_post(
                *old(self),
                *final(self),
                tenant_keyspace,
                uid.spec_as_u64(),
                node_type.value@,
                w,
            ),
    {
        let ghost d0 = self.write_dropper;
        let ghost s0 = self.store;
        let w = self.write_dropper.check_node_type(tenant_keyspace, uid);
        match w {
            Write::Dropped => Write::Dropped,
            Write::Issued => {
                let ghost d1 = self.write_dropper;
                self.store.write_node_type(tenant_keyspace, uid.as_u64(), node_type);
                proof {
                    let s1 = self.store;
                    assert forall|k2: DropKeyV|
                        match #[trigger] d1.spec_cached(k2) {
                            Option::Some(val2) => coupled_entry(k2, val2, s1),
                            Option::None => true,
                        } by {
                        match d1.spec_cached(k2) {
                            Option::Some(val2) => {
                                if k2 == node_type_drop_key(tenant_keyspace, uid.spec_as_u64())
                                    && d0.spec_capacity() > 0 {
                                    assert(s1.spec_node_type(tenant_keyspace, uid.spec_as_u64())
                                        is Some);
                                } else {
                                    assert(coupled_entry(k2, val2, s0));
                                    if val2 == DropVal::Seen && k2.0 == DropKind::NodeType {
                                        assert(s1.spec_nodes().contains_key((k2.1, k2.2)));
                                    }
                                }
                            },
                            Option::None => {},
                        }
                    }
                }
                Write::Issued
            },
        }
    }

    fn upsert_edges(
        &mut self,
        tenant_keyspace: u128,
        from_uid: Uid,
        to_uid: Uid,
        f_edge_name: &EdgeName,
        r_edge_name: &EdgeName,
    ) -> (w: Write)
        requires
            old(self).wf(),
        ensures
            edges_write_post(
                *old(self),
                *final(self),
                tenant_keyspace,
                from_uid.spec_as_u64(),
                to_uid.spec_as_u64(),
                f_edge_name.value@,
                r_edge_name.value@,
                w,
            ),
    {
        let ghost d0 = self.write_dropper;
        let ghost s0 = self.store;
        let w = self.write_dropper.check_edges(
            tenant_keyspace,
            from_uid,
            to_uid,
            f_edge_name,
            r_edge_name,
        );
        match w {
            Write::Dropped => {
                proof {
                    let dk = edge_drop_key(
                        tenant_keyspace,
                        from_uid.spec_as_u64(),
                        to_uid.spec_as_u64(),
                        f_edge_name.value@,
                        r_edge_name.value@,
                    );
                    assert(d0.spec_cached(dk) matches Option::Some(c) && dominates(
                        c,
                        DropVal::Seen,
                    ));
                    assert(coupled_entry(dk, DropVal::Seen, s0));
                }
                Write::Dropped
            },
            Write::Issued => {
                let ghost d1 = self.write_dropper;
                let forward = EdgeRow {
                    tenant: tenant_keyspace,
                    source_uid: from_uid.as_u64(),
                    f_edge_name: f_edge_name.value.clone(),
                    r_edge_name: r_edge_name.value.clone(),
                    destination_uid: to_uid.as_u64(),
                };
                let reverse = EdgeRow {
                    tenant: tenant_keyspace,
                    source_uid: to_uid.as_u64(),
                    f_edge_name: r_edge_name.value.clone(),
                    r_edge_name: f_edge_name.value.clone(),
                    destination_uid: from_uid.as_u64(),
                };
                self.store.insert_edge_row(forward);
                self.store.insert_edge_row(reverse);
                proof {
                    let s1 = self.store;
                    assert forall|k2: DropKeyV|
                        match #[trigger] d1.spec_cached(k2) {
                            Option::Some(val2) => coupled_entry(k2, val2, s1),
                            Option::None => true,
                        } by {
                        match d1.spec_cached(k2) {
                            Option::Some(val2) => {
                                let dk = edge_drop_key(
                                    tenant_keyspace,
                                    from_uid.spec_as_u64(),
                                    to_uid.spec_as_u64(),
                                    f_edge_name.value@,
                                    r_edge_name.value@,
                                );
                                if k2 == dk && d0.spec_capacity() > 0 {
                                    assert(coupled_entry(k2, val2, s1));
                                } else {
                                    assert(coupled_entry(k2, val2, s0));
                                }
                            },
                            Option::None => {},
                        }
                    }
                }
                Write::Issued
            },
        }
    }

    /// Allocate a node identifier for the tenant and record the node's type
    /// through the write-redundancy cache. Fails exactly when the allocator
    /// hands out the invalid zero identifier.
    pub fn create_node(&mut self, tenant_id: u128, node_type: NodeType) -> (r: Result<
        Uid,
        GraphMutationManagerError,
    >)
        requires
            old(self).wf(),
        ensures
            create_node_post(*old(self), *final(self), tenant_id, node_type.value@, r),
    {
        let raw = self.uid_allocator.allocate_id(tenant_id);
        let uid = match Uid::from_u64(raw) {
            Option::Some(uid) => uid,
            Option::None => {
                return Result::Err(GraphMutationManagerError::ZeroUid);
            },
        };
        let ghost mid = *self;
        let w = self.set_node_type(tenant_id, uid, &node_type);
        proof {
            let n = uid.spec_as_u64();
            assert(gate_post(
                old(self).spec_dropper(),
                self.spec_dropper(),
                node_type_drop_key(tenant_id, n),
                DropVal::Seen,
                w,
            ));
            if w == Write::Dropped {
                assert(mid.spec_dropper().spec_cached(node_type_drop_key(tenant_id, n))
                    matches Option::Some(c) && dominates(c, DropVal::Seen));
                assert(coupled_entry(
                    node_type_drop_key(tenant_id, n),
                    DropVal::Seen,
                    mid.spec_store(),
                ));
                assert(self.spec_store().spec_nodes() =~= old(self).spec_store().spec_nodes().insert(
                    (tenant_id, n),
                    match old(self).spec_store().spec_node_type(tenant_id, n) {
                        Option::Some(t) => t,
                        Option::None => node_type.value@,
                    },
                ));
            }
        }
        Result::Ok(uid)
    }

    /// Update one property of a node, dispatching on the property kind to
    /// the kind's conflict-resolution encoding, gated by the
    /// write-redundancy cache. Returns `True` exactly when the cache proved
    /// the write redundant, `Maybe` when a write was sent.
    pub fn set_node_property(
        &mut self,
        tenant_id: u128,
        uid: Uid,
        node_type: NodeType,
        property_name: PropertyName,
        property: Property,
    ) -> (r: MutationRedundancy)
        requires
            old(self).wf(),
        ensures
            set_prop_post(
                *old(self),
                *final(self),
                tenant_id,
                uid.spec_as_u64(),
                node_type.value@,
                property_name.value@,
                property@,
                r,
            ),
    {
        let w = match property {
            Property::IncrementOnlyUintProp(v) => self.upsert_max_u64(
                tenant_id,
                uid,
                &node_type,
                &property_name,
                v,
            ),
            Property::DecrementOnlyUintProp(v) => self.upsert_min_u64(
                tenant_id,
                uid,
                &node_type,
                &property_name,
                v,
            ),
            Property::ImmutableUintProp(v) => self.upsert_immutable_u64(
                tenant_id,
                uid,
                &node_type,
                &property_name,
                v,
            ),
            Property::IncrementOnlyIntProp(v) => self.upsert_max_i64(
                tenant_id,
                uid,
                &node_type,
                &property_name,
                v,
            ),
            Property::DecrementOnlyIntProp(v) => self.upsert_min_i64(
                tenant_id,
                uid,
                &node_type,
                &property_name,
                v,
            ),
            Property::ImmutableIntProp(v) => self.upsert_immutable_i64(
                tenant_id,
                uid,
                &node_type,
                &property_name,
                v,
            ),
            Property::ImmutableStrProp(s) => self.upsert_immutable_string(
                tenant_id,
                uid,
                &node_type,
                &property_name,
                s,
            ),
        };
        MutationRedundancy::of_write(w)
    }

    /// Create an edge between two nodes: resolve the canonical reverse name,
    /// then write the forward and the reverse row together as one gated,
    /// idempotent operation. An unmapped edge name is an error and no
    /// partial edge is written.
    pub fn create_edge(
        &mut self,
        tenant_id: u128,
        from_uid: Uid,
        to_uid: Uid,
        edge_name: EdgeName,
        source_node_type: NodeType,
    ) -> (r: Result<MutationRedundancy, GraphMutationManagerError>)
        requires
            old(self).wf(),
        ensures
            create_edge_post(
                *old(self),
                *final(self),
                tenant_id,
                from_uid.spec_as_u64(),
                to_uid.spec_as_u64(),
                edge_name.value@,
                source_node_type.value@,
                r,
            ),
    {
        let reverse_edge_name = match self.reverse_edge_resolver.resolve_reverse_edge(
            tenant_id,
            &source_node_type,
            &edge_name,
        ) {
            Result::Ok(rev) => rev,
            Result::Err(e) => {
                return Result::Err(GraphMutationManagerError::ReverseEdgeResolverError(e));
            },
        };
        let w = self.upsert_edges(tenant_id, from_uid, to_uid, &edge_name, &reverse_edge_name);
        Result::Ok(MutationRedundancy::of_write(w))
    }
}

/// How recording a node's type relates the manager before and after.
pub open spec fn node_type_write_post(
    pre: GraphMutationManager,
    post: GraphMutationManager,
    tenant: u128,
    uid: u64,
    node_type: Seq<char>,
    w: Write,
) -> bool {
    &&& post.wf()
    &&& post.spec_allocator() == pre.spec_allocator()
    &&& post.spec_resolver() == pre.spec_resolver()
    &&& gate_post(
        pre.spec_dropper(),
        post.spec_dropper(),
        node_type_drop_key(tenant, uid),
        DropVal::Seen,
        w,
    )
    &&& (w == Write::Dropped ==> post.spec_store() == pre.spec_store())
    &&& (w == Write::Issued ==> {
        &&& post.spec_store().spec_nodes() == pre.spec_store().spec_nodes().insert(
            (tenant, uid),
            match pre.spec_store().spec_node_type(tenant, uid) {
                Option::Some(t) => t,
                Option::None => node_type,
            },
        )
        &&& post.spec_store().spec_props() == pre.spec_store().spec_props()
        &&& post.spec_store().spec_edges() == pre.spec_store().spec_edges()
        &&& (pre.spec_store().spec_node_type(tenant, uid) is Some ==> post.spec_store().spec_uid_seq()
            == pre.spec_store().spec_uid_seq())
        &&& (pre.spec_store().spec_node_type(tenant, uid) is None ==> post.spec_store().spec_uid_seq()
            == pre.spec_store().spec_uid_seq().push(uid))
    })
    &&& post.spec_store().spec_node_type(tenant, uid) is Some
}

/// How one bidirectional edge write relates the manager before and after.
/// Whether the write was issued or proven redundant, both directions of the
/// edge are present in the store afterwards.
pub open spec fn edges_write_post(
    pre: GraphMutationManager,
    post: GraphMutationManager,
    tenant: u128,
    from_uid: u64,
    to_uid: u64,
    f_edge_name: Seq<char>,
    r_edge_name: Seq<char>,
    w: Write,
) -> bool {
    &&& post.wf()
    &&& post.spec_allocator() == pre.spec_allocator()
    &&& (forall|t: u128, nt: Seq<char>, en: Seq<char>|
        #[trigger] post.spec_resolver().spec_resolve(t, nt, en) == pre.spec_resolver().spec_resolve(
            t,
            nt,
            en,
        ))
    &&& gate_post(
        pre.spec_dropper(),
        post.spec_dropper(),
        edge_drop_key(tenant, from_uid, to_uid, f_edge_name, r_edge_name),
        DropVal::Seen,
        w,
    )
    &&& (w == Write::Dropped ==> post.spec_store() == pre.spec_store())
    &&& (w == Write::Issued ==> {
        &&& post.spec_store().spec_edges() == pre.spec_store().spec_edges().insert(
            (tenant, from_uid, f_edge_name, r_edge_name, to_uid),
        ).insert((tenant, to_uid, r_edge_name, f_edge_name, from_uid))
        &&& post.spec_store().spec_props() == pre.spec_store().spec_props()
        &&& post.spec_store().spec_nodes() == pre.spec_store().spec_nodes()
        &&& post.spec_store().spec_uid_seq() == pre.spec_store().spec_uid_seq()
    })
    &&& post.spec_store().spec_edges().contains(
        (tenant, from_uid, f_edge_name, r_edge_name, to_uid),
    )
    &&& post.spec_store().spec_edges().contains(
        (tenant, to_uid, r_edge_name, f_edge_name, from_uid),
    )
}

/// How `create_node` relates the manager before and after: a fresh nonzero
/// identifier and a recorded type on success, the zero-sentinel error and an
/// unchanged manager when the allocator fails.
pub open spec fn create_node_post(
    pre: GraphMutationManager,
    post: GraphMutationManager,
    tenant: u128,
    node_type: Seq<char>,
    r: Result<Uid, GraphMutationManagerError>,
) -> bool {
    let n = pre.spec_allocator().spec_next(tenant);
    match r {
        Result::Ok(uid) => {
            &&& post.wf()
            &&& 0 < n < u64::MAX
            &&& uid.wf()
            &&& uid.spec_as_u64() == n
            &&& post.spec_allocator().spec_next(tenant) == n + 1
            &&& (forall|t2: u128|
                t2 != tenant ==> #[trigger] post.spec_allocator().spec_next(t2)
                    == pre.spec_allocator().spec_next(t2))
            &&& post.spec_resolver() == pre.spec_resolver()
            &&& post.spec_store().spec_nodes() == pre.spec_store().spec_nodes().insert(
                (tenant, n),
                match pre.spec_store().spec_node_type(tenant, n) {
                    Option::Some(t) => t,
                    Option::None => node_type,
                },
            )
            &&& post.spec_store().spec_node_type(tenant, n) is Some
            &&& post.spec_store().spec_props() == pre.spec_store().spec_props()
            &&& post.spec_store().spec_edges() == pre.spec_store().spec_edges()
            &&& exists|w: Write|
                gate_post(
                    pre.spec_dropper(),
                    post.spec_dropper(),
                    node_type_drop_key(tenant, n),
                    DropVal::Seen,
                    w,
                )
        },
        Result::Err(e) => {
            &&& e is ZeroUid
            &&& !(0 < n < u64::MAX)
            &&& post == pre
        },
    }
}

/// How `set_node_property` relates the manager before and after, by
/// property kind: each kind is one gated property write with the kind's
/// table, cache bound, and timestamp encoding.
pub open spec fn set_prop_post(
    pre: GraphMutationManager,
    post: GraphMutationManager,
    tenant: u128,
    uid: u64,
    node_type: Seq<char>,
    property_name: Seq<char>,
    pv: PropertyV,
    r: MutationRedundancy,
) -> bool {
    match pv {
        PropertyV::IncrementOnlyUintProp(v) => prop_write_post(
            pre,
            post,
            prop_drop_key(DropKind::MaxU64, tenant, uid, node_type, property_name),
            DropVal::MaxU(v),
            (tenant, PropTable::MaxU64, uid, property_name),
            PropStoredV { node_type, value: PropValueV::U(v), ts: u64_max_ts(v) },
            true,
            write_of(r),
        ),
        PropertyV::DecrementOnlyUintProp(v) => prop_write_post(
            pre,
            post,
            prop_drop_key(DropKind::MinU64, tenant, uid, node_type, property_name),
            DropVal::MinU(v),
            (tenant, PropTable::MinU64, uid, property_name),
            PropStoredV { node_type, value: PropValueV::U(v), ts: u64_min_ts(v) },
            true,
            write_of(r),
        ),
        PropertyV::ImmutableUintProp(v) => prop_write_post(
            pre,
            post,
            prop_drop_key(DropKind::ImmU64, tenant, uid, node_type, property_name),
            DropVal::Seen,
            (tenant, PropTable::ImmU64, uid, property_name),
            PropStoredV { node_type, value: PropValueV::U(v), ts: 0i64 },
            false,
            write_of(r),
        ),
        PropertyV::IncrementOnlyIntProp(v) => prop_write_post(
            pre,
            post,
            prop_drop_key(DropKind::MaxI64, tenant, uid, node_type, property_name),
            DropVal::MaxI(v),
            (tenant, PropTable::MaxI64, uid, property_name),
            PropStoredV { node_type, value: PropValueV::I(v), ts: v },
            true,
            write_of(r),
        ),
        PropertyV::DecrementOnlyIntProp(v) => prop_write_post(
            pre,
            post,
            prop_drop_key(DropKind::MinI64, tenant, uid, node_type, property_name),
            DropVal::MinI(v),
            (tenant, PropTable::MinI64, uid, property_name),
            PropStoredV { node_type, value: PropValueV::I(v), ts: i64_min_ts(v) },
            true,
            write_of(r),
        ),
        PropertyV::ImmutableIntProp(v) => prop_write_post(
            pre,
            post,
            prop_drop_key(DropKind::ImmI64, tenant, uid, node_type, property_name),
            DropVal::Seen,
            (tenant, PropTable::ImmI64, uid, property_name),
            PropStoredV { node_type, value: PropValueV::I(v), ts: 0i64 },
            false,
            write_of(r),
        ),
        PropertyV::ImmutableStrProp(s) => prop_write_post(
            pre,
            post,
            prop_drop_key(DropKind::ImmString, tenant, uid, node_type, property_name),
            DropVal::Seen,
            (tenant, PropTable::ImmString, uid, property_name),
            PropStoredV { node_type, value: PropValueV::S(s), ts: 0i64 },
            false,
            write_of(r),
        ),
    }
}

/// How `create_edge` relates the manager before and after. On success both
/// directions of the edge stand in the store — also when the write was
/// proven redundant, since the cache only marks edges it has seen written.
/// An unmapped (node type, edge name) pair fails and writes nothing.
pub open spec fn create_edge_post(
    pre: GraphMutationManager,
    post: GraphMutationManager,
    tenant: u128,
    from_uid: u64,
    to_uid: u64,
    edge_name: Seq<char>,
    source_node_type: Seq<char>,
    r: Result<MutationRedundancy, GraphMutationManagerError>,
) -> bool {
    &&& post.wf()
    &&& post.spec_allocator() == pre.spec_allocator()
    &&& (forall|t: u128, nt: Seq<char>, en: Seq<char>|
        #[trigger] post.spec_resolver().spec_resolve(t, nt, en) == pre.spec_resolver().spec_resolve(
            t,
            nt,
            en,
        ))
    &&& match r {
        Result::Ok(red) => {
            &&& pre.spec_resolver().spec_resolve(tenant, source_node_type, edge_name)
                matches Option::Some(rev)
            &&& edges_write_post(
                pre,
                post,
                tenant,
                from_uid,
                to_uid,
                edge_name,
                rev,
                write_of(red),
            )
        },
        Result::Err(e) => {
            &&& e is ReverseEdgeResolverError
            &&& pre.spec_resolver().spec_resolve(tenant, source_node_type, edge_name) is None
            &&& post.spec_store() == pre.spec_store()
            &&& post.spec_dropper() == pre.spec_dropper()
        },
    }
}

/// The write outcome that a redundancy signal reports.
pub open spec fn write_of(r: MutationRedundancy) -> Write {
    match r {
        MutationRedundancy::True => Write::Dropped,
        MutationRedundancy::Maybe => Write::Issued,
    }
}

/// One gated write's key, bound, row and conflict policy fit together: the
/// key names the row, the bound carries the row's value, and the timestamp
/// encodes it as the kind demands.
pub open spec fn gated_write_consistent(
    key: DropKey,
    probe: DropVal,
    row: PropRow,
    lww: bool,
) -> bool {
    &&& key.tenant == row.tenant
    &&& key.uid_a == row.uid
    &&& key.uid_b == 0
    &&& key.name_b@ == row.property_name@
    &&& match probe {
        DropVal::MaxU(v) => key.kind == DropKind::MaxU64 && row.table == PropTable::MaxU64
            && row.value@ == PropValueV::U(v) && row.ts == u64_max_ts(v) && lww,
        DropVal::MinU(v) => key.kind == DropKind::MinU64 && row.table == PropTable::MinU64
            && row.value@ == PropValueV::U(v) && row.ts == u64_min_ts(v) && lww,
        DropVal::MaxI(v) => key.kind == DropKind::MaxI64 && row.table == PropTable::MaxI64
            && row.value@ == PropValueV::I(v) && row.ts == v && lww,
        DropVal::MinI(v) => key.kind == DropKind::MinI64 && row.table == PropTable::MinI64
            && row.value@ == PropValueV::I(v) && row.ts == i64_min_ts(v) && lww,
        DropVal::Seen => !lww && ((key.kind == DropKind::ImmU64 && row.table == PropTable::ImmU64
            && row.value@ is U) || (key.kind == DropKind::ImmI64 && row.table == PropTable::ImmI64
            && row.value@ is I) || (key.kind == DropKind::ImmString && row.table
            == PropTable::ImmString && row.value@ is S)),
    }
}

/// How one gated property write relates the manager before and after: the
/// cache moves per `gate_post`, and on a miss the store applies the row
/// under the kind's conflict resolution (last-write-wins by timestamp, or
/// first-write-wins for the immutable kinds).
pub open spec fn prop_write_post(
    pre: GraphMutationManager,
    post: GraphMutationManager,
    dk: DropKeyV,
    probe: DropVal,
    pk: PropKeyV,
    row: PropStoredV,
    lww: bool,
    w: Write,
) -> bool {
    &&& post.wf()
    &&& post.spec_allocator() == pre.spec_allocator()
    &&& post.spec_resolver() == pre.spec_resolver()
    &&& gate_post(pre.spec_dropper(), post.spec_dropper(), dk, probe, w)
    &&& (w == Write::Dropped ==> post.spec_store() == pre.spec_store())
    &&& (w == Write::Issued ==> {
        &&& post.spec_store().spec_props() == pre.spec_store().spec_props().insert(
            pk,
            if lww {
                lww_value(pre.spec_store().spec_prop_at(pk), row)
            } else {
                first_write_value(pre.spec_store().spec_prop_at(pk), row)
            },
        )
        &&& post.spec_store().spec_nodes() == pre.spec_store().spec_nodes()
        &&& post.spec_store().spec_edges() == pre.spec_store().spec_edges()
        &&& post.spec_store().spec_uid_seq() == pre.spec_store().spec_uid_seq()
    })
}

} // verus!
