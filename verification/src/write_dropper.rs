//! The write-redundancy cache ("write dropper").
//!
//! A bounded, process-local cache that recognizes storage writes that cannot
//! change stored state and elides them. Every `check_*` operation is keyed by
//! the columns that identify one storage row, and is per-key monotone: once a
//! key is marked as seen or bounded it stays so until the entry is evicted to
//! respect the size bound. Eviction only affects future drop decisions; the
//! cache is an optimization, never an authority — the store's own conflict
//! resolution enforces the same semantics.

use vstd::prelude::*;

use crate::types::{EdgeName, NodeType, PropertyName, Uid, Write};

verus! {

/// Which family of writes an entry gates.
#[derive(Clone, Copy, Debug, PartialEq, Eq, Structural)]
pub enum DropKind {
    MaxU64,
    MinU64,
    ImmU64,
    MaxI64,
    MinI64,
    ImmI64,
    ImmString,
    NodeType,
    Edge,
}

/// A cache key: the identifying columns of one gated write.
#[derive(Clone, Debug)]
pub struct DropKey {
    pub kind: DropKind,
    pub tenant: u128,
    pub uid_a: u64,
    pub uid_b: u64,
    pub name_a: String,
    pub name_b: String,
}

/// The mathematical image of a cache key.
pub type DropKeyV = (DropKind, u128, u64, u64, Seq<char>, Seq<char>);

impl DropKey {
    pub open spec fn key_v(self) -> DropKeyV {
        (self.kind, self.tenant, self.uid_a, self.uid_b, self.name_a@, self.name_b@)
    }
}

/// What the cache remembers about a key: the tightest bound written so far
/// for the monotone kinds, or a plain "seen" marker for the immutable ones.
#[derive(Clone, Copy, Debug, PartialEq, Eq, Structural)]
pub enum DropVal {
    MaxU(u64),
    MinU(u64),
    MaxI(i64),
    MinI(i64),
    Seen,
}

/// Whether a cached record proves a new write with bound `probe` redundant.
pub open spec fn dominates(cur: DropVal, probe: DropVal) -> bool {
    match (cur, probe) {
        (DropVal::MaxU(m), DropVal::MaxU(v)) => m >= v,
        (DropVal::MinU(m), DropVal::MinU(v)) => m <= v,
        (DropVal::MaxI(m), DropVal::MaxI(v)) => m >= v,
        (DropVal::MinI(m), DropVal::MinI(v)) => m <= v,
        (DropVal::Seen, DropVal::Seen) => true,
        _ => false,
    }
}

/// The key gating max/min/immutable property writes of every numeric kind.
pub open spec fn prop_drop_key(
    kind: DropKind,
    tenant: u128,
    uid: u64,
    node_type: Seq<char>,
    property_name: Seq<char>,
) -> DropKeyV {
    (kind, tenant, uid, 0u64, node_type, property_name)
}

/// The key gating a node type record.
pub open spec fn node_type_drop_key(tenant: u128, uid: u64) -> DropKeyV {
    (DropKind::NodeType, tenant, uid, 0u64, Seq::empty(), Seq::empty())
}

/// The key gating an edge pair, canonicalized so that the forward and the
/// reverse direction of one edge share a single entry.
pub open spec fn edge_drop_key(
    tenant: u128,
    from_uid: u64,
    to_uid: u64,
    f_edge_name: Seq<char>,
    r_edge_name: Seq<char>,
) -> DropKeyV {
    if from_uid <= to_uid {
        (DropKind::Edge, tenant, from_uid, to_uid, f_edge_name, r_edge_name)
    } else {
        (DropKind::Edge, tenant, to_uid, from_uid, r_edge_name, f_edge_name)
    }
}

/// The bounded write-redundancy cache.
pub struct WriteDropper {
    entries: Vec<(DropKey, DropVal)>,
    max_size: usize,
}

/// How one gated check relates the cache before the call, the cache after
/// it, and the write outcome. Every `check_*` operation ensures exactly this,
/// with its own key and bound.
pub open spec fn gate_post(
    pre: WriteDropper,
    post: WriteDropper,
    k: DropKeyV,
    probe: DropVal,
    w: Write,
) -> bool {
    &&& post.wf()
    &&& post.spec_capacity() == pre.spec_capacity()
    &&& ((w == Write::Dropped) <==> (pre.spec_cached(k) matches Option::Some(c) && dominates(
        c,
        probe,
    )))
    &&& (w == Write::Dropped ==> post == pre)
    &&& (w == Write::Issued && pre.spec_capacity() > 0 ==> post.spec_cached(k) == Option::Some(
        probe,
    ))
    &&& (w == Write::Issued && pre.spec_capacity() == 0 ==> post == pre)
    &&& forall|k2: DropKeyV|
        k2 != k ==> (#[trigger] post.spec_cached(k2) == pre.spec_cached(k2) || post.spec_cached(k2)
            is None)
}

spec fn cached_of(entries: Seq<(DropKey, DropVal)>, k: DropKeyV) -> Option<DropVal>
    decreases entries.len(),
{
    if entries.len() == 0 {
        Option::None
    } else if entries[0].0.key_v() == k {
        Option::Some(entries[0].1)
    } else {
        cached_of(entries.drop_first(), k)
    }
}

spec fn drop_keys_distinct(entries: Seq<(DropKey, DropVal)>) -> bool {
    forall|a: int, b: int|
        0 <= a < b < entries.len() ==> entries[a].0.key_v() != entries[b].0.key_v()
}

proof fn lemma_cached_index(entries: Seq<(DropKey, DropVal)>, i: int)
    requires
        0 <= i < entries.len(),
        drop_keys_distinct(entries),
    ensures
        cached_of(entries, entries[i].0.key_v()) == Option::Some(entries[i].1),
    decreases entries.len(),
{
    if i > 0 {
        assert forall|a: int, b: int|
            0 <= a < b < entries.drop_first().len() implies entries.drop_first()[a].0.key_v()
            != entries.drop_first()[b].0.key_v() by {
            assert(entries.drop_first()[a] == entries[a + 1]);
            assert(entries.drop_first()[b] == entries[b + 1]);
        }
        lemma_cached_index(entries.drop_first(), i - 1);
        assert(entries.drop_first()[i - 1] == entries[i]);
        assert(entries[0].0.key_v() != entries[i].0.key_v());
    }
}

proof fn lemma_cached_absent(entries: Seq<(DropKey, DropVal)>, k: DropKeyV)
    requires
        forall|i: int| 0 <= i < entries.len() ==> entries[i].0.key_v() != k,
    ensures
        cached_of(entries, k) is None,
    decreases entries.len(),
{
    if entries.len() > 0 {
        assert forall|i: int|
            0 <= i < entries.drop_first().len() implies entries.drop_first()[i].0.key_v() != k by {
            assert(entries.drop_first()[i] == entries[i + 1]);
        }
        lemma_cached_absent(entries.drop_first(), k);
    }
}

proof fn lemma_cached_push(entries: Seq<(DropKey, DropVal)>, e: (DropKey, DropVal), k: DropKeyV)
    requires
        forall|i: int| 0 <= i < entries.len() ==> entries[i].0.key_v() != e.0.key_v(),
    ensures
        cached_of(entries.push(e), k) == if k == e.0.key_v() {
            Option::Some(e.1)
        } else {
            cached_of(entries, k)
        },
    decreases entries.len(),
{
    let s = entries.push(e);
    assert(s.len() == entries.len() + 1);
    if entries.len() == 0 {
        assert(s.drop_first() =~= Seq::<(DropKey, DropVal)>::empty());
        assert(s[0] == e);
        assert(cached_of(s, k) == if s[0].0.key_v() == k {
            Option::Some(s[0].1)
        } else {
            cached_of(s.drop_first(), k)
        });
    } else {
        assert(s[0] == entries[0]);
        assert(s.drop_first() =~= entries.drop_first().push(e));
        assert forall|i: int|
            0 <= i < entries.drop_first().len() implies entries.drop_first()[i].0.key_v()
            != e.0.key_v() by {
            assert(entries.drop_first()[i] == entries[i + 1]);
        }
        lemma_cached_push(entries.drop_first(), e, k);
        assert(entries[0].0.key_v() != e.0.key_v());
        assert(cached_of(s, k) == if s[0].0.key_v() == k {
            Option::Some(s[0].1)
        } else {
            cached_of(s.drop_first(), k)
        });
        assert(cached_of(s.drop_first(), k) == if k == e.0.key_v() {
            Option::Some(e.1)
        } else {
            cached_of(entries.drop_first(), k)
        });
    }
}

proof fn lemma_cached_update(
    entries: Seq<(DropKey, DropVal)>,
    i: int,
    e: (DropKey, DropVal),
    k: DropKeyV,
)
    requires
        0 <= i < entries.len(),
        drop_keys_distinct(entries),
        entries[i].0.key_v() == e.0.key_v(),
    ensures
        cached_of(entries.update(i, e), k) == if k == e.0.key_v() {
            Option::Some(e.1)
        } else {
            cached_of(entries, k)
        },
    decreases entries.len(),
{
    let s = entries.update(i, e);
    if i == 0 {
        assert(s.drop_first() =~= entries.drop_first());
        assert(s[0] == e);
        if k != e.0.key_v() {
            assert(entries[0].0.key_v() == e.0.key_v());
        }
    } else {
        assert(s[0] == entries[0]);
        assert(s.drop_first() =~= entries.drop_first().update(i - 1, e));
        assert forall|a: int, b: int|
            0 <= a < b < entries.drop_first().len() implies entries.drop_first()[a].0.key_v()
            != entries.drop_first()[b].0.key_v() by {
            assert(entries.drop_first()[a] == entries[a + 1]);
            assert(entries.drop_first()[b] == entries[b + 1]);
        }
        assert(entries.drop_first()[i - 1] == entries[i]);
        lemma_cached_update(entries.drop_first(), i - 1, e, k);
        assert(entries[0].0.key_v() != e.0.key_v());
    }
}

proof fn lemma_cached_drop_first(entries: Seq<(DropKey, DropVal)>, k: DropKeyV)
    requires
        entries.len() > 0,
        drop_keys_distinct(entries),
    ensures
        cached_of(entries.drop_first(), k) == if k == entries[0].0.key_v() {
            Option::<DropVal>::None
        } else {
            cached_of(entries, k)
        },
{
    if k == entries[0].0.key_v() {
        assert forall|i: int|
            0 <= i < entries.drop_first().len() implies entries.drop_first()[i].0.key_v() != k by {
            assert(entries.drop_first()[i] == entries[i + 1]);
        }
        lemma_cached_absent(entries.drop_first(), k);
    }
}

impl WriteDropper {
    /// The cached record for a key, if any.
    pub closed spec fn spec_cached(self, k: DropKeyV) -> Option<DropVal> {
        cached_of(self.entries@, k)
    }

    /// The configured maximum entry count.
    pub closed spec fn spec_capacity(self) -> usize {
        self.max_size
    }

    pub closed spec fn wf(self) -> bool {
        &&& drop_keys_distinct(self.entries@)
        &&& self.entries@.len() <= self.max_size
    }

    pub fn new(max_write_drop_size: usize) -> (r: WriteDropper)
        ensures
            r.wf(),
            r.spec_capacity() == max_write_drop_size,
            forall|k: DropKeyV| r.spec_cached(k) is None,
    {
        let r = WriteDropper { entries: Vec::new(), max_size: max_write_drop_size };
        proof {
            assert forall|k: DropKeyV| r.spec_cached(k) is None by {
                lemma_cached_absent(r.entries@, k);
            }
        }
        r
    }

    fn find_index(&self, key: &DropKey) -> (r: Option<usize>)
        requires
            self.wf(),
        ensures
            match r {
                Option::Some(i) => {
                    &&& i < self.entries@.len()
                    &&& self.entries@[i as int].0.key_v() == key.key_v()
                    &&& self.spec_cached(key.key_v()) == Option::Some(self.entries@[i as int].1)
                },
                Option::None => self.spec_cached(key.key_v()) is None,
            },
    {
        let mut idx: usize = 0;
        while idx < self.entries.len()
            invariant
                self.wf(),
                idx <= self.entries@.len(),
                forall|j: int| 0 <= j < idx ==> self.entries@[j].0.key_v() != key.key_v(),
            decreases self.entries@.len() - idx,
        {
            let e = &self.entries[idx];
            if e.0.kind == key.kind && e.0.tenant == key.tenant && e.0.uid_a == key.uid_a
                && e.0.uid_b == key.uid_b && e.0.name_a == key.name_a && e.0.name_b == key.name_b {
                proof {
                    lemma_cached_index(self.entries@, idx as int);
                }
                return Option::Some(idx);
            }
            idx = idx + 1;
        }
        proof {
            lemma_cached_absent(self.entries@, key.key_v());
        }
        Option::None
    }

    /// The single gate behind every `check_*` operation: consult the cache
    /// under `key`; a dominating entry proves the write redundant, anything
    /// else lets the write through and records `probe` as the new bound.
    pub(crate) fn check_gate(&mut self, key: DropKey, probe: DropVal) -> (w: Write)
        requires
            old(self).wf(),
        ensures
            gate_post(*old(self), *final(self), key.key_v(), probe, w),
    {
        let found = self.find_index(&key);
        match found {
            Option::Some(i) => {
                let cur = self.entries[i].1;
                let hit = match (cur, probe) {
                    (DropVal::MaxU(m), DropVal::MaxU(v)) => m >= v,
                    (DropVal::MinU(m), DropVal::MinU(v)) => m <= v,
                    (DropVal::MaxI(m), DropVal::MaxI(v)) => m >= v,
                    (DropVal::MinI(m), DropVal::MinI(v)) => m <= v,
                    (DropVal::Seen, DropVal::Seen) => true,
                    _ => false,
                };
                if hit {
                    Write::Dropped
                } else {
                    proof {
                        lemma_cached_update(self.entries@, i as int, (key, probe), key.key_v());
                        assert forall|k2: DropKeyV| k2 != key.key_v() implies #[trigger] cached_of(
                            self.entries@.update(i as int, (key, probe)),
                            k2,
                        ) == cached_of(self.entries@, k2) by {
                            lemma_cached_update(self.entries@, i as int, (key, probe), k2);
                        }
                        assert forall|a: int, b: int|
                            0 <= a < b < self.entries@.update(i as int, (key, probe)).len() implies
                            self.entries@.update(i as int, (key, probe))[a].0.key_v()
                            != self.entries@.update(i as int, (key, probe))[b].0.key_v() by {
                            assert(self.entries@[a].0.key_v() != self.entries@[b].0.key_v());
                        }
                    }
                    self.entries.set(i, (key, probe));
                    Write::Issued
                }
            },
            Option::None => {
                if self.max_size == 0 {
                    return Write::Issued;
                }
                if self.entries.len() == self.max_size {
                    proof {
                        assert forall|a: int, b: int|
                            0 <= a < b < self.entries@.drop_first().len() implies self.entries@
                            .drop_first()[a].0.key_v() != self.entries@.drop_first()[b].0.key_v()
                        by {
                            assert(self.entries@.drop_first()[a] == self.entries@[a + 1]);
                            assert(self.entries@.drop_first()[b] == self.entries@[b + 1]);
                        }
                        assert forall|k2: DropKeyV| #[trigger] cached_of(
                            self.entries@.drop_first(),
                            k2,
                        ) == cached_of(self.entries@, k2) || cached_of(
                            self.entries@.drop_first(),
                            k2,
                        ) is None by {
                            lemma_cached_drop_first(self.entries@, k2);
                        }
                    }
                    let _evicted = self.entries.remove(0);
                }
                let ghost pre = self.entries@;
                proof {
                    assert forall|i: int|
                        0 <= i < pre.len() implies pre[i].0.key_v() != key.key_v() by {
                        if pre[i].0.key_v() == key.key_v() {
                            lemma_cached_index(pre, i);
                        }
                    }
                    assert forall|k2: DropKeyV| #[trigger] cached_of(pre.push((key, probe)), k2)
                        == (if k2 == key.key_v() {
                        Option::Some(probe)
                    } else {
                        cached_of(pre, k2)
                    }) by {
                        lemma_cached_push(pre, (key, probe), k2);
                    }
                    assert forall|a: int, b: int|
                        0 <= a < b < pre.push((key, probe)).len() implies pre.push(
                        (key, probe),
                    )[a].0.key_v() != pre.push((key, probe))[b].0.key_v() by {
                        if b < pre.len() {
                            assert(pre[a].0.key_v() != pre[b].0.key_v());
                        } else {
                            assert(pre.push((key, probe))[b] == (key, probe));
                        }
                    }
                }
                self.entries.push((key, probe));
                Write::Issued
            },
        }
    }

    /// Gate an increment-only unsigned write: redundant when a maximum at
    /// least as large is already cached for the key.
    pub fn check_max_u64(
        &mut self,
        tenant: u128,
        uid: Uid,
        node_type: &NodeType,
        property_name: &PropertyName,
        value: u64,
    ) -> (w: Write)
        requires
            old(self).wf(),
        ensures
            gate_post(
                *old(self),
                *final(self),
                prop_drop_key(
                    DropKind::MaxU64,
                    tenant,
                    uid.spec_as_u64(),
                    node_type.value@,
                    property_name.value@,
                ),
                DropVal::MaxU(value),
                w,
            ),
    {
        let key = DropKey {
            kind: DropKind::MaxU64,
            tenant,
            uid_a: uid.as_u64(),
            uid_b: 0,
            name_a: node_type.value.clone(),
            name_b: property_name.value.clone(),
        };
        self.check_gate(key, DropVal::MaxU(value))
    }

    /// Gate a decrement-only unsigned write: redundant when a minimum at
    /// most as large is already cached for the key.
    pub fn check_min_u64(
        &mut self,
        tenant: u128,
        uid: Uid,
        node_type: &NodeType,
        property_name: &PropertyName,
        value: u64,
    ) -> (w: Write)
        requires
            old(self).wf(),
        ensures
            gate_post(
                *old(self),
                *final(self),
                prop_drop_key(
                    DropKind::MinU64,
                    tenant,
                    uid.spec_as_u64(),
                    node_type.value@,
                    property_name.value@,
                ),
                DropVal::MinU(value),
                w,
            ),
    {
        let key = DropKey {
            kind: DropKind::MinU64,
            tenant,
            uid_a: uid.as_u64(),
            uid_b: 0,
            name_a: node_type.value.clone(),
            name_b: property_name.value.clone(),
        };
        self.check_gate(key, DropVal::MinU(value))
    }

    /// Gate an increment-only signed write.
    pub fn check_max_i64(
        &mut self,
        tenant: u128,
        uid: Uid,
        node_type: &NodeType,
        property_name: &PropertyName,
        value: i64,
    ) -> (w: Write)
        requires
            old(self).wf(),
        ensures
            gate_post(
                *old(self),
                *final(self),
                prop_drop_key(
                    DropKind::MaxI64,
                    tenant,
                    uid.spec_as_u64(),
                    node_type.value@,
                    property_name.value@,
                ),
                DropVal::MaxI(value),
                w,
            ),
    {
        let key = DropKey {
            kind: DropKind::MaxI64,
            tenant,
            uid_a: uid.as_u64(),
            uid_b: 0,
            name_a: node_type.value.clone(),
            name_b: property_name.value.clone(),
        };
        self.check_gate(key, DropVal::MaxI(value))
    }

    /// Gate a decrement-only signed write.
    pub fn check_min_i64(
        &mut self,
        tenant: u128,
        uid: Uid,
        node_type: &NodeType,
        property_name: &PropertyName,
        value: i64,
    ) -> (w: Write)
        requires
            old(self).wf(),
        ensures
            gate_post(
                *old(self),
                *final(self),
                prop_drop_key(
                    DropKind::MinI64,
                    tenant,
                    uid.spec_as_u64(),
                    node_type.value@,
                    property_name.value@,
                ),
                DropVal::MinI(value),
                w,
            ),
    {
        let key = DropKey {
            kind: DropKind::MinI64,
            tenant,
            uid_a: uid.as_u64(),
            uid_b: 0,
            name_a: node_type.value.clone(),
            name_b: property_name.value.clone(),
        };
        self.check_gate(key, DropVal::MinI(value))
    }

    /// Gate an immutable unsigned write: any already-seen key is redundant,
    /// whatever value it holds.
    pub fn check_imm_u64(
        &mut self,
        tenant: u128,
        uid: Uid,
        node_type: &NodeType,
        property_name: &PropertyName,
    ) -> (w: Write)
        requires
            old(self).wf(),
        ensures
            gate_post(
                *old(self),
                *final(self),
                prop_drop_key(
                    DropKind::ImmU64,
                    tenant,
                    uid.spec_as_u64(),
                    node_type.value@,
                    property_name.value@,
                ),
                DropVal::Seen,
                w,
            ),
    {
        let key = DropKey {
            kind: DropKind::ImmU64,
            tenant,
            uid_a: uid.as_u64(),
            uid_b: 0,
            name_a: node_type.value.clone(),
            name_b: property_name.value.clone(),
        };
        self.check_gate(key, DropVal::Seen)
    }

    /// Gate an immutable signed write.
    pub fn check_imm_i64(
        &mut self,
        tenant: u128,
        uid: Uid,
        node_type: &NodeType,
        property_name: &PropertyName,
    ) -> (w: Write)
        requires
            old(self).wf(),
        ensures
            gate_post(
                *old(self),
                *final(self),
                prop_drop_key(
                    DropKind::ImmI64,
                    tenant,
                    uid.spec_as_u64(),
                    node_type.value@,
                    property_name.value@,
                ),
                DropVal::Seen,
                w,
            ),
    {
        let key = DropKey {
            kind: DropKind::ImmI64,
            tenant,
            uid_a: uid.as_u64(),
            uid_b: 0,
            name_a: node_type.value.clone(),
            name_b: property_name.value.clone(),
        };
        self.check_gate(key, DropVal::Seen)
    }

    /// Gate an immutable string write.
    pub fn check_imm_string(
        &mut self,
        tenant: u128,
        uid: Uid,
        node_type: &NodeType,
        property_name: &PropertyName,
    ) -> (w: Write)
        requires
            old(self).wf(),
        ensures
            gate_post(
                *old(self),
                *final(self),
                prop_drop_key(
                    DropKind::ImmString,
                    tenant,
                    uid.spec_as_u64(),
                    node_type.value@,
                    property_name.value@,
                ),
                DropVal::Seen,
                w,
            ),
    {
        let key = DropKey {
            kind: DropKind::ImmString,
            tenant,
            uid_a: uid.as_u64(),
            uid_b: 0,
            name_a: node_type.value.clone(),
            name_b: property_name.value.clone(),
        };
        self.check_gate(key, DropVal::Seen)
    }

    /// Gate a node type record, keyed by (tenant, uid).
    pub fn check_node_type(&mut self, tenant: u128, uid: Uid) -> (w: Write)
        requires
            old(self).wf(),
        ensures
            gate_post(
                *old(self),
                *final(self),
                node_type_drop_key(tenant, uid.spec_as_u64()),
                DropVal::Seen,
                w,
            ),
    {
        let key = DropKey {
            kind: DropKind::NodeType,
            tenant,
            uid_a: uid.as_u64(),
            uid_b: 0,
            name_a: String::new(),
            name_b: String::new(),
        };
        self.check_gate(key, DropVal::Seen)
    }

    /// Gate an edge pair, keyed by the unordered endpoint/edge-name tuple so
    /// that both directions of one edge share the entry.
    pub fn check_edges(
        &mut self,
        tenant: u128,
        from_uid: Uid,
        to_uid: Uid,
        f_edge_name: &EdgeName,
        r_edge_name: &EdgeName,
    ) -> (w: Write)
        requires
            old(self).wf(),
        ensures
            gate_post(
                *old(self),
                *final(self),
                edge_drop_key(
                    tenant,
                    from_uid.spec_as_u64(),
                    to_uid.spec_as_u64(),
                    f_edge_name.value@,
                    r_edge_name.value@,
                ),
                DropVal::Seen,
                w,
            ),
    {
        let key = if from_uid.as_u64() <= to_uid.as_u64() {
            DropKey {
                kind: DropKind::Edge,
                tenant,
                uid_a: from_uid.as_u64(),
                uid_b: to_uid.as_u64(),
                name_a: f_edge_name.value.clone(),
                name_b: r_edge_name.value.clone(),
            }
        } else {
            DropKey {
                kind: DropKind::Edge,
                tenant,
                uid_a: to_uid.as_u64(),
                uid_b: from_uid.as_u64(),
                name_a: r_edge_name.value.clone(),
                name_b: f_edge_name.value.clone(),
            }
        };
        self.check_gate(key, DropVal::Seen)
    }
}

/// Once a key has been marked seen, an immediately following check of the
/// same key is dropped: a second write of an already-written immutable value
/// never reaches the store (given a cache with any capacity).
pub proof fn lemma_second_seen_check_dropped(
    d0: WriteDropper,
    d1: WriteDropper,
    d2: WriteDropper,
    k: DropKeyV,
    w1: Write,
    w2: Write,
)
    requires
        gate_post(d0, d1, k, DropVal::Seen, w1),
        gate_post(d1, d2, k, DropVal::Seen, w2),
        d0.spec_capacity() > 0,
    ensures
        w2 == Write::Dropped,
{
    if w1 == Write::Dropped {
        assert(d1.spec_cached(k) matches Option::Some(c) && dominates(c, DropVal::Seen));
    } else {
        assert(d1.spec_cached(k) == Option::Some(DropVal::Seen));
    }
}

} // verus!
