//! Laws of the mutation engine.
//!
//! Each public proof function here states one guarantee of the engine over
//! the transition predicates that the mutation operations ensure, so the
//! guarantees compose across any sequence of calls: convergence of the
//! monotone property kinds to the maximum or minimum written, redundancy of
//! repeated immutable writes, and the materialized reverse edge.

use vstd::prelude::*;

use crate::mutation::{
    create_edge_post, half_u64, set_prop_post, u64_max_ts, u64_min_ts, GraphMutationManager,
};
use crate::store::{PropTable, PropValueV};
use crate::types::{GraphMutationManagerError, MutationRedundancy, PropertyV};
use crate::write_dropper::{dominates, prop_drop_key, DropKind, DropVal};

verus! {

/// The stored increment-only unsigned value of one property key.
pub open spec fn stored_max_u64(
    m: GraphMutationManager,
    tenant: u128,
    uid: u64,
    property_name: Seq<char>,
) -> Option<u64> {
    match m.spec_store().spec_prop_at((tenant, PropTable::MaxU64, uid, property_name)) {
        Option::Some(row) => match row.value {
            PropValueV::U(w) => Option::Some(w),
            _ => Option::None,
        },
        Option::None => Option::None,
    }
}

/// The stored decrement-only unsigned value of one property key.
pub open spec fn stored_min_u64(
    m: GraphMutationManager,
    tenant: u128,
    uid: u64,
    property_name: Seq<char>,
) -> Option<u64> {
    match m.spec_store().spec_prop_at((tenant, PropTable::MinU64, uid, property_name)) {
        Option::Some(row) => match row.value {
            PropValueV::U(w) => Option::Some(w),
            _ => Option::None,
        },
        Option::None => Option::None,
    }
}

/// The key's cached bound and stored value both lie below the threshold
/// where the unsigned-to-signed timestamp encoding preserves order. Fresh
/// keys are in range, and every write below the threshold keeps them so.
pub open spec fn inc_u64_key_in_range(
    m: GraphMutationManager,
    tenant: u128,
    uid: u64,
    node_type: Seq<char>,
    property_name: Seq<char>,
) -> bool {
    &&& match m.spec_dropper().spec_cached(
        prop_drop_key(DropKind::MaxU64, tenant, uid, node_type, property_name),
    ) {
        Option::Some(DropVal::MaxU(c)) => c < half_u64(),
        _ => true,
    }
    &&& match stored_max_u64(m, tenant, uid, property_name) {
        Option::Some(w) => w < half_u64(),
        Option::None => true,
    }
}

/// As `inc_u64_key_in_range`, for the decrement-only unsigned kind.
pub open spec fn dec_u64_key_in_range(
    m: GraphMutationManager,
    tenant: u128,
    uid: u64,
    node_type: Seq<char>,
    property_name: Seq<char>,
) -> bool {
    &&& match m.spec_dropper().spec_cached(
        prop_drop_key(DropKind::MinU64, tenant, uid, node_type, property_name),
    ) {
        Option::Some(DropVal::MinU(c)) => c < half_u64(),
        _ => true,
    }
    &&& match stored_min_u64(m, tenant, uid, property_name) {
        Option::Some(w) => w < half_u64(),
        Option::None => true,
    }
}

/// The greater of a stored value (if any) and a newly written one.
pub open spec fn join_max_u64(cur: Option<u64>, v: u64) -> u64 {
    match cur {
        Option::None => v,
        Option::Some(w) => if v > w {
            v
        } else {
            w
        },
    }
}

/// The smaller of a stored value (if any) and a newly written one.
pub open spec fn join_min_u64(cur: Option<u64>, v: u64) -> u64 {
    match cur {
        Option::None => v,
        Option::Some(w) => if v < w {
            v
        } else {
            w
        },
    }
}

/// The value a key converges to after a sequence of increment-only writes.
pub open spec fn max_with(cur: Option<u64>, vs: Seq<u64>) -> Option<u64>
    decreases vs.len(),
{
    if vs.len() == 0 {
        cur
    } else {
        max_with(Option::Some(join_max_u64(cur, vs[0])), vs.drop_first())
    }
}

/// The value a key converges to after a sequence of decrement-only writes.
pub open spec fn min_with(cur: Option<u64>, vs: Seq<u64>) -> Option<u64>
    decreases vs.len(),
{
    if vs.len() == 0 {
        cur
    } else {
        min_with(Option::Some(join_min_u64(cur, vs[0])), vs.drop_first())
    }
}

/// One increment-only unsigned write moves the stored value to the join of
/// the old value and the written one — whether the write was issued or
/// dropped — and keeps the key in range.
pub proof fn lemma_inc_u64_step(
    pre: GraphMutationManager,
    post: GraphMutationManager,
    tenant: u128,
    uid: u64,
    node_type: Seq<char>,
    property_name: Seq<char>,
    v: u64,
    r: MutationRedundancy,
)
    requires
        pre.wf(),
        set_prop_post(
            pre,
            post,
            tenant,
            uid,
            node_type,
            property_name,
            PropertyV::IncrementOnlyUintProp(v),
            r,
        ),
        v < half_u64(),
        inc_u64_key_in_range(pre, tenant, uid, node_type, property_name),
    ensures
        post.wf(),
        inc_u64_key_in_range(post, tenant, uid, node_type, property_name),
        stored_max_u64(post, tenant, uid, property_name) == Option::Some(
            join_max_u64(stored_max_u64(pre, tenant, uid, property_name), v),
        ),
{
    let dk = prop_drop_key(DropKind::MaxU64, tenant, uid, node_type, property_name);
    let pk = (tenant, PropTable::MaxU64, uid, property_name);
    if r == MutationRedundancy::True {
        let c = pre.spec_dropper().spec_cached(dk)->Some_0;
        assert(dominates(c, DropVal::MaxU(v)));
        let m = c->MaxU_0;
        assert(crate::mutation::coupled_entry(dk, c, pre.spec_store()));
        let row = pre.spec_store().spec_prop_at(pk)->Some_0;
        let w = row.value->U_0;
        assert(crate::mutation::row_encoded(PropTable::MaxU64, row));
        assert(row.ts == u64_max_ts(w));
        assert(row.ts >= u64_max_ts(m));
        assert(u64_max_ts(m) == m && u64_max_ts(w) == w);
        assert(w >= m >= v);
    } else {
        let prev = pre.spec_store().spec_prop_at(pk);
        match prev {
            Option::Some(row) => {
                assert(crate::mutation::row_encoded(PropTable::MaxU64, row));
                let w = row.value->U_0;
                assert(row.ts == u64_max_ts(w));
                assert(w < half_u64());
                assert(u64_max_ts(w) == w && u64_max_ts(v) == v);
                assert(post.spec_store().spec_props()[pk] == crate::store::lww_value(
                    prev,
                    crate::store::PropStoredV {
                        node_type,
                        value: PropValueV::U(v),
                        ts: u64_max_ts(v),
                    },
                ));
            },
            Option::None => {},
        }
    }
}

/// One decrement-only unsigned write moves the stored value to the join of
/// the old value and the written one, and keeps the key in range.
pub proof fn lemma_dec_u64_step(
    pre: GraphMutationManager,
    post: GraphMutationManager,
    tenant: u128,
    uid: u64,
    node_type: Seq<char>,
    property_name: Seq<char>,
    v: u64,
    r: MutationRedundancy,
)
    requires
        pre.wf(),
        set_prop_post(
            pre,
            post,
            tenant,
            uid,
            node_type,
            property_name,
            PropertyV::DecrementOnlyUintProp(v),
            r,
        ),
        v < half_u64(),
        dec_u64_key_in_range(pre, tenant, uid, node_type, property_name),
    ensures
        post.wf(),
        dec_u64_key_in_range(post, tenant, uid, node_type, property_name),
        stored_min_u64(post, tenant, uid, property_name) == Option::Some(
            join_min_u64(stored_min_u64(pre, tenant, uid, property_name), v),
        ),
{
    let dk = prop_drop_key(DropKind::MinU64, tenant, uid, node_type, property_name);
    let pk = (tenant, PropTable::MinU64, uid, property_name);
    if r == MutationRedundancy::True {
        let c = pre.spec_dropper().spec_cached(dk)->Some_0;
        assert(dominates(c, DropVal::MinU(v)));
        let m = c->MinU_0;
        assert(crate::mutation::coupled_entry(dk, c, pre.spec_store()));
        let row = pre.spec_store().spec_prop_at(pk)->Some_0;
        let w = row.value->U_0;
        assert(crate::mutation::row_encoded(PropTable::MinU64, row));
        assert(row.ts == u64_min_ts(w));
        assert(row.ts >= u64_min_ts(m));
        assert(w < half_u64() && m < half_u64());
        assert(u64_min_ts(m) == -(m as int) && u64_min_ts(w) == -(w as int));
        assert(w <= m && m <= v);
    } else {
        let prev = pre.spec_store().spec_prop_at(pk);
        match prev {
            Option::Some(row) => {
                assert(crate::mutation::row_encoded(PropTable::MinU64, row));
                let w = row.value->U_0;
                assert(row.ts == u64_min_ts(w));
                assert(w < half_u64());
                assert(u64_min_ts(w) == -(w as int) && u64_min_ts(v) == -(v as int));
                assert(post.spec_store().spec_props()[pk] == crate::store::lww_value(
                    prev,
                    crate::store::PropStoredV {
                        node_type,
                        value: PropValueV::U(v),
                        ts: u64_min_ts(v),
                    },
                ));
            },
            Option::None => {},
        }
    }
}

/// A chain of managers linked by increment-only unsigned writes of `vs` to
/// one key.
pub open spec fn inc_u64_chain(
    states: Seq<GraphMutationManager>,
    tenant: u128,
    uid: u64,
    node_type: Seq<char>,
    property_name: Seq<char>,
    vs: Seq<u64>,
    rs: Seq<MutationRedundancy>,
) -> bool {
    &&& states.len() == vs.len() + 1
    &&& rs.len() == vs.len()
    &&& forall|i: int|
        0 <= i < vs.len() ==> set_prop_post(
            states[i],
            states[i + 1],
            tenant,
            uid,
            node_type,
            property_name,
            PropertyV::IncrementOnlyUintProp(#[trigger] vs[i]),
            rs[i],
        )
}

/// A chain of managers linked by decrement-only unsigned writes of `vs` to
/// one key.
pub open spec fn dec_u64_chain(
    states: Seq<GraphMutationManager>,
    tenant: u128,
    uid: u64,
    node_type: Seq<char>,
    property_name: Seq<char>,
    vs: Seq<u64>,
    rs: Seq<MutationRedundancy>,
) -> bool {
    &&& states.len() == vs.len() + 1
    &&& rs.len() == vs.len()
    &&& forall|i: int|
        0 <= i < vs.len() ==> set_prop_post(
            states[i],
            states[i + 1],
            tenant,
            uid,
            node_type,
            property_name,
            PropertyV::DecrementOnlyUintProp(#[trigger] vs[i]),
            rs[i],
        )
}

/// LAW: after any sequence of increment-only writes to one key — in any
/// order, with any duplication, whether each write was issued or dropped —
/// the stored value is the maximum of what was stored before and every
/// value written.
pub proof fn lemma_increment_only_u64_converges(
    states: Seq<GraphMutationManager>,
    tenant: u128,
    uid: u64,
    node_type: Seq<char>,
    property_name: Seq<char>,
    vs: Seq<u64>,
    rs: Seq<MutationRedundancy>,
)
    requires
        inc_u64_chain(states, tenant, uid, node_type, property_name, vs, rs),
        states[0].wf(),
        inc_u64_key_in_range(states[0], tenant, uid, node_type, property_name),
        forall|i: int| 0 <= i < vs.len() ==> vs[i] < half_u64(),
    ensures
        states.last().wf(),
        stored_max_u64(states.last(), tenant, uid, property_name) == max_with(
            stored_max_u64(states[0], tenant, uid, property_name),
            vs,
        ),
        inc_u64_key_in_range(states.last(), tenant, uid, node_type, property_name),
    decreases vs.len(),
{
    if vs.len() == 0 {
        assert(states.last() == states[0]);
    } else {
        lemma_inc_u64_step(
            states[0],
            states[1],
            tenant,
            uid,
            node_type,
            property_name,
            vs[0],
            rs[0],
        );
        let states2 = states.drop_first();
        let vs2 = vs.drop_first();
        let rs2 = rs.drop_first();
        assert forall|i: int|
            0 <= i < vs2.len() implies set_prop_post(
            states2[i],
            states2[i + 1],
            tenant,
            uid,
            node_type,
            property_name,
            PropertyV::IncrementOnlyUintProp(#[trigger] vs2[i]),
            rs2[i],
        ) by {
            assert(states2[i] == states[i + 1]);
            assert(states2[i + 1] == states[i + 2]);
            assert(vs2[i] == vs[i + 1]);
            assert(rs2[i] == rs[i + 1]);
        }
        assert forall|i: int| 0 <= i < vs2.len() implies vs2[i] < half_u64() by {
            assert(vs2[i] == vs[i + 1]);
        }
        lemma_increment_only_u64_converges(
            states2,
            tenant,
            uid,
            node_type,
            property_name,
            vs2,
            rs2,
        );
        assert(states2.last() == states.last());
        assert(states2[0] == states[1]);
    }
}

/// LAW: after any sequence of decrement-only writes to one key, the stored
/// value is the minimum of what was stored before and every value written.
pub proof fn lemma_decrement_only_u64_converges(
    states: Seq<GraphMutationManager>,
    tenant: u128,
    uid: u64,
    node_type: Seq<char>,
    property_name: Seq<char>,
    vs: Seq<u64>,
    rs: Seq<MutationRedundancy>,
)
    requires
        dec_u64_chain(states, tenant, uid, node_type, property_name, vs, rs),
        states[0].wf(),
        dec_u64_key_in_range(states[0], tenant, uid, node_type, property_name),
        forall|i: int| 0 <= i < vs.len() ==> vs[i] < half_u64(),
    ensures
        states.last().wf(),
        stored_min_u64(states.last(), tenant, uid, property_name) == min_with(
            stored_min_u64(states[0], tenant, uid, property_name),
            vs,
        ),
        dec_u64_key_in_range(states.last(), tenant, uid, node_type, property_name),
    decreases vs.len(),
{
    if vs.len() == 0 {
        assert(states.last() == states[0]);
    } else {
        lemma_dec_u64_step(
            states[0],
            states[1],
            tenant,
            uid,
            node_type,
            property_name,
            vs[0],
            rs[0],
        );
        let states2 = states.drop_first();
        let vs2 = vs.drop_first();
        let rs2 = rs.drop_first();
        assert forall|i: int|
            0 <= i < vs2.len() implies set_prop_post(
            states2[i],
            states2[i + 1],
            tenant,
            uid,
            node_type,
            property_name,
            PropertyV::DecrementOnlyUintProp(#[trigger] vs2[i]),
            rs2[i],
        ) by {
            assert(states2[i] == states[i + 1]);
            assert(states2[i + 1] == states[i + 2]);
            assert(vs2[i] == vs[i + 1]);
            assert(rs2[i] == rs[i + 1]);
        }
        assert forall|i: int| 0 <= i < vs2.len() implies vs2[i] < half_u64() by {
            assert(vs2[i] == vs[i + 1]);
        }
        lemma_decrement_only_u64_converges(
            states2,
            tenant,
            uid,
            node_type,
            property_name,
            vs2,
            rs2,
        );
        assert(states2.last() == states.last());
        assert(states2[0] == states[1]);
    }
}

/// `max_with` is the maximum: it dominates the prior value and every value
/// written, and is itself one of them.
pub proof fn lemma_max_with_bounds(cur: Option<u64>, vs: Seq<u64>)
    ensures
        vs.len() > 0 || cur is Some ==> max_with(cur, vs) is Some,
        max_with(cur, vs) matches Option::Some(w) ==> {
            &&& (forall|i: int| 0 <= i < vs.len() ==> w >= vs[i])
            &&& (cur matches Option::Some(c) ==> w >= c)
            &&& (vs.contains(w) || cur == Option::Some(w))
        },
    decreases vs.len(),
{
    if vs.len() > 0 {
        lemma_max_with_bounds(Option::Some(join_max_u64(cur, vs[0])), vs.drop_first());
        let w = max_with(cur, vs)->Some_0;
        assert forall|i: int| 0 <= i < vs.len() implies w >= vs[i] by {
            if i > 0 {
                assert(vs.drop_first()[i - 1] == vs[i]);
            }
        }
        if vs.drop_first().contains(w) {
            let j = choose|j: int| 0 <= j < vs.drop_first().len() && vs.drop_first()[j] == w;
            assert(vs[j + 1] == w);
        }
    }
}

/// `min_with` is the minimum, symmetrically.
pub proof fn lemma_min_with_bounds(cur: Option<u64>, vs: Seq<u64>)
    ensures
        vs.len() > 0 || cur is Some ==> min_with(cur, vs) is Some,
        min_with(cur, vs) matches Option::Some(w) ==> {
            &&& (forall|i: int| 0 <= i < vs.len() ==> w <= vs[i])
            &&& (cur matches Option::Some(c) ==> w <= c)
            &&& (vs.contains(w) || cur == Option::Some(w))
        },
    decreases vs.len(),
{
    if vs.len() > 0 {
        lemma_min_with_bounds(Option::Some(join_min_u64(cur, vs[0])), vs.drop_first());
        let w = min_with(cur, vs)->Some_0;
        assert forall|i: int| 0 <= i < vs.len() implies w <= vs[i] by {
            if i > 0 {
                assert(vs.drop_first()[i - 1] == vs[i]);
            }
        }
        if vs.drop_first().contains(w) {
            let j = choose|j: int| 0 <= j < vs.drop_first().len() && vs.drop_first()[j] == w;
            assert(vs[j + 1] == w);
        }
    }
}

/// The stored increment-only signed value of one property key.
pub open spec fn stored_max_i64(
    m: GraphMutationManager,
    tenant: u128,
    uid: u64,
    property_name: Seq<char>,
) -> Option<i64> {
    match m.spec_store().spec_prop_at((tenant, PropTable::MaxI64, uid, property_name)) {
        Option::Some(row) => match row.value {
            PropValueV::I(w) => Option::Some(w),
            _ => Option::None,
        },
        Option::None => Option::None,
    }
}

/// The stored decrement-only signed value of one property key.
pub open spec fn stored_min_i64(
    m: GraphMutationManager,
    tenant: u128,
    uid: u64,
    property_name: Seq<char>,
) -> Option<i64> {
    match m.spec_store().spec_prop_at((tenant, PropTable::MinI64, uid, property_name)) {
        Option::Some(row) => match row.value {
            PropValueV::I(w) => Option::Some(w),
            _ => Option::None,
        },
        Option::None => Option::None,
    }
}

/// The key's cached bound and stored value avoid the one signed value whose
/// negation wraps; everything else is in range for the signed minimum kind.
pub open spec fn dec_i64_key_in_range(
    m: GraphMutationManager,
    tenant: u128,
    uid: u64,
    node_type: Seq<char>,
    property_name: Seq<char>,
) -> bool {
    &&& match m.spec_dropper().spec_cached(
        prop_drop_key(DropKind::MinI64, tenant, uid, node_type, property_name),
    ) {
        Option::Some(DropVal::MinI(c)) => c > i64::MIN,
        _ => true,
    }
    &&& match stored_min_i64(m, tenant, uid, property_name) {
        Option::Some(w) => w > i64::MIN,
        Option::None => true,
    }
}

/// The greater of a stored signed value (if any) and a newly written one.
pub open spec fn join_max_i64(cur: Option<i64>, v: i64) -> i64 {
    match cur {
        Option::None => v,
        Option::Some(w) => if v > w {
            v
        } else {
            w
        },
    }
}

/// The smaller of a stored signed value (if any) and a newly written one.
pub open spec fn join_min_i64(cur: Option<i64>, v: i64) -> i64 {
    match cur {
        Option::None => v,
        Option::Some(w) => if v < w {
            v
        } else {
            w
        },
    }
}

/// LAW (one step of the signed increment-only kind, with no restriction on
/// the value range — the signed timestamp encoding is the identity): one
/// write moves the stored value to the join of old and new.
pub proof fn lemma_inc_i64_step(
    pre: GraphMutationManager,
    post: GraphMutationManager,
    tenant: u128,
    uid: u64,
    node_type: Seq<char>,
    property_name: Seq<char>,
    v: i64,
    r: MutationRedundancy,
)
    requires
        pre.wf(),
        set_prop_post(
            pre,
            post,
            tenant,
            uid,
            node_type,
            property_name,
            PropertyV::IncrementOnlyIntProp(v),
            r,
        ),
    ensures
        post.wf(),
        stored_max_i64(post, tenant, uid, property_name) == Option::Some(
            join_max_i64(stored_max_i64(pre, tenant, uid, property_name), v),
        ),
{
    let dk = prop_drop_key(DropKind::MaxI64, tenant, uid, node_type, property_name);
    let pk = (tenant, PropTable::MaxI64, uid, property_name);
    if r == MutationRedundancy::True {
        let c = pre.spec_dropper().spec_cached(dk)->Some_0;
        assert(dominates(c, DropVal::MaxI(v)));
        assert(crate::mutation::coupled_entry(dk, c, pre.spec_store()));
        let row = pre.spec_store().spec_prop_at(pk)->Some_0;
        assert(crate::mutation::row_encoded(PropTable::MaxI64, row));
    } else {
        let prev = pre.spec_store().spec_prop_at(pk);
        match prev {
            Option::Some(row) => {
                assert(crate::mutation::row_encoded(PropTable::MaxI64, row));
            },
            Option::None => {},
        }
    }
}

/// LAW (one step of the signed decrement-only kind; the one excluded value
/// is the most negative integer, whose negated timestamp wraps): one write
/// moves the stored value to the join of old and new, and keeps the key in
/// range.
pub proof fn lemma_dec_i64_step(
    pre: GraphMutationManager,
    post: GraphMutationManager,
    tenant: u128,
    uid: u64,
    node_type: Seq<char>,
    property_name: Seq<char>,
    v: i64,
    r: MutationRedundancy,
)
    requires
        pre.wf(),
        set_prop_post(
            pre,
            post,
            tenant,
            uid,
            node_type,
            property_name,
            PropertyV::DecrementOnlyIntProp(v),
            r,
        ),
        v > i64::MIN,
        dec_i64_key_in_range(pre, tenant, uid, node_type, property_name),
    ensures
        post.wf(),
        dec_i64_key_in_range(post, tenant, uid, node_type, property_name),
        stored_min_i64(post, tenant, uid, property_name) == Option::Some(
            join_min_i64(stored_min_i64(pre, tenant, uid, property_name), v),
        ),
{
    let dk = prop_drop_key(DropKind::MinI64, tenant, uid, node_type, property_name);
    let pk = (tenant, PropTable::MinI64, uid, property_name);
    if r == MutationRedundancy::True {
        let c = pre.spec_dropper().spec_cached(dk)->Some_0;
        assert(dominates(c, DropVal::MinI(v)));
        let m = c->MinI_0;
        assert(crate::mutation::coupled_entry(dk, c, pre.spec_store()));
        let row = pre.spec_store().spec_prop_at(pk)->Some_0;
        let w = row.value->I_0;
        assert(crate::mutation::row_encoded(PropTable::MinI64, row));
        assert(row.ts == crate::mutation::i64_min_ts(w));
        assert(row.ts >= crate::mutation::i64_min_ts(m));
        assert(w <= m && m <= v);
    } else {
        let prev = pre.spec_store().spec_prop_at(pk);
        match prev {
            Option::Some(row) => {
                assert(crate::mutation::row_encoded(PropTable::MinI64, row));
            },
            Option::None => {},
        }
    }
}

/// LAW: the converged value does not depend on the order or multiplicity of
/// the writes — two write sequences with the same values end at the same
/// stored value.
pub proof fn lemma_increment_only_u64_order_independent(
    cur: Option<u64>,
    vs1: Seq<u64>,
    vs2: Seq<u64>,
)
    requires
        forall|x: u64| vs1.contains(x) <==> vs2.contains(x),
    ensures
        max_with(cur, vs1) == max_with(cur, vs2),
{
    lemma_max_with_bounds(cur, vs1);
    lemma_max_with_bounds(cur, vs2);
    if vs1.len() == 0 {
        if vs2.len() > 0 {
            assert(vs2.contains(vs2[0]));
        }
    } else {
        assert(vs1.contains(vs1[0]));
        assert(vs2.contains(vs1[0]));
        let w1 = max_with(cur, vs1)->Some_0;
        let w2 = max_with(cur, vs2)->Some_0;
        if vs1.contains(w1) {
            let i = choose|i: int| 0 <= i < vs2.len() && vs2[i] == w1;
            assert(w2 >= w1);
        } else {
            assert(w2 >= w1);
        }
        if vs2.contains(w2) {
            let i = choose|i: int| 0 <= i < vs1.len() && vs1[i] == w2;
            assert(w1 >= w2);
        } else {
            assert(w1 >= w2);
        }
    }
}

/// LAW: symmetrically for decrement-only writes.
pub proof fn lemma_decrement_only_u64_order_independent(
    cur: Option<u64>,
    vs1: Seq<u64>,
    vs2: Seq<u64>,
)
    requires
        forall|x: u64| vs1.contains(x) <==> vs2.contains(x),
    ensures
        min_with(cur, vs1) == min_with(cur, vs2),
{
    lemma_min_with_bounds(cur, vs1);
    lemma_min_with_bounds(cur, vs2);
    if vs1.len() == 0 {
        if vs2.len() > 0 {
            assert(vs2.contains(vs2[0]));
        }
    } else {
        assert(vs1.contains(vs1[0]));
        assert(vs2.contains(vs1[0]));
        let w1 = min_with(cur, vs1)->Some_0;
        let w2 = min_with(cur, vs2)->Some_0;
        if vs1.contains(w1) {
            let i = choose|i: int| 0 <= i < vs2.len() && vs2[i] == w1;
            assert(w2 <= w1);
        }
        if vs2.contains(w2) {
            let i = choose|i: int| 0 <= i < vs1.len() && vs1[i] == w2;
            assert(w1 <= w2);
        }
    }
}

/// LAW: concurrent increment-only writers never lose the larger value:
/// whatever order the writes of a chain arrive in, the stored value after
/// the chain is at least every value any writer wrote.
/// The value a key converges to after a sequence of signed increment-only
/// writes.
pub open spec fn max_with_i64(cur: Option<i64>, vs: Seq<i64>) -> Option<i64>
    decreases vs.len(),
{
    if vs.len() == 0 {
        cur
    } else {
        max_with_i64(Option::Some(join_max_i64(cur, vs[0])), vs.drop_first())
    }
}

/// The value a key converges to after a sequence of signed decrement-only
/// writes.
pub open spec fn min_with_i64(cur: Option<i64>, vs: Seq<i64>) -> Option<i64>
    decreases vs.len(),
{
    if vs.len() == 0 {
        cur
    } else {
        min_with_i64(Option::Some(join_min_i64(cur, vs[0])), vs.drop_first())
    }
}

/// A chain of managers linked by signed increment-only writes of `vs` to
/// one key.
pub open spec fn inc_i64_chain(
    states: Seq<GraphMutationManager>,
    tenant: u128,
    uid: u64,
    node_type: Seq<char>,
    property_name: Seq<char>,
    vs: Seq<i64>,
    rs: Seq<MutationRedundancy>,
) -> bool {
    &&& states.len() == vs.len() + 1
    &&& rs.len() == vs.len()
    &&& forall|i: int|
        0 <= i < vs.len() ==> set_prop_post(
            states[i],
            states[i + 1],
            tenant,
            uid,
            node_type,
            property_name,
            PropertyV::IncrementOnlyIntProp(#[trigger] vs[i]),
            rs[i],
        )
}

/// A chain of managers linked by signed decrement-only writes of `vs` to
/// one key.
pub open spec fn dec_i64_chain(
    states: Seq<GraphMutationManager>,
    tenant: u128,
    uid: u64,
    node_type: Seq<char>,
    property_name: Seq<char>,
    vs: Seq<i64>,
    rs: Seq<MutationRedundancy>,
) -> bool {
    &&& states.len() == vs.len() + 1
    &&& rs.len() == vs.len()
    &&& forall|i: int|
        0 <= i < vs.len() ==> set_prop_post(
            states[i],
            states[i + 1],
            tenant,
            uid,
            node_type,
            property_name,
            PropertyV::DecrementOnlyIntProp(#[trigger] vs[i]),
            rs[i],
        )
}

/// LAW: after any sequence of signed increment-only writes to one key — in
/// any order, with any duplication, on the full signed range — the stored
/// value is the maximum of what was stored before and every value written.
pub proof fn lemma_increment_only_i64_converges(
    states: Seq<GraphMutationManager>,
    tenant: u128,
    uid: u64,
    node_type: Seq<char>,
    property_name: Seq<char>,
    vs: Seq<i64>,
    rs: Seq<MutationRedundancy>,
)
    requires
        inc_i64_chain(states, tenant, uid, node_type, property_name, vs, rs),
        states[0].wf(),
    ensures
        states.last().wf(),
        stored_max_i64(states.last(), tenant, uid, property_name) == max_with_i64(
            stored_max_i64(states[0], tenant, uid, property_name),
            vs,
        ),
    decreases vs.len(),
{
    if vs.len() == 0 {
        assert(states.last() == states[0]);
    } else {
        lemma_inc_i64_step(
            states[0],
            states[1],
            tenant,
            uid,
            node_type,
            property_name,
            vs[0],
            rs[0],
        );
        let states2 = states.drop_first();
        let vs2 = vs.drop_first();
        let rs2 = rs.drop_first();
        assert forall|i: int|
            0 <= i < vs2.len() implies set_prop_post(
            states2[i],
            states2[i + 1],
            tenant,
            uid,
            node_type,
            property_name,
            PropertyV::IncrementOnlyIntProp(#[trigger] vs2[i]),
            rs2[i],
        ) by {
            assert(states2[i] == states[i + 1]);
            assert(states2[i + 1] == states[i + 2]);
            assert(vs2[i] == vs[i + 1]);
            assert(rs2[i] == rs[i + 1]);
        }
        lemma_increment_only_i64_converges(
            states2,
            tenant,
            uid,
            node_type,
            property_name,
            vs2,
            rs2,
        );
        assert(states2.last() == states.last());
        assert(states2[0] == states[1]);
    }
}

/// LAW: after any sequence of signed decrement-only writes to one key, the
/// stored value is the minimum of what was stored before and every value
/// written. The one excluded input is the most negative integer, whose
/// negated conflict timestamp wraps around and breaks the encoding's order.
pub proof fn lemma_decrement_only_i64_converges(
    states: Seq<GraphMutationManager>,
    tenant: u128,
    uid: u64,
    node_type: Seq<char>,
    property_name: Seq<char>,
    vs: Seq<i64>,
    rs: Seq<MutationRedundancy>,
)
    requires
        dec_i64_chain(states, tenant, uid, node_type, property_name, vs, rs),
        states[0].wf(),
        dec_i64_key_in_range(states[0], tenant, uid, node_type, property_name),
        forall|i: int| 0 <= i < vs.len() ==> vs[i] > i64::MIN,
    ensures
        states.last().wf(),
        stored_min_i64(states.last(), tenant, uid, property_name) == min_with_i64(
            stored_min_i64(states[0], tenant, uid, property_name),
            vs,
        ),
        dec_i64_key_in_range(states.last(), tenant, uid, node_type, property_name),
    decreases vs.len(),
{
    if vs.len() == 0 {
        assert(states.last() == states[0]);
    } else {
        lemma_dec_i64_step(
            states[0],
            states[1],
            tenant,
            uid,
            node_type,
            property_name,
            vs[0],
            rs[0],
        );
        let states2 = states.drop_first();
        let vs2 = vs.drop_first();
        let rs2 = rs.drop_first();
        assert forall|i: int|
            0 <= i < vs2.len() implies set_prop_post(
            states2[i],
            states2[i + 1],
            tenant,
            uid,
            node_type,
            property_name,
            PropertyV::DecrementOnlyIntProp(#[trigger] vs2[i]),
            rs2[i],
        ) by {
            assert(states2[i] == states[i + 1]);
            assert(states2[i + 1] == states[i + 2]);
            assert(vs2[i] == vs[i + 1]);
            assert(rs2[i] == rs[i + 1]);
        }
        assert forall|i: int| 0 <= i < vs2.len() implies vs2[i] > i64::MIN by {
            assert(vs2[i] == vs[i + 1]);
        }
        lemma_decrement_only_i64_converges(
            states2,
            tenant,
            uid,
            node_type,
            property_name,
            vs2,
            rs2,
        );
        assert(states2.last() == states.last());
        assert(states2[0] == states[1]);
    }
}

pub proof fn lemma_increment_only_u64_keeps_largest(
    states: Seq<GraphMutationManager>,
    tenant: u128,
    uid: u64,
    node_type: Seq<char>,
    property_name: Seq<char>,
    vs: Seq<u64>,
    rs: Seq<MutationRedundancy>,
    i: int,
)
    requires
        inc_u64_chain(states, tenant, uid, node_type, property_name, vs, rs),
        states[0].wf(),
        inc_u64_key_in_range(states[0], tenant, uid, node_type, property_name),
        forall|j: int| 0 <= j < vs.len() ==> vs[j] < half_u64(),
        0 <= i < vs.len(),
    ensures
        stored_max_u64(states.last(), tenant, uid, property_name) matches Option::Some(w) && w
            >= vs[i],
{
    lemma_increment_only_u64_converges(states, tenant, uid, node_type, property_name, vs, rs);
    lemma_max_with_bounds(stored_max_u64(states[0], tenant, uid, property_name), vs);
}

/// LAW: writing the same immutable value twice to the same key is reported
/// redundant the second time — the second call returns `True` and leaves
/// the store untouched. (A second write with a *different* value is equally
/// dropped: redundancy of immutable keys does not inspect the value, and
/// the store keeps the first written value in any case.)
pub proof fn lemma_immutable_rewrite_redundant(
    m0: GraphMutationManager,
    m1: GraphMutationManager,
    m2: GraphMutationManager,
    tenant: u128,
    uid: u64,
    node_type: Seq<char>,
    property_name: Seq<char>,
    s1: Seq<char>,
    s2: Seq<char>,
    r1: MutationRedundancy,
    r2: MutationRedundancy,
)
    requires
        m0.spec_dropper().spec_capacity() > 0,
        set_prop_post(
            m0,
            m1,
            tenant,
            uid,
            node_type,
            property_name,
            PropertyV::ImmutableStrProp(s1),
            r1,
        ),
        set_prop_post(
            m1,
            m2,
            tenant,
            uid,
            node_type,
            property_name,
            PropertyV::ImmutableStrProp(s2),
            r2,
        ),
    ensures
        r2 == MutationRedundancy::True,
        m2.spec_store() == m1.spec_store(),
{
    crate::write_dropper::lemma_second_seen_check_dropped(
        m0.spec_dropper(),
        m1.spec_dropper(),
        m2.spec_dropper(),
        prop_drop_key(DropKind::ImmString, tenant, uid, node_type, property_name),
        crate::mutation::write_of(r1),
        crate::mutation::write_of(r2),
    );
}

/// LAW: a created edge is materialized in both directions — after a
/// successful `create_edge` from `a` to `b`, traversing the schema's
/// reverse name from `b` reaches `a`.
pub proof fn lemma_reverse_edge_materialized(
    pre: GraphMutationManager,
    post: GraphMutationManager,
    tenant: u128,
    from_uid: u64,
    to_uid: u64,
    edge_name: Seq<char>,
    source_node_type: Seq<char>,
    r: Result<MutationRedundancy, GraphMutationManagerError>,
)
    requires
        create_edge_post(
            pre,
            post,
            tenant,
            from_uid,
            to_uid,
            edge_name,
            source_node_type,
            r,
        ),
        r is Ok,
    ensures
        pre.spec_resolver().spec_resolve(tenant, source_node_type, edge_name)
            matches Option::Some(rev) && {
            &&& post.spec_store().spec_neighbors(tenant, to_uid, rev).contains(from_uid)
            &&& post.spec_store().spec_neighbors(tenant, from_uid, edge_name).contains(to_uid)
        },
{
    let rev = pre.spec_resolver().spec_resolve(tenant, source_node_type, edge_name)->Some_0;
    assert(post.spec_store().spec_edges().contains((tenant, to_uid, rev, edge_name, from_uid)));
    assert(post.spec_store().spec_edges().contains((tenant, from_uid, edge_name, rev, to_uid)));
    assert(post.spec_store().spec_neighbors(tenant, to_uid, rev).contains(from_uid));
    assert(post.spec_store().spec_neighbors(tenant, from_uid, edge_name).contains(to_uid));
}

} // verus!
