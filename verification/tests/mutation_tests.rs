use graph_engine::allocator::UidAllocator;
use graph_engine::mutation::GraphMutationManager;
use graph_engine::resolver::{ReverseEdgeResolver, SchemaEntry};
use graph_engine::store::{PropTable, PropValue};
use graph_engine::types::{
    EdgeName, GraphMutationManagerError, MutationRedundancy, NodeType, Property, PropertyName, Uid,
};

const TENANT: u128 = 0x1234_5678_9abc_def0;

fn fresh_manager() -> GraphMutationManager {
    let schema = vec![SchemaEntry {
        tenant: TENANT,
        node_type: "Process".to_string(),
        edge_name: "children".to_string(),
        reverse_edge_name: "parent".to_string(),
    }];
    GraphMutationManager::new(UidAllocator::new(), ReverseEdgeResolver::new(schema), 1000)
}

fn node_type(s: &str) -> NodeType {
    NodeType { value: s.to_string() }
}

fn prop_name(s: &str) -> PropertyName {
    PropertyName { value: s.to_string() }
}

fn stored_u64(m: &GraphMutationManager, table: PropTable, uid: &Uid, name: &str) -> Option<u64> {
    match m
        .graph_store()
        .get_prop_value(TENANT, table, uid.as_u64(), &name.to_string())
    {
        Some(PropValue::U(v)) => Some(v),
        _ => None,
    }
}

fn stored_string(m: &GraphMutationManager, uid: &Uid, name: &str) -> Option<String> {
    match m
        .graph_store()
        .get_prop_value(TENANT, PropTable::ImmString, uid.as_u64(), &name.to_string())
    {
        Some(PropValue::S(s)) => Some(s),
        _ => None,
    }
}

fn set_inc_u64(m: &mut GraphMutationManager, uid: Uid, v: u64) -> MutationRedundancy {
    m.set_node_property(
        TENANT,
        uid,
        node_type("Process"),
        prop_name("counter"),
        Property::IncrementOnlyUintProp(v),
    )
}

fn set_dec_u64(m: &mut GraphMutationManager, uid: Uid, v: u64) -> MutationRedundancy {
    m.set_node_property(
        TENANT,
        uid,
        node_type("Process"),
        prop_name("low_water"),
        Property::DecrementOnlyUintProp(v),
    )
}

#[test]
fn increment_only_converges_to_max() {
    let mut m = fresh_manager();
    let uid = m.create_node(TENANT, node_type("Process")).unwrap();
    for v in [5u64, 3, 9, 9, 2, 7] {
        set_inc_u64(&mut m, uid, v);
    }
    assert_eq!(stored_u64(&m, PropTable::MaxU64, &uid, "counter"), Some(9));
}

#[test]
fn increment_only_order_independent() {
    let orders: [&[u64]; 3] = [&[1, 2, 3, 4], &[4, 3, 2, 1], &[2, 4, 1, 3, 4, 4]];
    let mut finals = Vec::new();
    for order in orders {
        let mut m = fresh_manager();
        let uid = m.create_node(TENANT, node_type("Process")).unwrap();
        for &v in order {
            set_inc_u64(&mut m, uid, v);
        }
        finals.push(stored_u64(&m, PropTable::MaxU64, &uid, "counter"));
    }
    assert_eq!(finals[0], Some(4));
    assert_eq!(finals[1], Some(4));
    assert_eq!(finals[2], Some(4));
}

#[test]
fn decrement_only_converges_to_min() {
    let mut m = fresh_manager();
    let uid = m.create_node(TENANT, node_type("Process")).unwrap();
    for v in [5u64, 8, 2, 9, 2, 4] {
        set_dec_u64(&mut m, uid, v);
    }
    assert_eq!(stored_u64(&m, PropTable::MinU64, &uid, "low_water"), Some(2));
}

#[test]
fn increment_only_int_converges_to_max() {
    let mut m = fresh_manager();
    let uid = m.create_node(TENANT, node_type("Process")).unwrap();
    for v in [-5i64, 3, -9, 8, 2] {
        m.set_node_property(
            TENANT,
            uid,
            node_type("Process"),
            prop_name("score"),
            Property::IncrementOnlyIntProp(v),
        );
    }
    let stored = m
        .graph_store()
        .get_prop_value(TENANT, PropTable::MaxI64, uid.as_u64(), &"score".to_string());
    match stored {
        Some(PropValue::I(v)) => assert_eq!(v, 8),
        other => panic!("unexpected stored value {other:?}"),
    }
}

#[test]
fn redundant_smaller_increment_is_dropped() {
    let mut m = fresh_manager();
    let uid = m.create_node(TENANT, node_type("Process")).unwrap();
    assert_eq!(set_inc_u64(&mut m, uid, 10), MutationRedundancy::Maybe);
    assert_eq!(set_inc_u64(&mut m, uid, 7), MutationRedundancy::True);
    assert_eq!(set_inc_u64(&mut m, uid, 10), MutationRedundancy::True);
    assert_eq!(set_inc_u64(&mut m, uid, 11), MutationRedundancy::Maybe);
}

#[test]
fn immutable_rewrite_is_reported_redundant() {
    let mut m = fresh_manager();
    let uid = m.create_node(TENANT, node_type("Process")).unwrap();
    let first = m.set_node_property(
        TENANT,
        uid,
        node_type("Process"),
        prop_name("process_name"),
        Property::ImmutableStrProp("chrome.exe".to_string()),
    );
    assert_eq!(first, MutationRedundancy::Maybe);
    let second = m.set_node_property(
        TENANT,
        uid,
        node_type("Process"),
        prop_name("process_name"),
        Property::ImmutableStrProp("chrome.exe".to_string()),
    );
    assert_eq!(second, MutationRedundancy::True);
    assert_eq!(stored_string(&m, &uid, "process_name"), Some("chrome.exe".to_string()));
}

#[test]
fn immutable_divergent_write_does_not_crash() {
    let mut m = fresh_manager();
    let uid = m.create_node(TENANT, node_type("Process")).unwrap();
    m.set_node_property(
        TENANT,
        uid,
        node_type("Process"),
        prop_name("process_name"),
        Property::ImmutableStrProp("chrome.exe".to_string()),
    );
    // An accepted gap: a divergent second write is tolerated; the first
    // stored value stays in place under the store's documented policy.
    let second = m.set_node_property(
        TENANT,
        uid,
        node_type("Process"),
        prop_name("process_name"),
        Property::ImmutableStrProp("evil.exe".to_string()),
    );
    assert_eq!(second, MutationRedundancy::True);
    assert_eq!(stored_string(&m, &uid, "process_name"), Some("chrome.exe".to_string()));
}

#[test]
fn create_node_allocates_dense_nonzero_uids() {
    let mut m = fresh_manager();
    let a = m.create_node(TENANT, node_type("Process")).unwrap();
    let b = m.create_node(TENANT, node_type("Process")).unwrap();
    let c = m.create_node(TENANT, node_type("File")).unwrap();
    assert_eq!(a.as_u64(), 1);
    assert_eq!(b.as_u64(), 2);
    assert_eq!(c.as_u64(), 3);
    assert_eq!(
        m.graph_store().get_node_type(TENANT, c.as_u64()),
        Some("File".to_string())
    );
}

#[test]
fn create_node_surfaces_zero_uid_failure() {
    let allocator = UidAllocator::from_counters(vec![(TENANT, 0u64)]);
    let mut m = GraphMutationManager::new(allocator, ReverseEdgeResolver::new(Vec::new()), 16);
    match m.create_node(TENANT, node_type("Process")) {
        Err(GraphMutationManagerError::ZeroUid) => {}
        other => panic!("expected the zero-uid failure, got {other:?}"),
    }
}

#[test]
fn create_edge_is_idempotent_and_reported_redundant() {
    let mut m = fresh_manager();
    let a = m.create_node(TENANT, node_type("Process")).unwrap();
    let b = m.create_node(TENANT, node_type("Process")).unwrap();
    let first = m
        .create_edge(TENANT, a, b, EdgeName { value: "children".to_string() }, node_type("Process"))
        .unwrap();
    assert_eq!(first, MutationRedundancy::Maybe);
    let second = m
        .create_edge(TENANT, a, b, EdgeName { value: "children".to_string() }, node_type("Process"))
        .unwrap();
    assert_eq!(second, MutationRedundancy::True);
    let forward = m.graph_store().neighbors(TENANT, a.as_u64(), &"children".to_string());
    let reverse = m.graph_store().neighbors(TENANT, b.as_u64(), &"parent".to_string());
    assert!(forward.contains(&b.as_u64()));
    assert!(reverse.contains(&a.as_u64()));
}

#[test]
fn create_edge_fails_on_unmapped_name_without_partial_write() {
    let mut m = fresh_manager();
    let a = m.create_node(TENANT, node_type("Process")).unwrap();
    let b = m.create_node(TENANT, node_type("Process")).unwrap();
    let r = m.create_edge(
        TENANT,
        a,
        b,
        EdgeName { value: "unmapped_edge".to_string() },
        node_type("Process"),
    );
    assert!(matches!(
        r,
        Err(GraphMutationManagerError::ReverseEdgeResolverError(_))
    ));
    let forward = m.graph_store().neighbors(TENANT, a.as_u64(), &"unmapped_edge".to_string());
    assert!(forward.is_empty());
}

#[test]
fn concurrent_increment_writers_never_lose_the_larger_value() {
    // Two writers with different increment-only values, interleaved under
    // randomized schedules: the larger value survives every ordering.
    let mut seed: u64 = 0x2545_F491_4F6C_DD1D;
    for round in 0..50u64 {
        let writer_a: Vec<u64> = vec![3, 10 + round % 7, 6];
        let writer_b: Vec<u64> = vec![8, 1, 12 + round % 5];
        let expected = writer_a
            .iter()
            .chain(writer_b.iter())
            .copied()
            .max()
            .unwrap();
        let mut m = fresh_manager();
        let uid = m.create_node(TENANT, node_type("Process")).unwrap();
        let mut ia = 0usize;
        let mut ib = 0usize;
        while ia < writer_a.len() || ib < writer_b.len() {
            // A small linear congruential generator drives the interleaving.
            seed = seed.wrapping_mul(6364136223846793005).wrapping_add(1442695040888963407);
            let pick_a = (seed >> 33) % 2 == 0;
            if ia < writer_a.len() && (pick_a || ib >= writer_b.len()) {
                set_inc_u64(&mut m, uid, writer_a[ia]);
                ia += 1;
            } else {
                set_inc_u64(&mut m, uid, writer_b[ib]);
                ib += 1;
            }
        }
        assert_eq!(
            stored_u64(&m, PropTable::MaxU64, &uid, "counter"),
            Some(expected),
            "lost a value under interleaving round {round}"
        );
    }
}

#[test]
fn cold_cache_never_changes_stored_values() {
    // The dropper is an optimization only: with capacity zero every write is
    // issued, and stored values converge exactly as with a warm cache.
    let mut cold = GraphMutationManager::new(
        UidAllocator::new(),
        ReverseEdgeResolver::new(Vec::new()),
        0,
    );
    let mut warm = fresh_manager();
    let uc = cold.create_node(TENANT, node_type("Process")).unwrap();
    let uw = warm.create_node(TENANT, node_type("Process")).unwrap();
    for v in [4u64, 9, 1, 9, 6] {
        set_inc_u64(&mut cold, uc, v);
        set_inc_u64(&mut warm, uw, v);
    }
    assert_eq!(
        stored_u64(&cold, PropTable::MaxU64, &uc, "counter"),
        stored_u64(&warm, PropTable::MaxU64, &uw, "counter"),
    );
}

#[test]
fn decrement_only_int_converges_to_min() {
    let mut m = fresh_manager();
    let uid = m.create_node(TENANT, node_type("Process")).unwrap();
    for v in [5i64, -8, 2, -9, 4] {
        m.set_node_property(
            TENANT,
            uid,
            node_type("Process"),
            prop_name("floor"),
            Property::DecrementOnlyIntProp(v),
        );
    }
    let stored = m
        .graph_store()
        .get_prop_value(TENANT, PropTable::MinI64, uid.as_u64(), &"floor".to_string());
    match stored {
        Some(PropValue::I(v)) => assert_eq!(v, -9),
        other => panic!("unexpected stored value {other:?}"),
    }
}
