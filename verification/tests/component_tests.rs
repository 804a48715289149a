use graph_engine::allocator::{AllocateIdsRequest, UidAllocator};
use graph_engine::bootstrap::PluginBootstrapper;
use graph_engine::merger::{GraphMerger, IdentifiedEdge, IdentifiedGraph, IdentifiedNode};
use graph_engine::mutation::GraphMutationManager;
use graph_engine::nomad::{ConsulIngressService, EphemeralDisk};
use graph_engine::registry::PluginType;
use graph_engine::resolver::{ReverseEdgeResolver, SchemaEntry};
use graph_engine::store::{PropTable, PropValue};
use graph_engine::types::{EdgeName, MutationRedundancy, NodeType, Property, PropertyName, Uid};
use graph_engine::work_queue::ExecutionId;

const TENANT: u128 = 42;

#[test]
fn allocator_hands_out_contiguous_nonzero_ranges() {
    let mut alloc = UidAllocator::new();
    let first = alloc
        .allocate_ids(AllocateIdsRequest { count: 10, tenant_id: TENANT })
        .unwrap();
    assert_eq!(first.allocation.start, 1);
    assert_eq!(first.allocation.offset, 10);
    let second = alloc
        .allocate_ids(AllocateIdsRequest { count: 0, tenant_id: TENANT })
        .unwrap();
    assert_eq!(second.allocation.start, 11);
    assert_eq!(second.allocation.offset, 1);
    // Another tenant's counter is independent.
    let other = alloc
        .allocate_ids(AllocateIdsRequest { count: 3, tenant_id: TENANT + 1 })
        .unwrap();
    assert_eq!(other.allocation.start, 1);
}

#[test]
fn allocator_exhaustion_fails_cleanly() {
    let mut alloc = UidAllocator::from_counters(vec![(TENANT, u64::MAX)]);
    assert!(alloc
        .allocate_ids(AllocateIdsRequest { count: 1, tenant_id: TENANT })
        .is_none());
    assert_eq!(alloc.allocate_id(TENANT), 0);
}

#[test]
fn resolver_resolves_and_caches() {
    let schema = vec![
        SchemaEntry {
            tenant: TENANT,
            node_type: "Process".to_string(),
            edge_name: "children".to_string(),
            reverse_edge_name: "parent".to_string(),
        },
        SchemaEntry {
            tenant: TENANT,
            node_type: "Process".to_string(),
            edge_name: "read_files".to_string(),
            reverse_edge_name: "read_by_processes".to_string(),
        },
    ];
    let mut resolver = ReverseEdgeResolver::new(schema);
    let nt = NodeType { value: "Process".to_string() };
    for _ in 0..3 {
        let rev = resolver
            .resolve_reverse_edge(TENANT, &nt, &EdgeName { value: "children".to_string() })
            .unwrap();
        assert_eq!(rev.value, "parent");
    }
    let rev = resolver
        .resolve_reverse_edge(TENANT, &nt, &EdgeName { value: "read_files".to_string() })
        .unwrap();
    assert_eq!(rev.value, "read_by_processes");
    assert!(resolver
        .resolve_reverse_edge(TENANT, &nt, &EdgeName { value: "slurps".to_string() })
        .is_err());
}

#[test]
fn merger_emits_updates_only_for_nonredundant_mutations() {
    let schema = vec![SchemaEntry {
        tenant: TENANT,
        node_type: "Process".to_string(),
        edge_name: "children".to_string(),
        reverse_edge_name: "parent".to_string(),
    }];
    let manager = GraphMutationManager::new(UidAllocator::new(), ReverseEdgeResolver::new(schema), 64);
    let mut merger = GraphMerger::new(manager);

    let a = Uid::from_u64(100).unwrap();
    let b = Uid::from_u64(200).unwrap();
    let subgraph = IdentifiedGraph {
        nodes: vec![
            IdentifiedNode {
                uid: a,
                node_type: NodeType { value: "Process".to_string() },
                properties: vec![(
                    PropertyName { value: "process_name".to_string() },
                    Property::ImmutableStrProp("chrome.exe".to_string()),
                )],
            },
            IdentifiedNode {
                uid: b,
                node_type: NodeType { value: "Process".to_string() },
                properties: vec![(
                    PropertyName { value: "counter".to_string() },
                    Property::IncrementOnlyUintProp(5),
                )],
            },
        ],
        edges: vec![IdentifiedEdge {
            from_uid: a,
            to_uid: b,
            edge_name: EdgeName { value: "children".to_string() },
        }],
    };
    let updates = merger.handle_event(TENANT, subgraph).unwrap();
    assert_eq!(updates.updates.len(), 3);

    // Merging the identical subgraph again is fully redundant: an event is
    // suppressed exactly when redundancy is proven.
    let again = IdentifiedGraph {
        nodes: vec![
            IdentifiedNode {
                uid: a,
                node_type: NodeType { value: "Process".to_string() },
                properties: vec![(
                    PropertyName { value: "process_name".to_string() },
                    Property::ImmutableStrProp("chrome.exe".to_string()),
                )],
            },
            IdentifiedNode {
                uid: b,
                node_type: NodeType { value: "Process".to_string() },
                properties: vec![(
                    PropertyName { value: "counter".to_string() },
                    Property::IncrementOnlyUintProp(5),
                )],
            },
        ],
        edges: vec![IdentifiedEdge {
            from_uid: a,
            to_uid: b,
            edge_name: EdgeName { value: "children".to_string() },
        }],
    };
    let updates = merger.handle_event(TENANT, again).unwrap();
    assert_eq!(updates.updates.len(), 0);
}

#[test]
fn merger_short_circuits_on_empty_subgraph() {
    let manager = GraphMutationManager::new(UidAllocator::new(), ReverseEdgeResolver::new(Vec::new()), 4);
    let mut merger = GraphMerger::new(manager);
    let updates = merger
        .handle_event(TENANT, IdentifiedGraph { nodes: Vec::new(), edges: Vec::new() })
        .unwrap();
    assert!(updates.updates.is_empty());
}

#[test]
fn plugin_bootstrapper_serves_and_counts() {
    let mut b = PluginBootstrapper::new(vec![1, 2, 3], vec![9, 9, 9, 9]);
    assert_eq!(b.ctr, 0);
    let info = b.get_bootstrap_info();
    assert_eq!(info.certificate, vec![1, 2, 3]);
    assert_eq!(info.plugin_binary, vec![9, 9, 9, 9]);
    assert_eq!(b.ctr, 1);
    b.get_bootstrap_info();
    assert_eq!(b.ctr, 2);
}

#[test]
fn plugin_type_names() {
    assert_eq!(PluginType::Generator.kind_name(), "generator");
    assert_eq!(PluginType::Analyzer.kind_name(), "analyzer");
}

#[test]
fn execution_id_round_trip() {
    let id = ExecutionId::from(77i64);
    assert_eq!(i64::from(id), 77);
    assert_eq!(id.as_i64(), 77);
}

#[test]
fn nomad_models_start_empty() {
    let svc = ConsulIngressService::new();
    assert!(svc.hosts.is_none());
    assert!(svc.name.is_none());
    let disk = EphemeralDisk::new();
    assert!(disk.migrate.is_none());
    assert!(disk.size_mb.is_none());
    assert!(disk.sticky.is_none());
}

#[test]
fn write_dropper_eviction_only_affects_future_drops() {
    // A cache of size one: the second key evicts the first, so a rewrite of
    // the first value is issued again — but the stored state is unaffected.
    let mut m = GraphMutationManager::new(UidAllocator::new(), ReverseEdgeResolver::new(Vec::new()), 1);
    let uid = m.create_node(TENANT, NodeType { value: "Process".to_string() }).unwrap();
    let set = |m: &mut GraphMutationManager, name: &str, v: u64| {
        m.set_node_property(
            TENANT,
            uid,
            NodeType { value: "Process".to_string() },
            PropertyName { value: name.to_string() },
            Property::IncrementOnlyUintProp(v),
        )
    };
    assert_eq!(set(&mut m, "a", 5), MutationRedundancy::Maybe);
    assert_eq!(set(&mut m, "b", 7), MutationRedundancy::Maybe);
    // "a" was evicted: the rewrite is issued, not dropped, and harmless.
    assert_eq!(set(&mut m, "a", 5), MutationRedundancy::Maybe);
    match m
        .graph_store()
        .get_prop_value(TENANT, PropTable::MaxU64, uid.as_u64(), &"a".to_string())
    {
        Some(PropValue::U(v)) => assert_eq!(v, 5),
        other => panic!("unexpected stored value {other:?}"),
    }
}
