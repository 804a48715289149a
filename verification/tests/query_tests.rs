use graph_engine::allocator::UidAllocator;
use graph_engine::mutation::GraphMutationManager;
use graph_engine::query::{
    query_graph, GraphQuery, NodePropertiesQuery, StringCmp, StringFilter,
};
use graph_engine::resolver::{ReverseEdgeResolver, SchemaEntry};
use graph_engine::store::{EdgeRow, GraphStore, PropRow, PropTable, PropValue};
use graph_engine::types::{EdgeName, NodeType, Property, PropertyName, Uid};

const TENANT: u128 = 0xfeed_beef;

fn node_type(s: &str) -> NodeType {
    NodeType { value: s.to_string() }
}

fn edge_name(s: &str) -> EdgeName {
    EdgeName { value: s.to_string() }
}

fn insert_string_ix(store: &mut GraphStore, nt: &str, uid: u64, field: &str, value: &str) {
    store.write_node_type(TENANT, uid, &node_type(nt));
    store.insert_prop_first_wins(PropRow {
        tenant: TENANT,
        table: PropTable::ImmString,
        uid,
        property_name: field.to_string(),
        node_type: nt.to_string(),
        value: PropValue::S(value.to_string()),
        ts: 0,
    });
}

fn insert_edge(store: &mut GraphStore, source: u64, f_name: &str, r_name: &str, dest: u64) {
    store.insert_edge_row(EdgeRow {
        tenant: TENANT,
        source_uid: source,
        f_edge_name: f_name.to_string(),
        r_edge_name: r_name.to_string(),
        destination_uid: dest,
    });
    store.insert_edge_row(EdgeRow {
        tenant: TENANT,
        source_uid: dest,
        f_edge_name: r_name.to_string(),
        r_edge_name: f_name.to_string(),
        destination_uid: source,
    });
}

fn node_query(query_id: u64, nt: &str, filters: Vec<(&str, Vec<StringCmp>)>) -> NodePropertiesQuery {
    NodePropertiesQuery {
        query_id,
        node_type: node_type(nt),
        string_filters: filters
            .into_iter()
            .map(|(name, comparisons)| StringFilter {
                property_name: PropertyName { value: name.to_string() },
                comparisons,
            })
            .collect(),
    }
}

/// The end-to-end pattern match of the engine, against an in-memory graph:
/// a process whose name is "chrome.exe", with a child process that is not
/// "chrome.exe", both reading a shared file — anchored at the child.
#[test]
fn smoke_test() {
    let mut store = GraphStore::new();
    let uid: u64 = 1000;

    insert_string_ix(&mut store, "Process", uid, "process_name", "chrome.exe");
    insert_string_ix(&mut store, "Process", uid, "arguments", "-a -f -b --boop=bop");
    insert_string_ix(&mut store, "Process", uid + 123, "process_name", "evil.exe");
    insert_string_ix(&mut store, "File", uid + 234, "file_path", "some/sorta/path");

    insert_edge(&mut store, uid, "children", "parent", uid + 123);
    insert_edge(&mut store, uid + 123, "read_files", "read_by_processes", uid + 234);
    insert_edge(&mut store, uid, "read_files", "read_by_processes", uid + 234);

    let root_id: u64 = 1;
    let child_id: u64 = 2;
    let shared_id: u64 = 3;

    let mut query = GraphQuery::root(node_query(
        root_id,
        "Process",
        vec![("process_name", vec![StringCmp::eq("chrome.exe", false)])],
    ));
    query.add_node(node_query(
        child_id,
        "Process",
        vec![("process_name", vec![StringCmp::eq("chrome.exe", true)])],
    ));
    query.add_node(node_query(
        shared_id,
        "File",
        vec![("file_path", vec![StringCmp::eq("idk", true)])],
    ));
    query.add_edge(root_id, edge_name("read_files"), edge_name("read_by_processes"), shared_id);
    query.add_edge(root_id, edge_name("children"), edge_name("parent"), child_id);
    query.add_edge(child_id, edge_name("read_files"), edge_name("read_by_processes"), shared_id);

    let response = query_graph(
        &query,
        Uid::from_i64((uid + 123) as i64).unwrap(),
        TENANT,
        &store,
    );
    let (graph, root_uid) = response.expect("no response");
    assert_eq!(root_uid.as_u64(), uid);
    assert!(graph.get_nodes().len() >= 3);
    assert_eq!(graph.find_node_by_query_id(root_id), Some(uid));
    assert_eq!(graph.find_node_by_query_id(child_id), Some(uid + 123));
    assert_eq!(graph.find_node_by_query_id(shared_id), Some(uid + 234));
}

/// A created edge is materialized in both directions: after
/// `create_edge(a, b, "children")`, traversing "parent" from `b` finds `a`.
#[test]
fn reverse_edge_traversal_finds_source() {
    let schema = vec![SchemaEntry {
        tenant: TENANT,
        node_type: "Process".to_string(),
        edge_name: "children".to_string(),
        reverse_edge_name: "parent".to_string(),
    }];
    let mut m = GraphMutationManager::new(UidAllocator::new(), ReverseEdgeResolver::new(schema), 64);
    let a = m.create_node(TENANT, node_type("Process")).unwrap();
    let b = m.create_node(TENANT, node_type("Process")).unwrap();
    m.create_edge(TENANT, a, b, edge_name("children"), node_type("Process"))
        .unwrap();

    // A query anchored at `b` that reaches `a` only over the reverse name.
    let qa: u64 = 10;
    let qb: u64 = 20;
    let mut query = GraphQuery::root(node_query(qa, "Process", vec![]));
    query.add_node(node_query(qb, "Process", vec![]));
    query.add_edge(qa, edge_name("children"), edge_name("parent"), qb);

    let response = query_graph(&query, b, TENANT, m.graph_store());
    let (graph, root_uid) = response.expect("reverse edge not materialized");
    assert_eq!(root_uid.as_u64(), a.as_u64());
    assert_eq!(graph.find_node_by_query_id(qb), Some(b.as_u64()));
}

/// Create node A and B, edge A->B named "children", A.process_name =
/// "chrome.exe": a query for a chrome.exe process with any child returns a
/// view rooted at A containing B as the "children" neighbor.
#[test]
fn chrome_with_child_scenario() {
    let schema = vec![SchemaEntry {
        tenant: TENANT,
        node_type: "Process".to_string(),
        edge_name: "children".to_string(),
        reverse_edge_name: "parent".to_string(),
    }];
    let mut m = GraphMutationManager::new(UidAllocator::new(), ReverseEdgeResolver::new(schema), 64);
    let a = m.create_node(TENANT, node_type("Process")).unwrap();
    let b = m.create_node(TENANT, node_type("Process")).unwrap();
    m.create_edge(TENANT, a, b, edge_name("children"), node_type("Process"))
        .unwrap();
    m.set_node_property(
        TENANT,
        a,
        node_type("Process"),
        PropertyName { value: "process_name".to_string() },
        Property::ImmutableStrProp("chrome.exe".to_string()),
    );

    let root_id: u64 = 1;
    let child_id: u64 = 2;
    let mut query = GraphQuery::root(node_query(
        root_id,
        "Process",
        vec![("process_name", vec![StringCmp::eq("chrome.exe", false)])],
    ));
    query.add_node(node_query(child_id, "Process", vec![]));
    query.add_edge(root_id, edge_name("children"), edge_name("parent"), child_id);

    let response = query_graph(&query, a, TENANT, m.graph_store());
    let (graph, root_uid) = response.expect("scenario did not match");
    assert_eq!(root_uid.as_u64(), a.as_u64());
    assert_eq!(graph.find_node_by_query_id(child_id), Some(b.as_u64()));
    let edges = graph.get_edges();
    assert!(edges
        .iter()
        .any(|e| e.source_uid == a.as_u64()
            && e.edge_name == "children"
            && e.destination_uid == b.as_u64()));
}

/// A required edge constraint with zero satisfying neighbors returns no
/// match for that node, even though the node's own predicate matches.
#[test]
fn unsatisfied_edge_constraint_yields_no_match() {
    let mut store = GraphStore::new();
    insert_string_ix(&mut store, "Process", 7, "process_name", "chrome.exe");

    let root_id: u64 = 1;
    let child_id: u64 = 2;
    let mut query = GraphQuery::root(node_query(
        root_id,
        "Process",
        vec![("process_name", vec![StringCmp::eq("chrome.exe", false)])],
    ));
    query.add_node(node_query(child_id, "Process", vec![]));
    query.add_edge(root_id, edge_name("children"), edge_name("parent"), child_id);

    let response = query_graph(&query, Uid::from_u64(7).unwrap(), TENANT, &store);
    assert!(response.is_none());

    // Without the edge constraint the same node matches.
    let plain = GraphQuery::root(node_query(
        root_id,
        "Process",
        vec![("process_name", vec![StringCmp::eq("chrome.exe", false)])],
    ));
    assert!(query_graph(&plain, Uid::from_u64(7).unwrap(), TENANT, &store).is_some());
}

/// A cyclic edge structure does not cause non-termination: the visited set
/// bounds the recursion, and the cycle still matches.
#[test]
fn cyclic_edges_terminate() {
    let mut store = GraphStore::new();
    store.write_node_type(TENANT, 1, &node_type("Process"));
    store.write_node_type(TENANT, 2, &node_type("Process"));
    insert_edge(&mut store, 1, "children", "parent", 2);
    insert_edge(&mut store, 2, "children", "parent", 1);

    let qa: u64 = 1;
    let qb: u64 = 2;
    let mut query = GraphQuery::root(node_query(qa, "Process", vec![]));
    query.add_node(node_query(qb, "Process", vec![]));
    query.add_edge(qa, edge_name("children"), edge_name("parent"), qb);
    query.add_edge(qb, edge_name("children"), edge_name("parent"), qa);

    let response = query_graph(&query, Uid::from_u64(1).unwrap(), TENANT, &store);
    assert!(response.is_some());
}

/// A node whose stored type differs from the declared one never matches.
#[test]
fn node_type_filter_is_enforced() {
    let mut store = GraphStore::new();
    insert_string_ix(&mut store, "File", 5, "file_path", "some/sorta/path");

    let query = GraphQuery::root(node_query(1, "Process", vec![]));
    assert!(query_graph(&query, Uid::from_u64(5).unwrap(), TENANT, &store).is_none());

    let as_file = GraphQuery::root(node_query(1, "File", vec![]));
    assert!(query_graph(&as_file, Uid::from_u64(5).unwrap(), TENANT, &store).is_some());
}

/// A negated comparison rejects equality and accepts anything else.
#[test]
fn negated_comparison() {
    let mut store = GraphStore::new();
    insert_string_ix(&mut store, "Process", 9, "process_name", "evil.exe");

    let negated = GraphQuery::root(node_query(
        1,
        "Process",
        vec![("process_name", vec![StringCmp::eq("chrome.exe", true)])],
    ));
    assert!(query_graph(&negated, Uid::from_u64(9).unwrap(), TENANT, &store).is_some());

    let rejecting = GraphQuery::root(node_query(
        1,
        "Process",
        vec![("process_name", vec![StringCmp::eq("evil.exe", true)])],
    ));
    assert!(query_graph(&rejecting, Uid::from_u64(9).unwrap(), TENANT, &store).is_none());
}
