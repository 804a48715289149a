//! The graph merger: turns an identified subgraph into mutation calls and
//! change-notification updates.
//!
//! For every property of every node the merger issues `set_node_property`,
//! and for every edge `create_edge`; a mutation the engine proves redundant
//! (`True`) is suppressed from the update list, while `Maybe` always yields
//! an update, accepting some false-positive notifications.

use vstd::prelude::*;

use crate::mutation::GraphMutationManager;
use crate::types::{
    EdgeName, GraphMutationManagerError, MutationRedundancy, NodeType, Property, PropertyName, Uid,
};

verus! {

/// One identified node of a candidate subgraph: its uid, type, and the
/// properties to merge.
pub struct IdentifiedNode {
    pub uid: Uid,
    pub node_type: NodeType,
    pub properties: Vec<(PropertyName, Property)>,
}

/// One identified edge of a candidate subgraph.
pub struct IdentifiedEdge {
    pub from_uid: Uid,
    pub to_uid: Uid,
    pub edge_name: EdgeName,
}

/// A candidate subgraph to merge into the stored graph.
pub struct IdentifiedGraph {
    pub nodes: Vec<IdentifiedNode>,
    pub edges: Vec<IdentifiedEdge>,
}

impl IdentifiedGraph {
    pub open spec fn spec_is_empty(self) -> bool {
        self.nodes@.len() == 0 && self.edges@.len() == 0
    }

    pub fn is_empty(&self) -> (r: bool)
        ensures
            r == self.spec_is_empty(),
    {
        self.nodes.len() == 0 && self.edges.len() == 0
    }

    /// The declared type of the node carrying the given uid, if any.
    pub open spec fn spec_node_type_of(self, uid: u64) -> Option<Seq<char>> {
        node_type_of(self.nodes@, uid)
    }
}

pub open spec fn node_type_of(nodes: Seq<IdentifiedNode>, uid: u64) -> Option<Seq<char>>
    decreases nodes.len(),
{
    if nodes.len() == 0 {
        Option::None
    } else if nodes[0].uid.spec_as_u64() == uid {
        Option::Some(nodes[0].node_type.value@)
    } else {
        node_type_of(nodes.drop_first(), uid)
    }
}

proof fn lemma_node_type_of_first_match(nodes: Seq<IdentifiedNode>, i: int)
    requires
        0 <= i < nodes.len(),
        forall|j: int| 0 <= j < i ==> nodes[j].uid.spec_as_u64() != nodes[i].uid.spec_as_u64(),
    ensures
        node_type_of(nodes, nodes[i].uid.spec_as_u64()) == Option::Some(nodes[i].node_type.value@),
    decreases nodes.len(),
{
    if i > 0 {
        assert forall|j: int|
            0 <= j < i - 1 implies nodes.drop_first()[j].uid.spec_as_u64()
            != nodes[i].uid.spec_as_u64() by {
            assert(nodes.drop_first()[j] == nodes[j + 1]);
        }
        assert(nodes.drop_first()[i - 1] == nodes[i]);
        lemma_node_type_of_first_match(nodes.drop_first(), i - 1);
    }
}

proof fn lemma_node_type_of_absent(nodes: Seq<IdentifiedNode>, uid: u64)
    requires
        forall|j: int| 0 <= j < nodes.len() ==> nodes[j].uid.spec_as_u64() != uid,
    ensures
        node_type_of(nodes, uid) is None,
    decreases nodes.len(),
{
    if nodes.len() > 0 {
        assert forall|j: int|
            0 <= j < nodes.drop_first().len() implies nodes.drop_first()[j].uid.spec_as_u64()
            != uid by {
            assert(nodes.drop_first()[j] == nodes[j + 1]);
        }
        lemma_node_type_of_absent(nodes.drop_first(), uid);
    }
}

/// A change notification for one unsigned property write.
pub struct UInt64PropertyUpdate {
    pub uid: Uid,
    pub property_name: PropertyName,
}

/// A change notification for one signed property write.
pub struct Int64PropertyUpdate {
    pub uid: Uid,
    pub property_name: PropertyName,
}

/// A change notification for one string property write.
pub struct StringPropertyUpdate {
    pub uid: Uid,
    pub property_name: PropertyName,
}

/// A change notification for one edge write.
pub struct EdgeUpdate {
    pub src_edge_name: EdgeName,
    pub src_node_type: NodeType,
    pub src_uid: Uid,
    pub dst_uid: Uid,
}

/// One downstream change notification.
pub enum Update {
    Uint64PropertyUpdate(UInt64PropertyUpdate),
    Int64PropertyUpdate(Int64PropertyUpdate),
    StringPropertyUpdate(StringPropertyUpdate),
    EdgeUpdate(EdgeUpdate),
}

/// The batch of notifications one merged subgraph produces.
pub struct Updates {
    pub updates: Vec<Update>,
}

/// Build the change notification of one property write: unsigned kinds
/// notify as unsigned updates, signed kinds as signed, strings as strings.
pub fn property_to_update(uid: Uid, property_name: String, property: &Property) -> (r: Update)
    ensures
        matches_update(r, uid, property_name@, property@),
{
    match property {
        Property::IncrementOnlyUintProp(_) => Update::Uint64PropertyUpdate(
            UInt64PropertyUpdate { uid, property_name: PropertyName { value: property_name } },
        ),
        Property::DecrementOnlyUintProp(_) => Update::Uint64PropertyUpdate(
            UInt64PropertyUpdate { uid, property_name: PropertyName { value: property_name } },
        ),
        Property::ImmutableUintProp(_) => Update::Uint64PropertyUpdate(
            UInt64PropertyUpdate { uid, property_name: PropertyName { value: property_name } },
        ),
        Property::IncrementOnlyIntProp(_) => Update::Int64PropertyUpdate(
            Int64PropertyUpdate { uid, property_name: PropertyName { value: property_name } },
        ),
        Property::DecrementOnlyIntProp(_) => Update::Int64PropertyUpdate(
            Int64PropertyUpdate { uid, property_name: PropertyName { value: property_name } },
        ),
        Property::ImmutableIntProp(_) => Update::Int64PropertyUpdate(
            Int64PropertyUpdate { uid, property_name: PropertyName { value: property_name } },
        ),
        Property::ImmutableStrProp(_) => Update::StringPropertyUpdate(
            StringPropertyUpdate { uid, property_name: PropertyName { value: property_name } },
        ),
    }
}

/// Whether an update is the notification of the given property write: the
/// update class of the property's kind, carrying the written node and
/// property name.
pub open spec fn matches_update(
    r: Update,
    uid: Uid,
    property_name: Seq<char>,
    property: crate::types::PropertyV,
) -> bool {
    match property {
        crate::types::PropertyV::IncrementOnlyUintProp(_) => r matches Update::Uint64PropertyUpdate(
            v,
        ) && v.uid == uid && v.property_name.value@ == property_name,
        crate::types::PropertyV::DecrementOnlyUintProp(_) => r matches Update::Uint64PropertyUpdate(
            v,
        ) && v.uid == uid && v.property_name.value@ == property_name,
        crate::types::PropertyV::ImmutableUintProp(_) => r matches Update::Uint64PropertyUpdate(v)
            && v.uid == uid && v.property_name.value@ == property_name,
        crate::types::PropertyV::IncrementOnlyIntProp(_) => r matches Update::Int64PropertyUpdate(v)
            && v.uid == uid && v.property_name.value@ == property_name,
        crate::types::PropertyV::DecrementOnlyIntProp(_) => r matches Update::Int64PropertyUpdate(v)
            && v.uid == uid && v.property_name.value@ == property_name,
        crate::types::PropertyV::ImmutableIntProp(_) => r matches Update::Int64PropertyUpdate(v)
            && v.uid == uid && v.property_name.value@ == property_name,
        crate::types::PropertyV::ImmutableStrProp(_) => r matches Update::StringPropertyUpdate(v)
            && v.uid == uid && v.property_name.value@ == property_name,
    }
}

/// Whether an update is sourced in the given subgraph: it notifies either a
/// property of one of the subgraph's nodes or one of its edges.
pub open spec fn update_sourced(u: Update, subgraph: IdentifiedGraph) -> bool {
    match u {
        Update::EdgeUpdate(e) => exists|i: int|
            0 <= i < subgraph.edges@.len() && (#[trigger] subgraph.edges@[i]).from_uid == e.src_uid
                && subgraph.edges@[i].to_uid == e.dst_uid && subgraph.edges@[i].edge_name.value@
                == e.src_edge_name.value@,
        _ => exists|i: int, p: int|
            0 <= i < subgraph.nodes@.len() && 0 <= p < subgraph.nodes@[i].properties@.len()
                && matches_update(
                u,
                subgraph.nodes@[i].uid,
                (#[trigger] subgraph.nodes@[i].properties@[p]).0.value@,
                subgraph.nodes@[i].properties@[p].1@,
            ),
    }
}

/// Whether the schema resolves the reverse name of the subgraph's `i`-th
/// edge, given its source node's declared type.
pub open spec fn edge_resolvable(
    m: GraphMutationManager,
    tenant: u128,
    subgraph: IdentifiedGraph,
    i: int,
) -> bool {
    m.spec_resolver().spec_resolve(
        tenant,
        subgraph.spec_node_type_of(subgraph.edges@[i].from_uid.spec_as_u64())->Some_0,
        subgraph.edges@[i].edge_name.value@,
    ) is Some
}

/// Whether the subgraph's `i`-th edge stands in `m`'s store in both
/// directions, under the reverse name that `schema` resolves for it.
pub open spec fn edge_materialized(
    m: GraphMutationManager,
    schema: GraphMutationManager,
    tenant: u128,
    subgraph: IdentifiedGraph,
    i: int,
) -> bool {
    let from = subgraph.edges@[i].from_uid.spec_as_u64();
    let to = subgraph.edges@[i].to_uid.spec_as_u64();
    let en = subgraph.edges@[i].edge_name.value@;
    let rev = schema.spec_resolver().spec_resolve(
        tenant,
        subgraph.spec_node_type_of(from)->Some_0,
        en,
    )->Some_0;
    &&& m.spec_store().spec_edges().contains((tenant, from, en, rev, to))
    &&& m.spec_store().spec_edges().contains((tenant, to, rev, en, from))
}

/// The merger: drives the mutation engine over identified subgraphs and
/// collects the change notifications that are worth emitting.
pub struct GraphMerger {
    mg_client: GraphMutationManager,
}

impl GraphMerger {
    pub closed spec fn spec_manager(self) -> GraphMutationManager {
        self.mg_client
    }

    pub fn new(mg_client: GraphMutationManager) -> (r: GraphMerger)
        ensures
            r.spec_manager() == mg_client,
    {
        GraphMerger { mg_client }
    }

    /// The mutation engine, for querying the merged graph.
    pub fn manager(&self) -> (r: &GraphMutationManager)
        ensures
            *r == self.spec_manager(),
    {
        &self.mg_client
    }

    /// Merge one identified subgraph: upsert every node property and create
    /// every edge, collecting an update for each mutation that was not
    /// proven redundant. An empty subgraph short-circuits to an empty batch.
    /// Fails exactly when some edge's (source node type, edge name) pair has
    /// no reverse name in the schema; properties merged before the failing
    /// edge stay merged, and no partial edge is written.
    #[verifier::loop_isolation(false)]
    pub fn handle_event(&mut self, tenant_id: u128, subgraph: IdentifiedGraph) -> (r: Result<
        Updates,
        GraphMutationManagerError,
    >)
        requires
            old(self).spec_manager().wf(),
            forall|i: int|
                0 <= i < subgraph.edges@.len() ==> (#[trigger] subgraph.edges@[i]).from_uid.wf()
                    && subgraph.spec_node_type_of(subgraph.edges@[i].from_uid.spec_as_u64())
                    is Some,
        ensures
            final(self).spec_manager().wf(),
            subgraph.spec_is_empty() ==> (r matches Result::Ok(u) && u.updates@.len() == 0
                && *final(self) == *old(self)),
            r matches Result::Ok(u) ==> forall|k: int|
                0 <= k < u.updates@.len() ==> update_sourced(#[trigger] u.updates@[k], subgraph),
            r is Err <==> exists|i: int|
                0 <= i < subgraph.edges@.len() && !(#[trigger] edge_resolvable(
                    old(self).spec_manager(),
                    tenant_id,
                    subgraph,
                    i,
                )),
            r is Err ==> r matches Result::Err(GraphMutationManagerError::ReverseEdgeResolverError(
                _,
            )),
            r is Ok ==> forall|i: int|
                0 <= i < subgraph.edges@.len() ==> #[trigger] edge_materialized(
                    final(self).spec_manager(),
                    old(self).spec_manager(),
                    tenant_id,
                    subgraph,
                    i,
                ),
    {
        if subgraph.is_empty() {
            return Result::Ok(Updates { updates: Vec::new() });
        }
        let mut updates: Vec<Update> = Vec::new();
        let mut ni: usize = 0;
        while ni < subgraph.nodes.len()
            invariant
                self.spec_manager().wf(),
                ni <= subgraph.nodes@.len(),
                self.spec_manager().spec_resolver() == old(self).spec_manager().spec_resolver(),
                forall|k: int|
                    0 <= k < updates@.len() ==> update_sourced(#[trigger] updates@[k], subgraph),
            decreases subgraph.nodes@.len() - ni,
        {
            let node = &subgraph.nodes[ni];
            let mut pi: usize = 0;
            while pi < node.properties.len()
                invariant
                    self.spec_manager().wf(),
                    pi <= node.properties@.len(),
                    self.spec_manager().spec_resolver() == old(self).spec_manager().spec_resolver(),
                    forall|k: int|
                        0 <= k < updates@.len() ==> update_sourced(
                            #[trigger] updates@[k],
                            subgraph,
                        ),
                decreases node.properties@.len() - pi,
            {
                let prop_name = &node.properties[pi].0;
                let prop_value = &node.properties[pi].1;
                let update = property_to_update(
                    node.uid,
                    prop_name.value.clone(),
                    prop_value,
                );
                let redundancy = self.mg_client.set_node_property(
                    tenant_id,
                    node.uid,
                    node.node_type.clone(),
                    prop_name.clone(),
                    prop_value.clone_value(),
                );
                match redundancy {
                    MutationRedundancy::True => {},
                    MutationRedundancy::Maybe => {
                        proof {
                            assert(matches_update(
                                update,
                                subgraph.nodes@[ni as int].uid,
                                subgraph.nodes@[ni as int].properties@[pi as int].0.value@,
                                subgraph.nodes@[ni as int].properties@[pi as int].1@,
                            ));
                        }
                        updates.push(update);
                    },
                }
                pi = pi + 1;
            }
            ni = ni + 1;
        }
        let mut ei: usize = 0;
        while ei < subgraph.edges.len()
            invariant
                self.spec_manager().wf(),
                ei <= subgraph.edges@.len(),
                forall|t: u128, nt: Seq<char>, en: Seq<char>|
                    #[trigger] self.spec_manager().spec_resolver().spec_resolve(t, nt, en) == old(
                        self,
                    ).spec_manager().spec_resolver().spec_resolve(t, nt, en),
                forall|j: int|
                    0 <= j < ei ==> #[trigger] edge_resolvable(
                        old(self).spec_manager(),
                        tenant_id,
                        subgraph,
                        j,
                    ),
                forall|j: int|
                    0 <= j < ei ==> #[trigger] edge_materialized(
                        self.spec_manager(),
                        old(self).spec_manager(),
                        tenant_id,
                        subgraph,
                        j,
                    ),
                forall|k: int|
                    0 <= k < updates@.len() ==> update_sourced(#[trigger] updates@[k], subgraph),
            decreases subgraph.edges@.len() - ei,
        {
            let edge = &subgraph.edges[ei];
            let source_node_type = match Self::lookup_node_type(&subgraph.nodes, edge.from_uid.as_u64()) {
                Option::Some(t) => t,
                Option::None => {
                    // Unreachable: every edge endpoint carries a declared
                    // node, by this function's precondition.
                    proof {
                        assert(false);
                    }
                    return Result::Err(GraphMutationManagerError::ZeroUid);
                },
            };
            let ghost pre_store = self.spec_manager().spec_store();
            let ghost pre_mgr = self.spec_manager();
            let ghost snt: Seq<char> = source_node_type@;
            let ghost en: Seq<char> = edge.edge_name.value@;
            let ghost fromv: u64 = edge.from_uid.spec_as_u64();
            let ghost tov: u64 = edge.to_uid.spec_as_u64();
            let response = self.mg_client.create_edge(
                tenant_id,
                edge.from_uid,
                edge.to_uid,
                EdgeName { value: edge.edge_name.value.clone() },
                NodeType { value: source_node_type },
            );
            let redundancy = match response {
                Result::Ok(red) => red,
                Result::Err(e) => {
                    proof {
                        assert(!edge_resolvable(
                            old(self).spec_manager(),
                            tenant_id,
                            subgraph,
                            ei as int,
                        ));
                    }
                    return Result::Err(e);
                },
            };
            proof {
                assert(subgraph.spec_node_type_of(fromv) == Option::Some(snt));
                assert(pre_mgr.spec_resolver().spec_resolve(tenant_id, snt, en) is Some);
                assert(old(self).spec_manager().spec_resolver().spec_resolve(tenant_id, snt, en)
                    == pre_mgr.spec_resolver().spec_resolve(tenant_id, snt, en));
                assert(edge_resolvable(old(self).spec_manager(), tenant_id, subgraph, ei as int));
                let rev = old(self).spec_manager().spec_resolver().spec_resolve(
                    tenant_id,
                    snt,
                    en,
                )->Some_0;
                assert(self.spec_manager().spec_store().spec_edges().contains(
                    (tenant_id, fromv, en, rev, tov),
                ));
                assert(self.spec_manager().spec_store().spec_edges().contains(
                    (tenant_id, tov, rev, en, fromv),
                ));
                assert(edge_materialized(
                    self.spec_manager(),
                    old(self).spec_manager(),
                    tenant_id,
                    subgraph,
                    ei as int,
                ));
                assert forall|j: int|
                    0 <= j < ei implies #[trigger] edge_materialized(
                    self.spec_manager(),
                    old(self).spec_manager(),
                    tenant_id,
                    subgraph,
                    j,
                ) by {
                    assert(edge_materialized(
                        pre_mgr,
                        old(self).spec_manager(),
                        tenant_id,
                        subgraph,
                        j,
                    ));
                    assert(self.spec_manager().spec_store().spec_edges() == pre_store.spec_edges()
                        || self.spec_manager().spec_store().spec_edges() == pre_store.spec_edges()
                        .insert(
                        (
                            tenant_id,
                            subgraph.edges@[ei as int].from_uid.spec_as_u64(),
                            subgraph.edges@[ei as int].edge_name.value@,
                            old(self).spec_manager().spec_resolver().spec_resolve(
                                tenant_id,
                                subgraph.spec_node_type_of(
                                    subgraph.edges@[ei as int].from_uid.spec_as_u64(),
                                )->Some_0,
                                subgraph.edges@[ei as int].edge_name.value@,
                            )->Some_0,
                            subgraph.edges@[ei as int].to_uid.spec_as_u64(),
                        ),
                    ).insert(
                        (
                            tenant_id,
                            subgraph.edges@[ei as int].to_uid.spec_as_u64(),
                            old(self).spec_manager().spec_resolver().spec_resolve(
                                tenant_id,
                                subgraph.spec_node_type_of(
                                    subgraph.edges@[ei as int].from_uid.spec_as_u64(),
                                )->Some_0,
                                subgraph.edges@[ei as int].edge_name.value@,
                            )->Some_0,
                            subgraph.edges@[ei as int].edge_name.value@,
                            subgraph.edges@[ei as int].from_uid.spec_as_u64(),
                        ),
                    ));
                }
            }
            match redundancy {
                MutationRedundancy::True => {},
                MutationRedundancy::Maybe => {
                    let u = Update::EdgeUpdate(
                        EdgeUpdate {
                            src_edge_name: EdgeName { value: edge.edge_name.value.clone() },
                            src_node_type: NodeType {
                                value: Self::lookup_node_type_or_empty(
                                    &subgraph.nodes,
                                    edge.from_uid.as_u64(),
                                ),
                            },
                            src_uid: edge.from_uid,
                            dst_uid: edge.to_uid,
                        },
                    );
                    proof {
                        assert(update_sourced(u, subgraph));
                    }
                    updates.push(u);
                },
            }
            ei = ei + 1;
        }
        Result::Ok(Updates { updates })
    }

    fn lookup_node_type(nodes: &Vec<IdentifiedNode>, uid: u64) -> (r: Option<String>)
        ensures
            match r {
                Option::Some(t) => node_type_of(nodes@, uid) == Option::Some(t@),
                Option::None => node_type_of(nodes@, uid) is None,
            },
    {
        let mut idx: usize = 0;
        while idx < nodes.len()
            invariant
                idx <= nodes@.len(),
                forall|j: int| 0 <= j < idx ==> nodes@[j].uid.spec_as_u64() != uid,
            decreases nodes@.len() - idx,
        {
            if nodes[idx].uid.as_u64() == uid {
                proof {
                    lemma_node_type_of_first_match(nodes@, idx as int);
                }
                return Option::Some(nodes[idx].node_type.value.clone());
            }
            idx = idx + 1;
        }
        proof {
            lemma_node_type_of_absent(nodes@, uid);
        }
        Option::None
    }

    fn lookup_node_type_or_empty(nodes: &Vec<IdentifiedNode>, uid: u64) -> (r: String) {
        match Self::lookup_node_type(nodes, uid) {
            Option::Some(t) => t,
            Option::None => String::new(),
        }
    }
}

} // verus!
