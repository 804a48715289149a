//! The reverse edge resolver.
//!
//! Every forward edge has a canonical reverse name configured per
//! (tenant, source node type, forward edge name) by the schema manager. The
//! resolver keeps a local cache of resolved names and falls back to the
//! schema on a miss; an unmapped pair is a resolution error, fatal to the
//! enclosing edge creation. The cache only ever holds entries that agree
//! with the schema, so what a resolution returns never depends on the cache.

use vstd::prelude::*;

use crate::types::{EdgeName, NodeType, ReverseEdgeResolverError};

verus! {

/// One schema mapping: (tenant, source node type, forward edge name) to the
/// canonical reverse edge name.
#[derive(Clone, Debug)]
pub struct SchemaEntry {
    pub tenant: u128,
    pub node_type: String,
    pub edge_name: String,
    pub reverse_edge_name: String,
}

impl SchemaEntry {
    pub open spec fn key_v(self) -> (u128, Seq<char>, Seq<char>) {
        (self.tenant, self.node_type@, self.edge_name@)
    }
}

pub open spec fn resolve_of(
    entries: Seq<SchemaEntry>,
    tenant: u128,
    node_type: Seq<char>,
    edge_name: Seq<char>,
) -> Option<Seq<char>>
    decreases entries.len(),
{
    if entries.len() == 0 {
        Option::None
    } else if entries[0].key_v() == (tenant, node_type, edge_name) {
        Option::Some(entries[0].reverse_edge_name@)
    } else {
        resolve_of(entries.drop_first(), tenant, node_type, edge_name)
    }
}

proof fn lemma_resolve_first_match(
    entries: Seq<SchemaEntry>,
    i: int,
    tenant: u128,
    node_type: Seq<char>,
    edge_name: Seq<char>,
)
    requires
        0 <= i < entries.len(),
        entries[i].key_v() == (tenant, node_type, edge_name),
        forall|j: int| 0 <= j < i ==> entries[j].key_v() != (tenant, node_type, edge_name),
    ensures
        resolve_of(entries, tenant, node_type, edge_name) == Option::Some(
            entries[i].reverse_edge_name@,
        ),
    decreases entries.len(),
{
    if i > 0 {
        assert forall|j: int|
            0 <= j < i - 1 implies entries.drop_first()[j].key_v() != (
            tenant,
            node_type,
            edge_name,
        ) by {
            assert(entries.drop_first()[j] == entries[j + 1]);
        }
        assert(entries.drop_first()[i - 1] == entries[i]);
        lemma_resolve_first_match(entries.drop_first(), i - 1, tenant, node_type, edge_name);
    }
}

proof fn lemma_resolve_absent(
    entries: Seq<SchemaEntry>,
    tenant: u128,
    node_type: Seq<char>,
    edge_name: Seq<char>,
)
    requires
        forall|j: int|
            0 <= j < entries.len() ==> entries[j].key_v() != (tenant, node_type, edge_name),
    ensures
        resolve_of(entries, tenant, node_type, edge_name) is None,
    decreases entries.len(),
{
    if entries.len() > 0 {
        assert forall|j: int|
            0 <= j < entries.drop_first().len() implies entries.drop_first()[j].key_v() != (
            tenant,
            node_type,
            edge_name,
        ) by {
            assert(entries.drop_first()[j] == entries[j + 1]);
        }
        lemma_resolve_absent(entries.drop_first(), tenant, node_type, edge_name);
    }
}

/// Resolves the reverse name of a forward edge, with a local cache and the
/// configured schema as fallback.
pub struct ReverseEdgeResolver {
    schema: Vec<SchemaEntry>,
    cache: Vec<SchemaEntry>,
}

impl ReverseEdgeResolver {
    /// What the schema maps a (tenant, node type, edge name) triple to.
    pub closed spec fn spec_resolve(
        self,
        tenant: u128,
        node_type: Seq<char>,
        edge_name: Seq<char>,
    ) -> Option<Seq<char>> {
        resolve_of(self.schema@, tenant, node_type, edge_name)
    }

    /// Cached entries always agree with the schema.
    pub closed spec fn wf(self) -> bool {
        forall|i: int|
            0 <= i < self.cache@.len() ==> #[trigger] resolve_of(
                self.schema@,
                self.cache@[i].tenant,
                self.cache@[i].node_type@,
                self.cache@[i].edge_name@,
            ) == Option::Some(self.cache@[i].reverse_edge_name@)
    }

    /// A resolver over the given schema mappings; earlier entries shadow
    /// later ones with the same key.
    pub fn new(schema: Vec<SchemaEntry>) -> (r: ReverseEdgeResolver)
        ensures
            r.wf(),
            forall|t: u128, nt: Seq<char>, en: Seq<char>|
                #[trigger] r.spec_resolve(t, nt, en) == resolve_of(schema@, t, nt, en),
    {
        ReverseEdgeResolver { schema, cache: Vec::new() }
    }

    fn lookup(
        entries: &Vec<SchemaEntry>,
        tenant: u128,
        node_type: &NodeType,
        edge_name: &EdgeName,
    ) -> (r: Option<usize>)
        ensures
            match r {
                Option::Some(i) => {
                    &&& i < entries@.len()
                    &&& entries@[i as int].key_v() == (
                        tenant,
                        node_type.value@,
                        edge_name.value@,
                    )
                    &&& resolve_of(entries@, tenant, node_type.value@, edge_name.value@)
                        == Option::Some(entries@[i as int].reverse_edge_name@)
                },
                Option::None => resolve_of(entries@, tenant, node_type.value@, edge_name.value@)
                    is None,
            },
    {
        let mut idx: usize = 0;
        while idx < entries.len()
            invariant
                idx <= entries@.len(),
                forall|j: int|
                    0 <= j < idx ==> entries@[j].key_v() != (
                    tenant,
                    node_type.value@,
                    edge_name.value@,
                    ),
            decreases entries@.len() - idx,
        {
            let e = &entries[idx];
            if e.tenant == tenant && e.node_type == node_type.value && e.edge_name
                == edge_name.value {
                proof {
                    lemma_resolve_first_match(
                        entries@,
                        idx as int,
                        tenant,
                        node_type.value@,
                        edge_name.value@,
                    );
                }
                return Option::Some(idx);
            }
            idx = idx + 1;
        }
        proof {
            lemma_resolve_absent(entries@, tenant, node_type.value@, edge_name.value@);
        }
        Option::None
    }

    /// Resolve the canonical reverse name of a forward edge. Succeeds with
    /// the schema's mapping exactly when one is configured; an unmapped pair
    /// is an error and nothing is written.
    pub fn resolve_reverse_edge(
        &mut self,
        tenant: u128,
        node_type: &NodeType,
        edge_name: &EdgeName,
    ) -> (r: Result<EdgeName, ReverseEdgeResolverError>)
        requires
            old(self).wf(),
        ensures
            final(self).wf(),
            forall|t: u128, nt: Seq<char>, en: Seq<char>|
                #[trigger] final(self).spec_resolve(t, nt, en) == old(self).spec_resolve(t, nt, en),
            match r {
                Result::Ok(rev) => old(self).spec_resolve(tenant, node_type.value@, edge_name.value@)
                    == Option::Some(rev.value@),
                Result::Err(_) => old(self).spec_resolve(
                    tenant,
                    node_type.value@,
                    edge_name.value@,
                ) is None,
            },
    {
        let cached = Self::lookup(&self.cache, tenant, node_type, edge_name);
        match cached {
            Option::Some(i) => {
                let ghost j = i as int;
                assert(resolve_of(
                    self.schema@,
                    self.cache@[j].tenant,
                    self.cache@[j].node_type@,
                    self.cache@[j].edge_name@,
                ) == Option::Some(self.cache@[j].reverse_edge_name@));
                return Result::Ok(EdgeName { value: self.cache[i].reverse_edge_name.clone() });
            },
            Option::None => {},
        }
        let found = Self::lookup(&self.schema, tenant, node_type, edge_name);
        match found {
            Option::Some(i) => {
                let entry = SchemaEntry {
                    tenant,
                    node_type: node_type.value.clone(),
                    edge_name: edge_name.value.clone(),
                    reverse_edge_name: self.schema[i].reverse_edge_name.clone(),
                };
                let rev = EdgeName { value: entry.reverse_edge_name.clone() };
                proof {
                    let c = self.cache@.push(entry);
                    assert forall|k: int|
                        0 <= k < c.len() implies #[trigger] resolve_of(
                        self.schema@,
                        c[k].tenant,
                        c[k].node_type@,
                        c[k].edge_name@,
                    ) == Option::Some(c[k].reverse_edge_name@) by {
                        if k < self.cache@.len() {
                            assert(c[k] == self.cache@[k]);
                        } else {
                            assert(c[k] == entry);
                        }
                    }
                }
                self.cache.push(entry);
                Result::Ok(rev)
            },
            Option::None => Result::Err(
                ReverseEdgeResolverError::UnmappedEdge {
                    node_type: node_type.value.clone(),
                    edge_name: edge_name.value.clone(),
                },
            ),
        }
    }
}

} // verus!
