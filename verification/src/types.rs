//! Core identifiers and value types of the property graph.

use vstd::prelude::*;

verus! {

/// A tenant is identified by a 128-bit key; storage rows for different
/// tenants never interact.
pub type TenantId = u128;

/// A tenant-scoped, strictly positive node identifier. Zero is the invalid
/// sentinel used by the allocator to signal failure, so a constructed `Uid`
/// is never zero.
#[derive(Clone, Copy, Debug, PartialEq, Eq, Structural, Hash)]
pub struct Uid {
    value: u64,
}

impl Uid {
    /// The identifier as a plain integer; always nonzero.
    pub closed spec fn spec_as_u64(self) -> u64 {
        self.value
    }

    /// A `Uid` built by `from_u64` or `from_i64` is strictly positive.
    pub open spec fn wf(self) -> bool {
        self.spec_as_u64() != 0
    }

    pub fn from_u64(value: u64) -> (r: Option<Uid>)
        ensures
            value == 0 ==> r is None,
            value != 0 ==> (r matches Some(u) && u.wf() && u.spec_as_u64() == value),
    {
        if value == 0 {
            None
        } else {
            Some(Uid { value })
        }
    }

    pub fn from_i64(value: i64) -> (r: Option<Uid>)
        ensures
            value == 0 ==> r is None,
            value != 0 ==> (r matches Some(u) && u.wf() && u.spec_as_u64() == value as u64),
    {
        proof {
            assert(value != 0 ==> value as u64 != 0) by (bit_vector);
        }
        #[verifier::truncate]
        let raw: u64 = value as u64;
        Uid::from_u64(raw)
    }

    pub fn as_u64(&self) -> (r: u64)
        ensures
            r == self.spec_as_u64(),
    {
        self.value
    }

    /// The storage representation of the identifier; identifiers above
    /// `i64::MAX` wrap to negative, as the storage column is signed.
    pub fn as_i64(&self) -> (r: i64)
        ensures
            r == self.spec_as_u64() as i64,
    {
        #[verifier::truncate]
        let r: i64 = self.value as i64;
        r
    }
}

/// The name of a node's type. Opaque interned string; equality is exact.
#[derive(Clone, Debug)]
pub struct NodeType {
    pub value: String,
}

/// The name of a node property. Opaque interned string; equality is exact.
#[derive(Clone, Debug)]
pub struct PropertyName {
    pub value: String,
}

/// The label of an edge. Opaque interned string; equality is exact.
#[derive(Clone, Debug)]
pub struct EdgeName {
    pub value: String,
}

/// A property value, tagged with its conflict semantics.
///
/// Increment-only kinds converge to the maximum value ever written,
/// decrement-only kinds to the minimum; immutable kinds are fixed by their
/// first write and later writes are no-ops.
#[derive(Clone, Debug)]
pub enum Property {
    IncrementOnlyUintProp(u64),
    DecrementOnlyUintProp(u64),
    ImmutableUintProp(u64),
    IncrementOnlyIntProp(i64),
    DecrementOnlyIntProp(i64),
    ImmutableIntProp(i64),
    ImmutableStrProp(String),
}

/// The mathematical image of a property value.
pub enum PropertyV {
    IncrementOnlyUintProp(u64),
    DecrementOnlyUintProp(u64),
    ImmutableUintProp(u64),
    IncrementOnlyIntProp(i64),
    DecrementOnlyIntProp(i64),
    ImmutableIntProp(i64),
    ImmutableStrProp(Seq<char>),
}

impl View for Property {
    type V = PropertyV;

    open spec fn view(&self) -> PropertyV {
        match self {
            Property::IncrementOnlyUintProp(v) => PropertyV::IncrementOnlyUintProp(*v),
            Property::DecrementOnlyUintProp(v) => PropertyV::DecrementOnlyUintProp(*v),
            Property::ImmutableUintProp(v) => PropertyV::ImmutableUintProp(*v),
            Property::IncrementOnlyIntProp(v) => PropertyV::IncrementOnlyIntProp(*v),
            Property::DecrementOnlyIntProp(v) => PropertyV::DecrementOnlyIntProp(*v),
            Property::ImmutableIntProp(v) => PropertyV::ImmutableIntProp(*v),
            Property::ImmutableStrProp(s) => PropertyV::ImmutableStrProp(s@),
        }
    }
}

impl Property {
    /// A copy of the property with the same mathematical image.
    pub fn clone_value(&self) -> (r: Property)
        ensures
            r@ == self@,
    {
        match self {
            Property::IncrementOnlyUintProp(v) => Property::IncrementOnlyUintProp(*v),
            Property::DecrementOnlyUintProp(v) => Property::DecrementOnlyUintProp(*v),
            Property::ImmutableUintProp(v) => Property::ImmutableUintProp(*v),
            Property::IncrementOnlyIntProp(v) => Property::IncrementOnlyIntProp(*v),
            Property::DecrementOnlyIntProp(v) => Property::DecrementOnlyIntProp(*v),
            Property::ImmutableIntProp(v) => Property::ImmutableIntProp(*v),
            Property::ImmutableStrProp(s) => Property::ImmutableStrProp(s.clone()),
        }
    }
}

/// What became of one gated storage write.
#[derive(Clone, Copy, Debug, PartialEq, Eq, Structural)]
pub enum Write {
    /// A storage write was actually sent.
    Issued,
    /// The write was elided because the cache proved it redundant.
    Dropped,
}

/// The caller-visible redundancy signal of a mutation.
///
/// `True` means the mutation was proven redundant and no write was sent.
/// `Maybe` means a write was sent, but asynchronous conflict resolution may
/// still discard it, so the externally visible value may or may not change.
#[derive(Clone, Copy, Debug, PartialEq, Eq, Structural)]
pub enum MutationRedundancy {
    True,
    Maybe,
}

impl MutationRedundancy {
    /// The redundancy signal corresponding to a write outcome.
    pub open spec fn spec_of_write(w: Write) -> MutationRedundancy {
        match w {
            Write::Dropped => MutationRedundancy::True,
            Write::Issued => MutationRedundancy::Maybe,
        }
    }

    pub fn of_write(w: Write) -> (r: MutationRedundancy)
        ensures
            r == MutationRedundancy::spec_of_write(w),
    {
        match w {
            Write::Dropped => MutationRedundancy::True,
            Write::Issued => MutationRedundancy::Maybe,
        }
    }
}

/// Failure of reverse-edge resolution: the schema defines no reverse name
/// for the given (tenant, node type, edge name).
#[derive(Clone, Debug)]
pub enum ReverseEdgeResolverError {
    UnmappedEdge { node_type: String, edge_name: String },
}

/// Failures of the mutation operations.
#[derive(Clone, Debug)]
pub enum GraphMutationManagerError {
    /// The allocator returned the invalid zero identifier.
    ZeroUid,
    /// No reverse edge name is configured; no partial edge is written.
    ReverseEdgeResolverError(ReverseEdgeResolverError),
}

} // verus!
