//! The per-tenant uid allocator.
//!
//! Node identifiers are dense, strictly positive 64-bit integers, handed out
//! in contiguous ranges and never reused within a tenant's lifetime. Zero is
//! the invalid sentinel: the allocator returns it only when a tenant's
//! counter is broken or exhausted, and callers treat it as a fatal
//! allocation failure.

use vstd::prelude::*;

verus! {

/// A contiguous range of allocated identifiers: `start`, `start + 1`, ...,
/// `start + offset - 1`. A valid allocation is never empty or zero-valued.
#[derive(Clone, Copy, Debug, PartialEq, Eq, Structural)]
pub struct Allocation {
    pub start: u64,
    pub offset: u32,
}

/// A request for a range of identifiers for one tenant.
#[derive(Clone, Copy, Debug, PartialEq, Eq, Structural)]
pub struct AllocateIdsRequest {
    pub count: u32,
    pub tenant_id: u128,
}

/// The allocator's answer: the granted range, possibly smaller than asked.
#[derive(Clone, Copy, Debug, PartialEq, Eq, Structural)]
pub struct AllocateIdsResponse {
    pub allocation: Allocation,
}

pub open spec fn next_of(counters: Seq<(u128, u64)>, tenant: u128) -> u64
    decreases counters.len(),
{
    if counters.len() == 0 {
        1u64
    } else if counters[0].0 == tenant {
        counters[0].1
    } else {
        next_of(counters.drop_first(), tenant)
    }
}

proof fn lemma_next_first_match(counters: Seq<(u128, u64)>, i: int, tenant: u128)
    requires
        0 <= i < counters.len(),
        counters[i].0 == tenant,
        forall|j: int| 0 <= j < i ==> counters[j].0 != tenant,
    ensures
        next_of(counters, tenant) == counters[i].1,
    decreases counters.len(),
{
    if i > 0 {
        assert forall|j: int| 0 <= j < i - 1 implies counters.drop_first()[j].0 != tenant by {
            assert(counters.drop_first()[j] == counters[j + 1]);
        }
        assert(counters.drop_first()[i - 1] == counters[i]);
        lemma_next_first_match(counters.drop_first(), i - 1, tenant);
    }
}

proof fn lemma_next_absent(counters: Seq<(u128, u64)>, tenant: u128)
    requires
        forall|j: int| 0 <= j < counters.len() ==> counters[j].0 != tenant,
    ensures
        next_of(counters, tenant) == 1u64,
    decreases counters.len(),
{
    if counters.len() > 0 {
        assert forall|j: int|
            0 <= j < counters.drop_first().len() implies counters.drop_first()[j].0 != tenant by {
            assert(counters.drop_first()[j] == counters[j + 1]);
        }
        lemma_next_absent(counters.drop_first(), tenant);
    }
}

proof fn lemma_next_update(counters: Seq<(u128, u64)>, i: int, e: (u128, u64), tenant: u128)
    requires
        0 <= i < counters.len(),
        counters[i].0 == e.0,
        forall|j: int| 0 <= j < i ==> counters[j].0 != e.0,
    ensures
        next_of(counters.update(i, e), tenant) == if tenant == e.0 {
            e.1
        } else {
            next_of(counters, tenant)
        },
    decreases counters.len(),
{
    let s = counters.update(i, e);
    if i == 0 {
        assert(s.drop_first() =~= counters.drop_first());
        assert(s[0] == e);
    } else {
        assert(s[0] == counters[0]);
        assert(s.drop_first() =~= counters.drop_first().update(i - 1, e));
        assert forall|j: int| 0 <= j < i - 1 implies counters.drop_first()[j].0 != e.0 by {
            assert(counters.drop_first()[j] == counters[j + 1]);
        }
        assert(counters.drop_first()[i - 1] == counters[i]);
        lemma_next_update(counters.drop_first(), i - 1, e, tenant);
        assert(counters[0].0 != e.0);
    }
}

proof fn lemma_next_push(counters: Seq<(u128, u64)>, e: (u128, u64), tenant: u128)
    requires
        forall|j: int| 0 <= j < counters.len() ==> counters[j].0 != e.0,
    ensures
        next_of(counters.push(e), tenant) == if tenant == e.0 {
            e.1
        } else {
            next_of(counters, tenant)
        },
    decreases counters.len(),
{
    let s = counters.push(e);
    assert(s.len() == counters.len() + 1);
    if counters.len() == 0 {
        assert(s.drop_first() =~= Seq::<(u128, u64)>::empty());
        assert(s[0] == e);
        if tenant != e.0 {
            lemma_next_absent(s.drop_first(), tenant);
        }
    } else {
        assert(s[0] == counters[0]);
        assert(s.drop_first() =~= counters.drop_first().push(e));
        assert forall|j: int|
            0 <= j < counters.drop_first().len() implies counters.drop_first()[j].0 != e.0 by {
            assert(counters.drop_first()[j] == counters[j + 1]);
        }
        lemma_next_push(counters.drop_first(), e, tenant);
        assert(counters[0].0 != e.0);
    }
}

/// The allocator model: one monotone counter per tenant, starting at 1.
pub struct UidAllocator {
    counters: Vec<(u128, u64)>,
}

impl UidAllocator {
    /// The next identifier this allocator will hand out for a tenant.
    pub closed spec fn spec_next(self, tenant: u128) -> u64 {
        next_of(self.counters@, tenant)
    }

    pub closed spec fn wf(self) -> bool {
        forall|a: int, b: int|
            0 <= a < b < self.counters@.len() ==> self.counters@[a].0 != self.counters@[b].0
    }

    /// A fresh allocator: every tenant's next identifier is 1.
    pub fn new() -> (r: UidAllocator)
        ensures
            r.wf(),
            forall|t: u128| r.spec_next(t) == 1u64,
    {
        let r = UidAllocator { counters: Vec::new() };
        proof {
            assert forall|t: u128| r.spec_next(t) == 1u64 by {
                lemma_next_absent(r.counters@, t);
            }
        }
        r
    }

    /// An allocator with explicit counter state; a counter of zero or
    /// `u64::MAX` makes the next allocation for that tenant fail.
    pub fn from_counters(counters: Vec<(u128, u64)>) -> (r: UidAllocator)
        requires
            forall|a: int, b: int|
                0 <= a < b < counters@.len() ==> counters@[a].0 != counters@[b].0,
        ensures
            r.wf(),
            forall|t: u128| #[trigger] r.spec_next(t) == next_of(counters@, t),
    {
        UidAllocator { counters }
    }

    fn find_index(&self, tenant: u128) -> (r: Option<usize>)
        requires
            self.wf(),
        ensures
            match r {
                Option::Some(i) => {
                    &&& i < self.counters@.len()
                    &&& self.counters@[i as int].0 == tenant
                    &&& (forall|j: int| 0 <= j < i ==> self.counters@[j].0 != tenant)
                    &&& self.spec_next(tenant) == self.counters@[i as int].1
                },
                Option::None => {
                    &&& forall|j: int| 0 <= j < self.counters@.len() ==> self.counters@[j].0 != tenant
                    &&& self.spec_next(tenant) == 1u64
                },
            },
    {
        let mut idx: usize = 0;
        while idx < self.counters.len()
            invariant
                idx <= self.counters@.len(),
                forall|j: int| 0 <= j < idx ==> self.counters@[j].0 != tenant,
            decreases self.counters@.len() - idx,
        {
            if self.counters[idx].0 == tenant {
                proof {
                    lemma_next_first_match(self.counters@, idx as int, tenant);
                }
                return Option::Some(idx);
            }
            idx = idx + 1;
        }
        proof {
            lemma_next_absent(self.counters@, tenant);
        }
        Option::None
    }

    /// Lease one identifier. Returns the tenant's next identifier and
    /// advances the counter; returns the zero sentinel, changing nothing,
    /// when the counter is broken (zero) or exhausted.
    pub fn allocate_id(&mut self, tenant: u128) -> (r: u64)
        requires
            old(self).wf(),
        ensures
            final(self).wf(),
            ({
                let n = old(self).spec_next(tenant);
                if 0 < n < u64::MAX {
                    r == n && final(self).spec_next(tenant) == n + 1
                } else {
                    r == 0 && *final(self) == *old(self)
                }
            }),
            forall|t2: u128|
                t2 != tenant ==> #[trigger] final(self).spec_next(t2) == old(self).spec_next(t2),
    {
        let found = self.find_index(tenant);
        match found {
            Option::Some(i) => {
                let n = self.counters[i].1;
                if n == 0 || n == u64::MAX {
                    return 0;
                }
                proof {
                    assert forall|t2: u128| #[trigger] next_of(
                        self.counters@.update(i as int, (tenant, (n + 1) as u64)),
                        t2,
                    ) == if t2 == tenant {
                        (n + 1) as u64
                    } else {
                        next_of(self.counters@, t2)
                    } by {
                        lemma_next_update(self.counters@, i as int, (tenant, (n + 1) as u64), t2);
                    }
                    let s2 = self.counters@.update(i as int, (tenant, (n + 1) as u64));
                    assert forall|a: int, b: int|
                        0 <= a < b < s2.len() implies (#[trigger] s2[a]).0 != (#[trigger] s2[b]).0 by {
                        assert(self.counters@[a].0 != self.counters@[b].0);
                    }
                }
                self.counters.set(i, (tenant, n + 1));
                n
            },
            Option::None => {
                proof {
                    assert forall|t2: u128| #[trigger] next_of(
                        self.counters@.push((tenant, 2u64)),
                        t2,
                    ) == if t2 == tenant {
                        2u64
                    } else {
                        next_of(self.counters@, t2)
                    } by {
                        lemma_next_push(self.counters@, (tenant, 2u64), t2);
                    }
                    let s2 = self.counters@.push((tenant, 2u64));
                    assert forall|a: int, b: int|
                        0 <= a < b < s2.len() implies (#[trigger] s2[a]).0 != (#[trigger] s2[b]).0 by {
                        if b < self.counters@.len() {
                            assert(self.counters@[a].0 != self.counters@[b].0);
                        } else {
                            assert(s2[b] == (tenant, 2u64));
                        }
                    }
                }
                self.counters.push((tenant, 2));
                1
            },
        }
    }

    /// Lease a contiguous range. The granted range may be smaller than the
    /// request but is never empty or zero-valued; `None` only when the
    /// tenant's counter is broken or exhausted.
    pub fn allocate_ids(&mut self, request: AllocateIdsRequest) -> (r: Option<AllocateIdsResponse>)
        requires
            old(self).wf(),
        ensures
            final(self).wf(),
            ({
                let n = old(self).spec_next(request.tenant_id);
                match r {
                    Option::Some(resp) => {
                        &&& 0 < n < u64::MAX
                        &&& resp.allocation.start == n
                        &&& 1 <= resp.allocation.offset
                        &&& resp.allocation.offset <= if request.count == 0 {
                            1u32
                        } else {
                            request.count
                        }
                        &&& final(self).spec_next(request.tenant_id) == n + resp.allocation.offset
                    },
                    Option::None => !(0 < n < u64::MAX) && *final(self) == *old(self),
                }
            }),
            forall|t2: u128|
                t2 != request.tenant_id ==> #[trigger] final(self).spec_next(t2) == old(
                    self,
                ).spec_next(t2),
    {
        let tenant = request.tenant_id;
        let want: u32 = if request.count == 0 {
            1
        } else {
            request.count
        };
        let found = self.find_index(tenant);
        let n: u64 = match found {
            Option::Some(i) => self.counters[i].1,
            Option::None => 1,
        };
        if n == 0 || n == u64::MAX {
            return Option::None;
        }
        let avail: u64 = u64::MAX - n;
        let offset: u32 = if (want as u64) <= avail {
            want
        } else {
            avail as u32
        };
        let next: u64 = n + (offset as u64);
        match found {
            Option::Some(i) => {
                proof {
                    assert forall|t2: u128| #[trigger] next_of(
                        self.counters@.update(i as int, (tenant, next)),
                        t2,
                    ) == if t2 == tenant {
                        next
                    } else {
                        next_of(self.counters@, t2)
                    } by {
                        lemma_next_update(self.counters@, i as int, (tenant, next), t2);
                    }
                    let s2 = self.counters@.update(i as int, (tenant, next));
                    assert forall|a: int, b: int|
                        0 <= a < b < s2.len() implies (#[trigger] s2[a]).0 != (#[trigger] s2[b]).0 by {
                        assert(self.counters@[a].0 != self.counters@[b].0);
                    }
                }
                self.counters.set(i, (tenant, next));
            },
            Option::None => {
                proof {
                    assert forall|t2: u128| #[trigger] next_of(
                        self.counters@.push((tenant, next)),
                        t2,
                    ) == if t2 == tenant {
                        next
                    } else {
                        next_of(self.counters@, t2)
                    } by {
                        lemma_next_push(self.counters@, (tenant, next), t2);
                    }
                    let s2 = self.counters@.push((tenant, next));
                    assert forall|a: int, b: int|
                        0 <= a < b < s2.len() implies (#[trigger] s2[a]).0 != (#[trigger] s2[b]).0 by {
                        if b < self.counters@.len() {
                            assert(self.counters@[a].0 != self.counters@[b].0);
                        } else {
                            assert(s2[b] == (tenant, next));
                        }
                    }
                }
                self.counters.push((tenant, next));
            },
        }
        Option::Some(AllocateIdsResponse { allocation: Allocation { start: n, offset } })
    }
}

} // verus!
