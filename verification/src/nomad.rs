//! Parameter and model values for the cluster scheduler's HTTP API.
//!
//! Only the plain values live here; building and sending the requests is
//! transport work and stays outside the verified library.

use vstd::prelude::*;

verus! {

/// Parameters of an evaluation lookup.
#[derive(Clone, Debug)]
pub struct GetEvaluationParams {
    /// Evaluation ID.
    pub eval_id: String,
    /// Filters results based on the specified region.
    pub region: Option<String>,
    /// Filters results based on the specified namespace.
    pub namespace: Option<String>,
    /// If set, wait until query exceeds given index. Must be provided with WaitParam.
    pub index: Option<i32>,
    /// Provided with IndexParam to wait for change.
    pub wait: Option<String>,
    /// If present, results will include stale reads.
    pub stale: Option<String>,
    /// Constrains results to jobs that start with the defined prefix.
    pub prefix: Option<String>,
    /// An ACL token.
    pub x_nomad_token: Option<String>,
    /// Maximum number of results to return.
    pub per_page: Option<i32>,
    /// Indicates where to start paging for queries that support pagination.
    pub next_token: Option<String>,
}

/// Parameters of an evaluation-allocations lookup.
#[derive(Clone, Debug)]
pub struct GetEvaluationAllocationsParams {
    /// Evaluation ID.
    pub eval_id: String,
    /// Filters results based on the specified region.
    pub region: Option<String>,
    /// Filters results based on the specified namespace.
    pub namespace: Option<String>,
    /// If set, wait until query exceeds given index. Must be provided with WaitParam.
    pub index: Option<i32>,
    /// Provided with IndexParam to wait for change.
    pub wait: Option<String>,
    /// If present, results will include stale reads.
    pub stale: Option<String>,
    /// Constrains results to jobs that start with the defined prefix.
    pub prefix: Option<String>,
    /// An ACL token.
    pub x_nomad_token: Option<String>,
    /// Maximum number of results to return.
    pub per_page: Option<i32>,
    /// Indicates where to start paging for queries that support pagination.
    pub next_token: Option<String>,
}

/// Parameters of an evaluations listing.
#[derive(Clone, Debug)]
pub struct GetEvaluationsParams {
    /// Filters results based on the specified region.
    pub region: Option<String>,
    /// Filters results based on the specified namespace.
    pub namespace: Option<String>,
    /// If set, wait until query exceeds given index. Must be provided with WaitParam.
    pub index: Option<i32>,
    /// Provided with IndexParam to wait for change.
    pub wait: Option<String>,
    /// If present, results will include stale reads.
    pub stale: Option<String>,
    /// Constrains results to jobs that start with the defined prefix.
    pub prefix: Option<String>,
    /// An ACL token.
    pub x_nomad_token: Option<String>,
    /// Maximum number of results to return.
    pub per_page: Option<i32>,
    /// Indicates where to start paging for queries that support pagination.
    pub next_token: Option<String>,
}

/// Parameters of a garbage-collection trigger.
#[derive(Clone, Debug)]
pub struct PutSystemGcParams {
    /// Filters results based on the specified region.
    pub region: Option<String>,
    /// Filters results based on the specified namespace.
    pub namespace: Option<String>,
    /// If set, wait until query exceeds given index. Must be provided with WaitParam.
    pub index: Option<i32>,
    /// Provided with IndexParam to wait for change.
    pub wait: Option<String>,
    /// If present, results will include stale reads.
    pub stale: Option<String>,
    /// Constrains results to jobs that start with the defined prefix.
    pub prefix: Option<String>,
    /// An ACL token.
    pub x_nomad_token: Option<String>,
    /// Maximum number of results to return.
    pub per_page: Option<i32>,
    /// Indicates where to start paging for queries that support pagination.
    pub next_token: Option<String>,
}

/// Parameters of a summary-reconciliation trigger.
#[derive(Clone, Debug)]
pub struct PutSystemReconcileSummariesParams {
    /// Filters results based on the specified region.
    pub region: Option<String>,
    /// Filters results based on the specified namespace.
    pub namespace: Option<String>,
    /// If set, wait until query exceeds given index. Must be provided with WaitParam.
    pub index: Option<i32>,
    /// Provided with IndexParam to wait for change.
    pub wait: Option<String>,
    /// If present, results will include stale reads.
    pub stale: Option<String>,
    /// Constrains results to jobs that start with the defined prefix.
    pub prefix: Option<String>,
    /// An ACL token.
    pub x_nomad_token: Option<String>,
    /// Maximum number of results to return.
    pub per_page: Option<i32>,
    /// Indicates where to start paging for queries that support pagination.
    pub next_token: Option<String>,
}

/// An ingress service exposed through the service mesh.
#[derive(Clone, Debug)]
pub struct ConsulIngressService {
    pub hosts: Option<Vec<String>>,
    pub name: Option<String>,
}

impl ConsulIngressService {
    pub fn new() -> (r: ConsulIngressService)
        ensures
            r.hosts is None,
            r.name is None,
    {
        ConsulIngressService { hosts: Option::None, name: Option::None }
    }
}

/// A task group's ephemeral disk request.
#[derive(Clone, Debug)]
pub struct EphemeralDisk {
    pub migrate: Option<bool>,
    pub size_mb: Option<i32>,
    pub sticky: Option<bool>,
}

impl EphemeralDisk {
    pub fn new() -> (r: EphemeralDisk)
        ensures
            r.migrate is None,
            r.size_mb is None,
            r.sticky is None,
    {
        EphemeralDisk { migrate: Option::None, size_mb: Option::None, sticky: Option::None }
    }
}

} // verus!
