//! Core logic of a federation gateway's subgraph dispatch layer.
//!
//! The centrepiece is single-flight coalescing of concurrent identical
//! subgraph requests: the coordinator elects one leader per request
//! fingerprint, the leader performs the downstream call once, and every
//! concurrent follower receives the published outcome rebound to its own
//! execution context.

use vstd::prelude::*;

pub mod conditions;
pub mod dedup;
pub mod http;
pub mod introspection;
pub mod spans;
pub mod values;

verus! {

/// Kind of a GraphQL operation carried by a subgraph request.
///
/// Only queries are safe to coalesce; mutations and subscriptions have
/// side effects or streaming semantics and must run once per caller.
#[derive(Clone, Copy, PartialEq, Eq, Structural, Debug)]
pub enum OperationKind {
    Query,
    Mutation,
    Subscription,
}

impl OperationKind {
    /// Whether in-flight deduplication applies to an operation of this kind.
    pub fn is_coalescable(&self) -> (r: bool)
        ensures
            r == (*self == OperationKind::Query),
    {
        match self {
            OperationKind::Query => true,
            OperationKind::Mutation => false,
            OperationKind::Subscription => false,
        }
    }
}

} // verus!
