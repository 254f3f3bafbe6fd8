//! Automatic failover for traffic splits.
//!
//! A traffic split names its primary backend in an annotation. While the
//! primary has ready endpoints it alone receives traffic; otherwise every
//! other backend with ready endpoints does. This crate holds the rules of
//! that decision, the caches they read, and the requests they produce, all
//! as plain values with machine-checked contracts.
use vstd::prelude::*;

pub mod check;
pub mod endpoints;
pub mod json;
pub mod object;
pub mod patch;
pub mod status;
pub mod store;
pub mod table;
pub mod theorems;
pub mod traffic_split;

use crate::endpoints::{ready, Endpoints};
use crate::object::ObjectRef;
use crate::store::Store;
use crate::traffic_split::TrafficSplit;

verus! {

/// The state that the endpoints watch and the traffic split watch share: the
/// latest observed objects of both kinds.
pub struct Ctx {
    pub endpoints: Store<Endpoints>,
    pub traffic_splits: Store<TrafficSplit>,
}

impl Ctx {
    /// A state in which nothing has been observed yet.
    pub fn new() -> (ctx: Ctx)
        ensures
            ctx.endpoints@ == Seq::<crate::endpoints::EndpointsView>::empty(),
            ctx.traffic_splits@ == Seq::<crate::traffic_split::TrafficSplitView>::empty(),
    {
        Ctx { endpoints: Store::new(), traffic_splits: Store::new() }
    }

    /// Whether the store holds endpoints of the given namespace and name that
    /// list at least one ready address.
    pub fn endpoint_is_ready(&self, ns: &str, name: &str) -> (b: bool)
        ensures
            b == ready(self.endpoints@, ns@, name@),
    {
        let target = ObjectRef::new(name).within(ns);
        match self.endpoints.get(&target) {
            Some(found) => found.has_ready_address(),
            None => false,
        }
    }
}

} // verus!
