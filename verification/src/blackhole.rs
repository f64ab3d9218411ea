//! The sinkhole: a listener with no routes at all.
//!
//! A browser that is pointed at it as its proxy cannot reach the live
//! network: whatever it asks for ends here.

use vstd::prelude::*;
use crate::method::HttpMethod;
use crate::server::Action;
use crate::server::RouteTarget;

verus! {

/// A listener that has no routes.
pub struct Blackhole {
    pub port: u16,
}

/// Builds the sinkhole for a port.
pub fn build_blackhole(port: u16) -> (blackhole: Blackhole)
    ensures
        blackhole.port == port,
{
    Blackhole { port }
}

impl Blackhole {
    /// Where a method and a path lead: nowhere, whatever they are.
    pub fn resolve(&self, method: HttpMethod, path: &str) -> (target: RouteTarget)
        ensures
            target == RouteTarget::NotFound,
    {
        RouteTarget::NotFound
    }

    /// What is done for a request: it is told that there is no such thing,
    /// whatever it asks for.
    pub fn dispatch(&self, method: HttpMethod, path: &str, query: Option<&str>) -> (action: Action)
        ensures
            action is NotFound,
    {
        match self.resolve(method, path) {
            _ => Action::NotFound,
        }
    }
}

} // verus!
