//! Method routing for the RPC front end.
//!
//! A router maps method names to replacement routes. Clients may not call a
//! replacement route directly; one method is rerouted unconditionally; the
//! rest are rerouted only when routing is enabled and the client's declared
//! version matches the route's.

use vstd::prelude::*;

verus! {

/// One routing entry: the client version it applies to, and the method name
/// requests are routed to.
#[derive(Debug, Clone, PartialEq, Eq)]
pub struct MethodRouting {
    pub version: String,
    pub route_to: String,
}

impl MethodRouting {
    /// Whether the entry applies to a client's declared version.
    pub fn matches(&self, version: &str) -> (r: bool)
        ensures
            r == (self.version@ == version@),
    {
        str_eq(self.version.as_str(), version)
    }
}

fn str_eq(a: &str, b: &str) -> (r: bool)
    ensures
        r == (a@ == b@),
{
    let na = a.unicode_len();
    let nb = b.unicode_len();
    if na != nb {
        proof {
            assert(a@ != b@);
        }
        return false;
    }
    let mut i: usize = 0;
    while i < na
        invariant
            i <= na,
            na == a@.len(),
            na == b@.len(),
            forall|j: int| 0 <= j < i ==> a@[j] == b@[j],
        decreases na - i,
    {
        if a.get_char(i) != b.get_char(i) {
            proof {
                assert(a@ != b@);
            }
            return false;
        }
        i = i + 1;
    }
    proof {
        assert(a@ =~= b@);
    }
    true
}

/// Whether any of the strings reads as `m`.
pub open spec fn spec_contains_str(ss: Seq<String>, m: Seq<char>) -> bool {
    exists|i: int| 0 <= i < ss.len() && (#[trigger] ss[i])@ == m
}

/// The first routing entry filed under the method name.
pub open spec fn spec_lookup(routes: Seq<(String, MethodRouting)>, m: Seq<char>) -> Option<
    MethodRouting,
>
    decreases routes.len(),
{
    if routes.len() == 0 {
        None
    } else if routes.first().0@ == m {
        Some(routes.first().1)
    } else {
        spec_lookup(routes.drop_first(), m)
    }
}

/// Where a request is routed: a replacement route called directly is
/// rejected; the transaction-execution method is rerouted unconditionally;
/// otherwise, with routing enabled and the client's version matching a
/// route filed under the method, the route's target; else the method itself.
pub open spec fn spec_route(router: RpcRouter, method: Seq<char>, version: Option<&str>) -> Seq<
    char,
> {
    if spec_contains_str(router.route_to_methods@, method) {
        "INVALID_ROUTING"@
    } else if method == "execute_transaction_block"@ {
        "monitored_execute_transaction_block"@
    } else if router.disable_routing {
        method
    } else {
        match (version, spec_lookup(router.routes@, method)) {
            (Some(v), Some(mr)) => if mr.version@ == v@ {
                mr.route_to@
            } else {
                method
            },
            _ => method,
        }
    }
}

/// The router: the routing entries keyed by method name, the set of
/// replacement routes (which may not be called directly), and a switch that
/// disables conditional rerouting.
#[derive(Debug, Clone, PartialEq, Eq)]
pub struct RpcRouter {
    pub routes: Vec<(String, MethodRouting)>,
    pub route_to_methods: Vec<String>,
    pub disable_routing: bool,
}

impl RpcRouter {
    /// Build a router from its entries; the replacement-route set is exactly
    /// the entries' targets.
    pub fn new(routes: Vec<(String, MethodRouting)>, disable_routing: bool) -> (r: RpcRouter)
        ensures
            r.routes == routes,
            r.disable_routing == disable_routing,
            r.route_to_methods@.len() == routes@.len(),
            forall|i: int|
                0 <= i < routes@.len() ==> (#[trigger] r.route_to_methods@[i])@
                    == routes@[i].1.route_to@,
    {
        let mut route_to_methods: Vec<String> = Vec::new();
        let mut i: usize = 0;
        while i < routes.len()
            invariant
                i <= routes@.len(),
                route_to_methods@.len() == i,
                forall|j: int|
                    0 <= j < i ==> (#[trigger] route_to_methods@[j])@ == routes@[j].1.route_to@,
            decreases routes@.len() - i,
        {
            route_to_methods.push(routes[i].1.route_to.clone());
            i = i + 1;
        }
        RpcRouter { routes, route_to_methods, disable_routing }
    }

    /// Route one request.
    pub fn route<'a>(&'a self, method: &'a str, version: Option<&str>) -> (r: &'a str)
        ensures
            r@ == spec_route(*self, method@, version),
    {
        let mut i: usize = 0;
        while i < self.route_to_methods.len()
            invariant
                i <= self.route_to_methods@.len(),
                forall|j: int| 0 <= j < i ==> (#[trigger] self.route_to_methods@[j])@ != method@,
            decreases self.route_to_methods@.len() - i,
        {
            if str_eq(self.route_to_methods[i].as_str(), method) {
                return "INVALID_ROUTING";
            }
            i = i + 1;
        }
        proof {
            if spec_contains_str(self.route_to_methods@, method@) {
                let j = choose|j: int|
                    0 <= j < self.route_to_methods@.len() && (#[trigger] self.route_to_methods@[j])@
                        == method@;
                assert((self.route_to_methods@[j])@ != method@);
            }
        }

        if str_eq(method, "execute_transaction_block") {
            return "monitored_execute_transaction_block";
        }
        if self.disable_routing {
            return method;
        }

        let v = match version {
            Some(v) => v,
            None => {
                return method;
            },
        };

        let ghost all = self.routes@;
        proof {
            assert(all.skip(0) =~= all);
        }
        let mut k: usize = 0;
        while k < self.routes.len()
            invariant
                k <= all.len(),
                all == self.routes@,
                spec_lookup(all, method@) == spec_lookup(all.skip(k as int), method@),
                !spec_contains_str(self.route_to_methods@, method@),
                method@ != "execute_transaction_block"@,
                !self.disable_routing,
                version matches Some(x) && x@ == v@,
            decreases all.len() - k,
        {
            proof {
                assert(all.skip(k as int).first() == all[k as int]);
                assert(all.skip(k as int).drop_first() =~= all.skip(k + 1));
            }
            if str_eq(self.routes[k].0.as_str(), method) {
                let route = &self.routes[k].1;
                if route.matches(v) {
                    return route.route_to.as_str();
                } else {
                    return method;
                }
            }
            k = k + 1;
        }
        proof {
            assert(all.skip(all.len() as int) =~= Seq::<(String, MethodRouting)>::empty());
        }
        method
    }
}

} // verus!
