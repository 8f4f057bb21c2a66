//! Default values for the ingestion service's metrics endpoint.

use vstd::prelude::*;

verus! {

/// The host the metrics endpoint binds to when the configuration names none.
pub fn default_metrics_host() -> (r: String)
    ensures
        r@ == "127.0.0.1"@,
{
    String::from_str("127.0.0.1")
}

/// The port the metrics endpoint binds to when the configuration names none.
pub fn default_metrics_port() -> (r: u16)
    ensures
        r == 8081,
{
    8081
}

} // verus!
