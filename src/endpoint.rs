use vstd::prelude::*;
use vstd::string::StringExecFns;

use crate::cache::MetricsCache;

verus! {

pub const STATUS_OK: u16 = 200;

pub const STATUS_NOT_FOUND: u16 = 404;

/// Status and body of an answer to a request.
pub struct HttpReply {
    pub status: u16,
    pub body: String,
}

/// Whether `path` is exactly the metrics route.
pub fn is_metrics_path(path: &str) -> (r: bool)
    ensures
        r == (path@ == "/metrics"@),
{
    let requested = String::from_str(path);
    let route = String::from_str("/metrics");
    requested == route
}

/// Answers a request for `path`: the cached text on the metrics route, not found elsewhere.
pub fn serve_metrics(path: &str, cache: &MetricsCache) -> (r: HttpReply)
    ensures
        path@ == "/metrics"@ ==> r.status == STATUS_OK && r.body@ == cache@,
        path@ != "/metrics"@ ==> r.status == STATUS_NOT_FOUND && r.body@ == "404 Not Found"@,
{
    if is_metrics_path(path) {
        HttpReply { status: STATUS_OK, body: cache.read() }
    } else {
        HttpReply { status: STATUS_NOT_FOUND, body: String::from_str("404 Not Found") }
    }
}

} // verus!
