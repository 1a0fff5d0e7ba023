use vstd::prelude::*;

verus! {

/// What a reverse proxy tells us about the request's outward face: the host
/// the client addressed and the scheme it used.
#[derive(Debug, PartialEq, Eq, Clone)]
pub struct ProxyData {
    pub http_host: String,
    pub scheme: String,
}

} // verus!
