use vstd::prelude::*;
use vstd::string::StringExecFns;

verus! {

/// Builds absolute links to this service from the host that a request named.
#[derive(Debug, Clone)]
pub struct UrlGenerator {
    pub host: String,
}

impl UrlGenerator {
    pub fn new(host: String) -> (r: UrlGenerator)
        ensures
            r.host == host,
    {
        UrlGenerator { host }
    }

    /// The absolute `http` link to `path` on the request's host.
    pub fn url(&self, path: &str) -> (r: String)
        ensures
            r@ == "http://"@ + self.host@ + path@,
    {
        let mut r = String::from_str("http://");
        r.append(self.host.as_str());
        r.append(path);
        r
    }
}

} // verus!
