use vstd::prelude::*;

verus! {

/// What the library needs to know of the HTTP request that asked for a listing.
#[derive(Debug)]
pub struct RequestInfo {
    base_url: String,
}

impl RequestInfo {
    pub closed spec fn spec_base_url(&self) -> Seq<char> {
        self.base_url@
    }

    pub fn new(base_url: String) -> (info: RequestInfo)
        ensures
            info.spec_base_url() == base_url@,
    {
        RequestInfo { base_url }
    }

    pub fn get_base_url(&self) -> (url: &String)
        ensures
            url@ == self.spec_base_url(),
    {
        &self.base_url
    }
}

} // verus!
