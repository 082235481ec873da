use vstd::prelude::*;

verus! {

/// The discovery document of a registry.
#[derive(Debug)]
pub struct ServiceIndex {
    pub version: String,
    pub resources: Vec<ServiceResource>,
}

/// One entry of the service index: where a resource of some type lives.
#[derive(Debug)]
pub struct ServiceResource {
    /// The base URL of the resource.
    pub id: String,
    /// The resource type, version included.
    pub type_: String,
    pub comment: Option<String>,
}

} // verus!
