//! The registry's operations, each as the decisions around its requests: what
//! to ask for, and what an answer means.

pub mod get_package_versions;
pub mod package_base_address;
pub mod service_index;
pub mod stream_laws;

use crate::err::{Error, HttpFailure};
use crate::text::ascii_lower;
use vstd::prelude::*;
use vstd::string::*;

verus! {

/// The name of the document that indexes a package, below the package's own
/// path segment.
pub open spec fn index_document() -> Seq<char> {
    seq!['/', 'i', 'n', 'd', 'e', 'x', '.', 'j', 's', 'o', 'n']
}

/// The path of a package's index document relative to a resource's base URL:
/// the package id in lower case, then `/index.json`.
pub open spec fn index_path(package_name: Seq<char>) -> Seq<char> {
    ascii_lower(package_name) + index_document()
}

/// The path of a package's index document relative to a resource's base URL.
/// The registry's protocol asks for the package id in lower case.
pub fn package_index_path(package_name: &str) -> (path: String)
    ensures
        path@ == index_path(package_name@),
{
    let mut path = package_name.to_ascii_lowercase();
    proof {
        reveal_strlit("/index.json");
    }
    path.append("/index.json");
    path
}

/// Whether an HTTP status is in the success class, 200 to 299.
pub open spec fn is_success(status: u16) -> bool {
    200 <= status < 300
}

/// Accepts a status of the success class and turns any other into an error
/// that carries it.
pub fn expect_success(status: u16) -> (r: Result<(), Error>)
    ensures
        is_success(status) ==> r == Ok::<(), Error>(()),
        !is_success(status) ==> r == Err::<(), Error>(Error::Http(HttpFailure::Status(status))),
{
    if 200 <= status && status < 300 {
        Ok(())
    } else {
        Err(Error::Http(HttpFailure::Status(status)))
    }
}

} // verus!
