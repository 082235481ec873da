use crate::address::{join_url, url_join};
use crate::err::{Error, HttpFailure};
use crate::ops::{index_path, is_success, package_index_path};
use crate::NugetRegistry;
use vstd::prelude::*;
use vstd::string::*;

verus! {

/// The versions of a package that the package base address lists.
#[derive(Debug, Clone)]
pub struct PackageBaseAddressResponse {
    pub versions: Vec<String>,
}

/// What the status of an answer says about the package asked for.
#[derive(Debug, PartialEq, Eq)]
pub enum Presence {
    /// The registry knows the package: the body lists its versions.
    Present,
    /// The registry has no package of that id.
    Absent,
}

/// The resource type of the package base address.
pub open spec fn resource_type() -> Seq<char> {
    "PackageBaseAddress/3.0.0"@
}

/// The URL that lists the versions of `package_name`: the package's index
/// path joined to the base address. Unsupported if the registry has no base
/// address.
pub fn request_url(nuget: &NugetRegistry, package_name: &str) -> (r: Result<String, Error>)
    ensures
        if nuget@.contains_key(resource_type()) {
            match url_join(nuget@[resource_type()], index_path(package_name@)) {
                Ok(url) => r matches Ok(text) && text@ == url,
                Err(e) => r matches Err(Error::UrlParse(f)) && f == e,
            }
        } else {
            r matches Err(Error::UnsupportedOperation(text)) && text@ == resource_type()
        },
{
    let base = match nuget.resource("PackageBaseAddress/3.0.0") {
        Ok(base) => base,
        Err(e) => {
            return Err(e);
        },
    };
    let path = package_index_path(package_name);
    match join_url(base.as_str(), path.as_str()) {
        Ok(url) => Ok(url),
        Err(e) => Err(Error::from(e)),
    }
}

/// Reads the status of the answer: 404 says that there is no such package,
/// which is no error; a status of the success class says that the body lists
/// the versions; any other status is a failure of the request.
pub fn presence(status: u16) -> (r: Result<Presence, Error>)
    ensures
        status == 404 ==> r == Ok::<Presence, Error>(Presence::Absent),
        is_success(status) ==> r == Ok::<Presence, Error>(Presence::Present),
        status != 404 && !is_success(status) ==> r == Err::<Presence, Error>(
            Error::Http(HttpFailure::Status(status)),
        ),
{
    if status == 404 {
        Ok(Presence::Absent)
    } else if 200 <= status && status < 300 {
        Ok(Presence::Present)
    } else {
        Err(Error::Http(HttpFailure::Status(status)))
    }
}

} // verus!
