pub mod range_laws;
pub mod version_range;

use crate::err::Error;
use vstd::prelude::*;

pub use version_range::{RangeSpecifier, VersionRange};

verus! {

/// The catalog entry of one version of a package.
#[derive(Debug, Clone)]
pub struct PackageMetadata {
    pub uri_id: String,
    pub authors: Vec<String>,
    pub dependency_groups: Vec<DependencyGroup>,
    pub deprecation: Option<Deprecation>,
    pub description: Option<String>,
    pub icon_url: Option<String>,
    pub package_id: String,
    pub language: Option<String>,
    pub license_url: Option<String>,
    pub license_expression: Option<String>,
    pub listed: bool,
    pub min_client_version: Option<String>,
    pub package_content: Option<String>,
    pub project_url: Option<String>,
    pub published: Option<String>,
    pub readme_url: Option<String>,
    pub require_license_acceptance: bool,
    pub summary: Option<String>,
    pub tags: Vec<String>,
    pub title: Option<String>,
    pub version: String,
    pub vulnerabilities: Option<Vec<Vulnerability>>,
}

/// The dependencies of a package under one target framework.
#[derive(Debug, Clone)]
pub struct DependencyGroup {
    pub target_framework: Option<String>,
    pub dependencies: Vec<Dependency>,
}

/// A JSON value kept as it was received, to be interpreted on demand.
#[derive(Debug, Clone, PartialEq, Eq)]
pub enum RawValue {
    /// A JSON string, with its escapes resolved.
    Text(String),
    /// Any other JSON value, as JSON text.
    Other(String),
}

/// One dependency of a package. Registries do not always send a well-formed
/// range, so `range` stays raw until asked for.
#[derive(Debug, Clone)]
pub struct Dependency {
    pub id: String,
    pub range: Option<RawValue>,
    pub registration: Option<String>,
}

/// Why a package version is deprecated, and what to use instead.
#[derive(Debug, Clone)]
pub struct Deprecation {
    pub reasons: Vec<String>,
    pub message: Option<String>,
    pub alternate_package: Option<AlternatePackage>,
}

/// The package recommended in place of a deprecated one.
#[derive(Debug, Clone)]
pub struct AlternatePackage {
    pub id: String,
    pub range: Option<RawValue>,
}

/// A known vulnerability of a package version.
#[derive(Debug, Clone)]
pub struct Vulnerability {
    pub advisory_url: String,
    /// A number, as text.
    pub severity: String,
}

/// The value of a boolean field that is absent and counts as set.
pub fn true_default() -> (r: bool)
    ensures
        r,
{
    true
}

/// The value of a boolean field that is absent and counts as unset.
pub fn false_default() -> (r: bool)
    ensures
        !r,
{
    false
}

/// The value of an absent field of any type that has a default.
pub fn default<T: Default>() -> (r: T)
    ensures
        call_ensures(T::default, (), r),
{
    Default::default()
}

impl RawValue {
    /// Interprets the value as a version range. A JSON string is read by the
    /// range grammar; any other shape is no range, and its JSON text comes
    /// back inside the error.
    pub fn as_version_range(&self) -> (r: Result<VersionRange, Error>)
        ensures
            match *self {
                RawValue::Text(t) => match version_range::parse_range(t@) {
                    Some(range) => r matches Ok(v) && v@ == range,
                    None => r matches Err(Error::InvalidVersionRange(text)) && text@ == t@,
                },
                RawValue::Other(j) => r matches Err(Error::InvalidVersionRange(text)) && text@
                    == j@,
            },
    {
        match self {
            RawValue::Text(t) => VersionRange::from_str(t.as_str()),
            RawValue::Other(j) => Err(Error::InvalidVersionRange(j.clone())),
        }
    }
}

impl PackageMetadata {
    /// The entry of a package version of which only the required fields are
    /// known: it is listed, asks for no licence acceptance, and has no
    /// dependencies and no tags.
    pub fn new(uri_id: String, package_id: String, version: String, authors: Vec<String>) -> (r:
        PackageMetadata)
        ensures
            r.uri_id == uri_id,
            r.package_id == package_id,
            r.version == version,
            r.authors == authors,
            r.listed,
            !r.require_license_acceptance,
            r.dependency_groups@.len() == 0,
            r.tags@.len() == 0,
            r.deprecation is None,
            r.description is None,
            r.icon_url is None,
            r.language is None,
            r.license_url is None,
            r.license_expression is None,
            r.min_client_version is None,
            r.package_content is None,
            r.project_url is None,
            r.published is None,
            r.readme_url is None,
            r.summary is None,
            r.title is None,
            r.vulnerabilities is None,
    {
        PackageMetadata {
            uri_id,
            authors,
            dependency_groups: default(),
            deprecation: None,
            description: None,
            icon_url: None,
            package_id,
            language: None,
            license_url: None,
            license_expression: None,
            listed: true_default(),
            min_client_version: None,
            package_content: None,
            project_url: None,
            published: None,
            readme_url: None,
            require_license_acceptance: false_default(),
            summary: None,
            tags: default(),
            title: None,
            version,
            vulnerabilities: None,
        }
    }
}

} // verus!
