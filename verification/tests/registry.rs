use nuget_client::err::HttpFailure;
use nuget_client::ops::package_base_address::{self, Presence};
use nuget_client::ops::service_index::{ServiceIndex, ServiceResource};
use nuget_client::ops::{expect_success, get_package_versions, package_index_path};
use nuget_client::text::{join, same_text};
use nuget_client::{Error, NugetRegistry};

fn entry(id: &str, type_: &str) -> ServiceResource {
    ServiceResource { id: id.to_owned(), type_: type_.to_owned(), comment: None }
}

fn registry_of(resources: Vec<ServiceResource>) -> NugetRegistry {
    NugetRegistry::connect(ServiceIndex { version: "3.0.0".to_owned(), resources }).unwrap()
}

fn old_registry() -> NugetRegistry {
    registry_of(vec![
        entry("https://api.nuget.org/v3/registration5-semver1/", "RegistrationsBaseUrl/3.0.0"),
        entry("https://api.nuget.org/v3-flatcontainer/", "PackageBaseAddress/3.0.0"),
    ])
}

#[test]
fn resolver_falls_back_in_order() {
    let registry = old_registry();
    let found = registry
        .resource_arr(&["RegistrationsBaseUrl/3.6.0", "RegistrationsBaseUrl/3.0.0"])
        .unwrap();
    assert_eq!(found, "https://api.nuget.org/v3/registration5-semver1/");
}

#[test]
fn resolver_prefers_the_first_candidate_present() {
    let registry = registry_of(vec![
        entry("https://example.org/old/", "RegistrationsBaseUrl/3.0.0"),
        entry("https://example.org/new/", "RegistrationsBaseUrl/3.6.0"),
    ]);
    let names = ["RegistrationsBaseUrl/3.6.0", "RegistrationsBaseUrl/3.0.0"];
    assert_eq!(registry.resource_arr(&names).unwrap(), "https://example.org/new/");
    let names = ["RegistrationsBaseUrl/3.0.0", "RegistrationsBaseUrl/3.6.0"];
    assert_eq!(registry.resource_arr(&names).unwrap(), "https://example.org/old/");
}

#[test]
fn resolver_names_all_candidates_when_none_is_present() {
    let registry = old_registry();
    assert_eq!(
        registry.resource_arr(&["SearchQueryService", "SearchQueryService/3.5.0"]),
        Err(Error::UnsupportedOperation("SearchQueryService, SearchQueryService/3.5.0".to_owned()))
    );
    assert_eq!(registry.resource_arr(&[]), Err(Error::UnsupportedOperation(String::new())));
    assert_eq!(
        registry.resource_arr(&["Only"]),
        Err(Error::UnsupportedOperation("Only".to_owned()))
    );
}

#[test]
fn single_resource_lookup() {
    let registry = old_registry();
    assert_eq!(
        registry.try_resource("PackageBaseAddress/3.0.0").map(|s| s.as_str()),
        Some("https://api.nuget.org/v3-flatcontainer/")
    );
    assert_eq!(registry.try_resource("packagebaseaddress/3.0.0"), None);
    assert_eq!(
        registry.resource("Catalog/3.0.0"),
        Err(Error::UnsupportedOperation("Catalog/3.0.0".to_owned()))
    );
    assert_eq!(
        registry.resource("RegistrationsBaseUrl/3.0.0").unwrap(),
        "https://api.nuget.org/v3/registration5-semver1/"
    );
}

#[test]
fn last_resource_of_a_type_wins() {
    let registry = registry_of(vec![
        entry("https://first.example/", "PackageBaseAddress/3.0.0"),
        entry("https://other.example/", "Catalog/3.0.0"),
        entry("https://last.example/", "PackageBaseAddress/3.0.0"),
    ]);
    assert_eq!(registry.resource("PackageBaseAddress/3.0.0").unwrap(), "https://last.example/");
    assert_eq!(registry.resource("Catalog/3.0.0").unwrap(), "https://other.example/");
}

#[test]
fn empty_service_index_offers_nothing() {
    let registry = registry_of(vec![]);
    assert_eq!(registry.try_resource("PackageBaseAddress/3.0.0"), None);
}

#[test]
fn connect_stores_urls_as_the_parser_writes_them() {
    let registry = registry_of(vec![entry("HTTPS://Example.ORG/a/../b", "Thing")]);
    assert_eq!(registry.resource("Thing").unwrap(), "https://example.org/b");
}

#[test]
fn connect_fails_on_an_id_that_is_no_url() {
    let index = ServiceIndex {
        version: "3.0.0".to_owned(),
        resources: vec![
            entry("https://example.org/", "A"),
            entry("not a url", "B"),
            entry("https://[::1", "C"),
        ],
    };
    match NugetRegistry::connect(index) {
        Err(Error::UrlParse(e)) => assert_eq!(e, url::ParseError::RelativeUrlWithoutBase),
        _ => panic!("connect accepted an id that is no URL"),
    }
}

#[test]
fn package_id_is_lowercased() {
    assert_eq!(package_index_path("System.Text.Json"), "system.text.json/index.json");
    assert_eq!(package_index_path("already.lower"), "already.lower/index.json");
    assert_eq!(package_index_path("\u{00c9}T\u{00c9}"), "\u{00c9}t\u{00c9}/index.json");
    assert_eq!(package_index_path(""), "/index.json");
}

#[test]
fn versions_url_is_built_below_the_base_address() {
    let registry = old_registry();
    assert_eq!(
        package_base_address::request_url(&registry, "System.Text.Json"),
        Ok("https://api.nuget.org/v3-flatcontainer/system.text.json/index.json".to_owned())
    );
}

#[test]
fn versions_url_without_trailing_slash_replaces_the_last_segment() {
    let registry = registry_of(vec![entry("https://example.org/v3/flat", "PackageBaseAddress/3.0.0")]);
    assert_eq!(
        package_base_address::request_url(&registry, "Pkg"),
        Ok("https://example.org/v3/pkg/index.json".to_owned())
    );
}

#[test]
fn versions_url_needs_the_base_address() {
    let registry = registry_of(vec![entry("https://example.org/r/", "RegistrationsBaseUrl/3.0.0")]);
    assert_eq!(
        package_base_address::request_url(&registry, "Pkg"),
        Err(Error::UnsupportedOperation("PackageBaseAddress/3.0.0".to_owned()))
    );
}

#[test]
fn join_failure_is_a_url_error() {
    let registry = registry_of(vec![entry("mailto:someone@example.org", "PackageBaseAddress/3.0.0")]);
    assert_eq!(
        package_base_address::request_url(&registry, "Pkg"),
        Err(Error::UrlParse(url::ParseError::RelativeUrlWithCannotBeABaseBase))
    );
}

#[test]
fn registrations_url_uses_the_best_resource() {
    let registry = registry_of(vec![
        entry("https://example.org/reg-old/", "RegistrationsBaseUrl/3.0.0"),
        entry("https://example.org/reg-rc/", "RegistrationsBaseUrl/3.0.0-rc"),
        entry("https://example.org/reg-34/", "RegistrationsBaseUrl/3.4.0"),
    ]);
    assert_eq!(
        get_package_versions::request_url(&registry, "Newtonsoft.Json"),
        Ok("https://example.org/reg-34/newtonsoft.json/index.json".to_owned())
    );
    assert_eq!(
        get_package_versions::request_url(&old_registry(), "System.Text.Json"),
        Ok("https://api.nuget.org/v3/registration5-semver1/system.text.json/index.json".to_owned())
    );
}

#[test]
fn registrations_url_names_every_resource_type_tried() {
    let registry = registry_of(vec![entry("https://example.org/flat/", "PackageBaseAddress/3.0.0")]);
    assert_eq!(
        get_package_versions::request_url(&registry, "Pkg"),
        Err(Error::UnsupportedOperation(
            "RegistrationsBaseUrl/3.6.0, RegistrationsBaseUrl/3.4.0, RegistrationsBaseUrl/3.0.0-rc, \
             RegistrationsBaseUrl/3.0.0-beta, RegistrationsBaseUrl/3.0.0"
                .to_owned()
        ))
    );
}

#[test]
fn not_found_is_absence() {
    assert_eq!(package_base_address::presence(404), Ok(Presence::Absent));
}

#[test]
fn status_of_a_versions_answer() {
    assert_eq!(package_base_address::presence(200), Ok(Presence::Present));
    assert_eq!(package_base_address::presence(299), Ok(Presence::Present));
    assert_eq!(package_base_address::presence(500), Err(Error::Http(HttpFailure::Status(500))));
    assert_eq!(package_base_address::presence(403), Err(Error::Http(HttpFailure::Status(403))));
    assert_eq!(package_base_address::presence(300), Err(Error::Http(HttpFailure::Status(300))));
    assert_eq!(package_base_address::presence(199), Err(Error::Http(HttpFailure::Status(199))));
}

#[test]
fn only_success_is_accepted() {
    assert_eq!(expect_success(200), Ok(()));
    assert_eq!(expect_success(204), Ok(()));
    assert_eq!(expect_success(404), Err(Error::Http(HttpFailure::Status(404))));
    assert_eq!(expect_success(302), Err(Error::Http(HttpFailure::Status(302))));
    assert_eq!(expect_success(0), Err(Error::Http(HttpFailure::Status(0))));
}

#[test]
fn joining_names() {
    assert_eq!(join(&[], ", "), "");
    assert_eq!(join(&["a"], ", "), "a");
    assert_eq!(join(&["a", "b", "c"], ", "), "a, b, c");
    assert_eq!(join(&["", ""], "-"), "-");
}

#[test]
fn comparing_texts() {
    assert!(same_text("abc", "abc"));
    assert!(same_text("", ""));
    assert!(!same_text("abc", "abd"));
    assert!(!same_text("abc", "ab"));
    assert!(!same_text("\u{00e9}", "e"));
    assert!(same_text("\u{00e9}\u{4e2d}", "\u{00e9}\u{4e2d}"));
}

#[test]
fn inserting_replaces_what_the_type_had() {
    let mut registry = NugetRegistry::new();
    assert_eq!(registry.try_resource("A"), None);
    registry.insert("A".to_owned(), "https://one.example/".to_owned());
    registry.insert("B".to_owned(), "https://two.example/".to_owned());
    assert_eq!(registry.resource("A").unwrap(), "https://one.example/");
    registry.insert("A".to_owned(), "https://three.example/".to_owned());
    assert_eq!(registry.resource("A").unwrap(), "https://three.example/");
    assert_eq!(registry.resource("B").unwrap(), "https://two.example/");
}

#[test]
fn url_error_becomes_a_library_error() {
    assert_eq!(
        Error::from(url::ParseError::EmptyHost),
        Error::UrlParse(url::ParseError::EmptyHost)
    );
}
