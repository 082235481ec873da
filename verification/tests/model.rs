use nuget_client::model::{
    false_default, true_default, PackageMetadata, RangeSpecifier, RawValue, VersionRange,
};
use nuget_client::util::{string_or_list, StringOrList};
use nuget_client::Error;

#[test]
fn defaults_of_absent_fields() {
    assert!(true_default());
    assert!(!false_default());
    assert_eq!(nuget_client::model::default::<Vec<String>>(), Vec::<String>::new());
    assert_eq!(nuget_client::model::default::<Option<u8>>(), None);
    assert_eq!(nuget_client::model::default::<u32>(), 0);
}

#[test]
fn metadata_with_required_fields_only() {
    let entry = PackageMetadata::new(
        "https://example.org/catalog/1.json".to_owned(),
        "Pkg".to_owned(),
        "1.0.0".to_owned(),
        vec!["a".to_owned(), "b".to_owned()],
    );
    assert_eq!(entry.uri_id, "https://example.org/catalog/1.json");
    assert_eq!(entry.package_id, "Pkg");
    assert_eq!(entry.version, "1.0.0");
    assert_eq!(entry.authors, vec!["a".to_owned(), "b".to_owned()]);
    assert!(entry.listed);
    assert!(!entry.require_license_acceptance);
    assert!(entry.dependency_groups.is_empty());
    assert!(entry.tags.is_empty());
    assert!(entry.deprecation.is_none());
    assert!(entry.vulnerabilities.is_none());
    assert!(entry.title.is_none());
}

#[test]
fn one_string_is_a_list_of_one() {
    assert_eq!(string_or_list(StringOrList::Text("me".to_owned())), vec!["me".to_owned()]);
    assert_eq!(string_or_list(StringOrList::Text(String::new())), vec![String::new()]);
}

#[test]
fn list_of_strings_stays_as_it_is() {
    assert_eq!(
        string_or_list(StringOrList::List(vec!["a".to_owned(), "b".to_owned()])),
        vec!["a".to_owned(), "b".to_owned()]
    );
    assert_eq!(string_or_list(StringOrList::List(vec![])), Vec::<String>::new());
}

#[test]
fn raw_range_is_read_on_demand() {
    assert_eq!(
        RawValue::Text("[1.0, 2.0)".to_owned()).as_version_range(),
        Ok(VersionRange {
            low: RangeSpecifier::Inclusive("1.0".to_owned()),
            high: RangeSpecifier::Exclusive("2.0".to_owned())
        })
    );
    assert_eq!(
        RawValue::Text("(1.0)".to_owned()).as_version_range(),
        Err(Error::InvalidVersionRange("(1.0)".to_owned()))
    );
    assert_eq!(
        RawValue::Other("{\"min\":1}".to_owned()).as_version_range(),
        Err(Error::InvalidVersionRange("{\"min\":1}".to_owned()))
    );
}
