use std::str::FromStr;

use nuget_client::model::{RangeSpecifier, VersionRange};

#[test]
fn test_vecs() {
    assert_eq!("1.0".parse::<VersionRange>().unwrap(), VersionRange {
        low: RangeSpecifier::Inclusive("1.0".to_owned()),
        high: RangeSpecifier::Open
    });

    assert_eq!("[1.0]".parse::<VersionRange>().unwrap(), VersionRange {
        low: RangeSpecifier::Inclusive("1.0".to_owned()),
        high: RangeSpecifier::Inclusive("1.0".to_owned())
    });

    assert_eq!("[1.0, )".parse::<VersionRange>().unwrap(), VersionRange {
        low: RangeSpecifier::Inclusive("1.0".to_owned()),
        high: RangeSpecifier::Open
    });
    assert_eq!("  [ 1.0  ,)  ".parse::<VersionRange>().unwrap(), VersionRange {
        low: RangeSpecifier::Inclusive("1.0".to_owned()),
        high: RangeSpecifier::Open
    });
    assert_eq!("(1.0, )".parse::<VersionRange>().unwrap(), VersionRange {
        low: RangeSpecifier::Exclusive("1.0".to_owned()),
        high: RangeSpecifier::Open
    });
    assert_eq!("(,1.0]".parse::<VersionRange>().unwrap(), VersionRange {
        low: RangeSpecifier::Open,
        high: RangeSpecifier::Inclusive("1.0".to_owned())
    });
    assert_eq!("(,1.0)".parse::<VersionRange>().unwrap(), VersionRange {
        low: RangeSpecifier::Open,
        high: RangeSpecifier::Exclusive("1.0".to_owned())
    });
    assert_eq!("[1.0,2.0]".parse::<VersionRange>().unwrap(), VersionRange {
        low: RangeSpecifier::Inclusive("1.0".to_owned()),
        high: RangeSpecifier::Inclusive("2.0".to_owned())
    });
    assert_eq!("(1.0,2.0)".parse::<VersionRange>().unwrap(), VersionRange {
        low: RangeSpecifier::Exclusive("1.0".to_owned()),
        high: RangeSpecifier::Exclusive("2.0".to_owned())
    });
    assert_eq!("[1.0,2.0)".parse::<VersionRange>().unwrap(), VersionRange {
        low: RangeSpecifier::Inclusive("1.0".to_owned()),
        high: RangeSpecifier::Exclusive("2.0".to_owned())
    });
    assert!(VersionRange::from_str("(1.0)").is_err());
}

use nuget_client::Error;

fn range_of(text: &str) -> VersionRange {
    VersionRange::from_str(text).unwrap()
}

fn inclusive(text: &str) -> RangeSpecifier {
    RangeSpecifier::Inclusive(text.to_owned())
}

fn exclusive(text: &str) -> RangeSpecifier {
    RangeSpecifier::Exclusive(text.to_owned())
}

#[test]
fn shorthand_equals_full_form() {
    assert_eq!(range_of("1.0"), range_of("[1.0, )"));
    assert_eq!(range_of("1.0"), VersionRange { low: inclusive("1.0"), high: RangeSpecifier::Open });
}

#[test]
fn exact_match_is_both_bounds() {
    assert_eq!(range_of("[1.0]"), VersionRange { low: inclusive("1.0"), high: inclusive("1.0") });
    assert_eq!(range_of(" [\t1.0\n] "), VersionRange { low: inclusive("1.0"), high: inclusive("1.0") });
}

#[test]
fn whitespace_around_brackets_is_ignored() {
    assert_eq!(range_of("  [ 1.0  ,)  "), range_of("[1.0,)"));
    assert_eq!(range_of("\t(\r\n1.0 \x0C, 2.0\n]\n"), range_of("(1.0,2.0]"));
}

#[test]
fn lone_parenthesis_is_rejected() {
    assert_eq!(
        VersionRange::from_str("(1.0)"),
        Err(Error::InvalidVersionRange("(1.0)".to_owned()))
    );
    assert!(VersionRange::from_str(" ( 1.0 ) ").is_err());
    assert!(VersionRange::from_str("[1.0)").is_err());
    assert!(VersionRange::from_str("(1.0]").is_err());
}

#[test]
fn open_low_forms() {
    assert_eq!(range_of("(,1.0]"), VersionRange { low: RangeSpecifier::Open, high: inclusive("1.0") });
    assert_eq!(range_of("(,1.0)"), VersionRange { low: RangeSpecifier::Open, high: exclusive("1.0") });
    assert_eq!(range_of("[,1.0]"), VersionRange { low: RangeSpecifier::Open, high: inclusive("1.0") });
}

#[test]
fn bracket_and_parenthesis_combine() {
    assert_eq!(range_of("[1.0,2.0)"), VersionRange { low: inclusive("1.0"), high: exclusive("2.0") });
    assert_eq!(range_of("(1.0,2.0]"), VersionRange { low: exclusive("1.0"), high: inclusive("2.0") });
}

#[test]
fn both_tokens_missing_is_unbounded() {
    let unbounded = VersionRange { low: RangeSpecifier::Open, high: RangeSpecifier::Open };
    assert_eq!(range_of("[,]"), unbounded);
    assert_eq!(range_of("( , )"), unbounded);
}

#[test]
fn token_alphabet() {
    assert_eq!(
        range_of("1.0.0-beta.2+build-7"),
        VersionRange { low: inclusive("1.0.0-beta.2+build-7"), high: RangeSpecifier::Open }
    );
    assert_eq!(range_of("[Az09,)"), VersionRange { low: inclusive("Az09"), high: RangeSpecifier::Open });
    assert!(VersionRange::from_str("1_0").is_err());
    assert!(VersionRange::from_str("[1.0*,)").is_err());
    assert!(VersionRange::from_str("[1.0,2.0,3.0]").is_err());
}

#[test]
fn whitespace_around_a_bare_version_is_ignored() {
    let at_least = VersionRange { low: inclusive("1.0"), high: RangeSpecifier::Open };
    assert_eq!(range_of(" 1.0 "), at_least);
    assert_eq!(range_of(" 1.0"), at_least);
    assert_eq!(range_of("1.0 "), at_least);
    assert_eq!(range_of("\t\r\n1.0\x0C \n"), at_least);
    assert_eq!(range_of(" 1.0 "), range_of("1.0"));
}

#[test]
fn bare_version_is_one_token() {
    assert_eq!(
        VersionRange::from_str("1.0 2.0"),
        Err(Error::InvalidVersionRange("1.0 2.0".to_owned()))
    );
    assert!(VersionRange::from_str(" 1.0 , ").is_err());
    assert!(VersionRange::from_str("1.0]").is_err());
    assert!(VersionRange::from_str("\x0B1.0").is_err());
}

#[test]
fn rejected_text_comes_back_untrimmed() {
    assert_eq!(
        VersionRange::from_str("  (1.0)  "),
        Err(Error::InvalidVersionRange("  (1.0)  ".to_owned()))
    );
}

#[test]
fn empty_and_blank_texts_are_rejected() {
    assert_eq!(VersionRange::from_str(""), Err(Error::InvalidVersionRange(String::new())));
    assert_eq!(VersionRange::from_str("   "), Err(Error::InvalidVersionRange("   ".to_owned())));
    assert!(VersionRange::from_str("[").is_err());
    assert!(VersionRange::from_str("[1.0,").is_err());
    assert!(VersionRange::from_str("[1.0,2.0").is_err());
}

#[test]
fn trailing_text_is_rejected() {
    assert!(VersionRange::from_str("[1.0,2.0] x").is_err());
    assert!(VersionRange::from_str("[1.0]]").is_err());
    assert!(VersionRange::from_str("[1.0,2.0]3.0").is_err());
}

#[test]
fn vertical_tab_is_no_whitespace() {
    assert!(VersionRange::from_str("[\x0B1.0,)").is_err());
}

#[test]
fn text_outside_ascii_is_rejected_unchanged() {
    assert_eq!(
        VersionRange::from_str("[1.0, 2.0\u{00e9}]"),
        Err(Error::InvalidVersionRange("[1.0, 2.0\u{00e9}]".to_owned()))
    );
    assert!(VersionRange::from_str("\u{ff11}.0").is_err());
    assert!(VersionRange::from_str("[1.0,\u{00a0})").is_err());
}

#[test]
fn canonical_text() {
    let lo = inclusive("1.0");
    let hi = exclusive("2.0");
    assert_eq!(VersionRange { low: lo.clone(), high: hi.clone() }.to_string(), "[1.0 , 2.0)");
    assert_eq!(VersionRange { low: exclusive("1.0"), high: inclusive("2.0") }.to_string(), "(1.0 , 2.0]");
    assert_eq!(VersionRange { low: lo, high: RangeSpecifier::Open }.to_string(), "[1.0 , ]");
    assert_eq!(VersionRange { low: RangeSpecifier::Open, high: hi }.to_string(), "[ , 2.0)");
    assert_eq!(
        VersionRange { low: RangeSpecifier::Open, high: RangeSpecifier::Open }.to_string(),
        "[ , ]"
    );
}

#[test]
fn printing_never_uses_the_shorthand() {
    let range = range_of("1.0");
    assert_eq!(range.to_string(), "[1.0 , ]");
    assert_eq!(range_of(&range.to_string()), range);
}

#[test]
fn print_then_parse_gives_the_range_back() {
    let bounds_low = [RangeSpecifier::Open, inclusive("1.0-rc+1"), exclusive("0.9")];
    let bounds_high = [RangeSpecifier::Open, inclusive("2.0"), exclusive("3.0.0-beta")];
    for low in bounds_low.iter() {
        for high in bounds_high.iter() {
            let range = VersionRange { low: low.clone(), high: high.clone() };
            assert_eq!(VersionRange::from_str(&range.to_string()), Ok(range));
        }
    }
}

#[test]
fn range_that_is_no_token_does_not_round_trip() {
    let range = VersionRange { low: inclusive(""), high: RangeSpecifier::Open };
    assert_eq!(range.to_string(), "[ , ]");
    assert_eq!(
        range_of(&range.to_string()),
        VersionRange { low: RangeSpecifier::Open, high: RangeSpecifier::Open }
    );
}
