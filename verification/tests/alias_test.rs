//! Hostnames: address literals, comparison, and the texts of rejections.
use darp::alias::{
    is_dnsmasq_wildcard_hostname, is_ip_literal, normalize_for_comparison,
    validate_and_normalize_alias, AliasErrorReason,
};

#[test]
fn dotted_quads_are_address_literals() {
    for address in ["0.0.0.0", "127.0.0.1", "255.255.255.255", "1.22.133.4"] {
        assert!(is_ip_literal(address), "{address}");
    }
    for other in [
        "", "1", "1.2.3", "1.2.3.4.5", "256.1.1.1", "01.2.3.4", "1.2.3.", ".1.2.3", "1..2.3",
        "1.2.3.4 ", "a.b.c.d", "1.2.3.0004", "+1.2.3.4",
    ] {
        assert!(!is_ip_literal(other), "{other}");
    }
}

#[test]
fn colon_groups_are_address_literals() {
    for address in [
        "::",
        "::1",
        "1::",
        "2001:db8::1",
        "1:2:3:4:5:6:7:8",
        "1:2:3:4:5:6:7::",
        "::2:3:4:5:6:7:8",
        "FE80::abcd",
        "::ffff:192.168.1.10",
        "1:2:3:4:5:6:1.2.3.4",
        "1:2:3:4:5::1.2.3.4",
    ] {
        assert!(is_ip_literal(address), "{address}");
    }
    for other in [
        ":",
        ":::",
        "1",
        "1:2:3:4:5:6:7",
        "1:2:3:4:5:6:7:8:9",
        "1:2:3:4:5:6:7:8::",
        "::1:2:3:4:5:6:7:8",
        "1::2::3",
        "12345::",
        "g::1",
        "1.2.3.4::",
        "1:2:3:4:5:6::1.2.3.4",
        "::1.2.3",
        "::1%eth0",
    ] {
        assert!(!is_ip_literal(other), "{other}");
    }
}

#[test]
fn every_literal_that_std_reads_is_recognized() {
    let parts = ["", "0", "1", "ffff", "12345", "1.2.3.4", "01", "x"];
    let mut texts: Vec<String> = Vec::new();
    for a in parts {
        for b in parts {
            for c in parts {
                texts.push(format!("{a}:{b}:{c}"));
                texts.push(format!("{a}::{b}:{c}"));
                texts.push(format!("{a}:{b}::{c}"));
                texts.push(format!("1:2:3:4:5:{a}:{b}:{c}"));
                texts.push(format!("1:2:3:4:{a}::{b}:{c}"));
                texts.push(format!("{a}.{b}.{c}.4"));
            }
        }
    }
    for text in &texts {
        assert_eq!(
            is_ip_literal(text),
            text.parse::<core::net::IpAddr>().is_ok(),
            "{text}"
        );
    }
}

#[test]
fn comparison_ignores_case_white_space_and_one_dot() {
    assert_eq!(
        normalize_for_comparison("MyApp.Comagine.TEST"),
        "myapp.comagine.test"
    );
    assert_eq!(normalize_for_comparison(" a.test. "), "a.test");
    assert_eq!(normalize_for_comparison("a.."), "a.");
    assert_eq!(normalize_for_comparison("\u{3000}a\u{85}"), "a");
    assert_eq!(normalize_for_comparison("ÄB"), "Äb");
    assert_eq!(normalize_for_comparison(""), "");
}

#[test]
fn only_names_below_test_are_resolved_by_wildcard() {
    assert!(is_dnsmasq_wildcard_hostname("a.test"));
    assert!(is_dnsmasq_wildcard_hostname("A.TEST."));
    assert!(!is_dnsmasq_wildcard_hostname("example.test.invalid"));
    assert!(!is_dnsmasq_wildcard_hostname("atest"));
    assert!(!is_dnsmasq_wildcard_hostname("test"));
}

#[test]
fn normalization_is_stable() {
    for input in ["LOCAL.Zoo.org.", "  a-b.C  ", "8080.test"] {
        let once = validate_and_normalize_alias(input).unwrap();
        assert_eq!(validate_and_normalize_alias(&once).unwrap(), once);
        assert_eq!(normalize_for_comparison(&once), once);
    }
}

#[test]
fn rejections_are_explained() {
    let reasons = [
        ("", AliasErrorReason::Empty, "aliases must not be empty"),
        (
            "a://b",
            AliasErrorReason::Scheme,
            "aliases must not include a URL scheme",
        ),
        (
            "a@b",
            AliasErrorReason::UserInfo,
            "aliases must not include user information",
        ),
        ("a/b", AliasErrorReason::Path, "aliases must not include a path"),
        (
            "a?b",
            AliasErrorReason::Query,
            "aliases must not include a query string",
        ),
        (
            "a#b",
            AliasErrorReason::Fragment,
            "aliases must not include a fragment",
        ),
        ("a:1", AliasErrorReason::Port, "aliases must not include a port"),
        (
            "*.a",
            AliasErrorReason::Wildcard,
            "wildcard hostnames are not supported",
        ),
        (
            "1.2.3.4",
            AliasErrorReason::IpLiteral,
            "aliases must be hostnames, not IP address literals",
        ),
        (
            "é",
            AliasErrorReason::NonAscii,
            "internationalized hostnames must be supplied in ASCII/Punycode form",
        ),
        (
            "a..",
            AliasErrorReason::TrailingDots,
            "aliases may end with at most one trailing dot",
        ),
        (
            "a..b",
            AliasErrorReason::EmptyLabel,
            "hostname labels must not be empty",
        ),
        (
            "a_b",
            AliasErrorReason::InvalidCharacter,
            "hostname labels may contain only letters, digits, and hyphens",
        ),
        (
            "-a",
            AliasErrorReason::LeadingHyphen,
            "hostname labels must not begin with a hyphen",
        ),
        (
            "a-",
            AliasErrorReason::TrailingHyphen,
            "hostname labels must not end with a hyphen",
        ),
    ];
    for (input, reason, text) in reasons {
        let error = validate_and_normalize_alias(input).unwrap_err();
        assert_eq!(error.input, input);
        assert_eq!(error.reason, reason);
        assert_eq!(error.reason.message(), text);
        assert_eq!(error.reason.to_string(), text);
        assert_eq!(error.to_string(), format!("{input:?} — {text}"));
    }
    assert_eq!(
        AliasErrorReason::HostnameTooLong.message(),
        "hostnames must not exceed 253 characters"
    );
    assert_eq!(
        AliasErrorReason::LabelTooLong.message(),
        "hostname labels must not exceed 63 characters"
    );
}

#[test]
fn a_rejected_alias_is_quoted() {
    let error = validate_and_normalize_alias("a\"b\n").unwrap_err();
    assert_eq!(
        error.to_string(),
        "\"a\\\"b\\n\" — hostname labels may contain only letters, digits, and hyphens"
    );
}

#[test]
fn printable_text_is_quoted_as_it_stands() {
    for c in ' '..='~' {
        if c == '"' || c == '\\' {
            continue;
        }
        let error = validate_and_normalize_alias(&format!("*{c}x")).unwrap_err();
        assert_eq!(error.to_string(), format!("\"*{c}x\" — {}", error.reason.message()));
    }
}

#[test]
fn the_first_reason_is_reported() {
    let reason = |s: &str| validate_and_normalize_alias(s).unwrap_err().reason;
    assert_eq!(reason("é://*"), AliasErrorReason::NonAscii);
    assert_eq!(reason("http://*.a@b/c"), AliasErrorReason::Scheme);
    assert_eq!(reason("*@/?#"), AliasErrorReason::Wildcard);
    assert_eq!(reason("a@b/c"), AliasErrorReason::UserInfo);
    assert_eq!(reason("a:80:90"), AliasErrorReason::Scheme);
    assert_eq!(reason("a:"), AliasErrorReason::Scheme);
    assert_eq!(reason("::1"), AliasErrorReason::IpLiteral);
    assert_eq!(reason("-a_"), AliasErrorReason::InvalidCharacter);
    assert_eq!(reason("a.-b-"), AliasErrorReason::LeadingHyphen);
}
