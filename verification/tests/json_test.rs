//! JSON documents: reading, writing, stripping, migrating, merging.
use darp::config::load::ConfigMerge;
use darp::config::merge::strip_document;
use darp::config::merge_values;
use darp::config::migrate::{maybe_migrate, migrate};
use darp::json::{parse_document, read_document, write_document, JsonValue};
use darp::map::StrMap;

fn object(members: Vec<(&str, JsonValue)>) -> JsonValue {
    let mut map = StrMap::new();
    for (key, value) in members {
        map.insert(key.to_string(), value);
    }
    JsonValue::object(map)
}

fn text(s: &str) -> JsonValue {
    JsonValue::text(s)
}

#[test]
fn documents_are_read() {
    let v = read_document(br#"{"b": [1, -2, 2.5, null, true], "a": {"c": "x"}}"#);
    let items = v.get("b").unwrap().as_array().unwrap();
    assert_eq!(items.len(), 5);
    assert_eq!(items[0].as_u64(), Some(1));
    assert_eq!(items[1].as_u64(), None);
    assert_eq!(items[2].as_u64(), None);
    assert!(items[3].is_null());
    assert_eq!(items[4], JsonValue::Bool(true));
    assert_eq!(v.get("a").unwrap().get("c").unwrap().as_str(), Some("x"));
    assert!(v.get("missing").is_none());
}

#[test]
fn a_broken_document_reads_as_null() {
    assert!(read_document(b"{").is_null());
    assert!(read_document(b"").is_null());
    assert!(read_document(b"{} x").is_null());
}

#[test]
fn documents_are_written_with_indentation_and_keys_in_order() {
    let v = object(vec![
        ("b", JsonValue::number(7)),
        ("a", JsonValue::array(vec![text("x"), JsonValue::Null])),
    ]);
    assert_eq!(
        write_document(v),
        b"{\n  \"a\": [\n    \"x\",\n    null\n  ],\n  \"b\": 7\n}".to_vec()
    );
}

#[test]
fn what_was_written_is_read_back() {
    let v = || {
        object(vec![
            ("n", JsonValue::number(18446744073709551615)),
            ("o", object(vec![("é\"", text("\u{1F600}\n"))])),
            ("e", JsonValue::array(vec![])),
            ("b", JsonValue::Bool(false)),
        ])
    };
    assert_eq!(read_document(&write_document(v())), v());
}

#[test]
fn all_integers_are_read_back_and_floats_stay_floats() {
    let v = read_document(br#"[-5, -9223372036854775808, 0, 2.5, -0.0, 1e300, 1.7976931348623157e308]"#);
    let again = read_document(&write_document(read_document(
        br#"[-5, -9223372036854775808, 0, 2.5, -0.0, 1e300, 1.7976931348623157e308]"#,
    )));
    let (v, again) = (v.as_array().unwrap(), again.as_array().unwrap());
    assert_eq!(v.len(), again.len());
    for i in 0..v.len() {
        assert_eq!(v[i].is_f64(), i >= 3);
        assert_eq!(again[i].is_f64(), i >= 3);
        if i < 3 {
            assert_eq!(v[i], again[i]);
        }
    }
    assert!(!JsonValue::number(7).is_f64());
    assert!(!text("2.5").is_f64());
}

#[test]
fn the_reader_follows_nesting_up_to_a_limit() {
    let nested = |n: usize| {
        let mut v = JsonValue::Null;
        for _ in 0..n {
            v = JsonValue::array(vec![v]);
        }
        v
    };
    assert_eq!(parse_document(&write_document(nested(127))), Some(nested(127)));
    assert_eq!(parse_document(&write_document(nested(128))), None);
    assert!(read_document(&write_document(nested(128))).is_null());
}

#[test]
fn a_malformed_document_is_told_from_null() {
    assert_eq!(parse_document(b"null"), Some(JsonValue::Null));
    assert_eq!(parse_document(b"{"), None);
    assert_eq!(parse_document(b"1e999"), None);
    assert_eq!(
        parse_document(b"{\"a\": 7}"),
        Some(object(vec![("a", JsonValue::number(7))]))
    );
}

#[test]
fn a_saved_document_holds_no_nulls_but_overrides() {
    let r = strip_document(br#"{"a":null,"*b":null,"c":[null,{"d":null,"*e":null}],"f":1}"#);
    assert_eq!(
        read_document(&r),
        read_document(br#"{"*b":null,"c":[null,{"*e":null}],"f":1}"#)
    );
    assert_eq!(strip_document(&r), r);
}

#[test]
fn merging_decides_each_key() {
    let base = read_document(
        br#"{"keep":1,"deep":{"x":1,"y":2},"list":[1],"gone":5,"swap":{"a":1},"null":3,"type":{}}"#,
    );
    let overlay = read_document(
        br#"{"deep":{"y":3,"z":4},"list":[2],"*gone":null,"*swap":{"b":2},"null":null,"new":9,"type":8}"#,
    );
    assert_eq!(
        merge_values(base, overlay),
        read_document(
            br#"{"keep":1,"deep":{"x":1,"y":3,"z":4},"list":[1,2],"swap":{"b":2},"null":3,"new":9,"type":8}"#
        )
    );
}

#[test]
fn merging_nothing_changes_nothing() {
    let base = || read_document(br#"{"a":[1],"b":{"c":2}}"#);
    assert_eq!(merge_values(base(), JsonValue::Null), base());
    assert_eq!(merge_values(base(), object(vec![])), base());
    assert_eq!(merge_values(JsonValue::Null, base()), base());
}

#[test]
fn domains_under_paths_get_their_names() {
    let v = read_document(
        br#"{"domains":{"/p/one":{"name":"one","serve_command":"x"},"/p/two":{"x":1},"three":7}}"#,
    );
    let (r, changed) = migrate(v);
    assert!(changed);
    assert_eq!(
        r,
        read_document(
            br#"{"domains":{"one":{"location":"/p/one","serve_command":"x"},"unknown":7}}"#
        )
    );
}

#[test]
fn services_without_groups_move_into_the_root_group() {
    let v = read_document(
        br#"{"domains":{"d":{"location":"/d","services":{"s":{}}},"e":{"services":{},"groups":{}}}}"#,
    );
    let (r, changed) = migrate(v);
    assert!(changed);
    assert_eq!(
        r,
        read_document(
            br#"{"domains":{"d":{"location":"/d","groups":{".":{"services":{"s":{}}}}},"e":{"services":{},"groups":{}}}}"#
        )
    );
}

#[test]
fn a_single_parent_becomes_a_list() {
    let (r, changed) = migrate(read_document(br#"{"pre_config":"/p.json"}"#));
    assert!(changed);
    assert_eq!(
        r,
        read_document(br#"{"pre_config":[{"location":"/p.json"}]}"#)
    );
}

#[test]
fn migration_is_needed_once() {
    let old = br#"{"pre_config":"/p.json","domains":{"/x":{"name":"x","services":{"s":{}}}}}"#;
    let new = maybe_migrate(old).unwrap();
    assert_eq!(
        read_document(&new),
        read_document(
            br#"{"pre_config":[{"location":"/p.json"}],"domains":{"x":{"location":"/x","groups":{".":{"services":{"s":{}}}}}}}"#
        )
    );
    assert!(maybe_migrate(&new).is_none());
    let numbers = br#"{"pre_config":"/p.json","x":[-1, 2.5]}"#;
    let new = maybe_migrate(numbers).unwrap();
    assert_eq!(
        read_document(&new),
        read_document(br#"{"pre_config":[{"location":"/p.json"}],"x":[-1, 2.5]}"#)
    );
    assert!(maybe_migrate(&new).is_none());
    let mut deep = br#"{"domains":{"d":{"services":"#.to_vec();
    deep.extend(vec![b'['; 124]);
    deep.extend(vec![b']'; 124]);
    deep.extend(b"}}}");
    let new = maybe_migrate(&deep).unwrap();
    assert_eq!(parse_document(&new), None);
    assert!(maybe_migrate(&new).is_none());
    assert!(maybe_migrate(b"not json").is_none());
    assert!(maybe_migrate(b"{}").is_none());
}

#[test]
fn parents_are_merged_in_order_and_the_leaf_wins() {
    let leaf = br#"{"pre_config":[{"location":"a"},{"location":"b"},{"location":"c"}],"engine":"podman","domains":{"x":{"serve_command":"mine"}}}"#;
    let mut merge = ConfigMerge::start(leaf);
    assert_eq!(merge.next_location().unwrap(), Some("a".to_string()));
    merge
        .take_in(
            "a",
            br#"{"engine":"docker","wsl":true,"domains":{"x":{"location":"/x","serve_command":"theirs"}}}"#,
        )
        .unwrap();
    assert_eq!(merge.next_location().unwrap(), Some("b".to_string()));
    merge.skip();
    assert_eq!(merge.next_location().unwrap(), Some("c".to_string()));
    merge
        .take_in("c", br#"{"wsl":false,"domains":{"y":{"location":"/y"}}}"#)
        .unwrap();
    assert_eq!(merge.next_location().unwrap(), None);
    assert_eq!(
        read_document(&merge.finish_document()),
        read_document(
            br#"{"engine":"podman","wsl":false,"domains":{"x":{"location":"/x","serve_command":"mine"},"y":{"location":"/y"}}}"#
        )
    );
}

#[test]
fn two_parents_cannot_define_one_domain() {
    let mut merge = ConfigMerge::start(br#"{"pre_config":[{"location":"a"},{"location":"b"}]}"#);
    merge
        .take_in("a", br#"{"domains":{"x":{},"y":{}}}"#)
        .unwrap();
    let e = merge
        .take_in("b", br#"{"domains":{"z":{},"y":{},"x":{}}}"#)
        .unwrap_err();
    assert_eq!(
        e.to_string(),
        "Domain 'x' is defined in both 'a' and 'b'. Pre-configs cannot have overlapping domains."
    );
    // The refused parent is not taken in.
    assert_eq!(merge.next_location().unwrap(), Some("b".to_string()));
    merge.skip();
    assert_eq!(
        merge.finish(),
        read_document(br#"{"domains":{"x":{},"y":{}}}"#)
    );
}

#[test]
fn a_parent_needs_a_location() {
    let merge = ConfigMerge::start(br#"{"pre_config":[{"repo_location":"a"}]}"#);
    assert_eq!(
        merge.next_location().unwrap_err().to_string(),
        "pre_config entry missing 'location' field"
    );
    let merge = ConfigMerge::start(b"broken");
    assert_eq!(merge.next_location().unwrap(), None);
    assert_eq!(merge.finish(), object(vec![]));
}
