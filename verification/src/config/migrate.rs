//! Bringing configuration documents of older forms into the present one.
use crate::json::{
    document_tree, holds_tree, is_alike, lemma_tree, read_document, tree_document, write_document,
    JsonValue, JsonView,
};
use crate::map::{lists_keys, sorted_keys, StrMap};
use crate::sort::reversed;
use crate::text::chars_of;
use vstd::prelude::*;

verus! {

// ---------------------------------------------------------------------------
// What migration does
// ---------------------------------------------------------------------------
/// The domain stands under its path instead of its name.
pub open spec fn is_path_keyed(key: Seq<char>, domain: JsonView) -> bool {
    key.len() > 0 && key[0] == '/' && domain.member("name"@) is Some
}

/// Some domain stands under its path instead of its name.
pub open spec fn has_path_keys(domains: Map<Seq<char>, JsonView>) -> bool {
    exists|k: Seq<char>| #[trigger] domains.contains_key(k) && is_path_keyed(k, domains[k])
}

/// The name that a domain gives itself.
pub open spec fn own_name(domain: JsonView) -> Seq<char> {
    match domain.text_at("name"@) {
        Some(s) => s,
        None => "unknown"@,
    }
}

/// The domain with its path as its location in place of its name.
pub open spec fn relocated(path: Seq<char>, domain: JsonView) -> JsonView {
    match domain {
        JsonView::Object(m) => JsonView::Object(
            m.remove("name"@).insert("location"@, JsonView::Text(path)),
        ),
        _ => domain,
    }
}

/// The first `n` domains, in the order of their keys, under their own names. Of
/// two with the same name the later one stays.
pub open spec fn renamed(domains: Map<Seq<char>, JsonView>, n: nat) -> Map<Seq<char>, JsonView>
    decreases n,
{
    if n == 0 {
        Map::empty()
    } else {
        let key = sorted_keys(domains)[n - 1];
        renamed(domains, (n - 1) as nat).insert(
            own_name(domains[key]),
            relocated(key, domains[key]),
        )
    }
}

/// The document with its domains under their names.
pub open spec fn with_named_domains(v: JsonView) -> JsonView {
    match v.object_at("domains"@) {
        Some(domains) => if has_path_keys(domains) {
            JsonView::Object(
                v->Object_0.insert(
                    "domains"@,
                    JsonView::Object(renamed(domains, sorted_keys(domains).len())),
                ),
            )
        } else {
            v
        },
        None => v,
    }
}

/// The domain holds services but no groups.
pub open spec fn is_ungrouped(domain: JsonView) -> bool {
    domain.member("services"@) is Some && domain.member("groups"@) is None
}

/// The domain with its services in the group `.`.
pub open spec fn grouped(domain: JsonView) -> JsonView {
    if is_ungrouped(domain) {
        let m = domain->Object_0;
        let dot = Map::<Seq<char>, JsonView>::empty().insert("services"@, m["services"@]);
        let groups = Map::<Seq<char>, JsonView>::empty().insert("."@, JsonView::Object(dot));
        JsonView::Object(m.remove("services"@).insert("groups"@, JsonView::Object(groups)))
    } else {
        domain
    }
}

/// The document with the services of each domain in a group.
pub open spec fn with_groups(v: JsonView) -> JsonView {
    match v.object_at("domains"@) {
        Some(domains) => JsonView::Object(
            v->Object_0.insert(
                "domains"@,
                JsonView::Object(domains.map_values(|d: JsonView| grouped(d))),
            ),
        ),
        None => v,
    }
}

/// The document with its single parent configuration in a list.
pub open spec fn with_parent_list(v: JsonView) -> JsonView {
    match v.text_at("pre_config"@) {
        Some(location) => {
            let entry = Map::<Seq<char>, JsonView>::empty().insert(
                "location"@,
                JsonView::Text(location),
            );
            JsonView::Object(
                v->Object_0.insert("pre_config"@, JsonView::Array(seq![JsonView::Object(entry)])),
            )
        },
        None => v,
    }
}

/// The document in the present form.
pub open spec fn migrated(v: JsonView) -> JsonView {
    with_parent_list(with_groups(with_named_domains(v)))
}

/// The document holds a domain without groups.
pub open spec fn has_ungrouped(v: JsonView) -> bool {
    match v.object_at("domains"@) {
        Some(domains) => exists|k: Seq<char>| #[trigger]
            domains.contains_key(k) && is_ungrouped(domains[k]),
        None => false,
    }
}

/// The document is of an older form.
pub open spec fn needs_migration(v: JsonView) -> bool {
    ||| match v.object_at("domains"@) {
        Some(domains) => has_path_keys(domains),
        None => false,
    }
    ||| has_ungrouped(with_named_domains(v))
    ||| v.text_at("pre_config"@) is Some
}

// ---------------------------------------------------------------------------
// Migrating
// ---------------------------------------------------------------------------
fn starts_with_slash(key: &str) -> (r: bool)
    ensures
        r == (key@.len() > 0 && key@[0] == '/'),
{
    let chars = chars_of(key);
    chars.len() > 0 && chars[0] == '/'
}

fn any_path_keys(domains: &StrMap<JsonValue>) -> (r: bool)
    ensures
        r == has_path_keys(domains@),
{
    let n: usize = domains.len();
    let ghost keys = sorted_keys(domains@);
    let mut i: usize = 0;
    while i < n
        invariant
            i <= n,
            n == keys.len(),
            keys == sorted_keys(domains@),
            forall|j: int| 0 <= j < i ==> !is_path_keyed(#[trigger] keys[j], domains@[keys[j]]),
        decreases n - i,
    {
        let key = domains.key_at(i);
        if starts_with_slash(key.as_str()) && domains.value_at(i).get("name").is_some() {
            assert(is_path_keyed(key@, domains@[key@]));
            return true;
        }
        i += 1;
    }
    assert forall|k: Seq<char>| #[trigger] domains@.contains_key(k) implies !is_path_keyed(
        k,
        domains@[k],
    ) by {
        assert(keys.to_set().contains(k));
        assert(keys[keys.index_of(k)] == k);
    }
    false
}

fn find_own_name(domain: &JsonValue) -> (r: String)
    ensures
        r@ == own_name(domain@),
{
    match domain.get("name") {
        Some(name) => match name.as_str() {
            Some(s) => s.to_string(),
            None => "unknown".to_string(),
        },
        None => "unknown".to_string(),
    }
}

fn relocate(path: String, domain: JsonValue) -> (r: JsonValue)
    ensures
        r@ == relocated(path@, domain@),
{
    broadcast use lemma_tree;

    match domain {
        JsonValue::Object(m) => {
            let mut m = m;
            m.remove("name");
            m.insert("location".to_string(), JsonValue::Text(path));
            JsonValue::Object(m)
        },
        other => other,
    }
}

fn rename_domains(domains: StrMap<JsonValue>) -> (r: StrMap<JsonValue>)
    ensures
        r@ == renamed(domains@, sorted_keys(domains@).len()),
{
    let ghost d = domains@;
    let ghost keys = sorted_keys(d);
    let entries = domains.into_entries();
    let ghost all = entries@;
    let mut rest = reversed(entries);
    let mut out: StrMap<JsonValue> = StrMap::new();
    while rest.len() > 0
        invariant
            keys == sorted_keys(d),
            all.len() == keys.len(),
            rest@.len() <= all.len(),
            forall|i: int|
                #![trigger rest@[i]]
                0 <= i < rest@.len() ==> rest@[i] == all[all.len() - 1 - i],
            forall|i: int|
                #![trigger all[i]]
                0 <= i < all.len() ==> all[i].0@ == keys[i] && all[i].1@ == d[all[i].0@],
            out@ == renamed(d, (all.len() - rest@.len()) as nat),
        decreases rest@.len(),
    {
        let ghost n = all.len() - rest@.len();
        let ghost before = rest@;
        match rest.pop() {
            Some((key, domain)) => {
                assert(before[before.len() - 1] == all[n]);
                assert(all[n].0@ == keys[n]);
                let name = find_own_name(&domain);
                out.insert(name, relocate(key, domain));
            },
            None => {},
        }
    }
    out
}

/// Puts each domain under its own name, where one stands under its path.
fn name_domains(value: JsonValue) -> (r: (JsonValue, bool))
    ensures
        r.0@ == with_named_domains(value@),
        r.1 == match value@.object_at("domains"@) {
            Some(domains) => has_path_keys(domains),
            None => false,
        },
{
    broadcast use lemma_tree;

    match value {
        JsonValue::Object(m) => {
            let ghost whole = m@;
            let mut m = m;
            match m.remove("domains") {
                Some(JsonValue::Object(domains)) => {
                    let found = any_path_keys(&domains);
                    let domains = if found {
                        rename_domains(domains)
                    } else {
                        domains
                    };
                    let ghost d = domains@;
                    m.insert("domains".to_string(), JsonValue::Object(domains));
                    assert(m@ =~= whole.insert("domains"@, JsonView::Object(d)));
                    proof {
                        if !found {
                            assert(m@ =~= whole);
                        }
                    }
                    (JsonValue::Object(m), found)
                },
                Some(other) => {
                    m.insert("domains".to_string(), other);
                    assert(m@ =~= whole);
                    (JsonValue::Object(m), false)
                },
                None => {
                    assert(m@ =~= whole);
                    (JsonValue::Object(m), false)
                },
            }
        },
        other => (other, false),
    }
}

fn group_services(domain: JsonValue) -> (r: (JsonValue, bool))
    ensures
        r.0@ == grouped(domain@),
        r.1 == is_ungrouped(domain@),
{
    broadcast use lemma_tree;

    match domain {
        JsonValue::Object(m) => {
            let ghost whole = m@;
            let mut m = m;
            if m.contains_key("groups") {
                return (JsonValue::Object(m), false);
            }
            match m.remove("services") {
                Some(services) => {
                    let mut dot: StrMap<JsonValue> = StrMap::new();
                    dot.insert("services".to_string(), services);
                    let mut groups: StrMap<JsonValue> = StrMap::new();
                    groups.insert(".".to_string(), JsonValue::Object(dot));
                    m.insert("groups".to_string(), JsonValue::Object(groups));
                    (JsonValue::Object(m), true)
                },
                None => {
                    assert(m@ =~= whole);
                    (JsonValue::Object(m), false)
                },
            }
        },
        other => (other, false),
    }
}

fn group_domains(domains: StrMap<JsonValue>) -> (r: (StrMap<JsonValue>, bool))
    ensures
        r.0@ == domains@.map_values(|d: JsonView| grouped(d)),
        r.1 == exists|k: Seq<char>| #[trigger]
            domains@.contains_key(k) && is_ungrouped(domains@[k]),
{
    let ghost d = domains@;
    let ghost keys = sorted_keys(d);
    let mut entries = domains.into_entries();
    let ghost all = entries@;
    let mut out: StrMap<JsonValue> = StrMap::new();
    let mut changed = false;
    while entries.len() > 0
        invariant
            keys == sorted_keys(d),
            lists_keys(keys, d),
            all.len() == keys.len(),
            entries@ == all.take(entries@.len() as int),
            entries@.len() <= all.len(),
            forall|i: int|
                #![trigger all[i]]
                0 <= i < all.len() ==> all[i].0@ == keys[i] && d.contains_key(all[i].0@)
                    && all[i].1@ == d[all[i].0@],
            forall|k: Seq<char>|
                out@.contains_key(k) <==> exists|i: int|
                    entries@.len() <= i < all.len() && #[trigger] keys[i] == k,
            forall|k: Seq<char>| out@.contains_key(k) ==> out@[k] == grouped(d[k]),
            changed == exists|i: int|
                entries@.len() <= i < all.len() && is_ungrouped(d[#[trigger] keys[i]]),
        decreases entries@.len(),
    {
        let ghost before = entries@;
        let ghost n = entries@.len() - 1;
        match entries.pop() {
            Some((key, domain)) => {
                assert(before[n] == all[n]);
                assert(all[n].0@ == keys[n]);
                assert(entries@ =~= all.take(n));
                let (domain, here) = group_services(domain);
                changed = here || changed;
                out.insert(key, domain);
            },
            None => {},
        }
    }
    proof {
        let want = d.map_values(|d: JsonView| grouped(d));
        assert forall|k: Seq<char>| out@.contains_key(k) <==> d.contains_key(k) by {
            if d.contains_key(k) {
                assert(keys.to_set().contains(k));
                assert(keys[keys.index_of(k)] == k);
            }
            if out@.contains_key(k) {
                assert(keys.to_set().contains(k));
            }
        }
        assert(out@ =~= want);
        if exists|k: Seq<char>| #[trigger] d.contains_key(k) && is_ungrouped(d[k]) {
            let k = choose|k: Seq<char>| #[trigger] d.contains_key(k) && is_ungrouped(d[k]);
            assert(keys.to_set().contains(k));
            assert(keys[keys.index_of(k)] == k);
        }
        if changed {
            let i = choose|i: int| 0 <= i < all.len() && is_ungrouped(d[#[trigger] keys[i]]);
            assert(keys.to_set().contains(keys[i]));
            assert(d.contains_key(keys[i]));
        }
    }
    (out, changed)
}

/// Puts the services of each domain that has no groups into the group `.`.
fn add_groups(value: JsonValue) -> (r: (JsonValue, bool))
    ensures
        r.0@ == with_groups(value@),
        r.1 == has_ungrouped(value@),
{
    broadcast use lemma_tree;

    match value {
        JsonValue::Object(m) => {
            let ghost whole = m@;
            let mut m = m;
            match m.remove("domains") {
                Some(JsonValue::Object(domains)) => {
                    let (domains, changed) = group_domains(domains);
                    let ghost d = domains@;
                    m.insert("domains".to_string(), JsonValue::Object(domains));
                    assert(m@ =~= whole.insert("domains"@, JsonView::Object(d)));
                    (JsonValue::Object(m), changed)
                },
                Some(other) => {
                    m.insert("domains".to_string(), other);
                    assert(m@ =~= whole);
                    (JsonValue::Object(m), false)
                },
                None => {
                    assert(m@ =~= whole);
                    (JsonValue::Object(m), false)
                },
            }
        },
        other => (other, false),
    }
}

/// Puts a single parent configuration into a list.
fn list_parents(value: JsonValue) -> (r: (JsonValue, bool))
    ensures
        r.0@ == with_parent_list(value@),
        r.1 == (value@.text_at("pre_config"@) is Some),
{
    broadcast use lemma_tree;

    match value {
        JsonValue::Object(m) => {
            let ghost whole = m@;
            let mut m = m;
            match m.remove("pre_config") {
                Some(JsonValue::Text(location)) => {
                    let mut entry: StrMap<JsonValue> = StrMap::new();
                    entry.insert("location".to_string(), JsonValue::Text(location));
                    let mut list: Vec<JsonValue> = Vec::new();
                    list.push(JsonValue::Object(entry));
                    assert(list.deep_view() =~= seq![JsonView::Object(entry@)]);
                    let parents = JsonValue::Array(list);
                    let ghost p = parents@;
                    m.insert("pre_config".to_string(), parents);
                    assert(m@ =~= whole.insert("pre_config"@, p));
                    (JsonValue::Object(m), true)
                },
                Some(other) => {
                    m.insert("pre_config".to_string(), other);
                    assert(m@ =~= whole);
                    (JsonValue::Object(m), false)
                },
                None => {
                    assert(m@ =~= whole);
                    (JsonValue::Object(m), false)
                },
            }
        },
        other => (other, false),
    }
}

/// Brings a document into the present form, and says whether it was of an older
/// one.
pub fn migrate(value: JsonValue) -> (r: (JsonValue, bool))
    ensures
        r.0@ == migrated(value@),
        r.1 == needs_migration(value@),
{
    let (value, named) = name_domains(value);
    proof {
        lemma_keys_differ();
    }
    let (value, grouped) = add_groups(value);
    let (value, listed) = list_parents(value);
    (value, named || grouped || listed)
}

/// Migrates a document. `None` says that it is of the present form already, as every migrated
/// document is when it is read again.
pub fn maybe_migrate(data: &[u8]) -> (r: Option<Vec<u8>>)
    ensures
        r is Some <==> needs_migration(document_tree(data@)),
        r matches Some(d) ==> d@ == tree_document(migrated(document_tree(data@))),
        r matches Some(d) ==> holds_tree(d@, migrated(document_tree(data@))),
        r matches Some(d) ==> !needs_migration(document_tree(d@)),
{
    let (value, changed) = migrate(read_document(data));
    if changed {
        let written = write_document(value);
        proof {
            let want = migrated(document_tree(data@));
            migrated_document_needs_no_migration(document_tree(data@));
            if is_alike(want, document_tree(written@)) {
                lemma_alike_needs_no_migration(want, document_tree(written@));
            }
        }
        Some(written)
    } else {
        None
    }
}

// ---------------------------------------------------------------------------
// Laws
// ---------------------------------------------------------------------------
/// The keys that migration touches are different keys.
proof fn lemma_keys_differ()
    ensures
        "domains"@ != "pre_config"@,
        "name"@ != "location"@,
        "name"@ != "services"@,
        "name"@ != "groups"@,
        "services"@ != "groups"@,
{
    reveal_strlit("domains");
    reveal_strlit("pre_config");
    reveal_strlit("name");
    reveal_strlit("location");
    reveal_strlit("services");
    reveal_strlit("groups");
    assert("domains"@[0] == 'd' && "pre_config"@[0] == 'p');
    assert("name"@[0] == 'n' && "location"@[0] == 'l');
    assert("services"@[0] == 's' && "groups"@[0] == 'g');
}

/// A renamed domain no longer holds its name.
proof fn lemma_renamed_hold_no_name(domains: Map<Seq<char>, JsonView>, n: nat)
    ensures
        forall|k: Seq<char>| #[trigger]
            renamed(domains, n).contains_key(k) ==> renamed(domains, n)[k].member("name"@) is None,
    decreases n,
{
    if n > 0 {
        lemma_renamed_hold_no_name(domains, (n - 1) as nat);
        lemma_keys_differ();
    }
}

/// Migration brings every document into the present form: the result needs no
/// migration.
pub proof fn migrated_document_needs_no_migration(v: JsonView)
    ensures
        !needs_migration(migrated(v)),
{
    lemma_keys_differ();
    let named = with_named_domains(v);
    let in_groups = with_groups(named);
    let r = migrated(v);
    assert(r.object_at("domains"@) == in_groups.object_at("domains"@));
    match named.object_at("domains"@) {
        Some(d) => {
            assert(!has_path_keys(d)) by {
                let before = v.object_at("domains"@)->0;
                if has_path_keys(before) {
                    lemma_renamed_hold_no_name(before, sorted_keys(before).len());
                }
            }
            let e = d.map_values(|d: JsonView| grouped(d));
            assert(r.object_at("domains"@) == Some(e));
            assert forall|k: Seq<char>| #[trigger] e.contains_key(k) implies !is_path_keyed(k, e[k])
                && !is_ungrouped(e[k]) by {
                assert(d.contains_key(k));
                assert(e[k] == grouped(d[k]));
                assert(!is_path_keyed(k, d[k]));
            }
            assert(!has_path_keys(e));
        },
        None => {},
    }
}

/// A document like one in the present form is in the present form: its numbers have no say.
proof fn lemma_alike_needs_no_migration(a: JsonView, b: JsonView)
    requires
        is_alike(a, b),
        !needs_migration(a),
    ensures
        !needs_migration(b),
{
    match b.object_at("domains"@) {
        Some(e) => {
            assert(is_alike(a->Object_0["domains"@], b->Object_0["domains"@]));
            let d = a.object_at("domains"@)->0;
            assert(a->Object_0["domains"@] == JsonView::Object(d));
            assert(with_named_domains(a) == a);
            assert forall|k: Seq<char>| #[trigger] e.contains_key(k) implies !is_path_keyed(k, e[k])
                && !is_ungrouped(e[k]) by {
                assert(d.contains_key(k));
                assert(is_alike(d[k], e[k]));
                assert(!is_path_keyed(k, d[k]));
                assert(!is_ungrouped(d[k]));
            }
            assert(with_named_domains(b) == b);
        },
        None => {},
    }
    if b.text_at("pre_config"@) is Some {
        assert(is_alike(a->Object_0["pre_config"@], b->Object_0["pre_config"@]));
    }
}

/// A document in the present form is left as it is.
pub proof fn present_document_is_left_alone(v: JsonView)
    requires
        !needs_migration(v),
    ensures
        migrated(v) == v,
{
    match v.object_at("domains"@) {
        Some(d) => {
            assert(with_named_domains(v) == v);
            let e = d.map_values(|d: JsonView| grouped(d));
            assert forall|k: Seq<char>| #[trigger] d.contains_key(k) implies e[k] == d[k] by {}
            assert(e =~= d);
            assert(v->Object_0.insert("domains"@, JsonView::Object(d)) =~= v->Object_0);
            assert(with_groups(v) == v);
        },
        None => {},
    }
}

/// A document is rewritten exactly when migration changes it, and migrating twice
/// is migrating once.
pub proof fn migration_is_needed_once(v: JsonView)
    ensures
        needs_migration(v) <==> migrated(v) != v,
        migrated(migrated(v)) == migrated(v),
{
    migrated_document_needs_no_migration(v);
    present_document_is_left_alone(migrated(v));
    if !needs_migration(v) {
        present_document_is_left_alone(v);
    }
}

} // verus!
