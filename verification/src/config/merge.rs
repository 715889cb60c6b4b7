//! Combining configuration documents.
use crate::json::{
    document_tree, every_tree_is_finite, holds_tree, is_finite_tree, lemma_tree, read_document,
    tree_document, write_document, JsonValue, JsonView,
};
use crate::map::{lemma_sorted_keys, lists_keys, sorted_keys, StrMap};
use crate::sort::reversed;
use crate::text::{chars_of, lex_less, string_of};
use vstd::prelude::*;

verus! {

// ---------------------------------------------------------------------------
// Keys that override
// ---------------------------------------------------------------------------
/// A key that starts with `*` overrides what stands under the rest of the key.
pub open spec fn is_star(key: Seq<char>) -> bool {
    key.len() > 0 && key[0] == '*'
}

/// The key that overrides the given one.
pub open spec fn star(key: Seq<char>) -> Seq<char> {
    seq!['*'] + key
}

/// The key without the leading `*`, where it has one.
fn strip_star(key: &str) -> (r: Option<String>)
    ensures
        r is Some <==> is_star(key@),
        r matches Some(k) ==> k@ == key@.drop_first(),
{
    let chars = chars_of(key);
    if chars.len() > 0 && chars[0] == '*' {
        let rest = string_of(&chars, 1, chars.len());
        assert(rest@ =~= key@.drop_first());
        Some(rest)
    } else {
        None
    }
}

// ---------------------------------------------------------------------------
// Nulls
// ---------------------------------------------------------------------------
/// Is the member kept when nulls are removed? A null under a `*` key stays: it
/// means that the value is overridden with nothing.
pub open spec fn kept(key: Seq<char>, value: JsonView) -> bool {
    !(value is Null) || is_star(key)
}

/// The value without the members that are null, at any depth.
pub open spec fn without_nulls(v: JsonView) -> JsonView
    decreases v,
{
    match v {
        JsonView::Object(m) => JsonView::Object(
            Map::new(
                |k: Seq<char>| m.contains_key(k) && kept(k, m[k]),
                |k: Seq<char>|
                    if m.contains_key(k) {
                        without_nulls(m[k])
                    } else {
                        JsonView::Null
                    },
            ),
        ),
        JsonView::Array(items) => JsonView::Array(
            Seq::new(
                items.len(),
                |i: int|
                    if 0 <= i < items.len() {
                        without_nulls(items[i])
                    } else {
                        JsonView::Null
                    },
            ),
        ),
        _ => v,
    }
}

/// Removes the members that are null, at any depth, except those under a `*` key.
pub fn strip_nulls(value: &mut JsonValue)
    ensures
        final(value)@ == without_nulls(old(value)@),
{
    let mut taken = JsonValue::Null;
    std::mem::swap(value, &mut taken);
    *value = stripped(taken);
}

/// The document without the members that are null, at any depth, except those under a `*`
/// key. This is the form in which a configuration is saved.
pub fn strip_document(data: &[u8]) -> (r: Vec<u8>)
    ensures
        r@ == tree_document(without_nulls(document_tree(data@))),
        holds_tree(r@, without_nulls(document_tree(data@))),
{
    let mut value = read_document(data);
    strip_nulls(&mut value);
    write_document(value)
}

fn stripped(value: JsonValue) -> (r: JsonValue)
    ensures
        r@ == without_nulls(value@),
    decreases value@,
{
    broadcast use lemma_tree;

    let ghost whole = value@;
    match value {
        JsonValue::Object(members) => {
            let ghost m = members@;
            let ghost keys = sorted_keys(m);
            let mut entries = members.into_entries();
            let ghost all = entries@;
            let mut out: StrMap<JsonValue> = StrMap::new();
            while entries.len() > 0
                invariant
                    whole == value@,
                    whole == JsonView::Object(m),
                    keys == sorted_keys(m),
                    lists_keys(keys, m),
                    all.len() == keys.len(),
                    entries@ == all.take(entries@.len() as int),
                    entries@.len() <= all.len(),
                    forall|i: int|
                        #![trigger all[i]]
                        0 <= i < all.len() ==> all[i].0@ == keys[i] && m.contains_key(all[i].0@)
                            && all[i].1@ == m[all[i].0@],
                    forall|k: Seq<char>|
                        out@.contains_key(k) <==> kept(k, m[k]) && exists|i: int|
                            entries@.len() <= i < all.len() && #[trigger] keys[i] == k,
                    forall|k: Seq<char>| out@.contains_key(k) ==> out@[k] == without_nulls(m[k]),
                decreases entries@.len(),
            {
                let ghost before = entries@;
                let ghost n = entries@.len() - 1;
                match entries.pop() {
                    Some((key, inner)) => {
                        assert(before[n] == all[n]);
                        assert(all[n].0@ == keys[n]);
                        assert(entries@ =~= all.take(n));
                        assert(key@ == keys[n] && inner@ == m[key@]);
                        assert(decreases_to!(whole => whole->Object_0));
                        assert(decreases_to!(m => m[key@]));
                        if !inner.is_null() || strip_star(key.as_str()).is_some() {
                            out.insert(key, stripped(inner));
                        }
                    },
                    None => {},
                }
            }
            assert(JsonView::Object(out@) == without_nulls(whole)) by {
                let want = without_nulls(whole)->Object_0;
                assert forall|k: Seq<char>| out@.contains_key(k) <==> want.contains_key(k) by {
                    if want.contains_key(k) {
                        assert(keys.to_set().contains(k));
                        assert(keys[keys.index_of(k)] == k);
                    }
                    if out@.contains_key(k) {
                        assert(keys.to_set().contains(k));
                    }
                }
                assert(out@ =~= want);
            }
            JsonValue::Object(out)
        },
        JsonValue::Array(items) => {
            let mut rest = items;
            let ghost all = rest@;
            let mut out: Vec<JsonValue> = Vec::new();
            let mut i: usize = 0;
            while i < rest.len()
                invariant
                    whole == value@,
                    whole == JsonView::Array(items.deep_view()),
                    all == items@,
                    i <= rest@.len(),
                    rest@.len() == all.len(),
                    out@.len() == i,
                    forall|k: int| i <= k < all.len() ==> rest@[k] == all[k],
                    forall|k: int| 0 <= k < i ==> (#[trigger] out@[k])@ == without_nulls(all[k]@),
                decreases rest@.len() - i,
            {
                let mut item = JsonValue::Null;
                std::mem::swap(&mut rest[i], &mut item);
                assert(decreases_to!(whole => whole->Array_0));
                assert(decreases_to!(whole->Array_0 => whole->Array_0[i as int]));
                assert(whole->Array_0[i as int] == all[i as int]@);
                out.push(stripped(item));
                i += 1;
            }
            assert(out.deep_view() =~= without_nulls(whole)->Array_0);
            JsonValue::Array(out)
        },
        other => other,
    }
}

// ---------------------------------------------------------------------------
// Merging
// ---------------------------------------------------------------------------
/// The value that results from laying one value over another.
///
/// Objects merge member by member, arrays are concatenated, and of anything else
/// the overlay wins, unless it is null.
pub open spec fn merged(base: JsonView, overlay: JsonView) -> JsonView
    decreases overlay, 0nat,
{
    match (base, overlay) {
        (JsonView::Object(b), JsonView::Object(o)) => JsonView::Object(
            merged_members(b, o, sorted_keys(o).len()),
        ),
        (JsonView::Array(a), JsonView::Array(b)) => JsonView::Array(a + b),
        _ => if overlay is Null {
            base
        } else {
            overlay
        },
    }
}

/// The members of `b` after the first `n` members of `o`, in the order of their
/// keys, were laid over them.
pub open spec fn merged_members(
    b: Map<Seq<char>, JsonView>,
    o: Map<Seq<char>, JsonView>,
    n: nat,
) -> Map<Seq<char>, JsonView>
    decreases o, n,
{
    if n == 0 {
        b
    } else {
        let before = merged_members(b, o, (n - 1) as nat);
        let key = sorted_keys(o)[n - 1];
        if !o.dom().finite() || !o.contains_key(key) {
            before
        } else if is_star(key) {
            if o[key] is Null {
                before.remove(key.drop_first())
            } else {
                before.insert(key.drop_first(), o[key])
            }
        } else if o[key] is Null {
            before
        } else if before.contains_key(key) {
            before.insert(key, merged(before[key], o[key]))
        } else {
            before.insert(key, o[key])
        }
    }
}

/// Lays one value over another.
///
/// A member of the overlay whose key starts with `*` replaces the member without
/// the `*`, or removes it where it is null. Any other null leaves the base as it
/// is.
pub fn merge_values(base: JsonValue, overlay: JsonValue) -> (r: JsonValue)
    ensures
        r@ == merged(base@, overlay@),
        is_finite_tree(overlay@),
    decreases overlay@,
{
    broadcast use lemma_tree;

    let ghost whole = overlay@;
    proof {
        every_tree_is_finite(overlay);
    }
    match (base, overlay) {
        (JsonValue::Object(base_map), JsonValue::Object(overlay_map)) => {
            let ghost b = base_map@;
            let ghost o = overlay_map@;
            let ghost keys = sorted_keys(o);
            let entries = overlay_map.into_entries();
            let ghost all = entries@;
            let mut rest = reversed(entries);
            let mut out = base_map;
            assert(rest@ =~= all.reverse());
            while rest.len() > 0
                invariant
                    whole == JsonView::Object(o),
                    o.dom().finite(),
                    keys == sorted_keys(o),
                    all.len() == keys.len(),
                    rest@.len() <= all.len(),
                    forall|i: int|
                        #![trigger rest@[i]]
                        0 <= i < rest@.len() ==> rest@[i] == all[all.len() - 1 - i],
                    forall|i: int|
                        #![trigger all[i]]
                        0 <= i < all.len() ==> all[i].0@ == keys[i] && o.contains_key(all[i].0@)
                            && all[i].1@ == o[all[i].0@],
                    out@ == merged_members(b, o, (all.len() - rest@.len()) as nat),
                    whole == overlay@,
                decreases rest@.len(),
            {
                let ghost n = all.len() - rest@.len();
                let ghost before = rest@;
                match rest.pop() {
                    Some((key, value)) => {
                        assert(before[before.len() - 1] == all[n]);
                        assert(all[n].0@ == keys[n]);
                        assert(key@ == keys[n] && value@ == o[key@]);
                        assert(decreases_to!(whole => whole->Object_0));
                        assert(decreases_to!(o => o[key@]));
                        match strip_star(key.as_str()) {
                            Some(actual) => {
                                if value.is_null() {
                                    out.remove(actual.as_str());
                                } else {
                                    out.insert(actual, value);
                                }
                            },
                            None => {
                                if !value.is_null() {
                                    match out.remove(key.as_str()) {
                                        Some(inner) => {
                                            let ghost acc = merged_members(b, o, n as nat);
                                            let ghost at = key@;
                                            let both = merge_values(inner, value);
                                            let ghost new_value = both@;
                                            out.insert(key, both);
                                            assert(out@ =~= acc.insert(at, new_value));
                                        },
                                        None => {
                                            let ghost acc = merged_members(b, o, n as nat);
                                            assert(acc.remove(key@) =~= acc);
                                            out.insert(key, value);
                                        },
                                    }
                                }
                            },
                        }
                    },
                    None => {},
                }
            }
            JsonValue::Object(out)
        },
        (JsonValue::Array(base_items), JsonValue::Array(overlay_items)) => {
            let mut items = base_items;
            let mut more = overlay_items;
            items.append(&mut more);
            assert(items.deep_view() =~= base_items.deep_view() + overlay_items.deep_view());
            JsonValue::Array(items)
        },
        (base, overlay) => {
            if overlay.is_null() {
                base
            } else {
                overlay
            }
        },
    }
}

// ---------------------------------------------------------------------------
// Laws
// ---------------------------------------------------------------------------
/// No member of the value is null, at any depth, except under a `*` key.
pub open spec fn has_no_plain_nulls(v: JsonView) -> bool
    decreases v,
{
    match v {
        JsonView::Object(m) => forall|k: Seq<char>| #[trigger]
            m.contains_key(k) ==> kept(k, m[k]) && has_no_plain_nulls(m[k]),
        JsonView::Array(items) => forall|i: int|
            0 <= i < items.len() ==> has_no_plain_nulls(#[trigger] items[i]),
        _ => true,
    }
}

/// Removing nulls leaves none, except under `*` keys.
pub proof fn stripping_leaves_no_plain_nulls(v: JsonView)
    ensures
        has_no_plain_nulls(without_nulls(v)),
    decreases v,
{
    match v {
        JsonView::Object(m) => {
            let r = without_nulls(v)->Object_0;
            assert forall|k: Seq<char>| #[trigger] r.contains_key(k) implies kept(k, r[k])
                && has_no_plain_nulls(r[k]) by {
                stripping_leaves_no_plain_nulls(m[k]);
            }
        },
        JsonView::Array(items) => {
            let r = without_nulls(v)->Array_0;
            assert forall|i: int| 0 <= i < r.len() implies has_no_plain_nulls(#[trigger] r[i]) by {
                stripping_leaves_no_plain_nulls(items[i]);
            }
        },
        _ => {},
    }
}

/// A value without such nulls is left as it is.
pub proof fn stripping_keeps_a_stripped_value(v: JsonView)
    requires
        has_no_plain_nulls(v),
    ensures
        without_nulls(v) == v,
    decreases v,
{
    match v {
        JsonView::Object(m) => {
            let r = without_nulls(v)->Object_0;
            assert forall|k: Seq<char>| m.contains_key(k) implies #[trigger] r.contains_key(k)
                && r[k] == m[k] by {
                stripping_keeps_a_stripped_value(m[k]);
            }
            assert(r =~= m);
        },
        JsonView::Array(items) => {
            let r = without_nulls(v)->Array_0;
            assert forall|i: int| 0 <= i < items.len() implies r[i] == items[i] by {
                stripping_keeps_a_stripped_value(items[i]);
            }
            assert(r =~= items);
        },
        _ => {},
    }
}

/// Removing nulls twice is removing them once.
pub proof fn stripping_twice_is_stripping_once(v: JsonView)
    ensures
        without_nulls(without_nulls(v)) == without_nulls(v),
{
    stripping_leaves_no_plain_nulls(v);
    stripping_keeps_a_stripped_value(without_nulls(v));
}

/// The overlay says something of the key by its own name.
pub open spec fn speaks_plainly(o: Map<Seq<char>, JsonView>, k: Seq<char>) -> bool {
    !is_star(k) && o.contains_key(k) && !(o[k] is Null)
}

/// What stands under a key.
pub open spec fn under(m: Map<Seq<char>, JsonView>, k: Seq<char>) -> Option<JsonView> {
    if m.contains_key(k) {
        Some(m[k])
    } else {
        None
    }
}

/// What a merge leaves under a key: the overriding value or nothing, where the
/// overlay overrides the key; the two values merged, or the only one there is,
/// where the overlay names it; what the base has, anywhere else.
pub open spec fn merged_at(
    b: Map<Seq<char>, JsonView>,
    o: Map<Seq<char>, JsonView>,
    k: Seq<char>,
) -> Option<JsonView> {
    if o.contains_key(star(k)) {
        if o[star(k)] is Null {
            None
        } else {
            Some(o[star(k)])
        }
    } else if speaks_plainly(o, k) {
        if b.contains_key(k) {
            Some(merged(b[k], o[k]))
        } else {
            Some(o[k])
        }
    } else {
        under(b, k)
    }
}

proof fn lemma_merged_members_at(
    b: Map<Seq<char>, JsonView>,
    o: Map<Seq<char>, JsonView>,
    n: nat,
    k: Seq<char>,
)
    requires
        o.dom().finite(),
        n <= sorted_keys(o).len(),
        !(speaks_plainly(o, k) && o.contains_key(star(k))),
    ensures
        ({
            let seen = sorted_keys(o).take(n as int);
            under(merged_members(b, o, n), k) == if seen.contains(star(k)) || (speaks_plainly(o, k)
                && seen.contains(k)) {
                merged_at(b, o, k)
            } else {
                under(b, k)
            }
        }),
    decreases n,
{
    let keys = sorted_keys(o);
    lemma_sorted_keys(o);
    let seen = keys.take(n as int);
    if n > 0 {
        let m = (n - 1) as nat;
        lemma_merged_members_at(b, o, m, k);
        crate::map::lemma_increasing_distinct(keys);
        let before = keys.take(m as int);
        let key = keys[n - 1];
        assert(o.contains_key(key));
        assert(seen =~= before.push(key));
        assert forall|x: Seq<char>| seen.contains(x) <==> before.contains(x) || x == key by {
            if before.contains(x) {
                let i = before.index_of(x);
                assert(seen[i] == x);
            }
            assert(seen[n - 1] == key);
        }
        assert(!before.contains(key)) by {
            if before.contains(key) {
                let i = before.index_of(key);
                assert(keys[i] == keys[n - 1]);
            }
        }
        assert forall|x: Seq<char>| before.contains(x) implies o.contains_key(x) by {
            let i = before.index_of(x);
            assert(keys[i] == x);
        }
        assert(star(k).drop_first() =~= k);
        assert(is_star(star(k)));
        if is_star(key) && key.drop_first() == k {
            assert(star(k) =~= key);
        }
    } else {
        assert(seen.len() == 0);
    }
}

/// What a merge of two objects leaves under each key, where the overlay does not
/// say of the key both what to merge and what to override.
pub proof fn merging_decides_each_key(
    b: Map<Seq<char>, JsonView>,
    o: Map<Seq<char>, JsonView>,
    k: Seq<char>,
)
    requires
        o.dom().finite(),
        !(speaks_plainly(o, k) && o.contains_key(star(k))),
    ensures
        merged(JsonView::Object(b), JsonView::Object(o)).member(k) == merged_at(b, o, k),
{
    let keys = sorted_keys(o);
    lemma_sorted_keys(o);
    lemma_merged_members_at(b, o, keys.len(), k);
    assert(keys.take(keys.len() as int) =~= keys);
    if keys.contains(star(k)) {
        assert(o.contains_key(keys[keys.index_of(star(k))]));
    }
    if keys.contains(k) {
        assert(o.contains_key(keys[keys.index_of(k)]));
    }
}

/// Of the two, the key that is laid on last decides. A key that stands in the overlay both
/// plainly and overridden gets both, in the order of the two keys: as a rule the override
/// comes first, and the plain value is merged into it.
pub proof fn merging_a_key_that_is_also_overridden(
    b: Map<Seq<char>, JsonView>,
    o: Map<Seq<char>, JsonView>,
    k: Seq<char>,
)
    requires
        o.dom().finite(),
        k.len() == 0 || k[0] != '*',
        o.contains_key(k),
        !(o[k] is Null),
        o.contains_key(seq!['*'] + k),
    ensures
        ({
            let overriding = o[seq!['*'] + k];
            let r = merged(JsonView::Object(b), JsonView::Object(o))->Object_0;
            &&& merged(JsonView::Object(b), JsonView::Object(o)) is Object
            &&& k.len() > 0 && k[0] > '*' ==> r.contains_key(k) && r[k] == if overriding is Null {
                o[k]
            } else {
                merged(overriding, o[k])
            }
            &&& k.len() == 0 || k[0] < '*' ==> (r.contains_key(k) <==> !(overriding is Null))
            &&& (k.len() == 0 || k[0] < '*') && !(overriding is Null) ==> r[k] == overriding
        }),
{
    let keys = sorted_keys(o);
    lemma_sorted_keys(o);
    crate::map::lemma_increasing_distinct(keys);
    lemma_both_members_at(b, o, keys.len(), k);
    assert(keys.take(keys.len() as int) =~= keys);
    assert(keys[keys.index_of(star(k))] == star(k));
    assert(keys[keys.index_of(k)] == k);
}

/// The first key of two in a list that is in order stands first.
proof fn lemma_order_of_keys(keys: Seq<Seq<char>>, k: Seq<char>)
    requires
        crate::map::increasing(keys),
        keys.contains(k),
        keys.contains(star(k)),
        k.len() == 0 || k[0] != '*',
    ensures
        k.len() > 0 && k[0] > '*' ==> keys.index_of(star(k)) < keys.index_of(k),
        k.len() == 0 || k[0] < '*' ==> keys.index_of(k) < keys.index_of(star(k)),
{
    let i = keys.index_of(k);
    let j = keys.index_of(star(k));
    assert(keys[i] == k && keys[j] == star(k));
    assert(star(k)[0] == '*');
    assert(star(k).len() == k.len() + 1);
    if i < j {
        assert(lex_less(keys[i], keys[j]));
    } else if j < i {
        assert(lex_less(keys[j], keys[i]));
    }
}

proof fn lemma_both_members_at(
    b: Map<Seq<char>, JsonView>,
    o: Map<Seq<char>, JsonView>,
    n: nat,
    k: Seq<char>,
)
    requires
        o.dom().finite(),
        n <= sorted_keys(o).len(),
        speaks_plainly(o, k),
        o.contains_key(star(k)),
    ensures
        ({
            let keys = sorted_keys(o);
            let m = merged_members(b, o, n);
            let overridden = keys.index_of(star(k)) < n;
            let merged_in = keys.index_of(k) < n;
            &&& !overridden && !merged_in ==> under(m, k) == under(b, k)
            &&& overridden && !merged_in ==> under(m, k) == if o[star(k)] is Null {
                None
            } else {
                Some(o[star(k)])
            }
            &&& overridden && merged_in && keys.index_of(star(k)) < keys.index_of(k) ==> under(m, k)
                == if o[star(k)] is Null {
                Some(o[k])
            } else {
                Some(merged(o[star(k)], o[k]))
            }
            &&& overridden && merged_in && keys.index_of(k) < keys.index_of(star(k)) ==> under(m, k)
                == if o[star(k)] is Null {
                None
            } else {
                Some(o[star(k)])
            }
        }),
    decreases n,
{
    let keys = sorted_keys(o);
    lemma_sorted_keys(o);
    crate::map::lemma_increasing_distinct(keys);
    lemma_order_of_keys(keys, k);
    assert(star(k).drop_first() =~= k);
    assert(is_star(star(k)));
    if n > 0 {
        let m = (n - 1) as nat;
        lemma_both_members_at(b, o, m, k);
        let key = keys[n - 1];
        assert(o.contains_key(key));
        let i = keys.index_of(k);
        let j = keys.index_of(star(k));
        assert(keys[i] == k && keys[j] == star(k));
        if is_star(key) && key.drop_first() == k {
            assert(star(k) =~= key);
            assert(j == n - 1);
        }
        if key == k {
            assert(i == n - 1);
        }
    }
}

/// A merge of two objects is an object, and what it holds under a key comes from that key
/// alone. A `*` key of the overlay replaces the member, or removes it where it is null. A
/// plain key is merged into what the base has, or stands as it is where the base has nothing.
/// Where the overlay has nothing or null, the base stays.
pub proof fn merged_objects_hold_what_both_say(
    b: Map<Seq<char>, JsonView>,
    o: Map<Seq<char>, JsonView>,
    k: Seq<char>,
)
    requires
        o.dom().finite(),
    ensures
        ({
            let overridden = o.contains_key(seq!['*'] + k);
            let plain = (k.len() == 0 || k[0] != '*') && o.contains_key(k) && !(o[k] is Null);
            let r = merged(JsonView::Object(b), JsonView::Object(o))->Object_0;
            &&& merged(JsonView::Object(b), JsonView::Object(o)) is Object
            &&& overridden && !plain ==> (r.contains_key(k) <==> !(o[seq!['*'] + k] is Null))
            &&& overridden && !plain && r.contains_key(k) ==> r[k] == o[seq!['*'] + k]
            &&& plain && !overridden ==> r.contains_key(k) && r[k] == if b.contains_key(k) {
                merged(b[k], o[k])
            } else {
                o[k]
            }
            &&& !plain && !overridden ==> (r.contains_key(k) <==> b.contains_key(k))
            &&& !plain && !overridden && b.contains_key(k) ==> r[k] == b[k]
        }),
{
    if !(speaks_plainly(o, k) && o.contains_key(star(k))) {
        merging_decides_each_key(b, o, k);
    }
}

/// A merge of two lists holds all items of both, those of the base first, each in their order
/// and of whatever kind they are.
pub proof fn merged_lists_hold_all_items(a: Seq<JsonView>, b: Seq<JsonView>)
    ensures
        ({
            let r = merged(JsonView::Array(a), JsonView::Array(b))->Array_0;
            &&& merged(JsonView::Array(a), JsonView::Array(b)) is Array
            &&& r.len() == a.len() + b.len()
            &&& forall|i: int| 0 <= i < a.len() ==> #[trigger] r[i] == a[i]
            &&& forall|j: int| 0 <= j < b.len() ==> r[a.len() + j] == #[trigger] b[j]
        }),
{
}

/// Of two values that are neither both objects nor both lists the overlay wins, unless it is
/// null.
pub proof fn merging_other_values_takes_the_overlay(base: JsonView, overlay: JsonView)
    requires
        !(base is Object && overlay is Object),
        !(base is Array && overlay is Array),
    ensures
        !(overlay is Null) ==> merged(base, overlay) == overlay,
        overlay is Null ==> merged(base, overlay) == base,
{
}

/// Removing nulls takes a member away exactly when it is null and its key has no `*`, goes on
/// inside the members and items that stay, and leaves everything else as it is.
pub proof fn stripping_takes_nothing_but_nulls(v: JsonView)
    ensures
        match v {
            JsonView::Object(m) => {
                let r = without_nulls(v)->Object_0;
                &&& without_nulls(v) is Object
                &&& forall|k: Seq<char>| #[trigger]
                    r.contains_key(k) <==> m.contains_key(k) && (!(m[k] is Null) || (k.len() > 0
                        && k[0] == '*'))
                &&& forall|k: Seq<char>| #[trigger]
                    r.contains_key(k) ==> r[k] == without_nulls(m[k])
            },
            JsonView::Array(items) => {
                let r = without_nulls(v)->Array_0;
                &&& without_nulls(v) is Array
                &&& r.len() == items.len()
                &&& forall|i: int|
                    0 <= i < items.len() ==> #[trigger] r[i] == without_nulls(items[i])
            },
            _ => without_nulls(v) == v,
        },
{
}

/// Laying null, or an object without members over an object, changes nothing.
pub proof fn merging_nothing_changes_nothing(base: JsonView, b: Map<Seq<char>, JsonView>)
    ensures
        merged(base, JsonView::Null) == base,
        merged(JsonView::Object(b), JsonView::Object(Map::empty())) == JsonView::Object(b),
{
    let none = Map::<Seq<char>, JsonView>::empty();
    lemma_sorted_keys(none);
    if sorted_keys(none).len() > 0 {
        assert(none.contains_key(sorted_keys(none)[0]));
    }
}

} // verus!
