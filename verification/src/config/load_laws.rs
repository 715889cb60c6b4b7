//! What holds of a configuration that is merged with its parents.
use crate::config::load::{
    conflict, defines, first_defined, merged_sources, parent_entries, source_of, MergeView,
};
use crate::config::merge::{
    merged, merged_lists_hold_all_items, merged_objects_hold_what_both_say,
    merging_other_values_takes_the_overlay,
};
use crate::json::JsonView;
use crate::map::{lemma_sorted_keys, sorted_keys};
use crate::text::lex_less;
use vstd::prelude::*;

verus! {

/// The document is an object with finitely many members.
pub open spec fn is_document(v: JsonView) -> bool {
    v is Object && v->Object_0.dom().finite()
}

/// The document says something of the key: it has a value there other than null.
pub open spec fn says(v: JsonView, k: Seq<char>) -> bool {
    v is Object && v->Object_0.contains_key(k) && !(v->Object_0[k] is Null)
}

/// The value is neither an object nor a list.
pub open spec fn is_single(v: JsonView) -> bool {
    !(v is Object) && !(v is Array)
}

/// No document overrides the key.
pub open spec fn is_never_overridden(sources: Seq<(Seq<char>, JsonView)>, k: Seq<char>) -> bool {
    forall|i: int|
        0 <= i < sources.len() ==> is_document((#[trigger] sources[i]).1)
            && !sources[i].1->Object_0.contains_key(seq!['*'] + k)
}

/// The key is one that the merge keeps and that overrides nothing.
pub open spec fn is_plain_key(k: Seq<char>) -> bool {
    k != "pre_config"@ && (k.len() == 0 || k[0] != '*')
}

/// All lists that the documents have under the key, one after the other.
pub open spec fn lists_under(sources: Seq<(Seq<char>, JsonView)>, k: Seq<char>) -> Seq<JsonView>
    decreases sources.len(),
{
    if sources.len() == 0 {
        Seq::empty()
    } else {
        let before = lists_under(sources.drop_last(), k);
        let last = sources.last().1;
        if says(last, k) && last->Object_0[k] is Array {
            before + last->Object_0[k]->Array_0
        } else {
            before
        }
    }
}

/// What stands under the key comes from the documents: nothing where none says anything; the
/// single value of the last one that says something; all items in order where they all say
/// lists.
pub open spec fn comes_from(
    r: JsonView,
    sources: Seq<(Seq<char>, JsonView)>,
    k: Seq<char>,
) -> bool {
    &&& r is Object
    &&& r->Object_0.contains_key(k) <==> exists|i: int|
        0 <= i < sources.len() && says((#[trigger] sources[i]).1, k)
    &&& forall|i: int|
        #![trigger sources[i]]
        0 <= i < sources.len() && says(sources[i].1, k) && is_single(sources[i].1->Object_0[k]) && (
        forall|j: int| i < j < sources.len() ==> !says((#[trigger] sources[j]).1, k))
            ==> r->Object_0[k] == sources[i].1->Object_0[k]
    &&& r->Object_0.contains_key(k) && (forall|i: int|
        0 <= i < sources.len() && says((#[trigger] sources[i]).1, k)
            ==> sources[i].1->Object_0[k] is Array) ==> r->Object_0[k] is Array
        && r->Object_0[k]->Array_0 == lists_under(sources, k)
    &&& r->Object_0.contains_key(k) ==> !(r->Object_0[k] is Null)
}

proof fn lemma_one_more(
    r: JsonView,
    sources: Seq<(Seq<char>, JsonView)>,
    more: (Seq<char>, JsonView),
    k: Seq<char>,
)
    requires
        comes_from(r, sources, k),
        is_document(more.1),
        !more.1->Object_0.contains_key(seq!['*'] + k),
        k.len() == 0 || k[0] != '*',
    ensures
        comes_from(merged(r, more.1), sources.push(more), k),
{
    let all = sources.push(more);
    let b = r->Object_0;
    let o = more.1->Object_0;
    merged_objects_hold_what_both_say(b, o, k);
    assert(r == JsonView::Object(b));
    assert(more.1 == JsonView::Object(o));
    let n = merged(r, more.1)->Object_0;
    let count = sources.len() as int;
    assert(all[count] == more);
    assert forall|i: int| 0 <= i < count implies #[trigger] all[i] == sources[i] by {}
    if says(more.1, k) {
        assert(says(all[count].1, k));
        if b.contains_key(k) {
            if is_single(o[k]) || is_single(b[k]) {
                merging_other_values_takes_the_overlay(b[k], o[k]);
            } else if b[k] is Array && o[k] is Array {
                merged_lists_hold_all_items(b[k]->Array_0, o[k]->Array_0);
            }
        }
    }
    assert(n.contains_key(k) <==> exists|i: int|
        0 <= i < all.len() && says((#[trigger] all[i]).1, k)) by {
        if b.contains_key(k) {
            let i = choose|i: int| 0 <= i < sources.len() && says((#[trigger] sources[i]).1, k);
            assert(says(all[i].1, k));
        }
        if exists|i: int| 0 <= i < all.len() && says((#[trigger] all[i]).1, k) {
            let i = choose|i: int| 0 <= i < all.len() && says((#[trigger] all[i]).1, k);
            if i < count {
                assert(says(sources[i].1, k));
            }
        }
    }
    assert forall|i: int|
        #![trigger all[i]]
        0 <= i < all.len() && says(all[i].1, k) && is_single(all[i].1->Object_0[k]) && (forall|
            j: int,
        |
            i < j < all.len() ==> !says((#[trigger] all[j]).1, k)) implies n[k]
        == all[i].1->Object_0[k] by {
        if i < count {
            assert(!says(all[count].1, k));
            assert forall|j: int| i < j < sources.len() implies !says(
                (#[trigger] sources[j]).1,
                k,
            ) by {
                assert(all[j] == sources[j]);
            }
            assert(says(sources[i].1, k));
        }
    }
    assert(all.drop_last() =~= sources);
    if n.contains_key(k) && (forall|i: int|
        0 <= i < all.len() && says((#[trigger] all[i]).1, k) ==> all[i].1->Object_0[k] is Array) {
        assert forall|i: int| 0 <= i < sources.len() && says((#[trigger] sources[i]).1, k) implies
            sources[i].1->Object_0[k] is Array by {
            assert(all[i] == sources[i]);
        }
        if !b.contains_key(k) {
            lemma_no_lists(sources, k);
            assert(says(all[count].1, k));
            assert(o[k] is Array);
            assert(lists_under(all, k) =~= o[k]->Array_0);
        } else if says(more.1, k) {
            assert(all[count].1->Object_0[k] is Array);
            merged_lists_hold_all_items(b[k]->Array_0, o[k]->Array_0);
            assert(n[k]->Array_0 =~= b[k]->Array_0 + o[k]->Array_0);
        }
    }
}

proof fn lemma_no_lists(sources: Seq<(Seq<char>, JsonView)>, k: Seq<char>)
    requires
        forall|i: int| 0 <= i < sources.len() ==> !says((#[trigger] sources[i]).1, k),
    ensures
        lists_under(sources, k) == Seq::<JsonView>::empty(),
    decreases sources.len(),
{
    if sources.len() > 0 {
        let init = sources.drop_last();
        assert forall|i: int| 0 <= i < init.len() implies !says((#[trigger] init[i]).1, k) by {
            assert(init[i] == sources[i]);
        }
        lemma_no_lists(init, k);
        assert(!says(sources[sources.len() - 1].1, k));
    }
}

proof fn lemma_sources(sources: Seq<(Seq<char>, JsonView)>, k: Seq<char>)
    requires
        is_never_overridden(sources, k),
        k.len() == 0 || k[0] != '*',
    ensures
        comes_from(merged_sources(sources), sources, k),
    decreases sources.len(),
{
    if sources.len() > 0 {
        let init = sources.drop_last();
        assert forall|i: int| 0 <= i < init.len() implies is_document((#[trigger] init[i]).1)
            && !init[i].1->Object_0.contains_key(seq!['*'] + k) by {
            assert(init[i] == sources[i]);
        }
        lemma_sources(init, k);
        let last = sources[sources.len() - 1];
        assert(is_document(last.1));
        lemma_one_more(merged_sources(init), init, last, k);
        assert(init.push(last) =~= sources);
    }
}

/// A configuration and its parents are merged in order: under a key that nothing overrides, a
/// single value of the configuration wins over those of its parents, and that of a later
/// parent over those of earlier ones; lists are put together, the parents' first and in their
/// order; and nothing is lost that is said once.
pub proof fn configuration_is_laid_over_its_parents(m: MergeView, k: Seq<char>)
    requires
        is_document(m.leaf),
        is_never_overridden(m.sources.push((Seq::empty(), m.leaf)), k),
        is_plain_key(k),
    ensures
        comes_from(m.result(), m.sources.push((Seq::empty(), m.leaf)), k),
{
    let leaf = (Seq::<char>::empty(), m.leaf);
    let all = m.sources.push(leaf);
    assert forall|i: int| 0 <= i < m.sources.len() implies is_document(
        (#[trigger] m.sources[i]).1,
    ) && !m.sources[i].1->Object_0.contains_key(seq!['*'] + k) by {
        assert(all[i] == m.sources[i]);
    }
    assert(all[m.sources.len() as int] == leaf);
    lemma_sources(m.sources, k);
    lemma_one_more(merged_sources(m.sources), m.sources, leaf, k);
}

/// The merged configuration names no parents.
pub proof fn merged_configuration_names_no_parents(m: MergeView)
    ensures
        m.result() is Object ==> !m.result()->Object_0.contains_key("pre_config"@),
{
}

/// The parents of a configuration are the items of the list under `pre_config`. Without such a
/// list there are none.
pub proof fn parents_are_listed_under_their_key(leaf: JsonView)
    ensures
        leaf is Object && leaf->Object_0.contains_key("pre_config"@)
            && leaf->Object_0["pre_config"@] is Array ==> parent_entries(leaf)
            == leaf->Object_0["pre_config"@]->Array_0,
        !(leaf is Object && leaf->Object_0.contains_key("pre_config"@)
            && leaf->Object_0["pre_config"@] is Array) ==> parent_entries(leaf).len() == 0,
{
}

/// The document has the domain.
pub open spec fn has_domain(v: JsonView, d: Seq<char>) -> bool {
    &&& v is Object && v->Object_0.contains_key("domains"@)
    &&& v->Object_0["domains"@] is Object && v->Object_0["domains"@]->Object_0.contains_key(d)
}

/// The parent is the first one with the domain.
pub open spec fn is_first_with(
    sources: Seq<(Seq<char>, JsonView)>,
    d: Seq<char>,
    i: int,
) -> bool {
    &&& 0 <= i < sources.len()
    &&& has_domain(sources[i].1, d)
    &&& forall|j: int| 0 <= j < i ==> !has_domain((#[trigger] sources[j]).1, d)
}

/// Some parent has the domain.
pub open spec fn some_has(sources: Seq<(Seq<char>, JsonView)>, d: Seq<char>) -> bool {
    exists|i: int| 0 <= i < sources.len() && has_domain((#[trigger] sources[i]).1, d)
}

/// A domain belongs to the first parent that has it.
pub proof fn domain_belongs_to_the_first_parent_with_it(
    sources: Seq<(Seq<char>, JsonView)>,
    d: Seq<char>,
)
    ensures
        source_of(sources, d) is Some <==> some_has(sources, d),
        source_of(sources, d) matches Some(l) ==> exists|i: int| #[trigger]
            is_first_with(sources, d, i) && sources[i].0 == l,
    decreases sources.len(),
{
    if sources.len() > 0 {
        let init = sources.drop_last();
        let n = init.len() as int;
        domain_belongs_to_the_first_parent_with_it(init, d);
        assert forall|i: int| 0 <= i < n implies #[trigger] sources[i] == init[i] by {}
        assert(defines(sources.last().1, d) <==> has_domain(sources[n].1, d));
        if source_of(init, d) is Some {
            let i = choose|i: int| #[trigger]
                is_first_with(init, d, i) && init[i].0 == source_of(init, d)->0;
            assert forall|j: int| 0 <= j < i implies !has_domain((#[trigger] sources[j]).1, d) by {
                assert(init[j] == sources[j]);
            }
            assert(is_first_with(sources, d, i));
            assert(has_domain(sources[i].1, d));
        } else {
            assert forall|j: int| 0 <= j < n implies !has_domain((#[trigger] sources[j]).1, d) by {
                assert(init[j] == sources[j]);
            }
            if has_domain(sources[n].1, d) {
                assert(is_first_with(sources, d, n));
            }
        }
    }
}

proof fn lemma_first_defined(
    sources: Seq<(Seq<char>, JsonView)>,
    keys: Seq<Seq<char>>,
)
    ensures
        match first_defined(sources, keys) {
            Some(d) => exists|i: int|
                {
                    &&& 0 <= i < keys.len()
                    &&& #[trigger] keys[i] == d
                    &&& source_of(sources, d) is Some
                    &&& forall|j: int|
                        0 <= j < i ==> source_of(sources, #[trigger] keys[j]) is None
                },
            None => forall|j: int|
                0 <= j < keys.len() ==> source_of(sources, #[trigger] keys[j]) is None,
        },
    decreases keys.len(),
{
    if keys.len() > 0 {
        let init = keys.drop_last();
        let n = init.len() as int;
        lemma_first_defined(sources, init);
        assert forall|i: int| 0 <= i < n implies #[trigger] keys[i] == init[i] by {}
        match first_defined(sources, init) {
            Some(d) => {
                let i = choose|i: int|
                    {
                        &&& 0 <= i < init.len()
                        &&& #[trigger] init[i] == d
                        &&& source_of(sources, d) is Some
                        &&& forall|j: int|
                            0 <= j < i ==> source_of(sources, #[trigger] init[j]) is None
                    };
                assert(keys[i] == d);
                assert forall|j: int| 0 <= j < i implies source_of(
                    sources,
                    #[trigger] keys[j],
                ) is None by {
                    assert(init[j] == keys[j]);
                }
            },
            None => {
                assert forall|j: int| 0 <= j < n implies source_of(
                    sources,
                    #[trigger] keys[j],
                ) is None by {
                    assert(init[j] == keys[j]);
                }
                assert(keys[n] == keys.last());
            },
        }
    }
}

/// A document conflicts with the parents before it when it has a domain that one of them has,
/// and the first such domain, in the order of names, is reported.
pub proof fn first_shared_domain_is_reported(
    sources: Seq<(Seq<char>, JsonView)>,
    document: JsonView,
)
    requires
        has_domains(document) ==> document->Object_0["domains"@]->Object_0.dom().finite(),
    ensures
        conflict(sources, document) is Some <==> exists|d: Seq<char>| #[trigger]
            has_domain(document, d) && some_has(sources, d),
        conflict(sources, document) matches Some(d) ==> {
            &&& has_domain(document, d) && some_has(sources, d)
            &&& forall|e: Seq<char>| #[trigger]
                has_domain(document, e) && some_has(sources, e) ==> e == d || lex_less(d, e)
        },
{
    if has_domains(document) {
        let m = document->Object_0["domains"@]->Object_0;
        let keys = sorted_keys(m);
        lemma_sorted_keys(m);
        lemma_first_defined(sources, keys);
        assert forall|d: Seq<char>| #[trigger] has_domain(document, d) implies (some_has(sources, d)
            <==> source_of(sources, d) is Some) by {
            domain_belongs_to_the_first_parent_with_it(sources, d);
        }
        match conflict(sources, document) {
            Some(d) => {
                let i = choose|i: int|
                    {
                        &&& 0 <= i < keys.len()
                        &&& #[trigger] keys[i] == d
                        &&& source_of(sources, d) is Some
                        &&& forall|j: int|
                            0 <= j < i ==> source_of(sources, #[trigger] keys[j]) is None
                    };
                assert(m.contains_key(keys[i]));
                assert(has_domain(document, d));
                assert forall|e: Seq<char>| #[trigger]
                    has_domain(document, e) && some_has(sources, e) implies e == d || lex_less(
                    d,
                    e,
                ) by {
                    let j = keys.index_of(e);
                    assert(keys[j] == e);
                    if i < j {
                        assert(lex_less(keys[i], keys[j]));
                    }
                }
            },
            None => {
                assert forall|d: Seq<char>| #[trigger] has_domain(document, d) implies !some_has(
                    sources,
                    d,
                ) by {
                    assert(keys[keys.index_of(d)] == d);
                }
            },
        }
    }
}

/// The document has an object of domains.
pub open spec fn has_domains(v: JsonView) -> bool {
    v is Object && v->Object_0.contains_key("domains"@) && v->Object_0["domains"@] is Object
}

} // verus!
