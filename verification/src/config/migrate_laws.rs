//! What holds of the migration of documents.
use crate::config::migrate::{
    grouped, has_path_keys, is_path_keyed, is_ungrouped, migrated, needs_migration, own_name,
    relocated, renamed, with_named_domains,
};
use crate::json::JsonView;
use crate::map::{lemma_increasing_distinct, lemma_sorted_keys, sorted_keys};
use crate::text::lex_less;
use vstd::prelude::*;

verus! {

/// Some domain stands under a path and has a name of its own.
pub open spec fn stands_under_paths(domains: Map<Seq<char>, JsonView>) -> bool {
    exists|k: Seq<char>|
        {
            &&& #[trigger] domains.contains_key(k)
            &&& k.len() > 0 && k[0] == '/'
            &&& domains[k] is Object && domains[k]->Object_0.contains_key("name"@)
        }
}

/// The name that a domain gives itself: the text under `name`, or else `unknown`.
pub open spec fn is_named(domain: JsonView, name: Seq<char>) -> bool {
    if domain is Object && domain->Object_0.contains_key("name"@)
        && domain->Object_0["name"@] is Text {
        name == domain->Object_0["name"@]->Text_0
    } else {
        name == "unknown"@
    }
}

/// The domain has services, and no groups.
pub open spec fn lacks_groups(domain: JsonView) -> bool {
    domain is Object && domain->Object_0.contains_key("services"@)
        && !domain->Object_0.contains_key("groups"@)
}

/// The services of the domain stand in the group `.`, and not in the domain itself.
pub open spec fn holds_services_in_root(domain: JsonView, services: JsonView) -> bool {
    let m = domain->Object_0;
    &&& domain is Object
    &&& !m.contains_key("services"@)
    &&& m.contains_key("groups"@) && m["groups"@] is Object
    &&& m["groups"@]->Object_0.contains_key("."@) && m["groups"@]->Object_0["."@] is Object
    &&& m["groups"@]->Object_0["."@]->Object_0.contains_key("services"@)
    &&& m["groups"@]->Object_0["."@]->Object_0["services"@] == services
    &&& forall|g: Seq<char>| #[trigger] m["groups"@]->Object_0.contains_key(g) ==> g == "."@
    &&& forall|k: Seq<char>| #[trigger]
        m["groups"@]->Object_0["."@]->Object_0.contains_key(k) ==> k == "services"@
}

/// The second object has the members of the first one, but for the given keys.
pub open spec fn same_but_keys(a: JsonView, b: JsonView, keys: Set<Seq<char>>) -> bool {
    &&& a is Object && b is Object
    &&& forall|k: Seq<char>|
        #![trigger b->Object_0.contains_key(k)]
        !keys.contains(k) ==> (a->Object_0.contains_key(k) <==> b->Object_0.contains_key(k)) && (
        a->Object_0.contains_key(k) ==> b->Object_0[k] == a->Object_0[k])
}

/// A domain becomes one in which services stand in groups, and which is otherwise the same.
pub open spec fn is_regrouped(before: JsonView, after: JsonView) -> bool {
    &&& !lacks_groups(before) ==> after == before
    &&& lacks_groups(before) ==> {
        &&& holds_services_in_root(after, before->Object_0["services"@])
        &&& same_but_keys(before, after, set!["services"@, "groups"@])
    }
}

/// A domain that stood under a path gets the path as its location, loses its name, and has its
/// services in groups. Everything else in it stays.
pub open spec fn is_moved(path: Seq<char>, before: JsonView, after: JsonView) -> bool {
    &&& !(before is Object) ==> after == before
    &&& before is Object ==> {
        &&& after is Object
        &&& after->Object_0.contains_key("location"@)
        &&& after->Object_0["location"@] == JsonView::Text(path)
        &&& !after->Object_0.contains_key("name"@)
        &&& lacks_groups(before) ==> holds_services_in_root(
            after,
            before->Object_0["services"@],
        )
        &&& same_but_keys(
            before,
            after,
            if lacks_groups(before) {
                set!["name"@, "location"@, "services"@, "groups"@]
            } else {
                set!["name"@, "location"@]
            },
        )
    }
}

proof fn lemma_literals()
    ensures
        "domains"@ != "pre_config"@,
        "name"@ != "location"@,
        "name"@ != "services"@,
        "name"@ != "groups"@,
        "services"@ != "groups"@,
        "location"@ != "services"@,
        "location"@ != "groups"@,
{
    reveal_strlit("domains");
    reveal_strlit("pre_config");
    reveal_strlit("name");
    reveal_strlit("location");
    reveal_strlit("services");
    reveal_strlit("groups");
    assert("domains"@[0] == 'd' && "pre_config"@[0] == 'p');
    assert("name"@[0] == 'n' && "location"@[0] == 'l');
    assert("services"@[0] == 's' && "groups"@[0] == 'g');
}

proof fn lemma_grouped(domain: JsonView)
    ensures
        is_regrouped(domain, grouped(domain)),
{
    lemma_literals();
}

proof fn lemma_moved(path: Seq<char>, domain: JsonView)
    ensures
        is_moved(path, domain, grouped(relocated(path, domain))),
{
    lemma_literals();
    let there = relocated(path, domain);
    lemma_grouped(there);
    if domain is Object {
        assert(lacks_groups(there) == lacks_groups(domain));
    }
}

proof fn lemma_named(domain: JsonView, name: Seq<char>)
    ensures
        is_named(domain, name) <==> name == own_name(domain),
{
}

proof fn lemma_renamed(domains: Map<Seq<char>, JsonView>, n: nat, name: Seq<char>)
    requires
        n <= sorted_keys(domains).len(),
    ensures
        renamed(domains, n).contains_key(name) <==> exists|i: int|
            0 <= i < n && own_name(domains[#[trigger] sorted_keys(domains)[i]]) == name,
        forall|i: int|
            #![trigger sorted_keys(domains)[i]]
            0 <= i < n && own_name(domains[sorted_keys(domains)[i]]) == name && (forall|j: int|
                i < j < n ==> own_name(domains[#[trigger] sorted_keys(domains)[j]]) != name)
                ==> renamed(domains, n)[name] == relocated(
                sorted_keys(domains)[i],
                domains[sorted_keys(domains)[i]],
            ),
    decreases n,
{
    let keys = sorted_keys(domains);
    if n > 0 {
        lemma_renamed(domains, (n - 1) as nat, name);
        let key = keys[n - 1];
        assert(own_name(domains[keys[n - 1]]) == own_name(domains[key]));
        if renamed(domains, n).contains_key(name) && own_name(domains[key]) != name {
            let i = choose|i: int|
                0 <= i < n - 1 && own_name(domains[#[trigger] keys[i]]) == name;
            assert(own_name(domains[keys[i]]) == name);
        }
        assert forall|i: int|
            #![trigger keys[i]]
            0 <= i < n && own_name(domains[keys[i]]) == name && (forall|j: int|
                i < j < n ==> own_name(domains[#[trigger] keys[j]]) != name) implies renamed(
            domains,
            n,
        )[name] == relocated(keys[i], domains[keys[i]]) by {
            if i < n - 1 {
                assert(own_name(domains[keys[n - 1]]) != name);
                assert forall|j: int| i < j < n - 1 implies own_name(domains[#[trigger] keys[j]])
                    != name by {}
            }
        }
    }
}

/// The members of the migrated document under the given key.
spec fn after_under(v: JsonView, k: Seq<char>) -> JsonView {
    migrated(v)->Object_0[k]
}

proof fn lemma_migrated_members(v: JsonView, k: Seq<char>)
    requires
        v is Object,
    ensures
        migrated(v) is Object,
        k != "domains"@ && k != "pre_config"@ ==> (migrated(v)->Object_0.contains_key(k)
            <==> v->Object_0.contains_key(k)),
        k != "domains"@ && k != "pre_config"@ && v->Object_0.contains_key(k) ==> after_under(v, k)
            == v->Object_0[k],
        migrated(v)->Object_0.contains_key("domains"@) <==> v->Object_0.contains_key("domains"@),
        migrated(v)->Object_0.contains_key("pre_config"@) <==> v->Object_0.contains_key(
            "pre_config"@,
        ),
{
    lemma_literals();
}

/// Migration touches the domains and the parents of a document, and nothing else. What is no
/// object stays as it is.
pub proof fn migration_touches_domains_and_parents_alone(v: JsonView, k: Seq<char>)
    ensures
        !(v is Object) ==> migrated(v) == v,
        v is Object ==> {
            &&& migrated(v) is Object
            &&& migrated(v)->Object_0.contains_key(k) <==> v->Object_0.contains_key(k)
            &&& k != "domains"@ && k != "pre_config"@ && v->Object_0.contains_key(k) ==> migrated(
                v,
            )->Object_0[k] == v->Object_0[k]
        },
{
    if v is Object {
        lemma_migrated_members(v, k);
    }
}

/// A single parent becomes a list of one parent with that location. Parents of any other form
/// stay as they are.
pub proof fn migration_lists_a_single_parent(v: JsonView)
    requires
        v is Object,
        v->Object_0.contains_key("pre_config"@),
    ensures
        ({
            let before = v->Object_0["pre_config"@];
            let after = migrated(v)->Object_0["pre_config"@];
            &&& !(before is Text) ==> after == before
            &&& before is Text ==> {
                &&& after is Array && after->Array_0.len() == 1
                &&& after->Array_0[0] is Object
                &&& after->Array_0[0]->Object_0.contains_key("location"@)
                &&& after->Array_0[0]->Object_0["location"@] == before
                &&& forall|k: Seq<char>| #[trigger]
                    after->Array_0[0]->Object_0.contains_key(k) ==> k == "location"@
            }
        }),
{
    lemma_literals();
}

/// Where no domain stands under a path, every domain keeps its name, and is the same but for
/// services, which stand in groups. Domains that are no object stay as they are.
pub proof fn migration_groups_the_services_of_every_domain(v: JsonView, d: Seq<char>)
    requires
        v is Object,
        v->Object_0.contains_key("domains"@),
    ensures
        ({
            let before = v->Object_0["domains"@];
            let after = migrated(v)->Object_0["domains"@];
            &&& !(before is Object) ==> after == before
            &&& before is Object ==> after is Object
            &&& before is Object && !stands_under_paths(before->Object_0) ==> {
                &&& after->Object_0.contains_key(d) <==> before->Object_0.contains_key(d)
                &&& before->Object_0.contains_key(d) ==> is_regrouped(
                    before->Object_0[d],
                    after->Object_0[d],
                )
            }
        }),
{
    lemma_literals();
    let before = v->Object_0["domains"@];
    if before is Object {
        let m = before->Object_0;
        lemma_paths(m);
        if m.contains_key(d) {
            lemma_grouped(m[d]);
        }
    }
}

proof fn lemma_paths(m: Map<Seq<char>, JsonView>)
    ensures
        has_path_keys(m) <==> stands_under_paths(m),
{
    if has_path_keys(m) {
        let k = choose|k: Seq<char>| #[trigger] m.contains_key(k) && is_path_keyed(k, m[k]);
        assert(m.contains_key(k) && m[k] is Object && m[k]->Object_0.contains_key("name"@));
    }
    if stands_under_paths(m) {
        let k = choose|k: Seq<char>|
            {
                &&& #[trigger] m.contains_key(k)
                &&& k.len() > 0 && k[0] == '/'
                &&& m[k] is Object && m[k]->Object_0.contains_key("name"@)
            };
        assert(is_path_keyed(k, m[k]));
    }
}

/// Where some domain stands under a path, every domain is moved to its own name and keeps all
/// that it holds; of several with the same name the last one stays. There are no other
/// domains.
pub proof fn migration_moves_domains_to_their_names(v: JsonView, p: Seq<char>, name: Seq<char>)
    requires
        v is Object,
        v->Object_0.contains_key("domains"@),
        v->Object_0["domains"@] is Object,
        v->Object_0["domains"@]->Object_0.dom().finite(),
        stands_under_paths(v->Object_0["domains"@]->Object_0),
    ensures
        ({
            let before = v->Object_0["domains"@]->Object_0;
            let after = migrated(v)->Object_0["domains"@]->Object_0;
            &&& migrated(v)->Object_0["domains"@] is Object
            &&& after.contains_key(name) <==> exists|q: Seq<char>| #[trigger]
                before.contains_key(q) && is_named(before[q], name)
            &&& before.contains_key(p) && is_named(before[p], name) && (forall|q: Seq<char>|
                #[trigger]
                before.contains_key(q) && is_named(before[q], name) ==> q == p || lex_less(q, p))
                ==> is_moved(p, before[p], after[name])
        }),
{
    lemma_literals();
    let m = v->Object_0["domains"@]->Object_0;
    let keys = sorted_keys(m);
    lemma_paths(m);
    lemma_sorted_keys(m);
    lemma_increasing_distinct(keys);
    lemma_renamed(m, keys.len(), name);
    let after = migrated(v)->Object_0["domains"@]->Object_0;
    let moved = renamed(m, keys.len());
    assert(after =~= moved.map_values(|d: JsonView| grouped(d)));
    if after.contains_key(name) {
        let i = choose|i: int| 0 <= i < keys.len() && own_name(m[#[trigger] keys[i]]) == name;
        lemma_named(m[keys[i]], name);
        assert(m.contains_key(keys[i]));
    }
    if exists|q: Seq<char>| #[trigger] m.contains_key(q) && is_named(m[q], name) {
        let q = choose|q: Seq<char>| #[trigger] m.contains_key(q) && is_named(m[q], name);
        lemma_named(m[q], name);
        assert(own_name(m[keys[keys.index_of(q)]]) == name);
    }
    if m.contains_key(p) && is_named(m[p], name) && (forall|q: Seq<char>| #[trigger]
        m.contains_key(q) && is_named(m[q], name) ==> q == p || lex_less(q, p)) {
        let i = keys.index_of(p);
        assert(keys[i] == p);
        lemma_named(m[p], name);
        assert forall|j: int| i < j < keys.len() implies own_name(m[#[trigger] keys[j]]) != name by {
            if own_name(m[keys[j]]) == name {
                lemma_named(m[keys[j]], name);
                assert(m.contains_key(keys[j]));
                assert(lex_less(keys[i], keys[j]));
                crate::text::lemma_lex_asymmetric(keys[i], keys[j]);
            }
        }
        assert(own_name(m[keys[i]]) == name);
        assert(moved[name] == relocated(p, m[p]));
        assert(moved.contains_key(name));
        lemma_moved(p, m[p]);
    }
}

/// A document is rewritten exactly when some domain stands under a path, or has services
/// without groups, or the document has a single parent.
pub proof fn old_forms_are_the_three(v: JsonView)
    ensures
        needs_migration(v) <==> v is Object && {
            let m = v->Object_0;
            let domains = m["domains"@]->Object_0;
            let has_domains = m.contains_key("domains"@) && m["domains"@] is Object;
            ||| has_domains && stands_under_paths(domains)
            ||| has_domains && exists|k: Seq<char>| #[trigger]
                domains.contains_key(k) && lacks_groups(domains[k])
            ||| m.contains_key("pre_config"@) && m["pre_config"@] is Text
        },
{
    lemma_literals();
    if v is Object {
        let m = v->Object_0;
        if m.contains_key("domains"@) && m["domains"@] is Object {
            let domains = m["domains"@]->Object_0;
            lemma_paths(domains);
            if !has_path_keys(domains) {
                assert(with_named_domains(v) == v);
                if exists|k: Seq<char>| #[trigger]
                    domains.contains_key(k) && lacks_groups(domains[k]) {
                    let k = choose|k: Seq<char>| #[trigger]
                        domains.contains_key(k) && lacks_groups(domains[k]);
                    assert(domains.contains_key(k) && is_ungrouped(domains[k]));
                }
                if crate::config::migrate::has_ungrouped(v) {
                    let k = choose|k: Seq<char>| #[trigger]
                        domains.contains_key(k) && is_ungrouped(domains[k]);
                    assert(domains.contains_key(k) && lacks_groups(domains[k]));
                }
            }
        }
    }
}

} // verus!
