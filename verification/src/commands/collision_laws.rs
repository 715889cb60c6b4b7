//! What holds of hostname collisions.
use crate::alias::comparison_form;
use crate::commands::collisions::{
    alias_owners, collides, collision_lines, collision_report, collisions, has_claim,
    has_collision, lemma_alias_claim, lemma_canonical_claim, owner_before, owners, service_owners,
    share_hostname, with_aliases, HostnameOwner, OwnerView,
};
use crate::commands::service::PlannedView;
use crate::map::{lemma_increasing_unique, lemma_sorted_keys, sorted_keys};
use crate::sort::{
    in_order, is_rank, rank, sorted, sorting_ignores_the_given_order, sorting_orders_all_items,
    tells_apart,
};
use crate::text::{lemma_lex_asymmetry, lemma_lex_steps};
use vstd::multiset::Multiset;
use vstd::prelude::*;

verus! {

/// A deployment passes exactly when no hostname that nginx routes by is claimed by two
/// different services, be it by canonical URLs or by aliases.
pub proof fn deployment_passes_when_no_hostname_has_two_services(services: Seq<PlannedView>)
    ensures
        has_collision(services) <==> exists|name: Seq<char>| #[trigger] collides(services, name),
{
    if has_collision(services) {
        let (i, j) = choose|i: int, j: int|
            0 <= i < j < services.len() && share_hostname(
                #[trigger] services[i],
                #[trigger] services[j],
            );
        let a = services[i];
        let b = services[j];
        let (x, y) = choose|x: int, y: int|
            0 <= x < a.hostnames().len() && 0 <= y < b.hostnames().len() && comparison_form(
                #[trigger] a.hostnames()[x],
            ) == comparison_form(#[trigger] b.hostnames()[y]);
        let name = comparison_form(a.hostnames()[x]);
        assert(has_claim(services[i], name) && has_claim(services[j], name));
        assert(collides(services, name));
    }
    if exists|name: Seq<char>| #[trigger] collides(services, name) {
        let name = choose|name: Seq<char>| #[trigger] collides(services, name);
        let (i, j) = choose|i: int, j: int|
            0 <= i < j < services.len() && has_claim(#[trigger] services[i], name) && has_claim(
                #[trigger] services[j],
                name,
            );
        let a = services[i];
        let b = services[j];
        let x = choose|x: int|
            0 <= x < a.hostnames().len() && comparison_form(#[trigger] a.hostnames()[x]) == name;
        let y = choose|y: int|
            0 <= y < b.hostnames().len() && comparison_form(#[trigger] b.hostnames()[y]) == name;
        assert(comparison_form(a.hostnames()[x]) == comparison_form(b.hostnames()[y]));
        assert(share_hostname(services[i], services[j]));
    }
}

/// A hostname that a service has already has no say: a deployment with the repeat passes
/// exactly when the one without it does.
pub proof fn repeats_within_a_service_are_no_collision(
    services: Seq<PlannedView>,
    i: int,
    alias: Seq<char>,
    k: int,
)
    requires
        0 <= i < services.len(),
        0 <= k < services[i].hostnames().len(),
        comparison_form(alias) == comparison_form(services[i].hostnames()[k]),
    ensures
        has_collision(
            services.update(i, with_aliases(services[i], services[i].aliases.push(alias))),
        ) <==> has_collision(services),
{
    let s = services[i];
    let t = with_aliases(s, s.aliases.push(alias));
    let after = services.update(i, t);
    assert(t.aliases.drop_last() =~= s.aliases);
    assert(with_aliases(t, t.aliases.drop_last()) == s);
    assert forall|name: Seq<char>| #[trigger] has_claim(t, name) <==> has_claim(s, name) by {
        if s.is_host_routed() {
            lemma_alias_claim(t, name);
            assert(comparison_form(s.hostnames()[k]) == comparison_form(alias));
        }
    }
    assert forall|j: int, name: Seq<char>| 0 <= j < services.len() implies (#[trigger] has_claim(
        after[j],
        name,
    ) <==> has_claim(services[j], name)) by {}
    assert forall|name: Seq<char>| #[trigger] collides(after, name) <==> collides(
        services,
        name,
    ) by {
        if collides(after, name) {
            let (x, y) = choose|x: int, y: int|
                0 <= x < y < after.len() && has_claim(#[trigger] after[x], name) && has_claim(
                    #[trigger] after[y],
                    name,
                );
            assert(has_claim(services[x], name) && has_claim(services[y], name));
        }
        if collides(services, name) {
            let (x, y) = choose|x: int, y: int|
                0 <= x < y < services.len() && has_claim(#[trigger] services[x], name)
                    && has_claim(#[trigger] services[y], name);
            assert(has_claim(after[x], name) && has_claim(after[y], name));
        }
    }
    deployment_passes_when_no_hostname_has_two_services(services);
    deployment_passes_when_no_hostname_has_two_services(after);
    if has_collision(services) {
        let name = choose|name: Seq<char>| #[trigger] collides(services, name);
        assert(collides(after, name));
    }
}

// ---------------------------------------------------------------------------
// Services without hostnames
// ---------------------------------------------------------------------------
/// How many services claim a hostname.
pub open spec fn claim_count(services: Seq<PlannedView>, name: Seq<char>) -> nat
    decreases services.len(),
{
    if services.len() == 0 {
        0
    } else {
        claim_count(services.drop_last(), name) + if has_claim(services.last(), name) {
            1nat
        } else {
            0nat
        }
    }
}

proof fn lemma_claim_count(services: Seq<PlannedView>, name: Seq<char>)
    ensures
        claim_count(services, name) >= 1 <==> exists|i: int|
            0 <= i < services.len() && has_claim(#[trigger] services[i], name),
        claim_count(services, name) >= 2 <==> collides(services, name),
    decreases services.len(),
{
    if services.len() > 0 {
        let init = services.drop_last();
        let n = init.len() as int;
        lemma_claim_count(init, name);
        assert forall|i: int| 0 <= i < n implies #[trigger] services[i] == init[i] by {}
        if claim_count(init, name) >= 1 {
            let i = choose|i: int| 0 <= i < n && has_claim(#[trigger] init[i], name);
            assert(has_claim(services[i], name));
            if has_claim(services.last(), name) {
                assert(has_claim(services[n], name));
                assert(collides(services, name));
            }
        }
        if collides(init, name) {
            let (i, j) = choose|i: int, j: int|
                0 <= i < j < n && has_claim(#[trigger] init[i], name) && has_claim(
                    #[trigger] init[j],
                    name,
                );
            assert(has_claim(services[i], name) && has_claim(services[j], name));
        }
        if has_claim(services.last(), name) {
            assert(has_claim(services[n], name));
        }
        if exists|i: int| 0 <= i < services.len() && has_claim(#[trigger] services[i], name) {
            let i = choose|i: int|
                0 <= i < services.len() && has_claim(#[trigger] services[i], name);
            if i < n {
                assert(has_claim(init[i], name));
            }
        }
        if collides(services, name) {
            let (i, j) = choose|i: int, j: int|
                0 <= i < j < services.len() && has_claim(#[trigger] services[i], name)
                    && has_claim(#[trigger] services[j], name);
            assert(has_claim(init[i], name));
            if j < n {
                assert(has_claim(init[j], name));
                assert(collides(init, name));
            }
        }
    }
}

proof fn lemma_routed_claims(services: Seq<PlannedView>, name: Seq<char>)
    ensures
        ({
            let routed = services.filter(|s: PlannedView| s.is_host_routed());
            &&& claim_count(services, name) == claim_count(routed, name)
            &&& owners(services, name) == owners(routed, name)
        }),
    decreases services.len(),
{
    reveal(Seq::filter);
    if services.len() > 0 {
        let init = services.drop_last();
        lemma_routed_claims(init, name);
        let rest = init.filter(|s: PlannedView| s.is_host_routed());
        if services.last().is_host_routed() {
            assert(rest.push(services.last()).drop_last() =~= rest);
        } else {
            assert(owners(services, name) =~= owners(init, name));
        }
    }
}

/// TCP services take no part: the outcome is that of the other services alone.
pub proof fn tcp_services_claim_nothing(services: Seq<PlannedView>)
    ensures
        ({
            let routed = services.filter(|s: PlannedView| s.is_host_routed());
            &&& has_collision(services) <==> has_collision(routed)
            &&& collision_report(services) == collision_report(routed)
        }),
{
    let routed = services.filter(|s: PlannedView| s.is_host_routed());
    assert forall|name: Seq<char>|
        #![trigger collides(services, name)]
        #![trigger collides(routed, name)]
        {
            &&& collides(services, name) <==> collides(routed, name)
            &&& owners(services, name) == owners(routed, name)
        } by {
        lemma_routed_claims(services, name);
        lemma_claim_count(services, name);
        lemma_claim_count(routed, name);
    }
    assert(collisions(services) =~= collisions(routed));
    lemma_same_names_collide(services, routed);
}

proof fn lemma_same_names_collide(a: Seq<PlannedView>, b: Seq<PlannedView>)
    requires
        forall|name: Seq<char>| #[trigger] collides(a, name) <==> collides(b, name),
    ensures
        has_collision(a) <==> has_collision(b),
{
    deployment_passes_when_no_hostname_has_two_services(a);
    deployment_passes_when_no_hostname_has_two_services(b);
    if has_collision(b) {
        let name = choose|name: Seq<char>| #[trigger] collides(b, name);
        assert(collides(a, name));
    }
}

// ---------------------------------------------------------------------------
// Order
// ---------------------------------------------------------------------------
/// A service without the order of its aliases.
pub open spec fn unordered(s: PlannedView) -> (PlannedView, Multiset<Seq<char>>) {
    (with_aliases(s, Seq::empty()), s.aliases.to_multiset())
}

/// The same services with the same aliases, both in any order.
pub open spec fn reordered(a: Seq<PlannedView>, b: Seq<PlannedView>) -> bool {
    a.map_values(|s: PlannedView| unordered(s)).to_multiset() == b.map_values(
        |s: PlannedView| unordered(s),
    ).to_multiset()
}

proof fn lemma_service_owners(s: PlannedView, name: Seq<char>)
    ensures
        has_claim(s, name) <==> service_owners(s, name).len() > 0,
    decreases s.aliases.len(),
{
    if s.is_host_routed() {
        if s.aliases.len() > 0 {
            lemma_service_owners(with_aliases(s, s.aliases.drop_last()), name);
            lemma_alias_claim(s, name);
        } else {
            lemma_canonical_claim(s, name);
        }
    }
}

/// What one alias adds to the claims does not depend on its place.
proof fn lemma_alias_removed(s: PlannedView, k: int, name: Seq<char>)
    requires
        s.is_host_routed(),
        0 <= k < s.aliases.len(),
    ensures
        service_owners(s, name).to_multiset() == service_owners(
            with_aliases(s, s.aliases.remove(k)),
            name,
        ).to_multiset().add(alias_owners(s, s.aliases[k], name).to_multiset()),
    decreases s.aliases.len(),
{
    broadcast use vstd::seq_lib::lemma_multiset_commutative;

    let init = with_aliases(s, s.aliases.drop_last());
    let rest = with_aliases(s, s.aliases.remove(k));
    if k == s.aliases.len() - 1 {
        assert(s.aliases.remove(k) =~= s.aliases.drop_last());
    } else {
        assert(rest.aliases.drop_last() =~= init.aliases.remove(k));
        assert(with_aliases(rest, rest.aliases.drop_last()) == with_aliases(
            init,
            init.aliases.remove(k),
        ));
        lemma_alias_removed(init, k, name);
        assert(alias_owners(init, s.aliases[k], name) == alias_owners(s, s.aliases[k], name));
        assert(alias_owners(rest, s.aliases.last(), name) == alias_owners(
            s,
            s.aliases.last(),
            name,
        ));
        assert(service_owners(s, name).to_multiset() =~= service_owners(
            rest,
            name,
        ).to_multiset().add(alias_owners(s, s.aliases[k], name).to_multiset()));
    }
}

proof fn lemma_unordered_claims(s: PlannedView, t: PlannedView, name: Seq<char>)
    requires
        unordered(s) == unordered(t),
    ensures
        service_owners(s, name).to_multiset() == service_owners(t, name).to_multiset(),
        has_claim(s, name) <==> has_claim(t, name),
    decreases s.aliases.len(),
{
    broadcast use vstd::seq_lib::group_to_multiset_ensures;

    let bare = with_aliases(s, Seq::empty());
    assert(bare == with_aliases(t, Seq::empty()));
    assert(s.is_host_routed() == bare.is_host_routed());
    assert(t.is_host_routed() == bare.is_host_routed());
    assert(s.aliases.len() == s.aliases.to_multiset().len());
    assert(t.aliases.len() == t.aliases.to_multiset().len());
    if s.aliases.len() == 0 {
        assert(s.aliases =~= t.aliases);
        assert(s == with_aliases(bare, s.aliases));
        assert(t == with_aliases(bare, t.aliases));
    } else if s.is_host_routed() {
        let last = s.aliases.len() - 1;
        let x = s.aliases[last];
        assert(s.aliases.contains(x));
        assert(t.aliases.to_multiset().count(x) > 0);
        assert(t.aliases.contains(x));
        let k = t.aliases.index_of(x);
        let p = with_aliases(s, s.aliases.remove(last));
        let q = with_aliases(t, t.aliases.remove(k));
        lemma_alias_removed(s, last, name);
        lemma_alias_removed(t, k, name);
        assert(with_aliases(p, Seq::empty()) == bare);
        assert(with_aliases(q, Seq::empty()) == bare);
        lemma_unordered_claims(p, q, name);
        assert(alias_owners(s, x, name) == alias_owners(bare, x, name));
        assert(alias_owners(t, x, name) == alias_owners(bare, x, name));
    }
    lemma_service_owners(s, name);
    lemma_service_owners(t, name);
    assert(service_owners(s, name).len() == service_owners(s, name).to_multiset().len());
    assert(service_owners(t, name).len() == service_owners(t, name).to_multiset().len());
}

/// What one service adds to the claims does not depend on its place.
proof fn lemma_service_removed(services: Seq<PlannedView>, k: int, name: Seq<char>)
    requires
        0 <= k < services.len(),
    ensures
        owners(services, name).to_multiset() == owners(
            services.remove(k),
            name,
        ).to_multiset().add(service_owners(services[k], name).to_multiset()),
        claim_count(services, name) == claim_count(services.remove(k), name) + if has_claim(
            services[k],
            name,
        ) {
            1nat
        } else {
            0nat
        },
    decreases services.len(),
{
    broadcast use vstd::seq_lib::lemma_multiset_commutative;

    let init = services.drop_last();
    let rest = services.remove(k);
    if k == services.len() - 1 {
        assert(rest =~= init);
    } else {
        assert(rest.drop_last() =~= init.remove(k));
        lemma_service_removed(init, k, name);
        assert(owners(services, name).to_multiset() =~= owners(rest, name).to_multiset().add(
            service_owners(services[k], name).to_multiset(),
        ));
    }
}

proof fn lemma_reordered_claims(a: Seq<PlannedView>, b: Seq<PlannedView>, name: Seq<char>)
    requires
        reordered(a, b),
    ensures
        owners(a, name).to_multiset() == owners(b, name).to_multiset(),
        claim_count(a, name) == claim_count(b, name),
    decreases a.len(),
{
    broadcast use vstd::seq_lib::group_to_multiset_ensures;

    let f = |s: PlannedView| unordered(s);
    let x = a.map_values(f);
    let y = b.map_values(f);
    assert(x.len() == x.to_multiset().len());
    assert(y.len() == y.to_multiset().len());
    if a.len() == 0 {
        assert(a =~= b);
    } else {
        let last = a.len() - 1;
        assert(x.contains(x[last]));
        assert(y.to_multiset().count(x[last]) > 0);
        assert(y.contains(x[last]));
        let k = y.index_of(x[last]);
        assert(x.remove(last) =~= a.remove(last).map_values(f));
        assert(y.remove(k) =~= b.remove(k).map_values(f));
        assert(x.remove(last).to_multiset() == y.remove(k).to_multiset());
        lemma_reordered_claims(a.remove(last), b.remove(k), name);
        lemma_service_removed(a, last, name);
        lemma_service_removed(b, k, name);
        lemma_unordered_claims(a[last], b[k], name);
    }
}

proof fn lemma_owner_order(a: OwnerView, b: OwnerView, c: OwnerView)
    ensures
        owner_before(a, b) ==> !owner_before(b, a),
        !owner_before(b, a) && !owner_before(c, b) ==> !owner_before(c, a),
        !owner_before(a, b) && !owner_before(b, a) ==> a == b,
{
    lemma_lex_steps(a.domain, b.domain, c.domain);
    lemma_lex_steps(a.group, b.group, c.group);
    lemma_lex_steps(a.service, b.service, c.service);
    lemma_lex_steps(a.connection_type, b.connection_type, c.connection_type);
    lemma_lex_asymmetry(a.domain, b.domain);
    lemma_lex_asymmetry(a.group, b.group);
    lemma_lex_asymmetry(a.service, b.service);
    lemma_lex_asymmetry(a.connection_type, b.connection_type);
}

proof fn lemma_owner_rank()
    ensures
        is_rank(rank::<HostnameOwner>()),
        tells_apart(rank::<HostnameOwner>()),
{
    let less = rank::<HostnameOwner>();
    assert forall|a: OwnerView, b: OwnerView| #[trigger] less(a, b) implies !less(b, a) by {
        lemma_owner_order(a, b, a);
    }
    assert forall|a: OwnerView, b: OwnerView, c: OwnerView|
        !#[trigger] less(b, a) && !#[trigger] less(c, b) implies !less(c, a) by {
        lemma_owner_order(a, b, c);
    }
    assert forall|a: OwnerView, b: OwnerView|
        #![trigger less(a, b)]
        !less(a, b) && !less(b, a) implies a == b by {
        lemma_owner_order(a, b, a);
    }
}

/// The report lists all claims on a hostname, ordered by domain, group and service, with the
/// canonical URL before the aliases.
pub proof fn claims_are_listed_in_order(services: Seq<PlannedView>, name: Seq<char>)
    ensures
        ({
            let listed = sorted(owners(services, name), rank::<HostnameOwner>());
            &&& listed.to_multiset() == owners(services, name).to_multiset()
            &&& in_order(listed, rank::<HostnameOwner>())
        }),
{
    lemma_owner_rank();
    sorting_orders_all_items(owners(services, name), rank::<HostnameOwner>());
}

/// Every claimed hostname is a server name.
proof fn lemma_claim_is_a_server_name(services: Seq<PlannedView>, i: int, name: Seq<char>)
    requires
        0 <= i < services.len(),
        has_claim(services[i], name),
    ensures
        exists|k: int|
            0 <= k < server_names(services).len() && comparison_form(
                #[trigger] server_names(services)[k],
            ) == name,
    decreases services.len(),
{
    let init = services.drop_last();
    let before = server_names(init);
    if i < init.len() {
        lemma_claim_is_a_server_name(init, i, name);
        let k = choose|k: int|
            0 <= k < before.len() && comparison_form(#[trigger] before[k]) == name;
        assert(server_names(services)[k] == before[k]);
    } else {
        let s = services.last();
        let k = choose|k: int|
            0 <= k < s.hostnames().len() && comparison_form(#[trigger] s.hostnames()[k]) == name;
        assert(server_names(services)[before.len() + k] == s.hostnames()[k]);
    }
}

/// Only finitely many hostnames collide.
pub(crate) proof fn lemma_collisions_are_finite(services: Seq<PlannedView>)
    ensures
        collisions(services).dom().finite(),
{
    let forms = server_names(services).map_values(|n: Seq<char>| comparison_form(n));
    let all = forms.to_set();
    vstd::seq_lib::seq_to_set_is_finite(forms);
    assert forall|name: Seq<char>| collisions(services).dom().contains(name) implies all.contains(
        name,
    ) by {
        let (i, j) = choose|i: int, j: int|
            0 <= i < j < services.len() && has_claim(#[trigger] services[i], name) && has_claim(
                #[trigger] services[j],
                name,
            );
        lemma_claim_is_a_server_name(services, i, name);
        let k = choose|k: int|
            0 <= k < server_names(services).len() && comparison_form(
                #[trigger] server_names(services)[k],
            ) == name;
        assert(forms[k] == name);
    }
    vstd::set_lib::lemma_len_subset(collisions(services).dom(), all);
}

proof fn lemma_same_lines(
    m: Map<Seq<char>, Seq<OwnerView>>,
    n: Map<Seq<char>, Seq<OwnerView>>,
    names: Seq<Seq<char>>,
)
    requires
        forall|i: int|
            0 <= i < names.len() ==> sorted(m[#[trigger] names[i]], rank::<HostnameOwner>())
                == sorted(n[names[i]], rank::<HostnameOwner>()),
    ensures
        collision_lines(m, names) == collision_lines(n, names),
    decreases names.len(),
{
    if names.len() > 0 {
        let init = names.drop_last();
        assert forall|i: int| 0 <= i < init.len() implies sorted(
            m[#[trigger] init[i]],
            rank::<HostnameOwner>(),
        ) == sorted(n[init[i]], rank::<HostnameOwner>()) by {
            assert(init[i] == names[i]);
        }
        lemma_same_lines(m, n, init);
        assert(names[names.len() - 1] == names.last());
    }
}

/// The order of the services, and that of the aliases of a service, has no say: a deployment
/// passes or fails with the same report.
pub proof fn collisions_ignore_the_order_of_services(a: Seq<PlannedView>, b: Seq<PlannedView>)
    requires
        reordered(a, b),
    ensures
        has_collision(a) <==> has_collision(b),
        collision_report(a) == collision_report(b),
{
    let m = collisions(a);
    let n = collisions(b);
    let less = rank::<HostnameOwner>();
    lemma_owner_rank();
    assert forall|name: Seq<char>| #[trigger] collides(a, name) <==> collides(b, name) by {
        lemma_reordered_claims(a, b, name);
        lemma_claim_count(a, name);
        lemma_claim_count(b, name);
    }
    lemma_same_names_collide(a, b);
    lemma_collisions_are_finite(a);
    lemma_collisions_are_finite(b);
    lemma_sorted_keys(m);
    lemma_sorted_keys(n);
    assert(m.dom() =~= n.dom()) by {
        assert forall|name: Seq<char>| m.dom().contains(name) <==> n.dom().contains(name) by {
            assert(collides(a, name) <==> collides(b, name));
        }
    }
    lemma_increasing_unique(sorted_keys(m), sorted_keys(n));
    let names = sorted_keys(m);
    assert forall|i: int| 0 <= i < names.len() implies sorted(m[#[trigger] names[i]], less)
        == sorted(n[names[i]], less) by {
        let name = names[i];
        assert(m.contains_key(name));
        assert(n.contains_key(name));
        lemma_reordered_claims(a, b, name);
        sorting_ignores_the_given_order(owners(a, name), owners(b, name), less);
    }
    lemma_same_lines(m, n, names);
}

// ---------------------------------------------------------------------------
// Server names
// ---------------------------------------------------------------------------
/// The hostnames of all services that are routed by hostname: the server names that nginx
/// gets.
pub open spec fn server_names(services: Seq<PlannedView>) -> Seq<Seq<char>>
    decreases services.len(),
{
    if services.len() == 0 {
        Seq::empty()
    } else if services.last().is_host_routed() {
        server_names(services.drop_last()) + services.last().hostnames()
    } else {
        server_names(services.drop_last())
    }
}

/// The hostnames of a service are all different for DNS.
pub open spec fn has_distinct_hostnames(s: PlannedView) -> bool {
    forall|x: int, y: int|
        0 <= x < y < s.hostnames().len() ==> comparison_form(#[trigger] s.hostnames()[x])
            != comparison_form(#[trigger] s.hostnames()[y])
}

proof fn lemma_server_name_is_claimed(services: Seq<PlannedView>, i: int)
    requires
        0 <= i < server_names(services).len(),
    ensures
        exists|k: int|
            0 <= k < services.len() && has_claim(
                #[trigger] services[k],
                comparison_form(server_names(services)[i]),
            ),
    decreases services.len(),
{
    let init = services.drop_last();
    let before = server_names(init);
    let name = comparison_form(server_names(services)[i]);
    if i < before.len() {
        lemma_server_name_is_claimed(init, i);
        assert(server_names(services)[i] == before[i]);
        let k = choose|k: int| 0 <= k < init.len() && has_claim(#[trigger] init[k], name);
        assert(has_claim(services[k], name));
    } else {
        let s = services.last();
        assert(server_names(services)[i] == s.hostnames()[i - before.len()]);
        assert(has_claim(services[services.len() - 1], name));
    }
}

/// In a deployment that passes, no two server names are the same for DNS, where no service
/// repeats one of its own, so nginx routes every hostname to one service.
pub proof fn server_names_of_a_passing_deployment_are_distinct(
    services: Seq<PlannedView>,
    i: int,
    j: int,
)
    requires
        !has_collision(services),
        forall|k: int|
            0 <= k < services.len() && services[k].is_host_routed() ==> has_distinct_hostnames(
                #[trigger] services[k],
            ),
        0 <= i < j < server_names(services).len(),
    ensures
        comparison_form(server_names(services)[i]) != comparison_form(server_names(services)[j]),
    decreases services.len(),
{
    let init = services.drop_last();
    let last = services.last();
    let n = init.len() as int;
    let all = server_names(services);
    let before = server_names(init);
    deployment_passes_when_no_hostname_has_two_services(services);
    deployment_passes_when_no_hostname_has_two_services(init);
    assert forall|name: Seq<char>| #[trigger] collides(init, name) implies collides(
        services,
        name,
    ) by {
        let (x, y) = choose|x: int, y: int|
            0 <= x < y < n && has_claim(#[trigger] init[x], name) && has_claim(
                #[trigger] init[y],
                name,
            );
        assert(has_claim(services[x], name) && has_claim(services[y], name));
    }
    assert forall|k: int|
        0 <= k < init.len() && init[k].is_host_routed() implies has_distinct_hostnames(
        #[trigger] init[k],
    ) by {
        assert(init[k] == services[k]);
    }
    if j < before.len() {
        assert(all[i] == before[i] && all[j] == before[j]);
        server_names_of_a_passing_deployment_are_distinct(init, i, j);
    } else {
        let y = j - before.len();
        assert(all[j] == last.hostnames()[y]);
        if i < before.len() {
            assert(all[i] == before[i]);
            if comparison_form(all[i]) == comparison_form(all[j]) {
                let name = comparison_form(all[i]);
                lemma_server_name_is_claimed(init, i);
                let k = choose|k: int| 0 <= k < n && has_claim(#[trigger] init[k], name);
                assert(has_claim(services[k], name) && has_claim(services[n], name));
                assert(collides(services, name));
            }
        } else {
            assert(all[i] == last.hostnames()[i - before.len()]);
            assert(has_distinct_hostnames(services[n]));
        }
    }
}

} // verus!
