//! What holds of the validation of a plan and of its reports.
use crate::alias::{alias_fault, comparison_form};
use crate::commands::aliases::{
    alias_failures, all_failures, failure_report, report_is_in_order, report_lines, validated,
    validated_all, AliasFailure, FailureView,
};
use crate::commands::collision_laws::{
    claims_are_listed_in_order, deployment_passes_when_no_hostname_has_two_services,
};
use crate::commands::collisions::{
    collides, collision_lines, collision_report, collisions, has_claim, has_collision, owner,
    owner_line, owner_lines, owners, service_owners, with_aliases, HostnameOwner, HostnameSource,
    OwnerView,
};
use crate::commands::deploy::plan_fault;
use crate::commands::service::PlannedView;
use crate::map::{lemma_sorted_keys, sorted_keys};
use crate::sort::{rank, sorted, sorting_orders_all_items};
use crate::text::{has_part, lemma_lex_irreflexive, lex_less, occurs_at};
use vstd::prelude::*;

verus! {

// ---------------------------------------------------------------------------
// What validation keeps
// ---------------------------------------------------------------------------
/// Validation changes the aliases of a service and nothing else. The aliases stay in the order
/// in which they were configured: one more alias adds its normalized form behind the others,
/// unless it is rejected, the canonical hostname, or there already.
pub proof fn validation_keeps_aliases_in_order(s: PlannedView, alias: Seq<char>)
    ensures
        ({
            let v = validated(s);
            &&& v.domain == s.domain
            &&& v.group == s.group
            &&& v.service == s.service
            &&& v.connection_type == s.connection_type
            &&& v.proxy_port == s.proxy_port
            &&& v.debug_port == s.debug_port
            &&& v.canonical_hostname == s.canonical_hostname
            &&& s.aliases.len() == 0 ==> v.aliases.len() == 0
        }),
        ({
            let before = validated(s).aliases;
            let after = validated(PlannedView { aliases: s.aliases.push(alias), ..s }).aliases;
            let name = comparison_form(alias);
            let stays = alias_fault(alias) is None && name != comparison_form(s.canonical_hostname)
                && !before.contains(name);
            &&& stays ==> after == before.push(name)
            &&& !stays ==> after == before
        }),
{
    assert(s.aliases.push(alias).drop_last() =~= s.aliases);
}

/// Every service of a plan is validated on its own, in its place.
pub proof fn every_service_is_validated(services: Seq<PlannedView>, i: int)
    requires
        0 <= i < services.len(),
    ensures
        validated_all(services).len() == services.len(),
        validated_all(services)[i] == validated(services[i]),
{
}

// ---------------------------------------------------------------------------
// What validation reports
// ---------------------------------------------------------------------------
/// The failure is that of an alias of the service: it names the service by its domain, its
/// group and its name, quotes the alias as it was configured, and gives the reason.
pub open spec fn is_failure_of(f: FailureView, s: PlannedView, k: int) -> bool {
    &&& 0 <= k < s.aliases.len()
    &&& f.label == s.domain + "/"@ + s.group + "/"@ + s.service
    &&& f.error.input == s.aliases[k]
    &&& alias_fault(s.aliases[k]) == Some(f.error.reason)
}

proof fn lemma_alias_failures(aliases: Seq<Seq<char>>, label: Seq<char>, f: FailureView)
    ensures
        alias_failures(aliases, label).contains(f) <==> exists|k: int|
            {
                &&& 0 <= k < aliases.len()
                &&& f.label == label
                &&& f.error.input == #[trigger] aliases[k]
                &&& alias_fault(aliases[k]) == Some(f.error.reason)
            },
    decreases aliases.len(),
{
    let all = alias_failures(aliases, label);
    if aliases.len() > 0 {
        let init = aliases.drop_last();
        let before = alias_failures(init, label);
        let n = init.len() as int;
        lemma_alias_failures(init, label, f);
        assert(aliases[n] == aliases.last());
        assert forall|k: int| 0 <= k < n implies #[trigger] aliases[k] == init[k] by {}
        if all.contains(f) {
            let i = all.index_of(f);
            if i < before.len() {
                assert(before[i] == f);
                let k = choose|k: int|
                    {
                        &&& 0 <= k < init.len()
                        &&& f.label == label
                        &&& f.error.input == #[trigger] init[k]
                        &&& alias_fault(init[k]) == Some(f.error.reason)
                    };
                assert(f.error.input == aliases[k]);
            } else {
                assert(f.error.input == aliases[n]);
            }
        }
        if exists|k: int|
            {
                &&& 0 <= k < aliases.len()
                &&& f.label == label
                &&& f.error.input == #[trigger] aliases[k]
                &&& alias_fault(aliases[k]) == Some(f.error.reason)
            } {
            let k = choose|k: int|
                {
                    &&& 0 <= k < aliases.len()
                    &&& f.label == label
                    &&& f.error.input == #[trigger] aliases[k]
                    &&& alias_fault(aliases[k]) == Some(f.error.reason)
                };
            if k < n {
                assert(f.error.input == init[k]);
                assert(all[before.index_of(f)] == f);
            } else {
                assert(all[before.len() as int] == f);
            }
        }
    }
}

/// Every rejected alias of every service is among the failures, and nothing else is.
pub proof fn every_rejected_alias_is_a_failure(services: Seq<PlannedView>, f: FailureView)
    ensures
        all_failures(services).contains(f) <==> exists|i: int, k: int|
            0 <= i < services.len() && #[trigger] is_failure_of(f, services[i], k),
    decreases services.len(),
{
    let all = all_failures(services);
    if services.len() > 0 {
        let init = services.drop_last();
        let before = all_failures(init);
        let s = services.last();
        let more = alias_failures(s.aliases, s.label());
        let n = init.len() as int;
        every_rejected_alias_is_a_failure(init, f);
        lemma_alias_failures(s.aliases, s.label(), f);
        assert(services[n] == s);
        assert forall|i: int| 0 <= i < n implies #[trigger] services[i] == init[i] by {}
        if all.contains(f) {
            let x = all.index_of(f);
            if x < before.len() {
                assert(before[x] == f);
                let (i, k) = choose|i: int, k: int|
                    0 <= i < init.len() && #[trigger] is_failure_of(f, init[i], k);
                assert(is_failure_of(f, services[i], k));
            } else {
                assert(more[x - before.len()] == f);
                let k = choose|k: int|
                    {
                        &&& 0 <= k < s.aliases.len()
                        &&& f.label == s.label()
                        &&& f.error.input == #[trigger] s.aliases[k]
                        &&& alias_fault(s.aliases[k]) == Some(f.error.reason)
                    };
                assert(is_failure_of(f, services[n], k));
            }
        }
        if exists|i: int, k: int|
            0 <= i < services.len() && #[trigger] is_failure_of(f, services[i], k) {
            let (i, k) = choose|i: int, k: int|
                0 <= i < services.len() && #[trigger] is_failure_of(f, services[i], k);
            if i < n {
                assert(is_failure_of(f, init[i], k));
                assert(all[before.index_of(f)] == f);
            } else {
                assert(f.error.input == s.aliases[k]);
                assert(more.contains(f));
                assert(all[before.len() + more.index_of(f)] == f);
            }
        }
    }
}

/// A plan is accepted exactly when every alias of every service is, and no two services that
/// nginx routes by hostname share one. Rejected aliases are reported first.
pub proof fn plan_is_accepted_when_nothing_is_wrong(planned: Seq<PlannedView>)
    ensures
        ({
            let all_accepted = forall|i: int, k: int|
                0 <= i < planned.len() && 0 <= k < planned[i].aliases.len() ==> alias_fault(
                    #[trigger] planned[i].aliases[k],
                ) is None;
            &&& plan_fault(planned) is None <==> all_accepted && !has_collision(
                validated_all(planned),
            )
            &&& !all_accepted ==> plan_fault(planned) == Some(failure_report(all_failures(planned)))
            &&& all_accepted && has_collision(validated_all(planned)) ==> plan_fault(planned)
                == Some(collision_report(validated_all(planned)))
        }),
{
    let failures = all_failures(planned);
    if failures.len() > 0 {
        every_rejected_alias_is_a_failure(planned, failures[0]);
        assert(failures.contains(failures[0]));
        let (i, k) = choose|i: int, k: int|
            0 <= i < planned.len() && #[trigger] is_failure_of(failures[0], planned[i], k);
        assert(alias_fault(planned[i].aliases[k]) is Some);
    } else {
        assert forall|i: int, k: int|
            0 <= i < planned.len() && 0 <= k < planned[i].aliases.len() implies alias_fault(
            #[trigger] planned[i].aliases[k],
        ) is None by {
            if alias_fault(planned[i].aliases[k]) is Some {
                let f = FailureView {
                    label: planned[i].label(),
                    error: crate::alias::AliasErrorView {
                        input: planned[i].aliases[k],
                        reason: alias_fault(planned[i].aliases[k])->0,
                    },
                };
                every_rejected_alias_is_a_failure(planned, f);
                assert(is_failure_of(f, planned[i], k));
                assert(failures.contains(f));
            }
        }
    }
}

// ---------------------------------------------------------------------------
// Reports
// ---------------------------------------------------------------------------
proof fn lemma_part(a: Seq<char>, x: Seq<char>, b: Seq<char>)
    ensures
        has_part(a + x + b, x),
{
    let i = a.len() as int;
    assert((a + x + b).subrange(i, i + x.len()) =~= x);
    assert(occurs_at(a + x + b, x, i));
}

proof fn lemma_part_within(a: Seq<char>, s: Seq<char>, b: Seq<char>, x: Seq<char>)
    requires
        has_part(s, x),
    ensures
        has_part(a + s + b, x),
{
    let i = choose|i: int| occurs_at(s, x, i);
    let j = a.len() + i;
    assert((a + s + b).subrange(j, j + x.len()) =~= s.subrange(i, i + x.len()));
    assert(occurs_at(a + s + b, x, j));
}

proof fn lemma_report_lines(lines: Seq<(Seq<char>, Seq<char>)>, i: int)
    requires
        0 <= i < lines.len(),
    ensures
        has_part(report_lines(lines), "  "@ + lines[i].0 + "\n"@),
        has_part(report_lines(lines), "    "@ + lines[i].1 + "\n"@),
    decreases lines.len(),
{
    let init = lines.drop_last();
    let (label, text) = lines.last();
    let none = Seq::<char>::empty();
    let line = "    "@ + text + "\n"@;
    let name = "  "@ + label + "\n"@;
    let before = report_lines(init);
    let same = init.len() > 0 && init.last().0 == label;
    let all = report_lines(lines);
    let head = if same {
        before
    } else {
        before + name
    };
    assert(all =~= head + line + none) by {
        if !same {
            assert(before + "  "@ + label + "\n"@ =~= before + name);
        }
    }
    if i < init.len() {
        lemma_report_lines(init, i);
        assert(init[i] == lines[i]);
        let rest = if same {
            line
        } else {
            name + line
        };
        assert(all =~= none + before + rest);
        lemma_part_within(none, before, rest, "  "@ + lines[i].0 + "\n"@);
        lemma_part_within(none, before, rest, "    "@ + lines[i].1 + "\n"@);
    } else {
        lemma_part(head, line, none);
        if same {
            lemma_report_lines(init, init.len() - 1);
            assert(all =~= none + before + line);
            lemma_part_within(none, before, line, name);
        } else {
            lemma_part(before, name, line);
            assert(all =~= before + name + line);
        }
    }
}

/// The report of rejected aliases names every service with one, and has a line for every one:
/// the alias in quotes, and why it is rejected.
pub proof fn every_failure_is_reported(failures: Seq<FailureView>, i: int)
    requires
        0 <= i < failures.len(),
    ensures
        has_part(failure_report(failures), "  "@ + failures[i].label + "\n"@),
        has_part(failure_report(failures), "    "@ + failures[i].error.text() + "\n"@),
{
    broadcast use vstd::seq_lib::group_to_multiset_ensures;

    let less = rank::<AliasFailure>();
    let ordered = sorted(failures, less);
    sorting_orders_all_items(failures, less);
    assert(failures.contains(failures[i]));
    assert(ordered.to_multiset().count(failures[i]) > 0);
    let j = ordered.index_of(failures[i]);
    assert(ordered[j] == failures[i]);
    let lines = ordered.map_values(|f: FailureView| (f.label, f.error.text()));
    lemma_report_lines(lines, j);
    let head = "Cannot deploy because some URL aliases are not valid hostnames:\n\n"@;
    let end = failure_report(failures).skip((head + report_lines(lines)).len() as int);
    assert(failure_report(failures) =~= head + report_lines(lines) + end);
    lemma_part_within(head, report_lines(lines), end, "  "@ + failures[i].label + "\n"@);
    lemma_part_within(head, report_lines(lines), end, "    "@ + failures[i].error.text() + "\n"@);
}

/// The failures are reported service by service, in the order of their labels, and those of one
/// service in the order of the aliases.
pub proof fn failures_are_reported_in_order(failures: Seq<FailureView>, i: int, j: int)
    requires
        0 <= i < j < sorted(failures, rank::<AliasFailure>()).len(),
    ensures
        ({
            let a = sorted(failures, rank::<AliasFailure>())[i];
            let b = sorted(failures, rank::<AliasFailure>())[j];
            &&& !lex_less(b.label, a.label)
            &&& a.label == b.label ==> !lex_less(b.error.input, a.error.input)
        }),
{
    report_is_in_order(failures);
    let ordered = sorted(failures, rank::<AliasFailure>());
    assert(!rank::<AliasFailure>()(ordered[j], ordered[i]));
}

// ---------------------------------------------------------------------------
// Collisions
// ---------------------------------------------------------------------------
/// The claims on a hostname are reported by domain, then by group, then by service, and the
/// canonical URL of a service before its aliases.
pub proof fn claims_are_reported_in_order(
    services: Seq<PlannedView>,
    name: Seq<char>,
    i: int,
    j: int,
)
    requires
        0 <= i < j < sorted(owners(services, name), rank::<HostnameOwner>()).len(),
    ensures
        ({
            let a = sorted(owners(services, name), rank::<HostnameOwner>())[i];
            let b = sorted(owners(services, name), rank::<HostnameOwner>())[j];
            &&& !lex_less(b.domain, a.domain)
            &&& a.domain == b.domain ==> !lex_less(b.group, a.group)
            &&& a.domain == b.domain && a.group == b.group ==> !lex_less(b.service, a.service)
            &&& a.domain == b.domain && a.group == b.group && a.service == b.service && b.source
                == HostnameSource::Canonical ==> a.source == HostnameSource::Canonical
        }),
{
    claims_are_listed_in_order(services, name);
    let ordered = sorted(owners(services, name), rank::<HostnameOwner>());
    let a = ordered[i];
    let b = ordered[j];
    assert(!rank::<HostnameOwner>()(b, a));
    lemma_lex_irreflexive(a.domain);
    lemma_lex_irreflexive(a.group);
    lemma_lex_irreflexive(a.service);
}

/// The name is, for DNS, the canonical hostname of the service or one of its aliases.
pub open spec fn answers_to(s: PlannedView, name: Seq<char>) -> bool {
    comparison_form(s.canonical_hostname) == name || exists|k: int|
        0 <= k < s.aliases.len() && comparison_form(#[trigger] s.aliases[k]) == name
}

/// Two services collide over the name: both answer to it, and neither is a TCP service.
pub open spec fn collide_over(
    services: Seq<PlannedView>,
    i: int,
    j: int,
    name: Seq<char>,
) -> bool {
    &&& 0 <= i < j < services.len()
    &&& services[i].connection_type != "tcp"@
    &&& services[j].connection_type != "tcp"@
    &&& answers_to(services[i], name)
    &&& answers_to(services[j], name)
}

proof fn lemma_claim(s: PlannedView, name: Seq<char>)
    ensures
        has_claim(s, name) <==> s.connection_type != "tcp"@ && answers_to(s, name),
{
    let names = s.hostnames();
    if has_claim(s, name) {
        let k = choose|k: int| 0 <= k < names.len() && comparison_form(#[trigger] names[k]) == name;
        if k > 0 {
            assert(comparison_form(s.aliases[k - 1]) == name);
        }
    }
    if s.connection_type != "tcp"@ && answers_to(s, name) {
        if comparison_form(s.canonical_hostname) == name {
            assert(comparison_form(names[0]) == name);
        } else {
            let k = choose|k: int|
                0 <= k < s.aliases.len() && comparison_form(#[trigger] s.aliases[k]) == name;
            assert(comparison_form(names[k + 1]) == name);
        }
    }
}

proof fn lemma_collides(services: Seq<PlannedView>, name: Seq<char>)
    ensures
        collides(services, name) <==> exists|i: int, j: int| #[trigger]
            collide_over(services, i, j, name),
{
    if collides(services, name) {
        let (i, j) = choose|i: int, j: int|
            0 <= i < j < services.len() && has_claim(#[trigger] services[i], name) && has_claim(
                #[trigger] services[j],
                name,
            );
        lemma_claim(services[i], name);
        lemma_claim(services[j], name);
        assert(collide_over(services, i, j, name));
    }
    if exists|i: int, j: int| #[trigger] collide_over(services, i, j, name) {
        let (i, j) = choose|i: int, j: int| #[trigger] collide_over(services, i, j, name);
        lemma_claim(services[i], name);
        lemma_claim(services[j], name);
        assert(has_claim(services[i], name) && has_claim(services[j], name));
    }
}

/// A deployment fails exactly when two different services that are not TCP services answer to
/// the same hostname.
pub proof fn services_collide_over_a_hostname(services: Seq<PlannedView>)
    ensures
        has_collision(services) <==> exists|i: int, j: int, name: Seq<char>| #[trigger]
            collide_over(services, i, j, name),
{
    deployment_passes_when_no_hostname_has_two_services(services);
    if has_collision(services) {
        let name = choose|name: Seq<char>| #[trigger] collides(services, name);
        lemma_collides(services, name);
        let (i, j) = choose|i: int, j: int| #[trigger] collide_over(services, i, j, name);
        assert(collide_over(services, i, j, name));
    }
    if exists|i: int, j: int, name: Seq<char>| #[trigger] collide_over(services, i, j, name) {
        let (i, j, name) = choose|i: int, j: int, name: Seq<char>| #[trigger]
            collide_over(services, i, j, name);
        lemma_collides(services, name);
        assert(collides(services, name));
    }
}

proof fn lemma_owner_of_alias(s: PlannedView, name: Seq<char>, k: int)
    requires
        s.is_host_routed(),
        0 <= k < s.aliases.len(),
        comparison_form(s.aliases[k]) == name,
    ensures
        service_owners(s, name).contains(owner(s, HostnameSource::Alias)),
    decreases s.aliases.len(),
{
    let init = with_aliases(s, s.aliases.drop_last());
    let before = service_owners(init, name);
    let all = service_owners(s, name);
    let o = owner(s, HostnameSource::Alias);
    if k == s.aliases.len() - 1 {
        assert(all[before.len() as int] == o);
    } else {
        lemma_owner_of_alias(init, name, k);
        assert(owner(init, HostnameSource::Alias) == o);
        assert(all[before.index_of(o)] == o);
    }
}

proof fn lemma_owner_of_canonical(s: PlannedView, name: Seq<char>)
    requires
        s.is_host_routed(),
        comparison_form(s.canonical_hostname) == name,
    ensures
        service_owners(s, name).contains(owner(s, HostnameSource::Canonical)),
    decreases s.aliases.len(),
{
    let o = owner(s, HostnameSource::Canonical);
    let all = service_owners(s, name);
    if s.aliases.len() == 0 {
        assert(all[0] == o);
    } else {
        let init = with_aliases(s, s.aliases.drop_last());
        let before = service_owners(init, name);
        lemma_owner_of_canonical(init, name);
        assert(owner(init, HostnameSource::Canonical) == o);
        assert(all[before.index_of(o)] == o);
    }
}

proof fn lemma_owners(services: Seq<PlannedView>, name: Seq<char>, i: int, o: OwnerView)
    requires
        0 <= i < services.len(),
        service_owners(services[i], name).contains(o),
    ensures
        owners(services, name).contains(o),
    decreases services.len(),
{
    let init = services.drop_last();
    let before = owners(init, name);
    let more = service_owners(services.last(), name);
    let all = owners(services, name);
    if i < init.len() {
        assert(init[i] == services[i]);
        lemma_owners(init, name, i, o);
        assert(all[before.index_of(o)] == o);
    } else {
        assert(all[before.len() + more.index_of(o)] == o);
    }
}

proof fn lemma_owner_lines(list: Seq<OwnerView>, i: int)
    requires
        0 <= i < list.len(),
    ensures
        has_part(owner_lines(list), owner_line(list[i])),
    decreases list.len(),
{
    let init = list.drop_last();
    let none = Seq::<char>::empty();
    let last = owner_line(list.last());
    if i < init.len() {
        assert(init[i] == list[i]);
        lemma_owner_lines(init, i);
        lemma_part_within(none, owner_lines(init), last, owner_line(list[i]));
        assert(none + owner_lines(init) + last =~= owner_lines(list));
    } else {
        lemma_part(owner_lines(init), last, none);
        assert(owner_lines(init) + last + none =~= owner_lines(list));
    }
}

proof fn lemma_collision_lines(
    m: Map<Seq<char>, Seq<OwnerView>>,
    names: Seq<Seq<char>>,
    i: int,
)
    requires
        0 <= i < names.len(),
    ensures
        has_part(
            collision_lines(m, names),
            "  "@ + names[i] + "\n"@ + owner_lines(sorted(m[names[i]], rank::<HostnameOwner>())),
        ),
    decreases names.len(),
{
    let init = names.drop_last();
    let before = collision_lines(m, init);
    let less = rank::<HostnameOwner>();
    let last = "  "@ + names.last() + "\n"@ + owner_lines(sorted(m[names.last()], less));
    let none = Seq::<char>::empty();
    let all = collision_lines(m, names);
    assert(all =~= before + last + "\n"@);
    if i < init.len() {
        assert(init[i] == names[i]);
        lemma_collision_lines(m, init, i);
        let block = "  "@ + names[i] + "\n"@ + owner_lines(sorted(m[names[i]], less));
        lemma_part_within(none, before, last + "\n"@, block);
        assert(none + before + (last + "\n"@) =~= all);
    } else {
        lemma_part(before, last, "\n"@);
    }
}

/// The report names a hostname that services collide over, and right below it has a line for
/// the given claim.
proof fn lemma_reported(services: Seq<PlannedView>, name: Seq<char>, o: OwnerView)
    requires
        collides(services, name),
        owners(services, name).contains(o),
    ensures
        has_part(collision_report(services), "  "@ + name + "\n"@),
        has_part(collision_report(services), owner_line(o)),
{
    broadcast use vstd::seq_lib::group_to_multiset_ensures;

    let m = collisions(services);
    let keys = sorted_keys(m);
    let less = rank::<HostnameOwner>();
    crate::commands::collision_laws::lemma_collisions_are_finite(services);
    lemma_sorted_keys(m);
    assert(m.contains_key(name));
    let i = keys.index_of(name);
    assert(keys[i] == name);
    lemma_collision_lines(m, keys, i);
    let list = sorted(m[name], less);
    sorting_orders_all_items(m[name], less);
    assert(list.to_multiset().count(o) > 0);
    let k = list.index_of(o);
    assert(list[k] == o);
    lemma_owner_lines(list, k);
    let title = "  "@ + name + "\n"@;
    let none = Seq::<char>::empty();
    let block = title + owner_lines(list);
    lemma_part(none, title, owner_lines(list));
    assert(none + title + owner_lines(list) =~= block);
    lemma_part_within(title, owner_lines(list), none, owner_line(o));
    assert(title + owner_lines(list) + none =~= block);
    let lines = collision_lines(m, keys);
    lemma_part_through(lines, block, title);
    lemma_part_through(lines, block, owner_line(o));
    let head =
        "Cannot deploy because some HTTP/WebSocket hostnames are assigned to multiple services:\n\n"@;
    let end = collision_report(services).skip((head + lines).len() as int);
    assert(collision_report(services) =~= head + lines + end);
    lemma_part_within(head, lines, end, title);
    lemma_part_within(head, lines, end, owner_line(o));
}

proof fn lemma_part_through(s: Seq<char>, x: Seq<char>, y: Seq<char>)
    requires
        has_part(s, x),
        has_part(x, y),
    ensures
        has_part(s, y),
{
    let i = choose|i: int| occurs_at(s, x, i);
    let j = choose|j: int| occurs_at(x, y, j);
    assert(s.subrange(i + j, i + j + y.len()) =~= s.subrange(i, i + x.len()).subrange(
        j,
        j + y.len(),
    ));
    assert(occurs_at(s, y, i + j));
}

/// The report of collisions names every hostname that two services collide over, and has a
/// line for each claim on it, by a canonical URL or by an alias, with the service and its
/// connection type.
pub proof fn every_colliding_claim_is_reported(
    services: Seq<PlannedView>,
    i: int,
    j: int,
    name: Seq<char>,
    x: int,
)
    requires
        collide_over(services, i, j, name),
        0 <= x < services.len(),
        services[x].connection_type != "tcp"@,
        answers_to(services[x], name),
    ensures
        ({
            let report = collision_report(services);
            let s = services[x];
            let who = s.domain + "/"@ + s.group + "/"@ + s.service + " ("@ + s.connection_type
                + ")\n"@;
            &&& has_part(report, "  "@ + name + "\n"@)
            &&& comparison_form(s.canonical_hostname) == name ==> has_part(
                report,
                "    "@ + "canonical URL"@ + " for "@ + who,
            )
            &&& (exists|k: int|
                0 <= k < s.aliases.len() && comparison_form(#[trigger] s.aliases[k]) == name)
                ==> has_part(report, "    "@ + "alias"@ + " for "@ + who)
        }),
{
    lemma_collides(services, name);
    let s = services[x];
    let who = s.domain + "/"@ + s.group + "/"@ + s.service + " ("@ + s.connection_type + ")\n"@;
    if comparison_form(s.canonical_hostname) == name {
        let o = owner(s, HostnameSource::Canonical);
        lemma_owner_of_canonical(s, name);
        lemma_owners(services, name, x, o);
        lemma_reported(services, name, o);
        assert(owner_line(o) =~= "    "@ + "canonical URL"@ + " for "@ + who);
    }
    if exists|k: int| 0 <= k < s.aliases.len() && comparison_form(#[trigger] s.aliases[k]) == name {
        let k = choose|k: int|
            0 <= k < s.aliases.len() && comparison_form(#[trigger] s.aliases[k]) == name;
        let o = owner(s, HostnameSource::Alias);
        lemma_owner_of_alias(s, name, k);
        lemma_owners(services, name, x, o);
        lemma_reported(services, name, o);
        assert(owner_line(o) =~= "    "@ + "alias"@ + " for "@ + who);
    }
}

} // verus!
