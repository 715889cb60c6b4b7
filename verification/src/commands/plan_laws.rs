//! What holds of a planned deployment.
use crate::commands::discover::{
    all_services, assigned_ports, domain_ports, domain_services, every_mapped_port_is_collected,
    found_services, group_ports, group_services, host_ports, key_port, mapping_ports, ports_of_map,
    root_services, usable, FoldersView, FoundView,
};
use crate::commands::plan::{
    lemma_fits_prefix, lemma_plan, plan_fits, plan_inputs, planned_services, PlanInputs,
};
use crate::commands::service::PlannedView;
use crate::config::edit::PlaceView;
use crate::config::edit_laws::{exists_in, settings_are_found_where_they_stand, settings_at};
use crate::config::general_laws::{debug_port_is_kept_or_the_lowest_free, is_free};
use crate::config::model::{ConfigView, DomainView};
use crate::config::ports::{
    can_choose, debug_port_in, first_free, lemma_first_free, search_start, skip_ports,
};
use crate::json::{number_value, JsonView};
use crate::map::{lemma_sorted_keys, sorted_keys};
use crate::text::{lex_less, port_number};
use vstd::prelude::*;

verus! {

// ---------------------------------------------------------------------------
// What the configuration says of a service
// ---------------------------------------------------------------------------
/// The group of the service is configured.
pub open spec fn has_group(c: ConfigView, s: PlannedView) -> bool {
    c.domains->0[s.domain].groups is Some && c.domains->0[s.domain].groups->0.contains_key(s.group)
}

/// The service is configured.
pub open spec fn has_service(c: ConfigView, s: PlannedView) -> bool {
    let group = c.domains->0[s.domain].groups->0[s.group];
    has_group(c, s) && group.services is Some && group.services->0.contains_key(s.service)
}

/// The service has the connection type that it states itself; or else the one that its group
/// states; or else the one that its domain states; or else `http`.
pub open spec fn has_nearest_type(c: ConfigView, s: PlannedView) -> bool {
    let domain = c.domains->0[s.domain];
    let group = domain.groups->0[s.group];
    let service = group.services->0[s.service];
    let by_service = has_service(c, s) && service.settings.connection_type is Some;
    let by_group = has_group(c, s) && group.settings.connection_type is Some;
    let by_domain = domain.settings.connection_type is Some;
    &&& by_service ==> s.connection_type == service.settings.connection_type->0
    &&& !by_service && by_group ==> s.connection_type == group.settings.connection_type->0
    &&& !by_service && !by_group && by_domain ==> s.connection_type
        == domain.settings.connection_type->0
    &&& !by_service && !by_group && !by_domain ==> s.connection_type == "http"@
}

/// The service has the aliases that are configured for it, as they were written, and none
/// where none are.
pub open spec fn has_its_aliases(c: ConfigView, s: PlannedView) -> bool {
    let service = c.domains->0[s.domain].groups->0[s.group].services->0[s.service];
    &&& has_service(c, s) && service.urls is Some ==> s.aliases == service.urls->0
    &&& !(has_service(c, s) && service.urls is Some) ==> s.aliases.len() == 0
}

/// Every planned service has the connection type of the most specific level that states one,
/// its own aliases, the hostname made of its name and its domain, and the reverse-proxy port
/// that its position gives.
pub proof fn planned_service_is_as_configured(
    c: ConfigView,
    portmap: JsonView,
    folders: Map<Seq<char>, FoldersView>,
    i: int,
)
    requires
        plan_fits(c, portmap, folders),
        0 <= i < planned_services(c, portmap, folders).len(),
    ensures
        ({
            let s = planned_services(c, portmap, folders)[i];
            &&& has_nearest_type(c, s)
            &&& has_its_aliases(c, s)
            &&& s.canonical_hostname == s.service + "."@ + s.domain + ".test"@
            &&& s.proxy_port == 50100 + i
        }),
{
    let inputs = plan_inputs(c, portmap);
    let found = all_services(c, folders);
    lemma_plan(inputs, found);
    lemma_fits_prefix(inputs, found, i);
    lemma_plan(inputs, found.take(i));
    assert(inputs.plan(found).services[i] == inputs.service_for(
        inputs.plan(found.take(i)),
        found[i],
    ));
}

/// The plan lists the services on disk, one for one and in their order.
pub proof fn planned_services_are_those_on_disk(
    c: ConfigView,
    portmap: JsonView,
    folders: Map<Seq<char>, FoldersView>,
)
    requires
        plan_fits(c, portmap, folders),
    ensures
        planned_services(c, portmap, folders).len() == all_services(c, folders).len(),
        forall|i: int|
            0 <= i < all_services(c, folders).len() ==> {
                let s = #[trigger] planned_services(c, portmap, folders)[i];
                let f = all_services(c, folders)[i];
                s.domain == f.domain && s.group == f.group && s.service == f.service
            },
{
    let inputs = plan_inputs(c, portmap);
    let found = all_services(c, folders);
    lemma_plan(inputs, found);
    assert forall|i: int| 0 <= i < found.len() implies {
        let s = #[trigger] planned_services(c, portmap, folders)[i];
        let f = found[i];
        s.domain == f.domain && s.group == f.group && s.service == f.service
    } by {
        assert(inputs.plan(found).services[i] == inputs.service_for(
            inputs.plan(found.take(i)),
            found[i],
        ));
    }
}

// ---------------------------------------------------------------------------
// Services on disk
// ---------------------------------------------------------------------------
/// The domain has groups, and the name is that of one.
pub open spec fn names_a_group(domain: DomainView, name: Seq<char>) -> bool {
    domain.groups is Some && domain.groups->0.contains_key(name)
}

/// The folder makes a service of the root group: it was found in the location of the domain,
/// whose root group counts, and it is not the directory of another group.
pub open spec fn is_root_service(
    domain: DomainView,
    folders: FoldersView,
    f: FoundView,
) -> bool {
    &&& f.group == "."@
    &&& domain.groups is None || domain.groups->0.contains_key("."@)
    &&& folders.root.contains(f.service)
    &&& f.service == "."@ || !names_a_group(domain, f.service)
}

/// The folder makes a service of a named group: it was found in the directory of a group that
/// is configured.
pub open spec fn is_group_service(
    domain: DomainView,
    folders: FoldersView,
    f: FoundView,
) -> bool {
    &&& f.group != "."@
    &&& names_a_group(domain, f.group)
    &&& exists|j: int|
        0 <= j < folders.groups.len() && (#[trigger] folders.groups[j]).0 == f.group
            && folders.groups[j].1.contains(f.service)
}

/// The service stands on disk.
pub open spec fn is_on_disk(
    c: ConfigView,
    folders: Map<Seq<char>, FoldersView>,
    f: FoundView,
) -> bool {
    &&& c.domains is Some && c.domains->0.contains_key(f.domain)
    &&& folders.contains_key(f.domain)
    &&& is_root_service(c.domains->0[f.domain], folders[f.domain], f) || is_group_service(
        c.domains->0[f.domain],
        folders[f.domain],
        f,
    )
}

proof fn lemma_root(d: Seq<char>, domain: DomainView, folders: Seq<Seq<char>>, f: FoundView)
    ensures
        root_services(d, domain, folders).contains(f) <==> f.domain == d && f.group == "."@
            && folders.contains(f.service) && (f.service == "."@ || !names_a_group(
            domain,
            f.service,
        )),
    decreases folders.len(),
{
    let all = root_services(d, domain, folders);
    if folders.len() > 0 {
        let init = folders.drop_last();
        let before = root_services(d, domain, init);
        lemma_root(d, domain, init, f);
        let last = FoundView { domain: d, group: "."@, service: folders.last() };
        assert(all.contains(f) <==> before.contains(f) || (!domain.is_named_group(folders.last())
            && f == last)) by {
            if before.contains(f) {
                assert(all[before.index_of(f)] == f);
            }
            if !domain.is_named_group(folders.last()) && f == last {
                assert(all[before.len() as int] == f);
            }
            if all.contains(f) {
                let i = all.index_of(f);
                if i < before.len() {
                    assert(before[i] == f);
                }
            }
        }
        assert(folders.contains(f.service) <==> init.contains(f.service) || f.service
            == folders.last()) by {
            if init.contains(f.service) {
                assert(folders[init.index_of(f.service)] == f.service);
            }
            if f.service == folders.last() {
                assert(folders[folders.len() - 1] == f.service);
            }
            if folders.contains(f.service) {
                let i = folders.index_of(f.service);
                if i < init.len() {
                    assert(init[i] == f.service);
                }
            }
        }
    }
}

proof fn lemma_group(
    d: Seq<char>,
    domain: DomainView,
    groups: Seq<(Seq<char>, Seq<Seq<char>>)>,
    f: FoundView,
)
    ensures
        group_services(d, domain, groups).contains(f) <==> f.domain == d && f.group != "."@
            && names_a_group(domain, f.group) && exists|j: int|
            0 <= j < groups.len() && (#[trigger] groups[j]).0 == f.group && groups[j].1.contains(
                f.service,
            ),
    decreases groups.len(),
{
    let all = group_services(d, domain, groups);
    if groups.len() > 0 {
        let init = groups.drop_last();
        let before = group_services(d, domain, init);
        lemma_group(d, domain, init, f);
        let (g, names) = groups.last();
        let more = names.map_values(|n: Seq<char>| FoundView { domain: d, group: g, service: n });
        assert(more.contains(f) <==> f.domain == d && f.group == g && names.contains(f.service)) by {
            if more.contains(f) {
                let i = more.index_of(f);
                assert(names[i] == f.service);
            }
            if f.domain == d && f.group == g && names.contains(f.service) {
                let i = names.index_of(f.service);
                assert(more[i] == f);
            }
        }
        assert(all.contains(f) <==> before.contains(f) || (domain.is_named_group(g)
            && more.contains(f))) by {
            if before.contains(f) {
                assert(all[before.index_of(f)] == f);
            }
            if domain.is_named_group(g) && more.contains(f) {
                assert(all[before.len() + more.index_of(f)] == f);
            }
            if all.contains(f) {
                let i = all.index_of(f);
                if i < before.len() {
                    assert(before[i] == f);
                } else {
                    assert(more[i - before.len()] == f);
                }
            }
        }
        if exists|j: int|
            0 <= j < init.len() && (#[trigger] init[j]).0 == f.group && init[j].1.contains(
                f.service,
            ) {
            let j = choose|j: int|
                0 <= j < init.len() && (#[trigger] init[j]).0 == f.group && init[j].1.contains(
                    f.service,
                );
            assert(groups[j].0 == f.group);
        }
        if g == f.group && names.contains(f.service) {
            assert(groups[groups.len() - 1].0 == f.group);
        }
        if exists|j: int|
            0 <= j < groups.len() && (#[trigger] groups[j]).0 == f.group && groups[j].1.contains(
                f.service,
            ) {
            let j = choose|j: int|
                0 <= j < groups.len() && (#[trigger] groups[j]).0 == f.group
                    && groups[j].1.contains(f.service);
            if j < init.len() {
                assert(init[j].0 == f.group);
            }
        }
    }
}

proof fn lemma_domain(d: Seq<char>, domain: DomainView, folders: FoldersView, f: FoundView)
    ensures
        domain_services(d, domain, folders).contains(f) <==> f.domain == d && (is_root_service(
            domain,
            folders,
            f,
        ) || is_group_service(domain, folders, f)),
{
    lemma_root(d, domain, folders.root, f);
    lemma_group(d, domain, folders.groups, f);
    let root = if domain.has_root_group() {
        root_services(d, domain, folders.root)
    } else {
        Seq::empty()
    };
    let groups = group_services(d, domain, folders.groups);
    let all = domain_services(d, domain, folders);
    if root.contains(f) {
        assert(all[root.index_of(f)] == f);
    }
    if groups.contains(f) {
        assert(all[root.len() + groups.index_of(f)] == f);
    }
    if all.contains(f) {
        let i = all.index_of(f);
        if i < root.len() {
            assert(root[i] == f);
        } else {
            assert(groups[i - root.len()] == f);
        }
    }
}

proof fn lemma_found(
    domains: Map<Seq<char>, DomainView>,
    folders: Map<Seq<char>, FoldersView>,
    n: nat,
    f: FoundView,
)
    requires
        n <= sorted_keys(domains).len(),
    ensures
        found_services(domains, folders, n).contains(f) <==> sorted_keys(domains).take(
            n as int,
        ).contains(f.domain) && folders.contains_key(f.domain) && (is_root_service(
            domains[f.domain],
            folders[f.domain],
            f,
        ) || is_group_service(domains[f.domain], folders[f.domain], f)),
    decreases n,
{
    let keys = sorted_keys(domains);
    let all = found_services(domains, folders, n);
    if n > 0 {
        let before = found_services(domains, folders, (n - 1) as nat);
        lemma_found(domains, folders, (n - 1) as nat, f);
        let d = keys[n - 1];
        let seen = keys.take(n as int);
        let init = keys.take(n - 1);
        assert(seen.contains(f.domain) <==> init.contains(f.domain) || f.domain == d) by {
            if init.contains(f.domain) {
                assert(seen[init.index_of(f.domain)] == f.domain);
            }
            if f.domain == d {
                assert(seen[n - 1] == f.domain);
            }
            if seen.contains(f.domain) {
                let i = seen.index_of(f.domain);
                if i < n - 1 {
                    assert(init[i] == f.domain);
                }
            }
        }
        if folders.contains_key(d) {
            let more = domain_services(d, domains[d], folders[d]);
            lemma_domain(d, domains[d], folders[d], f);
            if before.contains(f) {
                assert(all[before.index_of(f)] == f);
            }
            if more.contains(f) {
                assert(all[before.len() + more.index_of(f)] == f);
            }
            if all.contains(f) {
                let i = all.index_of(f);
                if i < before.len() {
                    assert(before[i] == f);
                } else {
                    assert(more[i - before.len()] == f);
                }
            }
        }
    } else {
        assert(keys.take(0).len() == 0);
    }
}

/// The services are exactly those on disk: every folder in the location of a domain whose root
/// group counts, unless it is the directory of a group, and every folder in the directory of a
/// configured group. No folder is left out, and nothing else is a service.
pub proof fn every_folder_is_a_service(
    c: ConfigView,
    folders: Map<Seq<char>, FoldersView>,
    f: FoundView,
)
    requires
        c.domains is Some ==> c.domains->0.dom().finite(),
    ensures
        all_services(c, folders).contains(f) <==> is_on_disk(c, folders, f),
{
    if c.domains is Some {
        let m = c.domains->0;
        let keys = sorted_keys(m);
        lemma_sorted_keys(m);
        lemma_found(m, folders, keys.len(), f);
        assert(keys.take(keys.len() as int) =~= keys);
        if keys.contains(f.domain) {
            assert(m.contains_key(keys[keys.index_of(f.domain)]));
        }
    }
}

/// No folder was found twice in the same place.
pub open spec fn has_distinct_folders(folders: FoldersView) -> bool {
    &&& folders.root.no_duplicates()
    &&& forall|i: int|
        0 <= i < folders.groups.len() ==> (#[trigger] folders.groups[i]).1.no_duplicates()
    &&& forall|i: int, j: int|
        0 <= i < j < folders.groups.len() ==> (#[trigger] folders.groups[i]).0 != (
        #[trigger] folders.groups[j]).0
}

proof fn lemma_root_distinct(d: Seq<char>, domain: DomainView, folders: Seq<Seq<char>>)
    requires
        folders.no_duplicates(),
    ensures
        root_services(d, domain, folders).no_duplicates(),
    decreases folders.len(),
{
    if folders.len() > 0 {
        let init = folders.drop_last();
        lemma_root_distinct(d, domain, init);
        let last = FoundView { domain: d, group: "."@, service: folders.last() };
        lemma_root(d, domain, init, last);
        if init.contains(folders.last()) {
            let i = init.index_of(folders.last());
            assert(folders[i] == folders[folders.len() - 1]);
        }
        let before = root_services(d, domain, init);
        let all = root_services(d, domain, folders);
        assert forall|i: int, j: int| 0 <= i < all.len() && 0 <= j < all.len() && i != j implies all[i]
            != all[j] by {
            if i < before.len() {
                assert(before.contains(before[i]));
            }
            if j < before.len() {
                assert(before.contains(before[j]));
            }
        }
    }
}

proof fn lemma_group_distinct(
    d: Seq<char>,
    domain: DomainView,
    groups: Seq<(Seq<char>, Seq<Seq<char>>)>,
)
    requires
        forall|i: int| 0 <= i < groups.len() ==> (#[trigger] groups[i]).1.no_duplicates(),
        forall|i: int, j: int|
            0 <= i < j < groups.len() ==> (#[trigger] groups[i]).0 != (#[trigger] groups[j]).0,
    ensures
        group_services(d, domain, groups).no_duplicates(),
    decreases groups.len(),
{
    if groups.len() > 0 {
        let init = groups.drop_last();
        assert forall|i: int| 0 <= i < init.len() implies (
        #[trigger] init[i]).1.no_duplicates() by {
            assert(init[i] == groups[i]);
        }
        assert forall|i: int, j: int| 0 <= i < j < init.len() implies (#[trigger] init[i]).0 != (
        #[trigger] init[j]).0 by {
            assert(init[i] == groups[i] && init[j] == groups[j]);
        }
        lemma_group_distinct(d, domain, init);
        let (g, names) = groups.last();
        let before = group_services(d, domain, init);
        let all = group_services(d, domain, groups);
        let last = groups.len() - 1;
        assert(groups[last].1.no_duplicates());
        assert forall|i: int, j: int| 0 <= i < j < all.len() implies all[i] != all[j] by {
            if j >= before.len() {
                assert(all[j].group == g && all[j].service == names[j - before.len()]);
                if i < before.len() {
                    assert(before.contains(before[i]));
                    lemma_group(d, domain, init, before[i]);
                    let k = choose|k: int|
                        0 <= k < init.len() && (#[trigger] init[k]).0 == before[i].group
                            && init[k].1.contains(before[i].service);
                    assert(groups[k].0 != groups[last].0);
                } else {
                    assert(all[i].service == names[i - before.len()]);
                }
            }
        }
    }
}

proof fn lemma_domain_distinct(d: Seq<char>, domain: DomainView, folders: FoldersView)
    requires
        has_distinct_folders(folders),
    ensures
        domain_services(d, domain, folders).no_duplicates(),
{
    lemma_root_distinct(d, domain, folders.root);
    lemma_group_distinct(d, domain, folders.groups);
    let root = if domain.has_root_group() {
        root_services(d, domain, folders.root)
    } else {
        Seq::empty()
    };
    let groups = group_services(d, domain, folders.groups);
    let all = domain_services(d, domain, folders);
    assert forall|i: int, j: int| 0 <= i < j < all.len() implies all[i] != all[j] by {
        if i < root.len() && j >= root.len() {
            assert(root.contains(root[i]));
            assert(groups.contains(groups[j - root.len()]));
            lemma_root(d, domain, folders.root, root[i]);
            lemma_group(d, domain, folders.groups, groups[j - root.len()]);
        }
    }
}

proof fn lemma_found_in_order(
    domains: Map<Seq<char>, DomainView>,
    folders: Map<Seq<char>, FoldersView>,
    n: nat,
)
    requires
        domains.dom().finite(),
        n <= sorted_keys(domains).len(),
        forall|d: Seq<char>| #[trigger]
            folders.contains_key(d) ==> has_distinct_folders(folders[d]),
    ensures
        ({
            let all = found_services(domains, folders, n);
            &&& all.no_duplicates()
            &&& forall|i: int, j: int|
                0 <= i < j < all.len() ==> (#[trigger] all[i]).domain == (
                #[trigger] all[j]).domain || lex_less(all[i].domain, all[j].domain)
        }),
    decreases n,
{
    lemma_sorted_keys(domains);
    crate::map::lemma_increasing_distinct(sorted_keys(domains));
    if n > 0 {
        let keys = sorted_keys(domains);
        let before = found_services(domains, folders, (n - 1) as nat);
        let all = found_services(domains, folders, n);
        lemma_found_in_order(domains, folders, (n - 1) as nat);
        let d = keys[n - 1];
        if folders.contains_key(d) {
            let more = domain_services(d, domains[d], folders[d]);
            lemma_domain_distinct(d, domains[d], folders[d]);
            assert forall|i: int, j: int| 0 <= i < j < all.len() implies all[i] != all[j] && ((
            #[trigger] all[i]).domain == (#[trigger] all[j]).domain || lex_less(
                all[i].domain,
                all[j].domain,
            )) by {
                if j >= before.len() {
                    assert(more.contains(more[j - before.len()]));
                    lemma_domain(d, domains[d], folders[d], more[j - before.len()]);
                    if i < before.len() {
                        assert(before.contains(before[i]));
                        lemma_found(domains, folders, (n - 1) as nat, before[i]);
                        let init = keys.take(n - 1);
                        let k = init.index_of(before[i].domain);
                        assert(keys[k] == before[i].domain);
                        assert(lex_less(keys[k], keys[n - 1]));
                        crate::text::lemma_lex_irreflexive(keys[n - 1]);
                    } else {
                        assert(more.contains(more[i - before.len()]));
                        lemma_domain(d, domains[d], folders[d], more[i - before.len()]);
                    }
                }
            }
        }
    }
}

/// No service is listed twice, and the services of one domain follow those of the domain
/// before it in the order of names.
pub proof fn services_are_listed_once_and_in_order(
    c: ConfigView,
    folders: Map<Seq<char>, FoldersView>,
)
    requires
        c.domains is Some ==> c.domains->0.dom().finite(),
        forall|d: Seq<char>| #[trigger]
            folders.contains_key(d) ==> has_distinct_folders(folders[d]),
    ensures
        all_services(c, folders).no_duplicates(),
        forall|i: int, j: int|
            0 <= i < j < all_services(c, folders).len() ==> (#[trigger] all_services(
                c,
                folders,
            )[i]).domain == (#[trigger] all_services(c, folders)[j]).domain || lex_less(
                all_services(c, folders)[i].domain,
                all_services(c, folders)[j].domain,
            ),
{
    if c.domains is Some {
        lemma_found_in_order(c.domains->0, folders, sorted_keys(c.domains->0).len());
    }
}

// ---------------------------------------------------------------------------
// Debug ports
// ---------------------------------------------------------------------------
/// The number that a port map holds under `debug_port` for a service.
pub open spec fn holds_debug_number(
    portmap: JsonView,
    d: Seq<char>,
    g: Seq<char>,
    s: Seq<char>,
    n: u64,
) -> bool {
    &&& portmap is Object && portmap->Object_0.contains_key(d)
    &&& portmap->Object_0[d] is Object && portmap->Object_0[d]->Object_0.contains_key(g)
    &&& portmap->Object_0[d]->Object_0[g] is Object
    &&& portmap->Object_0[d]->Object_0[g]->Object_0.contains_key(s)
    &&& {
        let entry = portmap->Object_0[d]->Object_0[g]->Object_0[s];
        &&& entry is Object && entry->Object_0.contains_key("debug_port"@)
        &&& entry->Object_0["debug_port"@] is Number
        &&& number_value(entry->Object_0["debug_port"@]->Number_0) == Some(n)
    }
}

/// The debug port of a service is read from the number that the port map holds for it, in the
/// 16 bits of a port, and there is none where the port map holds no number.
pub proof fn debug_port_is_read_from_the_portmap(
    portmap: JsonView,
    d: Seq<char>,
    g: Seq<char>,
    s: Seq<char>,
)
    ensures
        forall|n: u64| #[trigger]
            holds_debug_number(portmap, d, g, s, n) ==> debug_port_in(portmap, d, g, s) == Some(
                (n % 0x10000) as u16,
            ),
        (forall|n: u64| !#[trigger] holds_debug_number(portmap, d, g, s, n)) ==> debug_port_in(
            portmap,
            d,
            g,
            s,
        ) is None,
{
    if debug_port_in(portmap, d, g, s) is Some {
        let entry = portmap->Object_0[d]->Object_0[g]->Object_0[s];
        let n = number_value(entry->Object_0["debug_port"@]->Number_0)->0;
        assert(holds_debug_number(portmap, d, g, s, n));
    }
}

/// The base of the debug ports: the configured one, or else 13000.
pub open spec fn is_base(c: ConfigView, base: u16) -> bool {
    &&& c.debug_port_base is Some ==> base == c.debug_port_base->0
    &&& c.debug_port_base is None ==> base == 13000
}

/// The port is one of a conventional local service.
pub open spec fn is_conventional(p: u16) -> bool {
    p == 9000 || p == 9003 || p == 9090 || p == 9092 || p == 9200 || p == 9229 || p == 11211
}

/// The port can be a debug port: it is not below the base, not one of a conventional service,
/// and not one that the configuration maps.
pub open spec fn can_be_debug_port(c: ConfigView, base: u16, p: u16) -> bool {
    p >= base && !is_conventional(p) && !host_ports(c).contains(p)
}

/// The place maps the port in its `host_portmappings`.
pub open spec fn maps_port(c: ConfigView, place: PlaceView, key: Seq<char>, p: u16) -> bool {
    &&& exists_in(c, place)
    &&& settings_at(c, place).host_portmappings is Some
    &&& settings_at(c, place).host_portmappings->0.contains_key(key)
    &&& port_number(key) == Some(p)
}

proof fn lemma_mapping(c: ConfigView, place: PlaceView, p: u16)
    requires
        exists_in(c, place),
        mapping_ports(settings_at(c, place).host_portmappings).contains(p),
    ensures
        exists|key: Seq<char>| #[trigger] maps_port(c, place, key, p),
{
    let m = settings_at(c, place).host_portmappings->0;
    let f = |k: Seq<char>| key_port(k);
    let k = choose|k: Seq<char>| m.contains_key(k) && #[trigger] f(k).contains(p);
    assert(maps_port(c, place, k, p));
}

/// The host ports of a configuration are exactly those that some place maps.
pub proof fn host_ports_are_those_that_are_mapped(c: ConfigView, p: u16)
    ensures
        host_ports(c).contains(p) <==> exists|place: PlaceView, key: Seq<char>| #[trigger]
            maps_port(c, place, key, p),
{
    if exists|place: PlaceView, key: Seq<char>| #[trigger] maps_port(c, place, key, p) {
        let (place, key) = choose|place: PlaceView, key: Seq<char>| #[trigger]
            maps_port(c, place, key, p);
        settings_are_found_where_they_stand(c, place);
        every_mapped_port_is_collected(c, place, key);
    }
    if host_ports(c).contains(p) {
        let place = lemma_place_of_port(c, p);
        lemma_mapping(c, place, p);
    }
}

proof fn lemma_place_of_port(c: ConfigView, p: u16) -> (place: PlaceView)
    requires
        host_ports(c).contains(p),
    ensures
        exists_in(c, place),
        mapping_ports(settings_at(c, place).host_portmappings).contains(p),
{
    if c.domains is Some && ports_of_map(
        c.domains->0,
        |k: Seq<char>| domain_ports(c.domains->0[k]),
    ).contains(p) {
        let m = c.domains->0;
        let f = |k: Seq<char>| domain_ports(m[k]);
        let d = choose|k: Seq<char>| m.contains_key(k) && #[trigger] f(k).contains(p);
        if mapping_ports(m[d].settings.host_portmappings).contains(p) {
            PlaceView::Domain(d)
        } else {
            let groups = m[d].groups->0;
            let f = |k: Seq<char>| group_ports(groups[k]);
            let g = choose|k: Seq<char>| groups.contains_key(k) && #[trigger] f(k).contains(p);
            if mapping_ports(groups[g].settings.host_portmappings).contains(p) {
                PlaceView::Group(d, g)
            } else {
                let services = groups[g].services->0;
                let f = |k: Seq<char>| mapping_ports(services[k].settings.host_portmappings);
                let s = choose|k: Seq<char>|
                    services.contains_key(k) && #[trigger] f(k).contains(p);
                PlaceView::Service(d, g, s)
            }
        }
    } else {
        let m = c.environments->0;
        let f = |k: Seq<char>| mapping_ports(m[k].host_portmappings);
        let e = choose|k: Seq<char>| m.contains_key(k) && #[trigger] f(k).contains(p);
        PlaceView::Environment(e)
    }
}

/// The previous deployment gave the port to some service.
pub open spec fn was_assigned(portmap: JsonView, p: u16) -> bool {
    exists|d: Seq<char>, g: Seq<char>, s: Seq<char>| #[trigger]
        debug_port_in(portmap, d, g, s) == Some(p)
}

/// A service keeps the debug port that it had, where it can be one. Any other service gets
/// the lowest port that can be one, that no service had before and that no service before it
/// in the plan got.
pub proof fn debug_ports_are_kept_or_the_lowest_free(
    c: ConfigView,
    portmap: JsonView,
    folders: Map<Seq<char>, FoldersView>,
    i: int,
    base: u16,
)
    requires
        plan_fits(c, portmap, folders),
        0 <= i < planned_services(c, portmap, folders).len(),
        is_base(c, base),
    ensures
        ({
            let all = planned_services(c, portmap, folders);
            let s = all[i];
            let had = debug_port_in(portmap, s.domain, s.group, s.service);
            let keeps = had is Some && can_be_debug_port(c, base, had->0);
            &&& can_be_debug_port(c, base, s.debug_port)
            &&& keeps ==> s.debug_port == had->0
            &&& !keeps ==> !was_assigned(portmap, s.debug_port)
            &&& !keeps ==> forall|j: int|
                0 <= j < i ==> (#[trigger] all[j]).debug_port != s.debug_port
            &&& !keeps ==> forall|q: u16|
                #![trigger can_be_debug_port(c, base, q)]
                q < s.debug_port && can_be_debug_port(c, base, q) ==> was_assigned(portmap, q)
                    || exists|j: int| 0 <= j < i && (#[trigger] all[j]).debug_port == q
        }),
{
    let inputs = plan_inputs(c, portmap);
    let found = all_services(c, folders);
    let all = planned_services(c, portmap, folders);
    lemma_plan(inputs, found);
    lemma_fits_prefix(inputs, found, i);
    lemma_fits_prefix(inputs, found, i + 1);
    lemma_plan(inputs, found.take(i));
    let before = inputs.plan(found.take(i));
    let s = all[i];
    assert(s == inputs.service_for(before, found[i]));
    assert forall|q: u16| inputs.skip.contains(q) <==> is_conventional(q) || host_ports(c).contains(
        q,
    ) by {
        assert(skip_ports().contains(q) <==> is_conventional(q));
    }
    assert forall|q: u16| assigned_ports(portmap).contains(q) <==> was_assigned(portmap, q) by {
        if was_assigned(portmap, q) {
            let (d, g, x) = choose|d: Seq<char>, g: Seq<char>, x: Seq<char>| #[trigger]
                debug_port_in(portmap, d, g, x) == Some(q);
            assert(debug_port_in(portmap, d, g, x) == Some(q));
        }
    }
    let had = inputs.persisted(found[i]);
    let keeps = had is Some && can_be_debug_port(c, base, had->0);
    assert(keeps == inputs.keeps(found[i]));
    if !keeps {
        lemma_ports_below(inputs, found.take(i));
        lemma_first_free(search_start(inputs.base, before.next), before.reserved, inputs.skip);
        assert(found.take(i + 1).drop_last() =~= found.take(i));
        assert(inputs.has_ports_for(before, found[i]));
        assert(s.debug_port as int == first_free(
            search_start(inputs.base, before.next),
            before.reserved,
            inputs.skip,
        ));
        assert(usable(inputs.base, inputs.skip).contains(s.debug_port));
        assert(!inputs.start().reserved.contains(s.debug_port));
        assert(!assigned_ports(portmap).contains(s.debug_port));
        assert forall|j: int| 0 <= j < i implies (#[trigger] all[j]).debug_port != s.debug_port by {
            assert(inputs.plan(found).services[j].debug_port != inputs.plan(
                found,
            ).services[i].debug_port);
        }
        assert forall|q: u16|
            #![trigger can_be_debug_port(c, base, q)]
            q < s.debug_port && can_be_debug_port(c, base, q) implies was_assigned(portmap, q)
            || exists|j: int| 0 <= j < i && (#[trigger] all[j]).debug_port == q by {
            assert(before.reserved.contains(q));
            if !inputs.start().reserved.contains(q) {
                let j = choose|j: int|
                    0 <= j < before.services.len() && (#[trigger] before.services[j]).debug_port
                        == q;
                lemma_plan_prefix(inputs, found, i, j);
                assert(all[j].debug_port == q);
            } else {
                assert(assigned_ports(portmap).contains(q));
            }
        }
    }
}

/// Nothing needs no ports. One more service has ports exactly when there is a further
/// reverse-proxy port, and it keeps the debug port that it had or some debug port is free: one
/// that can be a debug port, that no service had before, and that none of the others got.
pub proof fn one_more_service_fits_while_ports_are_free(
    c: ConfigView,
    portmap: JsonView,
    found: Seq<FoundView>,
    f: FoundView,
    base: u16,
)
    requires
        plan_inputs(c, portmap).fits(found),
        is_base(c, base),
    ensures
        plan_inputs(c, portmap).fits(Seq::empty()),
        plan_inputs(c, portmap).fits(found.push(f)) <==> {
            let had = debug_port_in(portmap, f.domain, f.group, f.service);
            let others = plan_inputs(c, portmap).plan(found).services;
            &&& 50100 + found.len() < 65535
            &&& (had is Some && can_be_debug_port(c, base, had->0)) || exists|q: u16|
                q < 65535 && #[trigger] is_left(c, portmap, others, base, q)
        },
{
    let inputs = plan_inputs(c, portmap);
    let plan = inputs.plan(found);
    let had = inputs.persisted(f);
    lemma_plan(inputs, found);
    lemma_ports_below(inputs, found);
    assert(found.push(f).drop_last() =~= found);
    debug_port_is_kept_or_the_lowest_free(had, base, inputs.skip, plan.reserved, plan.next);
    assert forall|q: u16| inputs.skip.contains(q) <==> is_conventional(q) || host_ports(c).contains(
        q,
    ) by {
        assert(skip_ports().contains(q) <==> is_conventional(q));
    }
    assert forall|q: u16| #[trigger] is_free(q, base, inputs.skip, plan.reserved, plan.next)
        <==> is_left(c, portmap, plan.services, base, q) by {
        if can_be_debug_port(c, base, q) {
            assert(inputs.start().reserved.contains(q) <==> was_assigned(portmap, q)) by {
                if was_assigned(portmap, q) {
                    let (d, g, x) = choose|d: Seq<char>, g: Seq<char>, x: Seq<char>| #[trigger]
                        debug_port_in(portmap, d, g, x) == Some(q);
                    assert(debug_port_in(portmap, d, g, x) == Some(q));
                    assert(assigned_ports(portmap).contains(q));
                }
                assert(usable(inputs.base, inputs.skip).contains(q));
            }
            if exists|j: int|
                0 <= j < plan.services.len() && (#[trigger] plan.services[j]).debug_port == q {
                let j = choose|j: int|
                    0 <= j < plan.services.len() && (#[trigger] plan.services[j]).debug_port == q;
                assert(plan.reserved.contains(plan.services[j].debug_port));
            }
            if !plan.reserved.contains(q) {
                assert(q >= plan.next) by {
                    if q < plan.next {
                        assert(plan.reserved.contains(q) || inputs.skip.contains(q));
                    }
                }
            }
        }
    }
    assert forall|q: u16| #[trigger] is_left(c, portmap, plan.services, base, q) implies is_free(
        q,
        base,
        inputs.skip,
        plan.reserved,
        plan.next,
    ) by {
        assert(is_free(q, base, inputs.skip, plan.reserved, plan.next) <==> is_left(
            c,
            portmap,
            plan.services,
            base,
            q,
        ));
    }
    let keeps = had is Some && can_be_debug_port(c, base, had->0);
    assert(keeps == inputs.keeps(f));
    if !keeps && can_choose(had, base, inputs.skip, plan.reserved, plan.next) {
        let q = choose|q: u16|
            q < 0xffff && #[trigger] is_free(q, base, inputs.skip, plan.reserved, plan.next);
        assert(is_left(c, portmap, plan.services, base, q));
    }
}

/// The port is left for one more service.
pub open spec fn is_left(
    c: ConfigView,
    portmap: JsonView,
    others: Seq<PlannedView>,
    base: u16,
    q: u16,
) -> bool {
    &&& can_be_debug_port(c, base, q)
    &&& !was_assigned(portmap, q)
    &&& forall|j: int| 0 <= j < others.len() ==> (#[trigger] others[j]).debug_port != q
}

/// The plan for the first services is the first part of the plan.
proof fn lemma_plan_prefix(inputs: PlanInputs, found: Seq<FoundView>, n: int, j: int)
    requires
        inputs.fits(found),
        0 <= j < n <= found.len(),
    ensures
        inputs.plan(found).services[j] == inputs.plan(found.take(n)).services[j],
{
    lemma_plan(inputs, found);
    lemma_fits_prefix(inputs, found, n);
    lemma_plan(inputs, found.take(n));
    assert(found.take(n).take(j) =~= found.take(j));
    assert(inputs.plan(found).services[j] == inputs.service_for(
        inputs.plan(found.take(j)),
        found[j],
    ));
    assert(inputs.plan(found.take(n)).services[j] == inputs.service_for(
        inputs.plan(found.take(n).take(j)),
        found.take(n)[j],
    ));
}

/// All ports below the next one to try are taken, and a port is reserved only where it was
/// from the start or a service has it.
proof fn lemma_ports_below(inputs: PlanInputs, found: Seq<FoundView>)
    requires
        inputs.fits(found),
    ensures
        ({
            let plan = inputs.plan(found);
            &&& plan.next >= inputs.base
            &&& forall|q: u16|
                inputs.base <= q < plan.next ==> #[trigger] plan.reserved.contains(q)
                    || inputs.skip.contains(q)
            &&& forall|q: u16| #[trigger]
                plan.reserved.contains(q) ==> inputs.start().reserved.contains(q) || exists|j: int|
                    0 <= j < plan.services.len() && (#[trigger] plan.services[j]).debug_port == q
        }),
    decreases found.len(),
{
    if found.len() > 0 {
        let init = found.drop_last();
        let f = found.last();
        let before = inputs.plan(init);
        let plan = inputs.plan(found);
        lemma_ports_below(inputs, init);
        lemma_plan(inputs, found);
        let start = search_start(inputs.base, before.next);
        lemma_first_free(start, before.reserved, inputs.skip);
        assert(inputs.has_ports_for(before, f));
        let n = before.services.len() as int;
        assert(plan.services[n] == inputs.service_for(before, f));
        assert forall|q: u16| #[trigger] plan.reserved.contains(q) implies
            inputs.start().reserved.contains(q) || exists|j: int|
            0 <= j < plan.services.len() && (#[trigger] plan.services[j]).debug_port == q by {
            if before.reserved.contains(q) {
                if !inputs.start().reserved.contains(q) {
                    let j = choose|j: int|
                        0 <= j < before.services.len() && (
                        #[trigger] before.services[j]).debug_port == q;
                    assert(plan.services[j] == before.services[j]);
                }
            } else {
                assert(plan.services[n].debug_port == q);
            }
        }
        assert forall|q: u16| inputs.base <= q < plan.next implies #[trigger] plan.reserved.contains(
            q,
        ) || inputs.skip.contains(q) by {
            if !inputs.keeps(f) {
                if q < before.next {
                    assert(before.reserved.contains(q) || inputs.skip.contains(q));
                }
            } else {
                assert(before.reserved.contains(q) || inputs.skip.contains(q));
            }
        }
    }
}

} // verus!
