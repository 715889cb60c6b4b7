//! The port map that a deployment leaves behind.
use crate::commands::service::{PlannedService, PlannedView};
use crate::config::ports::{debug_port_in, portmap_entry, proxy_port_in};
use crate::json::{
    is_plain, is_read_back, lemma_plain_object, lemma_plain_texts, lemma_tree, number_is_float,
    number_of, number_value, JsonValue, JsonView,
};
use crate::map::StrMap;
use vstd::prelude::*;

verus! {

/// The entry of a service: its port, its type, its debug port and, where it has any, its
/// aliases.
pub open spec fn entry_members(s: PlannedView) -> Map<Seq<char>, JsonView> {
    let m = Map::<Seq<char>, JsonView>::empty().insert(
        "port"@,
        JsonView::Number(number_of(s.proxy_port as u64)),
    ).insert("type"@, JsonView::Text(s.connection_type)).insert(
        "debug_port"@,
        JsonView::Number(number_of(s.debug_port as u64)),
    );
    if s.aliases.len() == 0 {
        m
    } else {
        m.insert("urls"@, JsonView::Array(s.aliases.map_values(|a: Seq<char>| JsonView::Text(a))))
    }
}

/// The members of the object under a key, or none where there is nothing.
pub open spec fn members_at(m: Map<Seq<char>, JsonView>, k: Seq<char>) -> Map<
    Seq<char>,
    JsonView,
> {
    if m.contains_key(k) && m[k] is Object {
        m[k]->Object_0
    } else {
        Map::empty()
    }
}

/// The port map with the entry of one more service.
pub open spec fn with_service(m: Map<Seq<char>, JsonView>, s: PlannedView) -> Map<
    Seq<char>,
    JsonView,
> {
    let domain = members_at(m, s.domain);
    let group = members_at(domain, s.group).insert(s.service, JsonView::Object(entry_members(s)));
    m.insert(s.domain, JsonView::Object(domain.insert(s.group, JsonView::Object(group))))
}

/// A port map without services, in which every given domain stands.
pub open spec fn empty_domains(names: Seq<Seq<char>>) -> Map<Seq<char>, JsonView>
    decreases names.len(),
{
    if names.len() == 0 {
        Map::empty()
    } else {
        empty_domains(names.drop_last()).insert(names.last(), JsonView::Object(Map::empty()))
    }
}

/// The port map of the services. Every given domain stands in it, though it has no service.
pub open spec fn portmap_of(services: Seq<PlannedView>, names: Seq<Seq<char>>) -> Map<
    Seq<char>,
    JsonView,
>
    decreases services.len(),
{
    if services.len() == 0 {
        empty_domains(names)
    } else {
        with_service(portmap_of(services.drop_last(), names), services.last())
    }
}

/// Domains and groups of a port map are objects.
pub open spec fn is_portmap(m: Map<Seq<char>, JsonView>) -> bool {
    forall|d: Seq<char>| #[trigger]
        m.contains_key(d) ==> m[d] is Object && forall|g: Seq<char>| #[trigger]
            m[d]->Object_0.contains_key(g) ==> m[d]->Object_0[g] is Object
}

/// The numbers of a service are read back from its entry.
spec fn numbers_are_read_back(s: PlannedView) -> bool {
    let port = number_of(s.proxy_port as u64);
    let debug_port = number_of(s.debug_port as u64);
    &&& number_value(port) == Some(s.proxy_port as u64) && !number_is_float(port)
    &&& number_value(debug_port) == Some(s.debug_port as u64) && !number_is_float(debug_port)
}

fn build_entry(s: &PlannedService) -> (r: StrMap<JsonValue>)
    ensures
        r@ == entry_members(s.deep_view()),
        numbers_are_read_back(s.deep_view()),
{
    let mut entry: StrMap<JsonValue> = StrMap::new();
    entry.insert("port".to_string(), JsonValue::number(s.proxy_port as u64));
    entry.insert("type".to_string(), JsonValue::text(s.connection_type.as_str()));
    entry.insert("debug_port".to_string(), JsonValue::number(s.debug_port as u64));
    if s.aliases.len() > 0 {
        let ghost all = s.aliases.deep_view();
        let mut urls: Vec<JsonValue> = Vec::new();
        let mut i: usize = 0;
        while i < s.aliases.len()
            invariant
                i <= s.aliases@.len(),
                all == s.aliases.deep_view(),
                urls@.len() == i,
                forall|k: int| 0 <= k < i ==> (#[trigger] urls@[k])@ == JsonView::Text(all[k]),
            decreases s.aliases@.len() - i,
        {
            urls.push(JsonValue::text(s.aliases[i].as_str()));
            i += 1;
        }
        assert(urls.deep_view() =~= all.map_values(|a: Seq<char>| JsonView::Text(a)));
        entry.insert("urls".to_string(), JsonValue::array(urls));
    }
    entry
}

fn add_service(portmap: &mut StrMap<JsonValue>, s: &PlannedService)
    requires
        is_portmap(old(portmap)@),
    ensures
        final(portmap)@ == with_service(old(portmap)@, s.deep_view()),
        is_portmap(final(portmap)@),
        numbers_are_read_back(s.deep_view()),
{
    broadcast use lemma_tree;

    let ghost before = portmap@;
    let ghost v = s.deep_view();
    let entry = build_entry(s);
    proof {
        lemma_with_service_is_portmap(before, v);
    }
    let domain = portmap.get_or_insert(s.domain.as_str(), JsonValue::Object(StrMap::new()));
    match domain {
        JsonValue::Object(groups) => {
            let group = groups.get_or_insert(s.group.as_str(), JsonValue::Object(StrMap::new()));
            match group {
                JsonValue::Object(services) => {
                    services.insert(s.service.clone(), JsonValue::Object(entry));
                },
                _ => {},
            }
        },
        _ => {},
    }
}

proof fn lemma_with_service_is_portmap(m: Map<Seq<char>, JsonView>, s: PlannedView)
    requires
        is_portmap(m),
    ensures
        is_portmap(with_service(m, s)),
{
    let r = with_service(m, s);
    assert forall|d: Seq<char>| #[trigger] r.contains_key(d) implies r[d] is Object && forall|
        g: Seq<char>,
    | #[trigger]
        r[d]->Object_0.contains_key(g) ==> r[d]->Object_0[g] is Object by {
        if d != s.domain {
            assert(m.contains_key(d));
        } else {
            assert forall|g: Seq<char>| #[trigger] r[d]->Object_0.contains_key(g) implies r[d]->Object_0[g] is Object by {
                if g != s.group {
                    assert(m.contains_key(d));
                    assert(m[d]->Object_0.contains_key(g));
                }
            }
        }
    }
}

proof fn lemma_empty_domains(names: Seq<Seq<char>>)
    ensures
        is_portmap(empty_domains(names)),
    decreases names.len(),
{
    if names.len() > 0 {
        lemma_empty_domains(names.drop_last());
    }
}

/// Builds the port map. Other commands read it back, so aliases are recorded here in
/// normalized form.
///
/// `domain_names` are the configured domains, so that one whose location holds no project
/// folder still appears. Reading the ports of a service back gives the ports that it has,
/// or those of the last service of the same name, where there are several in one group.
pub fn build_portmap(services: &[PlannedService], domain_names: &[String]) -> (r: StrMap<JsonValue>)
    ensures
        r@ == portmap_of(services.deep_view(), domain_names.deep_view()),
        forall|i: int|
            #![trigger services.deep_view()[i]]
            0 <= i < services.deep_view().len() && is_last_of_its_name(services.deep_view(), i)
                ==> holds_ports(JsonView::Object(r@), services.deep_view()[i]),
        is_read_back(JsonView::Object(r@)),
{
    let ghost all = services.deep_view();
    let ghost names = domain_names.deep_view();
    let mut portmap: StrMap<JsonValue> = StrMap::new();
    let mut i: usize = 0;
    assert(names.take(0) =~= Seq::<Seq<char>>::empty());
    while i < domain_names.len()
        invariant
            i <= domain_names@.len(),
            names == domain_names.deep_view(),
            portmap@ == empty_domains(names.take(i as int)),
        decreases domain_names@.len() - i,
    {
        assert(names.take(i as int + 1).drop_last() =~= names.take(i as int));
        assert(names.take(i as int + 1).last() == domain_names@[i as int]@);
        portmap.insert(domain_names[i].clone(), JsonValue::object(StrMap::new()));
        i += 1;
    }
    proof {
        assert(names.take(names.len() as int) =~= names);
        assert(all.take(0) =~= Seq::<PlannedView>::empty());
        lemma_empty_domains(names);
    }
    let mut j: usize = 0;
    while j < services.len()
        invariant
            j <= services@.len(),
            all == services.deep_view(),
            is_portmap(portmap@),
            portmap@ == portmap_of(all.take(j as int), names),
            forall|k: int| 0 <= k < j ==> numbers_are_read_back(#[trigger] all[k]),
        decreases services@.len() - j,
    {
        assert(all.take(j as int + 1).drop_last() =~= all.take(j as int));
        assert(all.take(j as int + 1).last() == services@[j as int].deep_view());
        add_service(&mut portmap, &services[j]);
        j += 1;
    }
    proof {
        assert(all.take(all.len() as int) =~= all);
        assert forall|i: int|
            #![trigger all[i]]
            0 <= i < all.len() && is_last_of_its_name(all, i) implies holds_ports(
            JsonView::Object(portmap@),
            all[i],
        ) by {
            written_entry_is_read_back(all, names, i);
            lemma_entry_holds_ports(portmap@, all[i]);
        }
        lemma_portmap_is_plain(all, names);
    }
    portmap
}

proof fn lemma_entry_is_plain(s: PlannedView)
    requires
        numbers_are_read_back(s),
    ensures
        is_plain(JsonView::Object(entry_members(s)), 124),
{
    let m = entry_members(s);
    let urls = JsonView::Array(s.aliases.map_values(|a: Seq<char>| JsonView::Text(a)));
    lemma_plain_texts(urls, s.aliases, 123);
    assert forall|k: Seq<char>| #[trigger] m.contains_key(k) implies is_plain(m[k], 123) by {
        if k == "urls"@ && s.aliases.len() > 0 {
            assert(m[k] == urls);
        }
    }
    lemma_plain_object(JsonView::Object(m), m, 124);
}

/// Members that are plain stay so when one more is added.
proof fn lemma_plain_insert(
    m: Map<Seq<char>, JsonView>,
    key: Seq<char>,
    value: JsonView,
    depth: nat,
)
    requires
        depth > 0,
        is_plain(JsonView::Object(m), depth),
        is_plain(value, (depth - 1) as nat),
    ensures
        is_plain(JsonView::Object(m.insert(key, value)), depth),
{
    let r = m.insert(key, value);
    lemma_plain_object(JsonView::Object(m), m, depth);
    assert forall|k: Seq<char>| #[trigger] r.contains_key(k) implies is_plain(
        r[k],
        (depth - 1) as nat,
    ) by {
        if k != key {
            assert(m.contains_key(k));
        }
    }
    lemma_plain_object(JsonView::Object(r), r, depth);
}

/// The members of the object under a key are plain where the object is.
proof fn lemma_plain_members(m: Map<Seq<char>, JsonView>, key: Seq<char>, depth: nat)
    requires
        depth > 1,
        is_plain(JsonView::Object(m), depth),
    ensures
        is_plain(JsonView::Object(members_at(m, key)), (depth - 1) as nat),
{
    lemma_plain_object(JsonView::Object(m), m, depth);
    let inner = members_at(m, key);
    if m.contains_key(key) && m[key] is Object {
        assert(m[key] == JsonView::Object(inner));
    } else {
        lemma_plain_object(JsonView::Object(inner), inner, (depth - 1) as nat);
    }
}

proof fn lemma_empty_domains_are_plain(names: Seq<Seq<char>>)
    ensures
        is_plain(JsonView::Object(empty_domains(names)), 127),
    decreases names.len(),
{
    let none = Map::<Seq<char>, JsonView>::empty();
    lemma_plain_object(JsonView::Object(none), none, 127);
    lemma_plain_object(JsonView::Object(none), none, 126);
    if names.len() > 0 {
        lemma_empty_domains_are_plain(names.drop_last());
        lemma_plain_insert(
            empty_domains(names.drop_last()),
            names.last(),
            JsonView::Object(none),
            127,
        );
    }
}

proof fn lemma_portmap_is_plain(services: Seq<PlannedView>, names: Seq<Seq<char>>)
    requires
        forall|i: int| 0 <= i < services.len() ==> numbers_are_read_back(#[trigger] services[i]),
    ensures
        is_plain(JsonView::Object(portmap_of(services, names)), 127),
    decreases services.len(),
{
    if services.len() > 0 {
        let init = services.drop_last();
        let s = services.last();
        assert forall|i: int| 0 <= i < init.len() implies numbers_are_read_back(
            #[trigger] init[i],
        ) by {
            assert(init[i] == services[i]);
        }
        lemma_portmap_is_plain(init, names);
        assert(numbers_are_read_back(services[services.len() - 1]));
        lemma_entry_is_plain(s);
        let m = portmap_of(init, names);
        let domain = members_at(m, s.domain);
        let group = members_at(domain, s.group);
        lemma_plain_members(m, s.domain, 127);
        lemma_plain_members(domain, s.group, 126);
        let entry = JsonView::Object(entry_members(s));
        lemma_plain_insert(group, s.service, entry, 125);
        let new_group = JsonView::Object(group.insert(s.service, entry));
        lemma_plain_insert(domain, s.group, new_group, 126);
        let new_domain = JsonView::Object(domain.insert(s.group, new_group));
        lemma_plain_insert(m, s.domain, new_domain, 127);
    } else {
        lemma_empty_domains_are_plain(names);
    }
}

// ---------------------------------------------------------------------------
// Laws
// ---------------------------------------------------------------------------
/// The two are the same service of the same group of the same domain.
pub open spec fn same_name(a: PlannedView, b: PlannedView) -> bool {
    a.domain == b.domain && a.group == b.group && a.service == b.service
}

/// No later service has the same name in the same group.
pub open spec fn is_last_of_its_name(services: Seq<PlannedView>, i: int) -> bool {
    forall|j: int| i < j < services.len() ==> !same_name(#[trigger] services[j], services[i])
}

/// The port map gives the ports of the service.
pub open spec fn holds_ports(portmap: JsonView, s: PlannedView) -> bool {
    proxy_port_in(portmap, s.domain, s.group, s.service) == Some(s.proxy_port) && debug_port_in(
        portmap,
        s.domain,
        s.group,
        s.service,
    ) == Some(s.debug_port)
}

/// What was written for a service is what stands there, unless a later service of the same
/// name replaced it.
pub proof fn written_entry_is_read_back(
    services: Seq<PlannedView>,
    names: Seq<Seq<char>>,
    i: int,
)
    requires
        0 <= i < services.len(),
        is_last_of_its_name(services, i),
    ensures
        portmap_entry(
            JsonView::Object(portmap_of(services, names)),
            services[i].domain,
            services[i].group,
            services[i].service,
        ) == Some(JsonView::Object(entry_members(services[i]))),
    decreases services.len(),
{
    let s = services[i];
    let init = services.drop_last();
    let before = portmap_of(init, names);
    if i < services.len() - 1 {
        assert(init[i] == s);
        assert(is_last_of_its_name(init, i)) by {
            assert forall|j: int| i < j < init.len() implies !same_name(
                #[trigger] init[j],
                init[i],
            ) by {
                assert(services[j] == init[j]);
            }
        }
        written_entry_is_read_back(init, names, i);
        assert(!same_name(services[services.len() - 1], s));
    }
}

proof fn lemma_entry_holds_ports(portmap: Map<Seq<char>, JsonView>, s: PlannedView)
    requires
        portmap_entry(JsonView::Object(portmap), s.domain, s.group, s.service) == Some(
            JsonView::Object(entry_members(s)),
        ),
        numbers_are_read_back(s),
    ensures
        holds_ports(JsonView::Object(portmap), s),
{
    reveal_strlit("port");
    reveal_strlit("type");
    reveal_strlit("debug_port");
    reveal_strlit("urls");
    assert("port"@[0] == 'p' && "type"@[0] == 't' && "debug_port"@[0] == 'd' && "urls"@[0] == 'u');
}

/// Every given domain stands in the port map.
pub proof fn every_domain_stands_in_the_portmap(
    services: Seq<PlannedView>,
    names: Seq<Seq<char>>,
    i: int,
)
    requires
        0 <= i < names.len(),
    ensures
        portmap_of(services, names).contains_key(names[i]),
    decreases services.len(), names.len(),
{
    if services.len() > 0 {
        every_domain_stands_in_the_portmap(services.drop_last(), names, i);
    } else if i < names.len() - 1 {
        assert(names.drop_last()[i] == names[i]);
        every_domain_stands_in_the_portmap(services, names.drop_last(), i);
        assert(portmap_of(services, names.drop_last()) == empty_domains(names.drop_last()));
    }
}

} // verus!
