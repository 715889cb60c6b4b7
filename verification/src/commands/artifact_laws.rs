//! What holds of the files that a deployment writes.
use crate::alias::comparison_form;
use crate::commands::artifacts::{
    all_hostnames, container_hosts, debug_label, debug_line, debug_ports, debug_report,
    every_hostname_has_one_line, first_seen, host_proxy_vhost, hosts_lines, vhost_conf,
    vhost_names_hostname_gateway_and_port, vhosts, DebugPort,
};
use crate::commands::deploy::domain_names;
use crate::commands::listing_laws::has_entry;
use crate::commands::portmap::{
    empty_domains, entry_members, every_domain_stands_in_the_portmap, is_last_of_its_name,
    portmap_of, written_entry_is_read_back,
};
use crate::commands::service::PlannedView;
use crate::config::model::ConfigView;
use crate::json::{number_of, JsonView};
use crate::map::lemma_sorted_keys;
use crate::sort::{is_rank, rank, sorting_orders_all_items};
use crate::text::{decimal, lemma_lex_asymmetry, lemma_lex_steps, lex_less};
use vstd::prelude::*;

verus! {

// ---------------------------------------------------------------------------
// The hosts file of containers
// ---------------------------------------------------------------------------
/// The hosts file of containers starts with the two loopback lines and the gateway, and holds
/// the given lines behind them, one after the other.
pub proof fn container_hosts_hold_the_gateway_and_all_lines(
    ip: Seq<char>,
    name: Seq<char>,
    lines: Seq<Seq<char>>,
    line: Seq<char>,
)
    ensures
        container_hosts(ip, name, Seq::empty()) == "127.0.0.1\tlocalhost\n"@
            + "::1\tlocalhost ip6-localhost ip6-loopback\n"@ + ip + "\t"@ + name + "\n"@,
        container_hosts(ip, name, lines.push(line)) == container_hosts(ip, name, lines) + line,
{
    let none = Seq::<Seq<char>>::empty();
    assert(container_hosts(ip, name, none) =~= "127.0.0.1\tlocalhost\n"@
        + "::1\tlocalhost ip6-localhost ip6-loopback\n"@ + ip + "\t"@ + name + "\n"@);
    assert(lines.push(line).drop_last() =~= lines);
    assert(container_hosts(ip, name, lines.push(line)) =~= container_hosts(ip, name, lines) + line);
}

// ---------------------------------------------------------------------------
// The reverse proxy
// ---------------------------------------------------------------------------
/// A vhost listens on port 80 for its hostname and passes everything on to the port of the
/// service at the gateway, with the headers that WebSockets need.
pub proof fn vhost_passes_its_hostname_to_the_service(
    url: Seq<char>,
    host_gateway: Seq<char>,
    port: u16,
)
    requires
        !url.contains('{'),
        !host_gateway.contains('{'),
    ensures
        host_proxy_vhost(url, host_gateway, port) == "server {\n    listen 80;\n    server_name "@
            + url + ";\n    location / {\n        proxy_pass http://"@ + host_gateway + ":"@
            + decimal(port as nat) + ("/;\n        proxy_set_header Host $host;\n"@
            + "        proxy_http_version 1.1;\n"@
            + "        proxy_set_header Upgrade $http_upgrade;\n"@
            + "        proxy_set_header Connection $connection_upgrade;\n"@ + "    }\n}\n"@),
{
    vhost_names_hostname_gateway_and_port(url, host_gateway, port);
}

proof fn lemma_vhosts(names: Seq<Seq<char>>, name: Seq<char>, gateway: Seq<char>, port: u16)
    ensures
        vhosts(names.push(name), gateway, port) == vhosts(names, gateway, port) + host_proxy_vhost(
            name,
            gateway,
            port,
        ),
{
    assert(names.push(name).drop_last() =~= names);
}

/// The services of one list are followed by those of the other.
pub proof fn vhosts_of_services_follow_each_other(
    a: Seq<PlannedView>,
    b: Seq<PlannedView>,
    gateway: Seq<char>,
)
    ensures
        vhost_conf(a + b, gateway) == vhost_conf(a, gateway) + vhost_conf(b, gateway),
    decreases b.len(),
{
    if b.len() == 0 {
        assert(a + b =~= a);
        assert(vhost_conf(a, gateway) + vhost_conf(b, gateway) =~= vhost_conf(a, gateway));
    } else {
        vhosts_of_services_follow_each_other(a, b.drop_last(), gateway);
        assert((a + b).drop_last() =~= a + b.drop_last());
        assert((a + b).last() == b.last());
        assert(vhost_conf(a + b, gateway) =~= vhost_conf(a, gateway) + vhost_conf(b, gateway));
    }
}

/// A TCP service has no vhost. Any other service has one for its canonical hostname, and one
/// for each alias behind it, all with the port of the service.
pub proof fn every_hostname_of_a_service_has_a_vhost(
    s: PlannedView,
    alias: Seq<char>,
    gateway: Seq<char>,
)
    ensures
        s.connection_type == "tcp"@ ==> vhost_conf(seq![s], gateway) == Seq::<char>::empty(),
        s.connection_type != "tcp"@ && s.aliases.len() == 0 ==> vhost_conf(seq![s], gateway)
            == host_proxy_vhost(s.canonical_hostname, gateway, s.proxy_port),
        s.connection_type != "tcp"@ ==> vhost_conf(
            seq![(PlannedView { aliases: s.aliases.push(alias), ..s })],
            gateway,
        ) == vhost_conf(seq![s], gateway) + host_proxy_vhost(alias, gateway, s.proxy_port),
{
    let more = PlannedView { aliases: s.aliases.push(alias), ..s };
    let none = Seq::<PlannedView>::empty();
    assert(seq![s].drop_last() =~= none);
    assert(seq![more].drop_last() =~= none);
    let nothing = Seq::<char>::empty();
    assert(vhost_conf(none, gateway) == nothing);
    let names = s.hostnames();
    assert(more.hostnames() =~= names.push(alias));
    lemma_vhosts(names, alias, gateway, s.proxy_port);
    let part = vhosts(names, gateway, s.proxy_port);
    assert(nothing + part =~= part);
    let longer = vhosts(names.push(alias), gateway, s.proxy_port);
    assert(nothing + longer =~= longer);
    if s.aliases.len() == 0 {
        let no_names = Seq::<Seq<char>>::empty();
        lemma_vhosts(no_names, s.canonical_hostname, gateway, s.proxy_port);
        assert(names =~= no_names.push(s.canonical_hostname));
        assert(vhosts(no_names, gateway, s.proxy_port) =~= nothing);
        let one = host_proxy_vhost(s.canonical_hostname, gateway, s.proxy_port);
        assert(nothing + one =~= one);
    }
}

// ---------------------------------------------------------------------------
// Hosts lines
// ---------------------------------------------------------------------------
/// The hostname is the canonical one of the service or one of its aliases.
pub open spec fn is_hostname_of(s: PlannedView, name: Seq<char>) -> bool {
    name == s.canonical_hostname || exists|k: int|
        0 <= k < s.aliases.len() && #[trigger] s.aliases[k] == name
}

/// Some service has the hostname.
pub open spec fn is_some_hostname(services: Seq<PlannedView>, name: Seq<char>) -> bool {
    exists|i: int| 0 <= i < services.len() && is_hostname_of(#[trigger] services[i], name)
}

proof fn lemma_all_hostnames(services: Seq<PlannedView>, name: Seq<char>)
    ensures
        all_hostnames(services).contains(name) <==> is_some_hostname(services, name),
    decreases services.len(),
{
    let all = all_hostnames(services);
    if services.len() > 0 {
        let init = services.drop_last();
        let before = all_hostnames(init);
        let s = services.last();
        let more = s.hostnames();
        let n = init.len() as int;
        lemma_all_hostnames(init, name);
        assert(services[n] == s);
        assert(more.contains(name) <==> is_hostname_of(s, name)) by {
            if more.contains(name) {
                let k = more.index_of(name);
                if k > 0 {
                    assert(s.aliases[k - 1] == name);
                }
            }
            if name == s.canonical_hostname {
                assert(more[0] == name);
            }
            if exists|k: int| 0 <= k < s.aliases.len() && #[trigger] s.aliases[k] == name {
                let k = choose|k: int| 0 <= k < s.aliases.len() && #[trigger] s.aliases[k] == name;
                assert(more[k + 1] == name);
            }
        }
        if all.contains(name) {
            let k = all.index_of(name);
            if k < before.len() {
                assert(before[k] == name);
                let i = choose|i: int|
                    0 <= i < init.len() && is_hostname_of(#[trigger] init[i], name);
                assert(is_hostname_of(services[i], name));
            } else {
                assert(more[k - before.len()] == name);
            }
        }
        if is_some_hostname(services, name) {
            let i = choose|i: int|
                0 <= i < services.len() && is_hostname_of(#[trigger] services[i], name);
            if i < n {
                assert(is_hostname_of(init[i], name));
                assert(all[before.index_of(name)] == name);
            } else {
                assert(all[before.len() + more.index_of(name)] == name);
            }
        }
    }
}

/// The line leads a hostname to this machine.
pub open spec fn is_line_of(line: Seq<char>, name: Seq<char>) -> bool {
    line == "0.0.0.0   "@ + name + "\n"@
}

/// Every hostname of every service, of TCP services too, has a line in the hosts file, in one
/// of its spellings; and every line is that of a hostname of some service.
pub proof fn hosts_lines_cover_every_hostname(services: Seq<PlannedView>, name: Seq<char>, j: int)
    ensures
        is_some_hostname(services, name) ==> exists|i: int, n: Seq<char>|
            {
                &&& 0 <= i < hosts_lines(services).len()
                &&& #[trigger] is_line_of(hosts_lines(services)[i], n)
                &&& comparison_form(n) == comparison_form(name)
            },
        0 <= j < hosts_lines(services).len() ==> exists|n: Seq<char>| #[trigger]
            is_line_of(hosts_lines(services)[j], n) && is_some_hostname(services, n),
{
    let all = all_hostnames(services);
    let seen = first_seen(all);
    every_hostname_has_one_line(all);
    lemma_all_hostnames(services, name);
    if is_some_hostname(services, name) {
        let k = all.index_of(name);
        assert(all[k] == name);
        let i = choose|i: int|
            0 <= i < seen.len() && comparison_form(#[trigger] seen[i]) == comparison_form(all[k]);
        assert(is_line_of(hosts_lines(services)[i], seen[i]));
    }
    if 0 <= j < hosts_lines(services).len() {
        assert(all.contains(seen[j]));
        lemma_all_hostnames(services, seen[j]);
        assert(is_line_of(hosts_lines(services)[j], seen[j]));
    }
}

/// No two lines are of hostnames that are the same for DNS.
pub proof fn hosts_lines_are_distinct(
    services: Seq<PlannedView>,
    i: int,
    j: int,
    a: Seq<char>,
    b: Seq<char>,
)
    requires
        0 <= i < j < hosts_lines(services).len(),
        is_line_of(hosts_lines(services)[i], a),
        is_line_of(hosts_lines(services)[j], b),
    ensures
        comparison_form(a) != comparison_form(b),
{
    let all = all_hostnames(services);
    let seen = first_seen(all);
    every_hostname_has_one_line(all);
    lemma_line(hosts_lines(services)[i], a, seen[i]);
    lemma_line(hosts_lines(services)[j], b, seen[j]);
    assert(comparison_form(seen[i]) != comparison_form(seen[j]));
}

proof fn lemma_line(line: Seq<char>, a: Seq<char>, b: Seq<char>)
    requires
        is_line_of(line, a),
        is_line_of(line, b),
    ensures
        a == b,
{
    reveal_strlit("0.0.0.0   ");
    reveal_strlit("\n");
    let n = "0.0.0.0   "@.len() as int;
    assert(line.len() == n + a.len() + 1);
    assert(a.len() == b.len());
    assert(line.subrange(n, n + a.len()) =~= a);
    assert(line.subrange(n, n + b.len()) =~= b);
}

proof fn lemma_first_seen_prefix(a: Seq<Seq<char>>, b: Seq<Seq<char>>)
    ensures
        first_seen(a).len() <= first_seen(a + b).len(),
        first_seen(a + b).take(first_seen(a).len() as int) == first_seen(a),
    decreases b.len(),
{
    if b.len() == 0 {
        assert(a + b =~= a);
        assert(first_seen(a).take(first_seen(a).len() as int) =~= first_seen(a));
    } else {
        lemma_first_seen_prefix(a, b.drop_last());
        assert((a + b).drop_last() =~= a + b.drop_last());
        assert(first_seen(a + b).take(first_seen(a).len() as int) =~= first_seen(a));
    }
}

/// The lines stand in the order of the services, and the first spelling of a hostname counts:
/// a further service adds lines behind the others, and changes none.
pub proof fn further_services_add_lines_behind(services: Seq<PlannedView>, s: PlannedView)
    ensures
        ({
            let before = hosts_lines(services);
            let after = hosts_lines(services.push(s));
            before.len() <= after.len() && after.take(before.len() as int) == before
        }),
        s.aliases.len() == 0 ==> hosts_lines(seq![s]) == seq![
            "0.0.0.0   "@ + s.canonical_hostname + "\n"@,
        ],
{
    let all = all_hostnames(services);
    let more = all_hostnames(services.push(s));
    assert(services.push(s).drop_last() =~= services);
    assert(more == all + s.hostnames());
    lemma_first_seen_prefix(all, s.hostnames());
    let before = hosts_lines(services);
    let after = hosts_lines(services.push(s));
    assert forall|i: int| 0 <= i < before.len() implies after[i] == before[i] by {
        assert(first_seen(more).take(first_seen(all).len() as int)[i] == first_seen(all)[i]);
    }
    assert(after.take(before.len() as int) =~= before);
    if s.aliases.len() == 0 {
        assert(seq![s].drop_last() =~= Seq::<PlannedView>::empty());
        let names = seq![s.canonical_hostname];
        let no_names = Seq::<Seq<char>>::empty();
        assert(all_hostnames(Seq::<PlannedView>::empty()) =~= no_names);
        assert(all_hostnames(seq![s]) =~= names);
        assert(names.drop_last() =~= no_names);
        assert(first_seen(no_names) =~= no_names);
        assert(first_seen(names) =~= names);
        assert(hosts_lines(seq![s]) =~= seq!["0.0.0.0   "@ + s.canonical_hostname + "\n"@]);
    }
}

// ---------------------------------------------------------------------------
// Debug ports
// ---------------------------------------------------------------------------
/// The line shows the debug port of the service, under its name, its group unless it is the
/// root group, and its domain.
pub open spec fn shows_debug_port(line: Seq<char>, s: PlannedView) -> bool {
    if s.group == "."@ {
        line == "  "@ + (s.service + "."@ + s.domain) + " → "@ + decimal(s.debug_port as nat)
    } else {
        line == "  "@ + (s.service + "."@ + s.group + "."@ + s.domain) + " → "@ + decimal(
            s.debug_port as nat,
        )
    }
}

proof fn lemma_debug_rank()
    ensures
        is_rank(rank::<DebugPort>()),
{
    let less = rank::<DebugPort>();
    assert forall|a: (Seq<char>, u16), b: (Seq<char>, u16)| #[trigger] less(a, b) implies !less(
        b,
        a,
    ) by {
        lemma_lex_asymmetry(a.0, b.0);
    }
    assert forall|a: (Seq<char>, u16), b: (Seq<char>, u16), c: (Seq<char>, u16)|
        !#[trigger] less(b, a) && !#[trigger] less(c, b) implies !less(c, a) by {
        lemma_lex_steps(a.0, b.0, c.0);
    }
}

/// Without services nothing is reported. Otherwise there is a heading, and one line for each
/// service behind it: every service is shown, and nothing else.
pub proof fn every_debug_port_is_reported(services: Seq<PlannedView>, i: int, j: int)
    ensures
        services.len() == 0 ==> debug_report(services).len() == 0,
        services.len() > 0 ==> debug_report(services).len() == services.len() + 1
            && debug_report(services)[0]
            == "\nDebug ports (set as \"port\" in each project's .vscode/launch.json):"@,
        0 <= i < services.len() ==> exists|k: int|
            1 <= k < debug_report(services).len() && shows_debug_port(
                #[trigger] debug_report(services)[k],
                services[i],
            ),
        1 <= j < debug_report(services).len() ==> exists|k: int|
            0 <= k < services.len() && shows_debug_port(
                debug_report(services)[j],
                #[trigger] services[k],
            ),
{
    broadcast use vstd::seq_lib::group_to_multiset_ensures;

    let given = services.map_values(|s: PlannedView| (debug_label(s), s.debug_port));
    let ports = debug_ports(services);
    sorting_orders_all_items(given, rank::<DebugPort>());
    let report = debug_report(services);
    if 0 <= i < services.len() {
        assert(given.contains(given[i]));
        assert(ports.to_multiset().count(given[i]) > 0);
        let k = ports.index_of(given[i]);
        assert(ports[k] == given[i]);
        assert(report[k + 1] == debug_line(ports[k]));
        assert(shows_debug_port(report[k + 1], services[i]));
    }
    if 1 <= j < report.len() {
        assert(report[j] == debug_line(ports[j - 1]));
        assert(ports.contains(ports[j - 1]));
        assert(given.to_multiset().count(ports[j - 1]) > 0);
        let k = given.index_of(ports[j - 1]);
        assert(given[k] == ports[j - 1]);
        assert(shows_debug_port(report[j], services[k]));
    }
}

/// The debug ports are reported in the order of their labels, and then of the ports.
pub proof fn debug_ports_are_reported_in_order(services: Seq<PlannedView>, i: int, j: int)
    requires
        0 <= i < j < debug_ports(services).len(),
    ensures
        ({
            let a = debug_ports(services)[i];
            let b = debug_ports(services)[j];
            !lex_less(b.0, a.0) && (a.0 == b.0 ==> a.1 <= b.1)
        }),
{
    let given = services.map_values(|s: PlannedView| (debug_label(s), s.debug_port));
    lemma_debug_rank();
    sorting_orders_all_items(given, rank::<DebugPort>());
    let ports = debug_ports(services);
    assert(!rank::<DebugPort>()(ports[j], ports[i]));
    crate::text::lemma_lex_irreflexive(ports[i].0);
}

// ---------------------------------------------------------------------------
// The port map
// ---------------------------------------------------------------------------
/// The entry holds the reverse-proxy port, the connection type and the debug port of the
/// service, and its aliases where it has any, in their order; and nothing else.
pub open spec fn holds_service(entry: JsonView, s: PlannedView) -> bool {
    let m = entry->Object_0;
    &&& entry is Object
    &&& m.contains_key("port"@) && m["port"@] == JsonView::Number(number_of(s.proxy_port as u64))
    &&& m.contains_key("type"@) && m["type"@] == JsonView::Text(s.connection_type)
    &&& m.contains_key("debug_port"@) && m["debug_port"@] == JsonView::Number(
        number_of(s.debug_port as u64),
    )
    &&& m.contains_key("urls"@) <==> s.aliases.len() > 0
    &&& m.contains_key("urls"@) ==> {
        &&& m["urls"@] is Array && m["urls"@]->Array_0.len() == s.aliases.len()
        &&& forall|i: int|
            0 <= i < s.aliases.len() ==> #[trigger] m["urls"@]->Array_0[i] == JsonView::Text(
                s.aliases[i],
            )
    }
    &&& forall|k: Seq<char>| #[trigger]
        m.contains_key(k) ==> k == "port"@ || k == "type"@ || k == "debug_port"@ || k == "urls"@
}

proof fn lemma_entry(s: PlannedView)
    ensures
        holds_service(JsonView::Object(entry_members(s)), s),
{
    reveal_strlit("port");
    reveal_strlit("type");
    reveal_strlit("debug_port");
    reveal_strlit("urls");
    assert("port"@[0] == 'p' && "type"@[0] == 't' && "debug_port"@[0] == 'd' && "urls"@[0] == 'u');
}

/// The port map holds every service under its domain, its group and its name, with its ports,
/// its type and its aliases, unless a later service of the same name took its place.
pub proof fn every_service_stands_in_the_portmap(
    services: Seq<PlannedView>,
    names: Seq<Seq<char>>,
    i: int,
)
    requires
        0 <= i < services.len(),
        is_last_of_its_name(services, i),
    ensures
        exists|entry: JsonView|
            has_entry(
                JsonView::Object(portmap_of(services, names)),
                services[i].domain,
                services[i].group,
                services[i].service,
                entry,
            ) && #[trigger] holds_service(entry, services[i]),
{
    let s = services[i];
    written_entry_is_read_back(services, names, i);
    lemma_entry(s);
    let entry = JsonView::Object(entry_members(s));
    assert(has_entry(
        JsonView::Object(portmap_of(services, names)),
        s.domain,
        s.group,
        s.service,
        entry,
    ));
}

/// Every configured domain stands in the port map of a deployment, whether it has services or
/// not.
pub proof fn every_configured_domain_stands_in_the_portmap(
    c: ConfigView,
    services: Seq<PlannedView>,
    d: Seq<char>,
)
    requires
        c.domains is Some ==> c.domains->0.dom().finite(),
    ensures
        c.domains is Some && c.domains->0.contains_key(d) ==> portmap_of(
            services,
            domain_names(c),
        ).contains_key(d),
        domain_names(c).contains(d) ==> c.domains is Some && c.domains->0.contains_key(d),
{
    if c.domains is Some {
        lemma_sorted_keys(c.domains->0);
        let names = domain_names(c);
        if c.domains->0.contains_key(d) {
            let i = names.index_of(d);
            assert(names[i] == d);
            every_domain_stands_in_the_portmap(services, names, i);
        }
        if names.contains(d) {
            assert(c.domains->0.contains_key(names[names.index_of(d)]));
        }
    }
}

proof fn lemma_empty(names: Seq<Seq<char>>)
    ensures
        forall|d: Seq<char>| #[trigger]
            empty_domains(names).contains_key(d) ==> names.contains(d) && empty_domains(names)[d]
                == JsonView::Object(Map::empty()),
    decreases names.len(),
{
    if names.len() > 0 {
        let init = names.drop_last();
        lemma_empty(init);
        assert forall|d: Seq<char>| #[trigger]
            empty_domains(names).contains_key(d) implies names.contains(d) && empty_domains(
            names,
        )[d] == JsonView::Object(Map::empty()) by {
            if d == names.last() {
                assert(names[names.len() - 1] == d);
            } else {
                assert(empty_domains(init).contains_key(d));
                assert(names[init.index_of(d)] == d);
            }
        }
    }
}

/// Nothing else stands in the port map: every domain is a given one or that of a service, and
/// every entry is that of a service.
pub proof fn portmap_holds_nothing_else(
    services: Seq<PlannedView>,
    names: Seq<Seq<char>>,
    d: Seq<char>,
    g: Seq<char>,
    s: Seq<char>,
    entry: JsonView,
)
    ensures
        portmap_of(services, names).contains_key(d) ==> names.contains(d) || exists|i: int|
            0 <= i < services.len() && (#[trigger] services[i]).domain == d,
        has_entry(JsonView::Object(portmap_of(services, names)), d, g, s, entry) ==> exists|i: int|
            {
                &&& 0 <= i < services.len()
                &&& (#[trigger] services[i]).domain == d && services[i].group == g
                    && services[i].service == s
                &&& holds_service(entry, services[i])
            },
    decreases services.len(),
{
    let m = portmap_of(services, names);
    if services.len() == 0 {
        lemma_empty(names);
    } else {
        let init = services.drop_last();
        let before = portmap_of(init, names);
        let last = services.last();
        let n = init.len() as int;
        portmap_holds_nothing_else(init, names, d, g, s, entry);
        lemma_entry(last);
        assert(services[n] == last);
        assert forall|i: int| 0 <= i < n implies #[trigger] services[i] == init[i] by {}
        if m.contains_key(d) && d != last.domain {
            assert(before.contains_key(d));
            if !names.contains(d) {
                let i = choose|i: int| 0 <= i < init.len() && (#[trigger] init[i]).domain == d;
                assert(services[i].domain == d);
            }
        }
        if has_entry(JsonView::Object(m), d, g, s, entry) {
            if d == last.domain && g == last.group && s == last.service {
                assert(entry == JsonView::Object(entry_members(last)));
            } else {
                assert(has_entry(JsonView::Object(before), d, g, s, entry));
                let i = choose|i: int|
                    {
                        &&& 0 <= i < init.len()
                        &&& (#[trigger] init[i]).domain == d && init[i].group == g
                            && init[i].service == s
                        &&& holds_service(entry, init[i])
                    };
                assert(services[i] == init[i]);
            }
        }
    }
}

} // verus!
