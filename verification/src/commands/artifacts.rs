//! The files that a deployment writes.
use crate::alias::{comparison_form, normalize_for_comparison};
use crate::commands::service::{PlannedService, PlannedView};
use crate::sort::{rank, sort_items, sorted, Ranked};
use crate::text::{
    contains_text, decimal, decimal_of, lex_less, replace_all, starts_with, str_eq, str_less,
    str_replace,
};
use vstd::prelude::*;

verus! {

// ---------------------------------------------------------------------------
// The hosts file of containers
// ---------------------------------------------------------------------------
/// Texts one after the other.
pub open spec fn concatenated(texts: Seq<Seq<char>>) -> Seq<char>
    decreases texts.len(),
{
    if texts.len() == 0 {
        Seq::empty()
    } else {
        concatenated(texts.drop_last()) + texts.last()
    }
}

/// The hosts file of containers: loopback, the gateway to the host, and the given lines.
pub open spec fn container_hosts(
    gateway_ip: Seq<char>,
    gateway_name: Seq<char>,
    url_lines: Seq<Seq<char>>,
) -> Seq<char> {
    "127.0.0.1\tlocalhost\n"@ + "::1\tlocalhost ip6-localhost ip6-loopback\n"@ + gateway_ip + "\t"@
        + gateway_name + "\n"@ + concatenated(url_lines)
}

fn concatenate(texts: &[String]) -> (r: String)
    ensures
        r@ == concatenated(texts.deep_view()),
{
    let ghost all = texts.deep_view();
    let mut out = String::new();
    let mut i: usize = 0;
    assert(out@ =~= concatenated(all.take(0)));
    while i < texts.len()
        invariant
            i <= texts@.len(),
            all == texts.deep_view(),
            out@ == concatenated(all.take(i as int)),
        decreases texts@.len() - i,
    {
        assert(all.take(i as int + 1).drop_last() =~= all.take(i as int));
        assert(all.take(i as int + 1).last() == texts@[i as int]@);
        out.append(texts[i].as_str());
        i += 1;
    }
    assert(all.take(all.len() as int) =~= all);
    out
}

/// Builds the hosts file of containers: loopback, the gateway to the host, and one line per
/// configured URL.
pub fn build_container_hosts(gateway_ip: &str, gateway_name: &str, url_lines: &[String]) -> (r:
    String)
    ensures
        r@ == container_hosts(gateway_ip@, gateway_name@, url_lines.deep_view()),
{
    let mut out = "127.0.0.1\tlocalhost\n".to_string();
    out.append("::1\tlocalhost ip6-localhost ip6-loopback\n");
    out.append(gateway_ip);
    out.append("\t");
    out.append(gateway_name);
    out.append("\n");
    out.append(concatenate(url_lines).as_str());
    out
}

// ---------------------------------------------------------------------------
// The reverse proxy
// ---------------------------------------------------------------------------
/// The part of a vhost before the hostname.
pub open spec fn vhost_start() -> Seq<char> {
    "server {\n    listen 80;\n    server_name "@
}

/// The part of a vhost between the hostname and the gateway.
pub open spec fn vhost_middle() -> Seq<char> {
    ";\n    location / {\n        proxy_pass http://"@
}

/// The part of a vhost behind the port.
pub open spec fn vhost_end() -> Seq<char> {
    "/;\n        proxy_set_header Host $host;\n"@ + "        proxy_http_version 1.1;\n"@
        + "        proxy_set_header Upgrade $http_upgrade;\n"@
        + "        proxy_set_header Connection $connection_upgrade;\n"@
        + "    }\n}\n"@
}

/// The vhost with its placeholders.
pub open spec fn vhost_template() -> Seq<char> {
    vhost_start() + "{url}"@ + vhost_middle() + "{host_gateway}"@ + ":"@ + "{port}"@ + vhost_end()
}

/// The vhost of one hostname. One placeholder is replaced after the other.
pub open spec fn host_proxy_vhost(url: Seq<char>, host_gateway: Seq<char>, port: u16) -> Seq<char> {
    let s = replace_all(vhost_template(), "{url}"@, url);
    let s = replace_all(s, "{host_gateway}"@, host_gateway);
    replace_all(s, "{port}"@, decimal(port as nat))
}

/// Renders the nginx vhost that fronts one hostname of a service.
///
/// The `Upgrade` and `Connection` headers are harmless for plain HTTP and let WebSocket
/// clients reach the upstream. The variable `$connection_upgrade` is defined in the main
/// nginx configuration.
pub fn build_host_proxy_vhost(url: &str, host_gateway: &str, port: u16) -> (r: String)
    ensures
        r@ == host_proxy_vhost(url@, host_gateway@, port),
{
    proof {
        reveal_strlit("{url}");
        reveal_strlit("{host_gateway}");
        reveal_strlit("{port}");
    }
    let mut end = "/;\n        proxy_set_header Host $host;\n".to_string();
    end.append("        proxy_http_version 1.1;\n");
    end.append("        proxy_set_header Upgrade $http_upgrade;\n");
    end.append("        proxy_set_header Connection $connection_upgrade;\n");
    end.append("    }\n}\n");
    let mut template = "server {\n    listen 80;\n    server_name ".to_string();
    template.append("{url}");
    template.append(";\n    location / {\n        proxy_pass http://");
    template.append("{host_gateway}");
    template.append(":");
    template.append("{port}");
    template.append(end.as_str());
    let s = str_replace(template.as_str(), "{url}", url);
    let s = str_replace(s.as_str(), "{host_gateway}", host_gateway);
    str_replace(s.as_str(), "{port}", decimal_of(port as u64).as_str())
}

/// The vhosts of the given hostnames.
pub open spec fn vhosts(names: Seq<Seq<char>>, host_gateway: Seq<char>, port: u16) -> Seq<char>
    decreases names.len(),
{
    if names.len() == 0 {
        Seq::empty()
    } else {
        vhosts(names.drop_last(), host_gateway, port) + host_proxy_vhost(
            names.last(),
            host_gateway,
            port,
        )
    }
}

/// The vhosts of all services that are routed by hostname.
pub open spec fn vhost_conf(services: Seq<PlannedView>, host_gateway: Seq<char>) -> Seq<char>
    decreases services.len(),
{
    if services.len() == 0 {
        Seq::empty()
    } else {
        let before = vhost_conf(services.drop_last(), host_gateway);
        let s = services.last();
        if s.is_host_routed() {
            before + vhosts(s.hostnames(), host_gateway, s.proxy_port)
        } else {
            before
        }
    }
}

fn build_vhosts(names: &Vec<String>, host_gateway: &str, port: u16) -> (r: String)
    ensures
        r@ == vhosts(names.deep_view(), host_gateway@, port),
{
    let ghost all = names.deep_view();
    let mut out = String::new();
    let mut i: usize = 0;
    assert(out@ =~= vhosts(all.take(0), host_gateway@, port));
    while i < names.len()
        invariant
            i <= names@.len(),
            all == names.deep_view(),
            out@ == vhosts(all.take(i as int), host_gateway@, port),
        decreases names@.len() - i,
    {
        assert(all.take(i as int + 1).drop_last() =~= all.take(i as int));
        assert(all.take(i as int + 1).last() == names@[i as int]@);
        out.append(build_host_proxy_vhost(names[i].as_str(), host_gateway, port).as_str());
        i += 1;
    }
    assert(all.take(all.len() as int) =~= all);
    out
}

/// Builds the whole reverse-proxy configuration: one nginx server block per hostname of every
/// service that is routed by hostname, all proxying to the upstream port of the service.
///
/// A TCP service has none: it is reached by its port.
pub fn build_vhost_container_conf(services: &[PlannedService], host_gateway: &str) -> (r: String)
    ensures
        r@ == vhost_conf(services.deep_view(), host_gateway@),
{
    let ghost all = services.deep_view();
    let mut out = String::new();
    let mut i: usize = 0;
    assert(out@ =~= vhost_conf(all.take(0), host_gateway@));
    while i < services.len()
        invariant
            i <= services@.len(),
            all == services.deep_view(),
            out@ == vhost_conf(all.take(i as int), host_gateway@),
        decreases services@.len() - i,
    {
        assert(all.take(i as int + 1).drop_last() =~= all.take(i as int));
        assert(all.take(i as int + 1).last() == services@[i as int].deep_view());
        if services[i].is_host_routed() {
            out.append(
                build_vhosts(
                    &services[i].hostnames(),
                    host_gateway,
                    services[i].proxy_port,
                ).as_str(),
            );
        }
        i += 1;
    }
    assert(all.take(all.len() as int) =~= all);
    out
}

// ---------------------------------------------------------------------------
// Hosts lines
// ---------------------------------------------------------------------------
/// The line of a hostname.
pub open spec fn hosts_line(name: Seq<char>) -> Seq<char> {
    "0.0.0.0   "@ + name + "\n"@
}

/// All hostnames of all services.
pub open spec fn all_hostnames(services: Seq<PlannedView>) -> Seq<Seq<char>>
    decreases services.len(),
{
    if services.len() == 0 {
        Seq::empty()
    } else {
        all_hostnames(services.drop_last()) + services.last().hostnames()
    }
}

/// The hostnames whose form for comparison did not occur before.
pub open spec fn first_seen(names: Seq<Seq<char>>) -> Seq<Seq<char>>
    decreases names.len(),
{
    if names.len() == 0 {
        names
    } else {
        let before = first_seen(names.drop_last());
        if exists|i: int|
            0 <= i < names.len() - 1 && comparison_form(#[trigger] names[i]) == comparison_form(
                names.last(),
            ) {
            before
        } else {
            before.push(names.last())
        }
    }
}

/// The lines of a hosts file for the services: one for each hostname, in first-seen order.
pub open spec fn hosts_lines(services: Seq<PlannedView>) -> Seq<Seq<char>> {
    first_seen(all_hostnames(services)).map_values(|name: Seq<char>| hosts_line(name))
}

/// The keys are the hostnames in the form for comparison.
spec fn are_keys(keys: Seq<Seq<char>>, names: Seq<Seq<char>>) -> bool {
    forall|k: Seq<char>|
        keys.contains(k) <==> exists|i: int|
            0 <= i < names.len() && comparison_form(#[trigger] names[i]) == k
}

proof fn lemma_more_keys(
    keys: Seq<Seq<char>>,
    more: Seq<Seq<char>>,
    names: Seq<Seq<char>>,
    name: Seq<char>,
)
    requires
        are_keys(keys, names),
        forall|k: Seq<char>|
            more.contains(k) <==> keys.contains(k) || k == comparison_form(name),
    ensures
        are_keys(more, names.push(name)),
{
    let all = names.push(name);
    assert forall|k: Seq<char>|
        more.contains(k) <==> exists|i: int|
            0 <= i < all.len() && comparison_form(#[trigger] all[i]) == k by {
        if more.contains(k) {
            if keys.contains(k) {
                let i = choose|i: int|
                    0 <= i < names.len() && comparison_form(#[trigger] names[i]) == k;
                assert(all[i] == names[i]);
            } else {
                assert(all[names.len() as int] == name);
            }
        }
        if exists|i: int| 0 <= i < all.len() && comparison_form(#[trigger] all[i]) == k {
            let i = choose|i: int| 0 <= i < all.len() && comparison_form(#[trigger] all[i]) == k;
            if i < names.len() {
                assert(comparison_form(names[i]) == k);
            }
        }
    }
}

fn add_hosts_line(
    name: &String,
    seen: &mut Vec<String>,
    lines: &mut Vec<String>,
    Ghost(names): Ghost<Seq<Seq<char>>>,
)
    requires
        are_keys(old(seen).deep_view(), names),
        old(lines).deep_view() == first_seen(names).map_values(|n: Seq<char>| hosts_line(n)),
    ensures
        are_keys(final(seen).deep_view(), names.push(name@)),
        final(lines).deep_view() == first_seen(names.push(name@)).map_values(
            |n: Seq<char>| hosts_line(n),
        ),
{
    let key = normalize_for_comparison(name.as_str());
    let ghost all = names.push(name@);
    let ghost keys = seen.deep_view();
    proof {
        assert(all.drop_last() =~= names);
        assert((exists|i: int|
            0 <= i < all.len() - 1 && comparison_form(#[trigger] all[i]) == comparison_form(
                all.last(),
            )) <==> keys.contains(key@)) by {
            if keys.contains(key@) {
                let i = choose|i: int|
                    0 <= i < names.len() && comparison_form(#[trigger] names[i]) == key@;
                assert(comparison_form(all[i]) == key@);
            }
            if exists|i: int|
                0 <= i < all.len() - 1 && comparison_form(#[trigger] all[i]) == comparison_form(
                    all.last(),
                ) {
                let i = choose|i: int|
                    0 <= i < all.len() - 1 && comparison_form(#[trigger] all[i])
                        == comparison_form(all.last());
                assert(comparison_form(names[i]) == key@);
            }
        }
    }
    if contains_text(seen, key.as_str()) {
        proof {
            lemma_more_keys(keys, keys, names, name@);
        }
    } else {
        let mut line = "0.0.0.0   ".to_string();
        line.append(name.as_str());
        line.append("\n");
        let ghost before = lines.deep_view();
        let ghost added = line@;
        lines.push(line);
        assert(lines.deep_view() =~= before.push(added));
        assert(lines.deep_view() =~= first_seen(all).map_values(|n: Seq<char>| hosts_line(n)));
        let ghost k = key@;
        seen.push(key);
        proof {
            let more = seen.deep_view();
            assert(more =~= keys.push(k));
            assert forall|x: Seq<char>| more.contains(x) <==> keys.contains(x) || x == k by {
                if keys.contains(x) {
                    assert(more[keys.index_of(x)] == x);
                }
                if x == k {
                    assert(more[keys.len() as int] == x);
                }
            }
            lemma_more_keys(keys, more, names, name@);
        }
    }
}

/// Builds the lines of the hosts file of containers and, where it is managed, of the system's
/// hosts file.
///
/// Every hostname gets a line. Aliases are what makes names outside `.test` resolve at all,
/// since only `.test` is resolved by wildcard. A hostname that occurs again, for another
/// service too, gets no second line.
pub fn build_hosts_lines(services: &[PlannedService]) -> (r: Vec<String>)
    ensures
        r.deep_view() == hosts_lines(services.deep_view()),
{
    let ghost all = services.deep_view();
    let mut seen: Vec<String> = Vec::new();
    let mut lines: Vec<String> = Vec::new();
    let mut i: usize = 0;
    proof {
        assert(all.take(0) =~= Seq::<PlannedView>::empty());
        assert(lines.deep_view() =~= hosts_lines(all.take(0)));
    }
    while i < services.len()
        invariant
            i <= services@.len(),
            all == services.deep_view(),
            are_keys(seen.deep_view(), all_hostnames(all.take(i as int))),
            lines.deep_view() == hosts_lines(all.take(i as int)),
        decreases services@.len() - i,
    {
        let names = services[i].hostnames();
        let ghost before = all_hostnames(all.take(i as int));
        let ghost more = names.deep_view();
        let mut j: usize = 0;
        assert(before + more.take(0) =~= before);
        while j < names.len()
            invariant
                j <= names@.len(),
                more == names.deep_view(),
                are_keys(seen.deep_view(), before + more.take(j as int)),
                lines.deep_view() == first_seen(before + more.take(j as int)).map_values(
                    |n: Seq<char>| hosts_line(n),
                ),
            decreases names@.len() - j,
        {
            add_hosts_line(
                &names[j],
                &mut seen,
                &mut lines,
                Ghost(before + more.take(j as int)),
            );
            assert((before + more.take(j as int)).push(more[j as int]) =~= before + more.take(
                j as int + 1,
            ));
            j += 1;
        }
        proof {
            assert(more.take(more.len() as int) =~= more);
            assert(all.take(i as int + 1).drop_last() =~= all.take(i as int));
            assert(all.take(i as int + 1).last() == services@[i as int].deep_view());
        }
        i += 1;
    }
    assert(all.take(all.len() as int) =~= all);
    lines
}

// ---------------------------------------------------------------------------
// The report of debug ports
// ---------------------------------------------------------------------------
/// What the report calls a service: its name, its group unless that is the root group, and
/// its domain.
pub open spec fn debug_label(s: PlannedView) -> Seq<char> {
    if s.group == "."@ {
        s.service + "."@ + s.domain
    } else {
        s.service + "."@ + s.group + "."@ + s.domain
    }
}

/// The debug port of a service, under its label.
#[derive(Debug)]
pub struct DebugPort {
    pub label: String,
    pub port: u16,
}

impl DeepView for DebugPort {
    type V = (Seq<char>, u16);

    open spec fn deep_view(&self) -> (Seq<char>, u16) {
        (self.label@, self.port)
    }
}

impl Ranked for DebugPort {
    /// By label, then by port.
    open spec fn before(a: (Seq<char>, u16), b: (Seq<char>, u16)) -> bool {
        if a.0 != b.0 {
            lex_less(a.0, b.0)
        } else {
            a.1 < b.1
        }
    }

    fn ranks_before(&self, other: &DebugPort) -> (r: bool) {
        if !str_eq(self.label.as_str(), other.label.as_str()) {
            str_less(self.label.as_str(), other.label.as_str())
        } else {
            self.port < other.port
        }
    }
}

/// The debug ports of all services, in the order of their labels.
pub open spec fn debug_ports(services: Seq<PlannedView>) -> Seq<(Seq<char>, u16)> {
    sorted(
        services.map_values(|s: PlannedView| (debug_label(s), s.debug_port)),
        rank::<DebugPort>(),
    )
}

/// The line of one debug port.
pub open spec fn debug_line(p: (Seq<char>, u16)) -> Seq<char> {
    "  "@ + p.0 + " → "@ + decimal(p.1 as nat)
}

/// The report of debug ports. There is none where there are no services.
pub open spec fn debug_report(services: Seq<PlannedView>) -> Seq<Seq<char>> {
    if services.len() == 0 {
        Seq::empty()
    } else {
        seq![
            "\nDebug ports (set as \"port\" in each project's .vscode/launch.json):"@,
        ] + debug_ports(services).map_values(|p: (Seq<char>, u16)| debug_line(p))
    }
}

fn label_for_debug(s: &PlannedService) -> (r: String)
    ensures
        r@ == debug_label(s.deep_view()),
{
    let mut label = s.service.clone();
    label.append(".");
    if !str_eq(s.group.as_str(), ".") {
        label.append(s.group.as_str());
        label.append(".");
    }
    label.append(s.domain.as_str());
    label
}

/// Reports the debug ports, so that they can be set in each project's editor
/// configuration: the lines to show.
pub fn build_debug_report(services: &[PlannedService]) -> (r: Vec<String>)
    ensures
        r.deep_view() == debug_report(services.deep_view()),
{
    let ghost all = services.deep_view();
    let ghost want = all.map_values(|s: PlannedView| (debug_label(s), s.debug_port));
    let mut report: Vec<String> = Vec::new();
    if services.len() == 0 {
        assert(report.deep_view() =~= debug_report(all));
        return report;
    }
    let mut ports: Vec<DebugPort> = Vec::new();
    let mut i: usize = 0;
    while i < services.len()
        invariant
            i <= services@.len(),
            all == services.deep_view(),
            ports@.len() == i,
            forall|k: int|
                0 <= k < i ==> (#[trigger] ports@[k]).deep_view() == (
                    debug_label(all[k]),
                    all[k].debug_port,
                ),
        decreases services@.len() - i,
    {
        ports.push(
            DebugPort { label: label_for_debug(&services[i]), port: services[i].debug_port },
        );
        i += 1;
    }
    assert(ports.deep_view() =~= want);
    let ports = sort_items(ports);
    let ghost lines = ports.deep_view().map_values(|p: (Seq<char>, u16)| debug_line(p));
    report.push(
        "\nDebug ports (set as \"port\" in each project's .vscode/launch.json):".to_string(),
    );
    let ghost head = report.deep_view();
    assert(head =~= seq![
        "\nDebug ports (set as \"port\" in each project's .vscode/launch.json):"@,
    ]);
    let mut j: usize = 0;
    assert(head + lines.take(0) =~= head);
    while j < ports.len()
        invariant
            j <= ports@.len(),
            lines == ports.deep_view().map_values(|p: (Seq<char>, u16)| debug_line(p)),
            report.deep_view() == head + lines.take(j as int),
        decreases ports@.len() - j,
    {
        let mut line = "  ".to_string();
        line.append(ports[j].label.as_str());
        line.append(" → ");
        line.append(decimal_of(ports[j].port as u64).as_str());
        let ghost before = report.deep_view();
        let ghost added = line@;
        assert(added == lines[j as int]);
        report.push(line);
        assert(report.deep_view() =~= before.push(added));
        j += 1;
        assert(report.deep_view() =~= head + lines.take(j as int));
    }
    assert(lines.take(lines.len() as int) =~= lines);
    report
}

// ---------------------------------------------------------------------------
// Laws
// ---------------------------------------------------------------------------
/// Every brace that opens is followed by a character other than `c`.
spec fn passes(t: Seq<char>, c: char) -> bool {
    forall|i: int| 0 <= i < t.len() && #[trigger] t[i] == '{' ==> i + 1 < t.len() && t[i + 1] != c
}

/// Every brace that opens in the first `n` characters is followed by a character other
/// than `c`.
spec fn first_braces_pass(t: Seq<char>, c: char, n: nat) -> bool
    decreases n,
{
    n == 0 || (first_braces_pass(t, c, (n - 1) as nat) && (t[n - 1] == '{' ==> n < t.len()
        && t[n as int]
        != c))
}

proof fn lemma_first_braces_pass(t: Seq<char>, c: char, n: nat, i: int)
    requires
        first_braces_pass(t, c, n),
        0 <= i < n,
        t[i] == '{',
    ensures
        i + 1 < t.len() && t[i + 1] != c,
    decreases n,
{
    if i < n - 1 {
        lemma_first_braces_pass(t, c, (n - 1) as nat, i);
    }
}

proof fn lemma_passes(t: Seq<char>, c: char)
    requires
        first_braces_pass(t, c, t.len()),
    ensures
        passes(t, c),
{
    assert forall|i: int| 0 <= i < t.len() && #[trigger] t[i] == '{' implies i + 1 < t.len() && t[i
        + 1] != c by {
        lemma_first_braces_pass(t, c, t.len(), i);
    }
}

proof fn lemma_passes_together(a: Seq<char>, b: Seq<char>, c: char)
    requires
        passes(a, c),
        passes(b, c),
    ensures
        passes(a + b, c),
{
    let t = a + b;
    assert forall|i: int| 0 <= i < t.len() && #[trigger] t[i] == '{' implies i + 1 < t.len() && t[i
        + 1] != c by {
        if i < a.len() {
            assert(a[i] == '{');
            assert(t[i + 1] == a[i + 1]);
        } else {
            assert(b[i - a.len()] == '{');
            assert(t[i + 1] == b[i + 1 - a.len()]);
        }
    }
}

/// A part in which the placeholder does not start is left as it is.
proof fn lemma_replace_passes(t: Seq<char>, s: Seq<char>, from: Seq<char>, to: Seq<char>)
    requires
        from.len() >= 2,
        from[0] == '{',
        passes(t, from[1]),
    ensures
        replace_all(t + s, from, to) == t + replace_all(s, from, to),
    decreases t.len(),
{
    let whole = t + s;
    if t.len() == 0 {
        assert(whole =~= s);
        assert(t + replace_all(s, from, to) =~= replace_all(s, from, to));
    } else {
        assert(!starts_with(whole, from)) by {
            if starts_with(whole, from) {
                assert(whole.subrange(0, from.len() as int)[0] == from[0]);
                assert(whole.subrange(0, from.len() as int)[1] == from[1]);
                assert(t[0] == '{');
                assert(whole[1] == t[1]);
            }
        }
        let rest = t.drop_first();
        assert forall|i: int| 0 <= i < rest.len() && #[trigger] rest[i] == '{' implies i + 1
            < rest.len() && rest[i + 1] != from[1] by {
            assert(t[i + 1] == '{');
        }
        lemma_replace_passes(rest, s, from, to);
        assert(whole.drop_first() =~= rest + s);
        assert(seq![t[0]] + (rest + replace_all(s, from, to)) =~= t + replace_all(s, from, to));
    }
}

/// A placeholder is replaced.
proof fn lemma_replace_hits(s: Seq<char>, from: Seq<char>, to: Seq<char>)
    requires
        from.len() >= 1,
    ensures
        replace_all(from + s, from, to) == to + replace_all(s, from, to),
{
    let whole = from + s;
    assert(whole.subrange(0, from.len() as int) =~= from);
    assert(starts_with(whole, from));
    assert(whole.skip(from.len() as int) =~= s);
}

proof fn lemma_start_passes(c: char)
    requires
        c != '\n',
    ensures
        passes("server {\n    listen 80;\n    server_name "@, c),
{
    reveal_strlit("server {\n    listen 80;\n    server_name ");
    reveal_with_fuel(first_braces_pass, 43);
    lemma_passes("server {\n    listen 80;\n    server_name "@, c);
}

proof fn lemma_middle_passes(c: char)
    requires
        c != '\n',
    ensures
        passes(";\n    location / {\n        proxy_pass http://"@, c),
{
    reveal_strlit(";\n    location / {\n        proxy_pass http://");
    reveal_with_fuel(first_braces_pass, 50);
    lemma_passes(";\n    location / {\n        proxy_pass http://"@, c);
}

proof fn lemma_host_passes(c: char)
    requires
        c != '\n',
    ensures
        passes("/;\n        proxy_set_header Host $host;\n"@, c),
{
    reveal_strlit("/;\n        proxy_set_header Host $host;\n");
    reveal_with_fuel(first_braces_pass, 45);
    lemma_passes("/;\n        proxy_set_header Host $host;\n"@, c);
}

proof fn lemma_version_passes(c: char)
    requires
        c != '\n',
    ensures
        passes("        proxy_http_version 1.1;\n"@, c),
{
    reveal_strlit("        proxy_http_version 1.1;\n");
    reveal_with_fuel(first_braces_pass, 35);
    lemma_passes("        proxy_http_version 1.1;\n"@, c);
}

proof fn lemma_upgrade_passes(c: char)
    requires
        c != '\n',
    ensures
        passes("        proxy_set_header Upgrade $http_upgrade;\n"@, c),
{
    reveal_strlit("        proxy_set_header Upgrade $http_upgrade;\n");
    reveal_with_fuel(first_braces_pass, 52);
    lemma_passes("        proxy_set_header Upgrade $http_upgrade;\n"@, c);
}

proof fn lemma_connection_passes(c: char)
    requires
        c != '\n',
    ensures
        passes("        proxy_set_header Connection $connection_upgrade;\n"@, c),
{
    reveal_strlit("        proxy_set_header Connection $connection_upgrade;\n");
    reveal_with_fuel(first_braces_pass, 62);
    lemma_passes("        proxy_set_header Connection $connection_upgrade;\n"@, c);
}

proof fn lemma_close_passes(c: char)
    requires
        c != '\n',
    ensures
        passes("    }\n}\n"@, c),
{
    reveal_strlit("    }\n}\n");
    reveal_with_fuel(first_braces_pass, 12);
    lemma_passes("    }\n}\n"@, c);
}

/// The parts of a vhost hold no placeholder.
proof fn lemma_parts_pass(c: char)
    requires
        c != '\n',
    ensures
        passes(vhost_start(), c),
        passes(vhost_middle(), c),
        passes(vhost_end(), c),
{
    lemma_start_passes(c);
    lemma_middle_passes(c);
    lemma_host_passes(c);
    lemma_version_passes(c);
    lemma_upgrade_passes(c);
    lemma_connection_passes(c);
    lemma_close_passes(c);
    let host = "/;\n        proxy_set_header Host $host;\n"@;
    let version = "        proxy_http_version 1.1;\n"@;
    let upgrade = "        proxy_set_header Upgrade $http_upgrade;\n"@;
    let connection = "        proxy_set_header Connection $connection_upgrade;\n"@;
    let close = "    }\n}\n"@;
    lemma_passes_together(host, version, c);
    lemma_passes_together(host + version, upgrade, c);
    lemma_passes_together(host + version + upgrade, connection, c);
    lemma_passes_together(host + version + upgrade + connection, close, c);
}

/// A vhost names the hostname, the gateway and the port, each in its place, and no
/// placeholder is left, where neither the hostname nor the gateway holds a brace.
pub proof fn vhost_names_hostname_gateway_and_port(
    url: Seq<char>,
    host_gateway: Seq<char>,
    port: u16,
)
    requires
        !url.contains('{'),
        !host_gateway.contains('{'),
    ensures
        host_proxy_vhost(url, host_gateway, port) == vhost_start() + url + vhost_middle()
            + host_gateway + ":"@ + decimal(port as nat) + vhost_end(),
{
    let start = vhost_start();
    let middle = vhost_middle();
    let end = vhost_end();
    let colon = ":"@;
    let number = decimal(port as nat);
    let u = "{url}"@;
    let h = "{host_gateway}"@;
    let p = "{port}"@;
    reveal_strlit("{url}");
    reveal_strlit("{host_gateway}");
    reveal_strlit("{port}");
    reveal_strlit(":");
    assert(u[0] == '{' && u[1] == 'u');
    assert(h[0] == '{' && h[1] == 'h');
    assert(p[0] == '{' && p[1] == 'p');
    lemma_parts_pass('u');
    lemma_parts_pass('h');
    lemma_parts_pass('p');
    assert(passes(url, 'h') && passes(url, 'p')) by {
        assert forall|i: int| 0 <= i < url.len() implies url[i] != '{' by {
            assert(url.contains(url[i]));
        }
    }
    assert(passes(host_gateway, 'p')) by {
        assert forall|i: int| 0 <= i < host_gateway.len() implies host_gateway[i] != '{' by {
            assert(host_gateway.contains(host_gateway[i]));
        }
    }
    assert(passes(colon, 'u') && passes(colon, 'h') && passes(colon, 'p'));
    assert(first_braces_pass(h, 'u', h.len())) by {
        reveal_with_fuel(first_braces_pass, 20);
    }
    lemma_passes(h, 'u');
    assert(first_braces_pass(p, 'u', p.len())) by {
        reveal_with_fuel(first_braces_pass, 10);
    }
    lemma_passes(p, 'u');
    assert(first_braces_pass(p, 'h', p.len())) by {
        reveal_with_fuel(first_braces_pass, 10);
    }
    lemma_passes(p, 'h');
    let none = Seq::<char>::empty();

    // {url}
    let t3 = h + (colon + (p + (end + none)));
    lemma_replace_passes(end, none, u, url);
    lemma_replace_passes(p, end + none, u, url);
    lemma_replace_passes(colon, p + (end + none), u, url);
    lemma_replace_passes(h, colon + (p + (end + none)), u, url);
    lemma_replace_passes(middle, t3, u, url);
    lemma_replace_hits(middle + t3, u, url);
    lemma_replace_passes(start, u + (middle + t3), u, url);
    assert(vhost_template() =~= start + (u + (middle + t3)));
    let s1 = replace_all(vhost_template(), u, url);
    assert(s1 == start + (url + (middle + t3)));

    // {host_gateway}
    let t2 = colon + (p + (end + none));
    lemma_replace_passes(end, none, h, host_gateway);
    lemma_replace_passes(p, end + none, h, host_gateway);
    lemma_replace_passes(colon, p + (end + none), h, host_gateway);
    lemma_replace_hits(t2, h, host_gateway);
    lemma_replace_passes(middle, h + t2, h, host_gateway);
    lemma_replace_passes(url, middle + (h + t2), h, host_gateway);
    lemma_replace_passes(start, url + (middle + (h + t2)), h, host_gateway);
    let s2 = replace_all(s1, h, host_gateway);
    assert(s2 == start + (url + (middle + (host_gateway + t2))));

    // {port}
    lemma_replace_passes(end, none, p, number);
    lemma_replace_hits(end + none, p, number);
    lemma_replace_passes(colon, p + (end + none), p, number);
    lemma_replace_passes(host_gateway, t2, p, number);
    lemma_replace_passes(middle, host_gateway + t2, p, number);
    lemma_replace_passes(url, middle + (host_gateway + t2), p, number);
    lemma_replace_passes(start, url + (middle + (host_gateway + t2)), p, number);
    assert(start + (url + (middle + (host_gateway + (colon + (number + (end + none))))))
        =~= start + url + middle + host_gateway + colon + number + end);
}

/// TCP services get no vhost: the configuration is that of the other services alone.
pub proof fn tcp_services_get_no_vhost(services: Seq<PlannedView>, host_gateway: Seq<char>)
    ensures
        vhost_conf(services, host_gateway) == vhost_conf(
            services.filter(|s: PlannedView| s.is_host_routed()),
            host_gateway,
        ),
    decreases services.len(),
{
    reveal(Seq::filter);
    let routed = |s: PlannedView| s.is_host_routed();
    if services.len() > 0 {
        let init = services.drop_last();
        tcp_services_get_no_vhost(init, host_gateway);
        if services.last().is_host_routed() {
            let rest = init.filter(routed);
            assert(rest.push(services.last()).drop_last() =~= rest);
        }
    }
}

/// Every hostname has exactly one line: the hostnames that get a line are all different for
/// comparison, and each hostname of a service is the same as one of them.
pub proof fn every_hostname_has_one_line(names: Seq<Seq<char>>)
    ensures
        forall|i: int, j: int|
            0 <= i < j < first_seen(names).len() ==> comparison_form(
                #[trigger] first_seen(names)[i],
            ) != comparison_form(#[trigger] first_seen(names)[j]),
        forall|i: int|
            0 <= i < names.len() ==> exists|j: int|
                0 <= j < first_seen(names).len() && comparison_form(
                    #[trigger] first_seen(names)[j],
                ) == comparison_form(#[trigger] names[i]),
        forall|j: int|
            0 <= j < first_seen(names).len() ==> names.contains(#[trigger] first_seen(names)[j]),
    decreases names.len(),
{
    if names.len() > 0 {
        let init = names.drop_last();
        every_hostname_has_one_line(init);
        let before = first_seen(init);
        let all = first_seen(names);
        let last = names.last();
        assert forall|j: int| 0 <= j < all.len() implies names.contains(#[trigger] all[j]) by {
            if j < before.len() {
                assert(all[j] == before[j]);
                let k = init.index_of(before[j]);
                assert(names[k] == all[j]);
            } else {
                assert(names[names.len() - 1] == all[j]);
            }
        }
        assert forall|i: int, j: int| 0 <= i < j < all.len() implies comparison_form(
            #[trigger] all[i],
        ) != comparison_form(#[trigger] all[j]) by {
            assert(all[i] == before[i]);
            if j < before.len() {
                assert(all[j] == before[j]);
            } else {
                assert(init.contains(before[i]));
                let k = init.index_of(before[i]);
                assert(names[k] == before[i]);
            }
        }
        assert forall|i: int| 0 <= i < names.len() implies exists|j: int|
            0 <= j < all.len() && comparison_form(#[trigger] all[j]) == comparison_form(
                #[trigger] names[i],
            ) by {
            if i < init.len() {
                assert(init[i] == names[i]);
                let j = choose|j: int|
                    0 <= j < before.len() && comparison_form(#[trigger] before[j])
                        == comparison_form(init[i]);
                assert(all[j] == before[j]);
            } else if exists|k: int|
                0 <= k < names.len() - 1 && comparison_form(#[trigger] names[k])
                    == comparison_form(last) {
                let k = choose|k: int|
                    0 <= k < names.len() - 1 && comparison_form(#[trigger] names[k])
                        == comparison_form(last);
                assert(init[k] == names[k]);
                let j = choose|j: int|
                    0 <= j < before.len() && comparison_form(#[trigger] before[j])
                        == comparison_form(init[k]);
                assert(all[j] == before[j]);
            } else {
                assert(all[before.len() as int] == last);
            }
        }
    }
}

} // verus!
