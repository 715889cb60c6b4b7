//! The listing of URLs.
use crate::commands::portmap::entry_members;
use crate::commands::service::PlannedView;
use crate::json::{number_of, number_value, JsonValue, JsonView};
use crate::map::{sorted_keys, StrMap};
use crate::text::{decimal, decimal_of, str_eq};
use vstd::prelude::*;

verus! {

/// How a piece of text is shown.
#[derive(Debug, Clone, Copy, PartialEq, Eq, Structural)]
pub enum Style {
    Plain,
    Green,
    Cyan,
    Blue,
}

/// A piece of a line.
#[derive(Debug, Clone, PartialEq, Eq)]
pub struct Span {
    pub style: Style,
    pub text: String,
}

impl DeepView for Span {
    type V = (Style, Seq<char>);

    open spec fn deep_view(&self) -> (Style, Seq<char>) {
        (self.style, self.text@)
    }
}

/// A line, piece by piece.
#[derive(Debug, Clone, PartialEq, Eq)]
pub struct Line {
    pub spans: Vec<Span>,
}

impl DeepView for Line {
    type V = Seq<(Style, Seq<char>)>;

    open spec fn deep_view(&self) -> Seq<(Style, Seq<char>)> {
        self.spans.deep_view()
    }
}

/// What a line is.
pub type LineView = Seq<(Style, Seq<char>)>;

// ---------------------------------------------------------------------------
// What the listing holds
// ---------------------------------------------------------------------------
/// The port of an entry: an object with a `port`, or a bare number, or zero.
pub open spec fn listed_port(entry: JsonView) -> u64 {
    let named = match entry.member("port"@) {
        Some(p) => p.number(),
        None => None,
    };
    match named {
        Some(n) => n,
        None => match entry.number() {
            Some(n) => n,
            None => 0,
        },
    }
}

/// The connection type of an entry.
pub open spec fn listed_type(entry: JsonView) -> Seq<char> {
    match entry.text_at("type"@) {
        Some(t) => t,
        None => "http"@,
    }
}

/// What the line of an entry ends with: its debug port, if it has one.
pub open spec fn debug_suffix(entry: JsonView) -> Seq<char> {
    match entry.member("debug_port"@) {
        Some(p) => match p.number() {
            Some(n) => "  [debug: "@ + decimal(n as nat) + "]"@,
            None => Seq::empty(),
        },
        None => Seq::empty(),
    }
}

/// The texts among JSON values.
pub open spec fn texts(items: Seq<JsonView>) -> Seq<Seq<char>>
    decreases items.len(),
{
    if items.len() == 0 {
        Seq::empty()
    } else {
        match items.last() {
            JsonView::Text(s) => texts(items.drop_last()).push(s),
            _ => texts(items.drop_last()),
        }
    }
}

/// The aliases of an entry.
pub open spec fn listed_aliases(entry: JsonView) -> Seq<Seq<char>> {
    match entry.member("urls"@) {
        Some(JsonView::Array(items)) => texts(items),
        _ => Seq::empty(),
    }
}

/// The scheme of a connection type.
pub open spec fn scheme(connection_type: Seq<char>) -> Seq<char> {
    if connection_type == "tcp"@ {
        "tcp://"@
    } else if connection_type == "websocket"@ {
        "ws://"@
    } else {
        "http://"@
    }
}

/// The port as the line of a connection type shows it.
pub open spec fn port_text(connection_type: Seq<char>, port: u64) -> Seq<char> {
    if connection_type == "tcp"@ {
        ":"@ + decimal(port as nat)
    } else {
        " ("@ + decimal(port as nat) + ")"@
    }
}

/// The line of the canonical URL of a service.
pub open spec fn service_line(
    indent: Seq<char>,
    domain: Seq<char>,
    service: Seq<char>,
    entry: JsonView,
) -> LineView {
    let t = listed_type(entry);
    seq![
        (Style::Plain, indent + scheme(t)),
        (Style::Blue, service),
        (Style::Plain, "."@),
        (Style::Green, domain),
        (Style::Plain, ".test"@ + port_text(t, listed_port(entry)) + debug_suffix(entry)),
    ]
}

/// The line of an alias.
pub open spec fn alias_line(indent: Seq<char>, alias: Seq<char>, entry: JsonView) -> LineView {
    let t = listed_type(entry);
    seq![
        (Style::Plain, indent + "  "@ + scheme(t)),
        (Style::Blue, alias),
        (Style::Plain, port_text(t, listed_port(entry))),
    ]
}

/// The lines of a service: its canonical URL, and its aliases below it.
pub open spec fn service_lines(
    indent: Seq<char>,
    domain: Seq<char>,
    service: Seq<char>,
    entry: JsonView,
) -> Seq<LineView> {
    seq![service_line(indent, domain, service, entry)] + listed_aliases(entry).map_values(
        |a: Seq<char>| alias_line(indent, a, entry),
    )
}

/// The lines of the first `n` services of a group, in the order of their names.
pub open spec fn services_lines(
    indent: Seq<char>,
    domain: Seq<char>,
    m: Map<Seq<char>, JsonView>,
    n: nat,
) -> Seq<LineView>
    decreases n,
{
    if n == 0 {
        Seq::empty()
    } else {
        let service = sorted_keys(m)[n - 1];
        services_lines(indent, domain, m, (n - 1) as nat) + service_lines(
            indent,
            domain,
            service,
            m[service],
        )
    }
}

/// The lines of a group. The root group is not named.
pub open spec fn group_lines(domain: Seq<char>, group: Seq<char>, v: JsonView) -> Seq<LineView> {
    match v {
        JsonView::Object(m) => if group == "."@ {
            services_lines("  "@, domain, m, sorted_keys(m).len())
        } else {
            seq![seq![(Style::Plain, "  "@), (Style::Cyan, group)]] + services_lines(
                "    "@,
                domain,
                m,
                sorted_keys(m).len(),
            )
        },
        _ => Seq::empty(),
    }
}

/// The lines of the named groups among the first `n` groups of a domain.
pub open spec fn named_groups_lines(
    domain: Seq<char>,
    m: Map<Seq<char>, JsonView>,
    n: nat,
) -> Seq<LineView>
    decreases n,
{
    if n == 0 {
        Seq::empty()
    } else {
        let group = sorted_keys(m)[n - 1];
        let before = named_groups_lines(domain, m, (n - 1) as nat);
        if group == "."@ {
            before
        } else {
            before + group_lines(domain, group, m[group])
        }
    }
}

/// The lines of a domain: its name, the root group, the named groups in order, and an empty
/// line.
pub open spec fn domain_lines(domain: Seq<char>, v: JsonView) -> Seq<LineView> {
    let head = seq![seq![(Style::Green, domain)]];
    let body = match v {
        JsonView::Object(m) => (if m.contains_key("."@) {
            group_lines(domain, "."@, m["."@])
        } else {
            Seq::empty()
        }) + named_groups_lines(domain, m, sorted_keys(m).len()),
        _ => Seq::empty(),
    };
    head + body + seq![Seq::<(Style, Seq<char>)>::empty()]
}

/// The lines of the first `n` domains.
pub open spec fn domains_lines(m: Map<Seq<char>, JsonView>, n: nat) -> Seq<LineView>
    decreases n,
{
    if n == 0 {
        Seq::empty()
    } else {
        let domain = sorted_keys(m)[n - 1];
        domains_lines(m, (n - 1) as nat) + domain_lines(domain, m[domain])
    }
}

/// The listing of a port map: an empty line, then the domains in order.
pub open spec fn url_listing(portmap: JsonView) -> Seq<LineView> {
    seq![Seq::<(Style, Seq<char>)>::empty()] + match portmap {
        JsonView::Object(m) => domains_lines(m, sorted_keys(m).len()),
        _ => Seq::empty(),
    }
}

// ---------------------------------------------------------------------------
// Listing
// ---------------------------------------------------------------------------
fn span(style: Style, text: String) -> (r: Span)
    ensures
        r.deep_view() == (style, text@),
{
    Span { style, text }
}

fn push_line(lines: &mut Vec<Line>, spans: Vec<Span>)
    ensures
        final(lines).deep_view() == old(lines).deep_view().push(spans.deep_view()),
{
    let ghost before = lines.deep_view();
    let line = Line { spans };
    lines.push(line);
    assert(lines.deep_view() =~= before.push(spans.deep_view()));
}

fn find_port(entry: &JsonValue) -> (r: u64)
    ensures
        r == listed_port(entry@),
{
    let named: Option<u64> = match entry.get("port") {
        Some(p) => p.as_u64(),
        None => None,
    };
    match named {
        Some(n) => n,
        None => match entry.as_u64() {
            Some(n) => n,
            None => 0,
        },
    }
}

fn find_type(entry: &JsonValue) -> (r: String)
    ensures
        r@ == listed_type(entry@),
{
    match entry.get("type") {
        Some(t) => match t.as_str() {
            Some(s) => s.to_string(),
            None => "http".to_string(),
        },
        None => "http".to_string(),
    }
}

fn find_suffix(entry: &JsonValue) -> (r: String)
    ensures
        r@ == debug_suffix(entry@),
{
    match entry.get("debug_port") {
        Some(p) => match p.as_u64() {
            Some(n) => {
                let mut text = "  [debug: ".to_string();
                text.append(decimal_of(n).as_str());
                text.append("]");
                text
            },
            None => String::new(),
        },
        None => String::new(),
    }
}

fn find_aliases(entry: &JsonValue) -> (r: Vec<String>)
    ensures
        r.deep_view() == listed_aliases(entry@),
{
    let mut aliases: Vec<String> = Vec::new();
    assert(aliases.deep_view() =~= Seq::<Seq<char>>::empty());
    match entry.get("urls") {
        Some(urls) => match urls.as_array() {
            Some(items) => {
                let ghost all = items.deep_view();
                let mut i: usize = 0;
                assert(all.take(0) =~= Seq::<JsonView>::empty());
                while i < items.len()
                    invariant
                        i <= items@.len(),
                        all == items.deep_view(),
                        aliases.deep_view() == texts(all.take(i as int)),
                    decreases items@.len() - i,
                {
                    assert(all.take(i as int + 1).drop_last() =~= all.take(i as int));
                    assert(all.take(i as int + 1).last() == items@[i as int]@);
                    let ghost before = aliases.deep_view();
                    match items[i].as_str() {
                        Some(s) => {
                            aliases.push(s.to_string());
                            assert(aliases.deep_view() =~= before.push(s@));
                        },
                        None => {},
                    }
                    i += 1;
                }
                assert(all.take(all.len() as int) =~= all);
            },
            None => {},
        },
        None => {},
    }
    aliases
}

fn describe_scheme(connection_type: &str) -> (r: &'static str)
    ensures
        r@ == scheme(connection_type@),
{
    if str_eq(connection_type, "tcp") {
        "tcp://"
    } else if str_eq(connection_type, "websocket") {
        "ws://"
    } else {
        "http://"
    }
}

fn describe_port(connection_type: &str, port: u64) -> (r: String)
    ensures
        r@ == port_text(connection_type@, port),
{
    if str_eq(connection_type, "tcp") {
        let mut text = ":".to_string();
        text.append(decimal_of(port).as_str());
        text
    } else {
        let mut text = " (".to_string();
        text.append(decimal_of(port).as_str());
        text.append(")");
        text
    }
}

fn list_service(lines: &mut Vec<Line>, indent: &str, domain: &str, service: &str, entry: &JsonValue)
    ensures
        final(lines).deep_view() == old(lines).deep_view() + service_lines(
            indent@,
            domain@,
            service@,
            entry@,
        ),
{
    let ghost start = lines.deep_view();
    let connection_type = find_type(entry);
    let port: u64 = find_port(entry);
    let mut first = indent.to_string();
    first.append(describe_scheme(connection_type.as_str()));
    let mut last = ".test".to_string();
    last.append(describe_port(connection_type.as_str(), port).as_str());
    last.append(find_suffix(entry).as_str());
    let mut spans: Vec<Span> = Vec::new();
    spans.push(span(Style::Plain, first));
    spans.push(span(Style::Blue, service.to_string()));
    spans.push(span(Style::Plain, ".".to_string()));
    spans.push(span(Style::Green, domain.to_string()));
    spans.push(span(Style::Plain, last));
    assert(spans.deep_view() =~= service_line(indent@, domain@, service@, entry@));
    push_line(lines, spans);
    let aliases = find_aliases(entry);
    let ghost all = aliases.deep_view();
    let ghost head = seq![service_line(indent@, domain@, service@, entry@)];
    let ghost f = |a: Seq<char>| alias_line(indent@, a, entry@);
    let mut i: usize = 0;
    assert(lines.deep_view() =~= start + (head + all.take(0).map_values(f)));
    while i < aliases.len()
        invariant
            i <= aliases@.len(),
            all == aliases.deep_view(),
            f == (|a: Seq<char>| alias_line(indent@, a, entry@)),
            connection_type@ == listed_type(entry@),
            port == listed_port(entry@),
            lines.deep_view() == start + (head + all.take(i as int).map_values(f)),
        decreases aliases@.len() - i,
    {
        let ghost before = lines.deep_view();
        let mut first = indent.to_string();
        first.append("  ");
        first.append(describe_scheme(connection_type.as_str()));
        let mut spans: Vec<Span> = Vec::new();
        spans.push(span(Style::Plain, first));
        spans.push(span(Style::Blue, aliases[i].clone()));
        spans.push(span(Style::Plain, describe_port(connection_type.as_str(), port)));
        assert(spans.deep_view() =~= alias_line(indent@, all[i as int], entry@));
        push_line(lines, spans);
        i += 1;
        assert(lines.deep_view() =~= start + (head + all.take(i as int).map_values(f)));
    }
    assert(all.take(all.len() as int) =~= all);
}

fn list_services(lines: &mut Vec<Line>, indent: &str, domain: &str, m: &StrMap<JsonValue>)
    ensures
        final(lines).deep_view() == old(lines).deep_view() + services_lines(
            indent@,
            domain@,
            m@,
            sorted_keys(m@).len(),
        ),
{
    let ghost start = lines.deep_view();
    let n: usize = m.len();
    let ghost keys = sorted_keys(m@);
    let mut i: usize = 0;
    assert(start + services_lines(indent@, domain@, m@, 0) =~= start);
    while i < n
        invariant
            i <= n,
            n == keys.len(),
            keys == sorted_keys(m@),
            lines.deep_view() == start + services_lines(indent@, domain@, m@, i as nat),
        decreases n - i,
    {
        list_service(lines, indent, domain, m.key_at(i).as_str(), m.value_at(i));
        i += 1;
        assert(lines.deep_view() =~= start + services_lines(indent@, domain@, m@, i as nat));
    }
}

fn list_group(lines: &mut Vec<Line>, domain: &str, group: &str, v: &JsonValue)
    ensures
        final(lines).deep_view() == old(lines).deep_view() + group_lines(domain@, group@, v@),
{
    let ghost start = lines.deep_view();
    match v.as_object() {
        Some(m) => {
            if str_eq(group, ".") {
                list_services(lines, "  ", domain, m);
            } else {
                let mut spans: Vec<Span> = Vec::new();
                spans.push(span(Style::Plain, "  ".to_string()));
                spans.push(span(Style::Cyan, group.to_string()));
                assert(spans.deep_view() =~= seq![(Style::Plain, "  "@), (Style::Cyan, group@)]);
                push_line(lines, spans);
                list_services(lines, "    ", domain, m);
                assert(lines.deep_view() =~= start + group_lines(domain@, group@, v@));
            }
        },
        None => {
            assert(lines.deep_view() =~= start + Seq::<LineView>::empty());
        },
    }
}

fn list_domain(lines: &mut Vec<Line>, domain: &str, v: &JsonValue)
    ensures
        final(lines).deep_view() == old(lines).deep_view() + domain_lines(domain@, v@),
{
    let ghost start = lines.deep_view();
    let mut spans: Vec<Span> = Vec::new();
    spans.push(span(Style::Green, domain.to_string()));
    assert(spans.deep_view() =~= seq![(Style::Green, domain@)]);
    push_line(lines, spans);
    let ghost head = seq![seq![(Style::Green, domain@)]];
    let ghost with_head = lines.deep_view();
    assert(with_head =~= start + head);
    let ghost mut body = Seq::<LineView>::empty();
    match v.as_object() {
        Some(m) => {
            let ghost root = if m@.contains_key("."@) {
                group_lines(domain@, "."@, m@["."@])
            } else {
                Seq::empty()
            };
            match m.get(".") {
                Some(g) => {
                    list_group(lines, domain, ".", g);
                },
                None => {},
            }
            let n: usize = m.len();
            let ghost keys = sorted_keys(m@);
            let mut i: usize = 0;
            assert(lines.deep_view() =~= with_head + (root + named_groups_lines(domain@, m@, 0)));
            while i < n
                invariant
                    i <= n,
                    n == keys.len(),
                    keys == sorted_keys(m@),
                    lines.deep_view() == with_head + (root + named_groups_lines(
                        domain@,
                        m@,
                        i as nat,
                    )),
                decreases n - i,
            {
                let group = m.key_at(i);
                if !str_eq(group.as_str(), ".") {
                    list_group(lines, domain, group.as_str(), m.value_at(i));
                }
                i += 1;
                assert(lines.deep_view() =~= with_head + (root + named_groups_lines(
                    domain@,
                    m@,
                    i as nat,
                )));
            }
            proof {
                body = root + named_groups_lines(domain@, m@, n as nat);
            }
        },
        None => {
            assert(lines.deep_view() =~= with_head + body);
        },
    }
    let none: Vec<Span> = Vec::new();
    assert(none.deep_view() =~= Seq::<(Style, Seq<char>)>::empty());
    push_line(lines, none);
    assert(lines.deep_view() =~= start + (head + body + seq![
        Seq::<(Style, Seq<char>)>::empty(),
    ]));
}

/// Lists the URLs of a port map: the lines to show, piece by piece, with the style of each
/// piece.
pub fn cmd_urls(portmap: &JsonValue) -> (r: Vec<Line>)
    ensures
        r.deep_view() == url_listing(portmap@),
{
    let mut lines: Vec<Line> = Vec::new();
    let none: Vec<Span> = Vec::new();
    assert(none.deep_view() =~= Seq::<(Style, Seq<char>)>::empty());
    push_line(&mut lines, none);
    let ghost head = seq![Seq::<(Style, Seq<char>)>::empty()];
    assert(lines.deep_view() =~= head);
    match portmap.as_object() {
        Some(m) => {
            let n: usize = m.len();
            let ghost keys = sorted_keys(m@);
            let mut i: usize = 0;
            assert(lines.deep_view() =~= head + domains_lines(m@, 0));
            while i < n
                invariant
                    i <= n,
                    n == keys.len(),
                    keys == sorted_keys(m@),
                    lines.deep_view() == head + domains_lines(m@, i as nat),
                decreases n - i,
            {
                list_domain(&mut lines, m.key_at(i).as_str(), m.value_at(i));
                i += 1;
                assert(lines.deep_view() =~= head + domains_lines(m@, i as nat));
            }
        },
        None => {
            assert(lines.deep_view() =~= head + Seq::<LineView>::empty());
        },
    }
    lines
}

// ---------------------------------------------------------------------------
// Laws
// ---------------------------------------------------------------------------
proof fn lemma_texts(aliases: Seq<Seq<char>>)
    ensures
        texts(aliases.map_values(|a: Seq<char>| JsonView::Text(a))) == aliases,
    decreases aliases.len(),
{
    let items = aliases.map_values(|a: Seq<char>| JsonView::Text(a));
    if aliases.len() > 0 {
        lemma_texts(aliases.drop_last());
        assert(items.drop_last() =~= aliases.drop_last().map_values(
            |a: Seq<char>| JsonView::Text(a),
        ));
        assert(aliases.drop_last().push(aliases.last()) =~= aliases);
    } else {
        assert(texts(items) =~= aliases);
    }
}

/// The listing shows what a deployment wrote: the type and the aliases of each service, its
/// port, and its debug port.
pub proof fn written_entry_is_listed(s: PlannedView)
    ensures
        ({
            let entry = JsonView::Object(entry_members(s));
            &&& listed_type(entry) == s.connection_type
            &&& listed_aliases(entry) == s.aliases
            &&& number_value(number_of(s.proxy_port as u64)) == Some(s.proxy_port as u64)
                ==> listed_port(entry) == s.proxy_port
            &&& number_value(number_of(s.debug_port as u64)) == Some(s.debug_port as u64)
                ==> debug_suffix(entry) == "  [debug: "@ + decimal(s.debug_port as nat) + "]"@
        }),
{
    reveal_strlit("port");
    reveal_strlit("type");
    reveal_strlit("debug_port");
    reveal_strlit("urls");
    assert("port"@[0] == 'p' && "type"@[0] == 't' && "debug_port"@[0] == 'd' && "urls"@[0] == 'u');
    lemma_texts(s.aliases);
    if s.aliases.len() == 0 {
        assert(s.aliases =~= Seq::<Seq<char>>::empty());
    }
}

} // verus!
