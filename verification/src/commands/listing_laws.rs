//! What holds of the listing of URLs.
use crate::commands::portmap::{
    entry_members, is_last_of_its_name, portmap_of, written_entry_is_read_back,
};
use crate::commands::service::PlannedView;
use crate::commands::urls::{
    alias_line, domain_lines, domains_lines, group_lines, listed_aliases, named_groups_lines,
    service_line, service_lines, services_lines, texts, url_listing, written_entry_is_listed,
    LineView, Style,
};
use crate::json::{is_finite_tree, number_of, number_value, JsonView};
use crate::map::{
    increasing, lemma_increasing_unique, lemma_lists_keys, lemma_sorted_keys, sorted_keys,
};
use crate::text::{decimal, lemma_lex_irreflexive, lex_less};
use vstd::prelude::*;

verus! {

// ---------------------------------------------------------------------------
// The lines of one entry
// ---------------------------------------------------------------------------
/// The connection type of an entry: the text under `type`, or else `http`.
pub open spec fn gives_type(entry: JsonView, t: Seq<char>) -> bool {
    match entry {
        JsonView::Object(m) => if m.contains_key("type"@) && m["type"@] is Text {
            t == m["type"@]->Text_0
        } else {
            t == "http"@
        },
        _ => t == "http"@,
    }
}

/// The port of an entry: the number under `port`, or the bare number that the entry is, or
/// else zero.
pub open spec fn gives_port(entry: JsonView, port: u64) -> bool {
    match entry {
        JsonView::Object(m) => if m.contains_key("port"@) && m["port"@] is Number && number_value(
            m["port"@]->Number_0,
        ) is Some {
            number_value(m["port"@]->Number_0) == Some(port)
        } else {
            port == 0
        },
        JsonView::Number(n) => if number_value(n) is Some {
            number_value(n) == Some(port)
        } else {
            port == 0
        },
        _ => port == 0,
    }
}

/// The aliases of an entry: the texts of the list under `urls`, which holds only texts, or
/// else none.
pub open spec fn gives_aliases(entry: JsonView, aliases: Seq<Seq<char>>) -> bool {
    match entry {
        JsonView::Object(m) => if m.contains_key("urls"@) && m["urls"@] is Array {
            let items = m["urls"@]->Array_0;
            &&& items.len() == aliases.len()
            &&& forall|i: int|
                0 <= i < items.len() ==> #[trigger] items[i] == JsonView::Text(aliases[i])
        } else {
            aliases.len() == 0
        },
        _ => aliases.len() == 0,
    }
}

/// The text ends with the debug port of the entry, if it has one.
pub open spec fn ends_with_debug_port(text: Seq<char>, before: Seq<char>, entry: JsonView) -> bool {
    match entry {
        JsonView::Object(m) => if m.contains_key("debug_port"@) && m["debug_port"@] is Number
            && number_value(m["debug_port"@]->Number_0) is Some {
            text == before + ("  [debug: "@ + decimal(
                number_value(m["debug_port"@]->Number_0)->0 as nat,
            ) + "]"@)
        } else {
            text == before
        },
        _ => text == before,
    }
}

/// The piece in front of a hostname: an indentation, and the scheme of the connection type.
pub open spec fn is_scheme(span: (Style, Seq<char>), indent: Seq<char>, t: Seq<char>) -> bool {
    &&& t == "tcp"@ ==> span == (Style::Plain, indent + "tcp://"@)
    &&& t == "websocket"@ ==> span == (Style::Plain, indent + "ws://"@)
    &&& t != "tcp"@ && t != "websocket"@ ==> span == (Style::Plain, indent + "http://"@)
}

/// The text shows the port: behind a colon for TCP, and in brackets for anything else.
pub open spec fn is_port(text: Seq<char>, t: Seq<char>, port: u64) -> bool {
    &&& t == "tcp"@ ==> text == ":"@ + decimal(port as nat)
    &&& t != "tcp"@ ==> text == " ("@ + decimal(port as nat) + ")"@
}

/// The line shows the canonical URL of a service.
pub open spec fn shows_service(
    line: LineView,
    indent: Seq<char>,
    domain: Seq<char>,
    service: Seq<char>,
    entry: JsonView,
    t: Seq<char>,
    port: u64,
) -> bool {
    &&& line.len() == 5
    &&& is_scheme(line[0], indent, t)
    &&& line[1] == (Style::Blue, service)
    &&& line[2] == (Style::Plain, "."@)
    &&& line[3] == (Style::Green, domain)
    &&& line[4].0 == Style::Plain
    &&& exists|shown: Seq<char>| #[trigger]
        is_port(shown, t, port) && ends_with_debug_port(line[4].1, ".test"@ + shown, entry)
}

/// The line shows an alias, indented below its service, with the scheme and the port of the
/// service.
pub open spec fn shows_alias(
    line: LineView,
    indent: Seq<char>,
    alias: Seq<char>,
    t: Seq<char>,
    port: u64,
) -> bool {
    &&& line.len() == 3
    &&& is_scheme(line[0], indent + "  "@, t)
    &&& line[1] == (Style::Blue, alias)
    &&& line[2].0 == Style::Plain
    &&& is_port(line[2].1, t, port)
}

/// The lines show an entry: one for the service, and one below it for each alias, in order.
pub open spec fn shows_entry(
    lines: Seq<LineView>,
    indent: Seq<char>,
    domain: Seq<char>,
    service: Seq<char>,
    entry: JsonView,
    aliases: Seq<Seq<char>>,
    t: Seq<char>,
    port: u64,
) -> bool {
    &&& lines.len() == aliases.len() + 1
    &&& shows_service(lines[0], indent, domain, service, entry, t, port)
    &&& forall|i: int|
        0 <= i < aliases.len() ==> shows_alias(
            lines[i + 1],
            indent,
            #[trigger] aliases[i],
            t,
            port,
        )
}

proof fn lemma_texts_of(items: Seq<JsonView>, aliases: Seq<Seq<char>>)
    requires
        items.len() == aliases.len(),
        forall|i: int| 0 <= i < items.len() ==> #[trigger] items[i] == JsonView::Text(aliases[i]),
    ensures
        texts(items) == aliases,
    decreases items.len(),
{
    if items.len() > 0 {
        let init = items.drop_last();
        let rest = aliases.drop_last();
        assert forall|i: int| 0 <= i < init.len() implies #[trigger] init[i] == JsonView::Text(
            rest[i],
        ) by {
            assert(items[i] == JsonView::Text(aliases[i]));
        }
        lemma_texts_of(init, rest);
        assert(items[items.len() - 1] == JsonView::Text(aliases[items.len() - 1]));
        assert(rest.push(aliases.last()) =~= aliases);
    } else {
        assert(texts(items) =~= aliases);
    }
}

/// An entry with `n` aliases is shown on `n + 1` lines: the service and its domain first, then
/// each alias in its turn, all with the scheme and the port of the entry.
pub proof fn entry_is_shown_with_every_alias(
    indent: Seq<char>,
    domain: Seq<char>,
    service: Seq<char>,
    entry: JsonView,
    aliases: Seq<Seq<char>>,
    t: Seq<char>,
    port: u64,
)
    requires
        gives_type(entry, t),
        gives_port(entry, port),
        gives_aliases(entry, aliases),
    ensures
        shows_entry(
            service_lines(indent, domain, service, entry),
            indent,
            domain,
            service,
            entry,
            aliases,
            t,
            port,
        ),
{
    reveal_strlit("tcp");
    reveal_strlit("websocket");
    assert("tcp"@.len() != "websocket"@.len());
    let lines = service_lines(indent, domain, service, entry);
    match entry {
        JsonView::Object(m) => {
            if m.contains_key("urls"@) && m["urls"@] is Array {
                lemma_texts_of(m["urls"@]->Array_0, aliases);
            } else {
                assert(listed_aliases(entry) =~= aliases);
            }
        },
        _ => {
            assert(listed_aliases(entry) =~= aliases);
        },
    }
    assert(listed_aliases(entry) == aliases);
    let shown = if t == "tcp"@ {
        ":"@ + decimal(port as nat)
    } else {
        " ("@ + decimal(port as nat) + ")"@
    };
    assert(is_port(shown, t, port));
    assert(lines[0] == service_line(indent, domain, service, entry));
    assert(ends_with_debug_port(lines[0][4].1, ".test"@ + shown, entry)) by {
        assert((".test"@ + shown) + Seq::<char>::empty() =~= ".test"@ + shown);
    }
    assert forall|i: int| 0 <= i < aliases.len() implies shows_alias(
        lines[i + 1],
        indent,
        #[trigger] aliases[i],
        t,
        port,
    ) by {
        assert(lines[i + 1] == alias_line(indent, aliases[i], entry));
    }
}

/// Of a list with other values among the texts, the texts are listed, in their order.
pub proof fn texts_are_listed_in_their_order(a: Seq<JsonView>, b: Seq<JsonView>, x: JsonView)
    ensures
        texts(a + b) == texts(a) + texts(b),
        x is Text ==> texts(seq![x]) == seq![x->Text_0],
        !(x is Text) ==> texts(seq![x]).len() == 0,
    decreases b.len(),
{
    assert(seq![x].drop_last() =~= Seq::<JsonView>::empty());
    assert(texts(Seq::<JsonView>::empty()) =~= Seq::<Seq<char>>::empty());
    if x is Text {
        assert(texts(seq![x]) =~= seq![x->Text_0]);
    }
    if b.len() == 0 {
        assert(a + b =~= a);
        assert(texts(a) + texts(b) =~= texts(a));
    } else {
        texts_are_listed_in_their_order(a, b.drop_last(), x);
        assert((a + b).drop_last() =~= a + b.drop_last());
        assert((a + b).last() == b.last());
        assert(texts(a + b) =~= texts(a) + texts(b));
    }
}

// ---------------------------------------------------------------------------
// Every entry is listed
// ---------------------------------------------------------------------------
/// The lines stand one after the other in the listing.
pub open spec fn stands_in(part: Seq<LineView>, whole: Seq<LineView>) -> bool {
    exists|p: int|
        0 <= p && p + part.len() <= whole.len() && #[trigger] whole.subrange(
            p,
            p + part.len(),
        ) == part
}

proof fn lemma_stands_in(
    part: Seq<LineView>,
    before: Seq<LineView>,
    middle: Seq<LineView>,
    behind: Seq<LineView>,
)
    requires
        stands_in(part, middle),
    ensures
        stands_in(part, before + middle + behind),
{
    let p = choose|p: int|
        0 <= p && p + part.len() <= middle.len() && #[trigger] middle.subrange(p, p + part.len())
            == part;
    let whole = before + middle + behind;
    let q = before.len() + p;
    assert(whole.subrange(q, q + part.len()) =~= middle.subrange(p, p + part.len()));
}

proof fn lemma_stands_in_itself(part: Seq<LineView>)
    ensures
        stands_in(part, part),
{
    let zero: int = 0;
    assert(part.subrange(zero, zero + part.len()) =~= part);
}

proof fn lemma_service_stands(
    indent: Seq<char>,
    domain: Seq<char>,
    m: Map<Seq<char>, JsonView>,
    n: nat,
    i: int,
)
    requires
        0 <= i < n,
    ensures
        stands_in(
            service_lines(indent, domain, sorted_keys(m)[i], m[sorted_keys(m)[i]]),
            services_lines(indent, domain, m, n),
        ),
    decreases n,
{
    let part = service_lines(indent, domain, sorted_keys(m)[i], m[sorted_keys(m)[i]]);
    let init = services_lines(indent, domain, m, (n - 1) as nat);
    let key = sorted_keys(m)[n - 1];
    let last = service_lines(indent, domain, key, m[key]);
    let none = Seq::<LineView>::empty();
    if i == n - 1 {
        lemma_stands_in_itself(part);
        lemma_stands_in(part, init, part, none);
        assert(init + part + none =~= services_lines(indent, domain, m, n));
    } else {
        lemma_service_stands(indent, domain, m, (n - 1) as nat, i);
        lemma_stands_in(part, none, init, last);
        assert(none + init + last =~= services_lines(indent, domain, m, n));
    }
}

proof fn lemma_group_stands(domain: Seq<char>, m: Map<Seq<char>, JsonView>, n: nat, i: int)
    requires
        0 <= i < n,
        sorted_keys(m)[i] != "."@,
    ensures
        stands_in(
            group_lines(domain, sorted_keys(m)[i], m[sorted_keys(m)[i]]),
            named_groups_lines(domain, m, n),
        ),
    decreases n,
{
    let part = group_lines(domain, sorted_keys(m)[i], m[sorted_keys(m)[i]]);
    let init = named_groups_lines(domain, m, (n - 1) as nat);
    let key = sorted_keys(m)[n - 1];
    let last = if key == "."@ {
        Seq::empty()
    } else {
        group_lines(domain, key, m[key])
    };
    let none = Seq::<LineView>::empty();
    if i == n - 1 {
        lemma_stands_in_itself(part);
        lemma_stands_in(part, init, part, none);
        assert(init + part + none =~= named_groups_lines(domain, m, n));
    } else {
        lemma_group_stands(domain, m, (n - 1) as nat, i);
        lemma_stands_in(part, none, init, last);
        assert(none + init + last =~= named_groups_lines(domain, m, n));
    }
}

proof fn lemma_domain_stands(m: Map<Seq<char>, JsonView>, n: nat, i: int)
    requires
        0 <= i < n,
    ensures
        stands_in(
            domain_lines(sorted_keys(m)[i], m[sorted_keys(m)[i]]),
            domains_lines(m, n),
        ),
    decreases n,
{
    let part = domain_lines(sorted_keys(m)[i], m[sorted_keys(m)[i]]);
    let init = domains_lines(m, (n - 1) as nat);
    let key = sorted_keys(m)[n - 1];
    let last = domain_lines(key, m[key]);
    let none = Seq::<LineView>::empty();
    if i == n - 1 {
        lemma_stands_in_itself(part);
        lemma_stands_in(part, init, part, none);
        assert(init + part + none =~= domains_lines(m, n));
    } else {
        lemma_domain_stands(m, (n - 1) as nat, i);
        lemma_stands_in(part, none, init, last);
        assert(none + init + last =~= domains_lines(m, n));
    }
}

proof fn lemma_stands_through(a: Seq<LineView>, b: Seq<LineView>, c: Seq<LineView>)
    requires
        stands_in(a, b),
        stands_in(b, c),
    ensures
        stands_in(a, c),
{
    let p = choose|p: int|
        0 <= p && p + a.len() <= b.len() && #[trigger] b.subrange(p, p + a.len()) == a;
    let q = choose|q: int|
        0 <= q && q + b.len() <= c.len() && #[trigger] c.subrange(q, q + b.len()) == b;
    assert(c.subrange(q + p, q + p + a.len()) =~= c.subrange(q, q + b.len()).subrange(
        p,
        p + a.len(),
    ));
}

/// Services of the root group are indented by two blanks, those of other groups by four.
pub open spec fn indent_of(group: Seq<char>) -> Seq<char> {
    if group == "."@ {
        "  "@
    } else {
        "    "@
    }
}

/// The port map has the entry, under the names of a domain, a group and a service.
pub open spec fn has_entry(
    portmap: JsonView,
    d: Seq<char>,
    g: Seq<char>,
    s: Seq<char>,
    entry: JsonView,
) -> bool {
    &&& portmap is Object && portmap->Object_0.contains_key(d)
    &&& portmap->Object_0[d] is Object && portmap->Object_0[d]->Object_0.contains_key(g)
    &&& portmap->Object_0[d]->Object_0[g] is Object
    &&& portmap->Object_0[d]->Object_0[g]->Object_0.contains_key(s)
    &&& portmap->Object_0[d]->Object_0[g]->Object_0[s] == entry
}

proof fn lemma_stands_in_group(
    lines: Seq<LineView>,
    d: Seq<char>,
    g: Seq<char>,
    v: JsonView,
    s: Seq<char>,
)
    requires
        v is Object,
        v->Object_0.dom().finite(),
        v->Object_0.contains_key(s),
        lines == service_lines(indent_of(g), d, s, v->Object_0[s]),
    ensures
        stands_in(lines, group_lines(d, g, v)),
{
    let services = v->Object_0;
    lemma_sorted_keys(services);
    let none = Seq::<LineView>::empty();
    let i = sorted_keys(services).index_of(s);
    assert(sorted_keys(services)[i] == s);
    let all = services_lines(indent_of(g), d, services, sorted_keys(services).len());
    lemma_service_stands(indent_of(g), d, services, sorted_keys(services).len(), i);
    if g != "."@ {
        let name = seq![seq![(Style::Plain, "  "@), (Style::Cyan, g)]];
        lemma_stands_in(lines, name, all, none);
        assert(name + all + none =~= group_lines(d, g, v));
    }
}

proof fn lemma_stands_in_domain(lines: Seq<LineView>, d: Seq<char>, v: JsonView, g: Seq<char>)
    requires
        v is Object,
        v->Object_0.dom().finite(),
        v->Object_0.contains_key(g),
        stands_in(lines, group_lines(d, g, v->Object_0[g])),
    ensures
        stands_in(lines, domain_lines(d, v)),
{
    let groups = v->Object_0;
    lemma_sorted_keys(groups);
    let j = sorted_keys(groups).index_of(g);
    assert(sorted_keys(groups)[j] == g);
    let head = seq![seq![(Style::Green, d)]];
    let root = if groups.contains_key("."@) {
        group_lines(d, "."@, groups["."@])
    } else {
        Seq::empty()
    };
    let named = named_groups_lines(d, groups, sorted_keys(groups).len());
    let blank = seq![Seq::<(Style, Seq<char>)>::empty()];
    if g == "."@ {
        lemma_stands_in(lines, head, root, named + blank);
        assert(head + root + (named + blank) =~= domain_lines(d, v));
    } else {
        lemma_group_stands(d, groups, sorted_keys(groups).len(), j);
        lemma_stands_through(lines, group_lines(d, g, groups[g]), named);
        lemma_stands_in(lines, head + root, named, blank);
        assert(head + root + named + blank =~= domain_lines(d, v));
    }
}

proof fn lemma_stands_in_listing(lines: Seq<LineView>, portmap: JsonView, d: Seq<char>)
    requires
        portmap is Object,
        portmap->Object_0.dom().finite(),
        portmap->Object_0.contains_key(d),
        stands_in(lines, domain_lines(d, portmap->Object_0[d])),
    ensures
        stands_in(lines, url_listing(portmap)),
{
    let m = portmap->Object_0;
    lemma_sorted_keys(m);
    let none = Seq::<LineView>::empty();
    let blank = seq![Seq::<(Style, Seq<char>)>::empty()];
    let k = sorted_keys(m).index_of(d);
    assert(sorted_keys(m)[k] == d);
    let body = domains_lines(m, sorted_keys(m).len());
    lemma_domain_stands(m, sorted_keys(m).len(), k);
    lemma_stands_through(lines, domain_lines(d, m[d]), body);
    lemma_stands_in(lines, blank, body, none);
    assert(blank + body + none =~= url_listing(portmap));
}

/// Every service of the port map is listed, with its domain, its scheme and its port, and all
/// of its aliases right below it.
pub proof fn every_entry_is_listed(
    portmap: JsonView,
    d: Seq<char>,
    g: Seq<char>,
    s: Seq<char>,
    entry: JsonView,
    aliases: Seq<Seq<char>>,
    t: Seq<char>,
    port: u64,
)
    requires
        is_finite_tree(portmap),
        has_entry(portmap, d, g, s, entry),
        gives_type(entry, t),
        gives_port(entry, port),
        gives_aliases(entry, aliases),
    ensures
        exists|lines: Seq<LineView>| #[trigger]
            stands_in(lines, url_listing(portmap)) && shows_entry(
                lines,
                indent_of(g),
                d,
                s,
                entry,
                aliases,
                t,
                port,
            ),
{
    let m = portmap->Object_0;
    let lines = service_lines(indent_of(g), d, s, entry);
    entry_is_shown_with_every_alias(indent_of(g), d, s, entry, aliases, t, port);
    assert(is_finite_tree(m[d]));
    let groups = m[d]->Object_0;
    assert(is_finite_tree(groups[g]));
    lemma_stands_in_group(lines, d, g, groups[g], s);
    lemma_stands_in_domain(lines, d, m[d], g);
    lemma_stands_in_listing(lines, portmap, d);
}

/// Every alias that a deployment wrote to the port map is listed, with the scheme and the port
/// of its service, and so is the service itself.
pub proof fn deployed_aliases_are_listed(services: Seq<PlannedView>, names: Seq<Seq<char>>, i: int)
    requires
        0 <= i < services.len(),
        is_last_of_its_name(services, i),
        is_finite_tree(JsonView::Object(portmap_of(services, names))),
        number_value(number_of(services[i].proxy_port as u64)) == Some(
            services[i].proxy_port as u64,
        ),
    ensures
        exists|lines: Seq<LineView>, entry: JsonView|
            {
                &&& #[trigger] stands_in(
                    lines,
                    url_listing(JsonView::Object(portmap_of(services, names))),
                )
                &&& #[trigger] shows_entry(
                    lines,
                    indent_of(services[i].group),
                    services[i].domain,
                    services[i].service,
                    entry,
                    services[i].aliases,
                    services[i].connection_type,
                    services[i].proxy_port as u64,
                )
            },
{
    let s = services[i];
    let portmap = JsonView::Object(portmap_of(services, names));
    let entry = JsonView::Object(entry_members(s));
    written_entry_is_read_back(services, names, i);
    written_entry_is_listed(s);
    assert(has_entry(portmap, s.domain, s.group, s.service, entry));
    reveal_strlit("port");
    reveal_strlit("type");
    reveal_strlit("debug_port");
    reveal_strlit("urls");
    assert("port"@[0] == 'p' && "type"@[0] == 't' && "debug_port"@[0] == 'd' && "urls"@[0] == 'u');
    assert(gives_aliases(entry, s.aliases));
    every_entry_is_listed(
        portmap,
        s.domain,
        s.group,
        s.service,
        entry,
        s.aliases,
        s.connection_type,
        s.proxy_port as u64,
    );
}

// ---------------------------------------------------------------------------
// Nothing else is listed, and everything in order
// ---------------------------------------------------------------------------
/// The key comes behind all keys of the map.
pub open spec fn is_behind<V>(k: Seq<char>, m: Map<Seq<char>, V>) -> bool {
    forall|x: Seq<char>| #[trigger] m.contains_key(x) ==> lex_less(x, k)
}

proof fn lemma_keys_behind<V>(m: Map<Seq<char>, V>, k: Seq<char>, v: V)
    requires
        m.dom().finite(),
        is_behind(k, m),
    ensures
        !m.contains_key(k),
        sorted_keys(m.insert(k, v)) == sorted_keys(m).push(k),
        forall|i: int| 0 <= i < sorted_keys(m).len() ==> m.contains_key(#[trigger] sorted_keys(m)[i]),
{
    lemma_sorted_keys(m);
    lemma_lex_irreflexive(k);
    let keys = sorted_keys(m);
    let all = keys.push(k);
    assert forall|i: int, j: int| 0 <= i < j < all.len() implies lex_less(
        #[trigger] all[i],
        #[trigger] all[j],
    ) by {
        if j == keys.len() {
            assert(m.contains_key(keys[i]));
        }
    }
    assert(all.to_set() =~= m.insert(k, v).dom()) by {
        assert forall|x: Seq<char>| all.to_set().contains(x) <==> m.insert(k, v).dom().contains(
            x,
        ) by {
            if m.contains_key(x) {
                assert(all[keys.index_of(x)] == x);
            }
            if x == k {
                assert(all[keys.len() as int] == x);
            }
            if all.contains(x) {
                let i = all.index_of(x);
                if i < keys.len() {
                    assert(m.contains_key(keys[i]));
                }
            }
        }
    }
    lemma_lists_keys(all, m.insert(k, v));
}

proof fn lemma_same_domains(
    m: Map<Seq<char>, JsonView>,
    o: Map<Seq<char>, JsonView>,
    n: nat,
)
    requires
        n <= sorted_keys(m).len(),
        n <= sorted_keys(o).len(),
        forall|i: int|
            0 <= i < n ==> #[trigger] sorted_keys(m)[i] == sorted_keys(o)[i]
                && m[sorted_keys(m)[i]] == o[sorted_keys(o)[i]],
    ensures
        domains_lines(m, n) == domains_lines(o, n),
    decreases n,
{
    if n > 0 {
        lemma_same_domains(m, o, (n - 1) as nat);
        assert(sorted_keys(m)[n - 1] == sorted_keys(o)[n - 1]);
    }
}

proof fn lemma_same_groups(
    d: Seq<char>,
    m: Map<Seq<char>, JsonView>,
    o: Map<Seq<char>, JsonView>,
    n: nat,
)
    requires
        n <= sorted_keys(m).len(),
        n <= sorted_keys(o).len(),
        forall|i: int|
            0 <= i < n ==> #[trigger] sorted_keys(m)[i] == sorted_keys(o)[i]
                && m[sorted_keys(m)[i]] == o[sorted_keys(o)[i]],
    ensures
        named_groups_lines(d, m, n) == named_groups_lines(d, o, n),
    decreases n,
{
    if n > 0 {
        lemma_same_groups(d, m, o, (n - 1) as nat);
        assert(sorted_keys(m)[n - 1] == sorted_keys(o)[n - 1]);
    }
}

proof fn lemma_same_services(
    indent: Seq<char>,
    d: Seq<char>,
    m: Map<Seq<char>, JsonView>,
    o: Map<Seq<char>, JsonView>,
    n: nat,
)
    requires
        n <= sorted_keys(m).len(),
        n <= sorted_keys(o).len(),
        forall|i: int|
            0 <= i < n ==> #[trigger] sorted_keys(m)[i] == sorted_keys(o)[i]
                && m[sorted_keys(m)[i]] == o[sorted_keys(o)[i]],
    ensures
        services_lines(indent, d, m, n) == services_lines(indent, d, o, n),
    decreases n,
{
    if n > 0 {
        lemma_same_services(indent, d, m, o, (n - 1) as nat);
        assert(sorted_keys(m)[n - 1] == sorted_keys(o)[n - 1]);
    }
}

proof fn lemma_one_key<V>(k: Seq<char>, v: V)
    ensures
        sorted_keys(Map::<Seq<char>, V>::empty()) == Seq::<Seq<char>>::empty(),
        sorted_keys(map![k => v]) == seq![k],
{
    let none = Map::<Seq<char>, V>::empty();
    assert(Seq::<Seq<char>>::empty().to_set() =~= none.dom());
    lemma_lists_keys(Seq::<Seq<char>>::empty(), none);
    lemma_keys_behind(none, k, v);
    assert(none.insert(k, v) =~= map![k => v]);
    assert(Seq::<Seq<char>>::empty().push(k) =~= seq![k]);
}

/// A port map with one domain.
pub open spec fn one_domain(d: Seq<char>, v: JsonView) -> JsonView {
    JsonView::Object(map![d => v])
}

proof fn lemma_one_domain(d: Seq<char>, v: JsonView)
    ensures
        url_listing(one_domain(d, v)) == seq![Seq::<(Style, Seq<char>)>::empty()] + domain_lines(
            d,
            v,
        ),
{
    let m = map![d => v];
    lemma_one_key(d, v);
    assert(domains_lines(m, 0) =~= Seq::<LineView>::empty());
    assert(domains_lines(m, 1) =~= domain_lines(d, v));
}

/// Without domains there is an empty line, and so for a port map that is no object. A domain
/// that is no object has nothing but its name. A domain that comes behind the others is listed
/// behind them, as it is listed alone.
pub proof fn domains_are_listed_one_after_the_other(
    m: Map<Seq<char>, JsonView>,
    d: Seq<char>,
    v: JsonView,
)
    requires
        m.dom().finite(),
        is_behind(d, m),
    ensures
        url_listing(JsonView::Object(Map::empty())) == seq![Seq::<(Style, Seq<char>)>::empty()],
        url_listing(JsonView::Object(m.insert(d, v))) == url_listing(JsonView::Object(m))
            + url_listing(one_domain(d, v)).skip(1),
        !(v is Object) ==> url_listing(v) == seq![Seq::<(Style, Seq<char>)>::empty()],
        !(v is Object) ==> url_listing(one_domain(d, v)) == seq![
            Seq::<(Style, Seq<char>)>::empty(),
            seq![(Style::Green, d)],
            Seq::<(Style, Seq<char>)>::empty(),
        ],
{
    if !(v is Object) {
        let blank = Seq::<(Style, Seq<char>)>::empty();
        lemma_one_domain(d, v);
        assert(url_listing(v) =~= seq![blank]);
        assert(url_listing(one_domain(d, v)) =~= seq![blank, seq![(Style::Green, d)], blank]);
    }
    lemma_one_key::<JsonView>(d, v);
    let none = Map::<Seq<char>, JsonView>::empty();
    assert(url_listing(JsonView::Object(none)) =~= seq![Seq::<(Style, Seq<char>)>::empty()]);
    lemma_keys_behind(m, d, v);
    let all = m.insert(d, v);
    let n = sorted_keys(m).len();
    lemma_same_domains(m, all, n);
    lemma_one_domain(d, v);
    assert(url_listing(one_domain(d, v)).skip(1) =~= domain_lines(d, v));
    assert(url_listing(JsonView::Object(all)) =~= url_listing(JsonView::Object(m)) + domain_lines(
        d,
        v,
    ));
}

/// A domain is named first, and followed by an empty line. Where it has no groups, that is
/// all. A named group that comes behind the others is listed behind them.
pub proof fn groups_are_listed_one_after_the_other(
    d: Seq<char>,
    groups: Map<Seq<char>, JsonView>,
    g: Seq<char>,
    v: JsonView,
)
    requires
        groups.dom().finite(),
        is_behind(g, groups),
        !groups.contains_key("."@),
        g != "."@,
    ensures
        ({
            let blank = Seq::<(Style, Seq<char>)>::empty();
            let none = Map::<Seq<char>, JsonView>::empty();
            let before = url_listing(one_domain(d, JsonView::Object(groups)));
            let after = url_listing(one_domain(d, JsonView::Object(groups.insert(g, v))));
            let alone = url_listing(one_domain(d, JsonView::Object(map![g => v])));
            &&& url_listing(one_domain(d, JsonView::Object(none))) == seq![
                blank,
                seq![(Style::Green, d)],
                blank,
            ]
            &&& !(v is Object) ==> after == before
            &&& v is Object ==> after == before.drop_last() + alone.skip(2)
            &&& v is Object ==> alone.len() >= 4 && alone[0] == blank && alone[1] == seq![
                (Style::Green, d),
            ] && alone[2] == seq![(Style::Plain, "  "@), (Style::Cyan, g)] && alone.last() == blank
        }),
{
    let blank = Seq::<(Style, Seq<char>)>::empty();
    let none = Map::<Seq<char>, JsonView>::empty();
    let all = groups.insert(g, v);
    let one = map![g => v];
    lemma_one_key::<JsonView>(g, v);
    lemma_keys_behind(groups, g, v);
    lemma_one_domain(d, JsonView::Object(none));
    lemma_one_domain(d, JsonView::Object(groups));
    lemma_one_domain(d, JsonView::Object(all));
    lemma_one_domain(d, JsonView::Object(one));
    let n = sorted_keys(groups).len();
    lemma_same_groups(d, groups, all, n);
    let lines = group_lines(d, g, v);
    let named = named_groups_lines(d, groups, n);
    assert(named_groups_lines(d, none, 0) =~= Seq::<LineView>::empty());
    assert(named_groups_lines(d, one, 0) =~= Seq::<LineView>::empty());
    assert(named_groups_lines(d, one, 1) =~= lines);
    assert(named_groups_lines(d, all, n + 1) == named + lines);
    assert(url_listing(one_domain(d, JsonView::Object(none))) =~= seq![
        blank,
        seq![(Style::Green, d)],
        blank,
    ]);
    let head = seq![blank, seq![(Style::Green, d)]];
    let end = seq![blank];
    assert(url_listing(one_domain(d, JsonView::Object(groups))) =~= head + named + end);
    assert(url_listing(one_domain(d, JsonView::Object(all))) =~= head + named + lines + end);
    assert(url_listing(one_domain(d, JsonView::Object(one))) =~= head + lines + end);
    if v is Object {
        assert((head + named + end).drop_last() =~= head + named);
        assert((head + lines + end).skip(2) =~= lines + end);
        assert(head + named + lines + end =~= head + named + (lines + end));
    } else {
        assert(lines =~= Seq::<LineView>::empty());
        assert(head + named + lines + end =~= head + named + end);
    }
}

/// The names of groups with a directory of their own, in order, are those of the map without
/// the root group.
proof fn lemma_named_lines(d: Seq<char>, groups: Map<Seq<char>, JsonView>, n: nat, k: nat)
    requires
        groups.dom().finite(),
        groups.contains_key("."@),
        n <= sorted_keys(groups).len(),
        k <= sorted_keys(groups.remove("."@)).len(),
        sorted_keys(groups).take(n as int).filter(|g: Seq<char>| g != "."@) == sorted_keys(
            groups.remove("."@),
        ).take(k as int),
    ensures
        named_groups_lines(d, groups, n) == named_groups_lines(d, groups.remove("."@), k),
    decreases n,
{
    reveal(Seq::filter);
    let keep = |g: Seq<char>| g != "."@;
    let rest = groups.remove("."@);
    let keys = sorted_keys(groups);
    let others = sorted_keys(rest);
    lemma_sorted_keys(groups);
    lemma_sorted_keys(rest);
    if n == 0 {
        assert(keys.take(0).filter(keep) =~= Seq::<Seq<char>>::empty());
        assert(k == 0);
    } else {
        let init = keys.take(n - 1);
        assert(keys.take(n as int).drop_last() =~= init);
        let key = keys[n - 1];
        if key == "."@ {
            lemma_named_lines(d, groups, (n - 1) as nat, k);
        } else {
            let kept = init.filter(keep);
            assert(others.take(k as int) == kept.push(key));
            assert(k > 0);
            assert(others.take(k - 1) =~= kept);
            assert(others[k - 1] == others.take(k as int)[k - 1]);
            assert(others[k - 1] == key);
            lemma_named_lines(d, groups, (n - 1) as nat, (k - 1) as nat);
            assert(rest[key] == groups[key]);
        }
    }
}

proof fn lemma_filter_keys(keys: Seq<Seq<char>>)
    requires
        increasing(keys),
    ensures
        ({
            let kept = keys.filter(|g: Seq<char>| g != "."@);
            &&& increasing(kept)
            &&& forall|x: Seq<char>| #[trigger] kept.contains(x) <==> keys.contains(x) && x != "."@
        }),
    decreases keys.len(),
{
    reveal(Seq::filter);
    let keep = |g: Seq<char>| g != "."@;
    let kept = keys.filter(keep);
    if keys.len() > 0 {
        let init = keys.drop_last();
        lemma_filter_keys(init);
        let before = init.filter(keep);
        let last = keys.last();
        assert forall|x: Seq<char>| #[trigger] kept.contains(x) <==> keys.contains(x) && x != "."@ by {
            if kept.contains(x) {
                let i = kept.index_of(x);
                if i < before.len() {
                    assert(before[i] == x);
                    assert(before.contains(x));
                    assert(keys[init.index_of(x)] == x);
                } else {
                    assert(keys[keys.len() - 1] == x);
                }
            }
            if keys.contains(x) && x != "."@ {
                let i = keys.index_of(x);
                if i < init.len() {
                    assert(init[i] == x);
                    assert(before.contains(x));
                    assert(kept[before.index_of(x)] == x);
                } else {
                    assert(kept[before.len() as int] == x);
                }
            }
        }
        assert forall|i: int, j: int| 0 <= i < j < kept.len() implies lex_less(
            #[trigger] kept[i],
            #[trigger] kept[j],
        ) by {
            if j < before.len() {
                assert(before[i] == kept[i] && before[j] == kept[j]);
            } else {
                assert(before.contains(before[i]));
                let x = init.index_of(before[i]);
                assert(keys[x] == before[i]);
                assert(lex_less(keys[x], keys[keys.len() - 1]));
            }
        }
    } else {
        assert(kept =~= keys);
    }
}

/// The root group comes first, without a name of its own, and the other groups follow as they
/// are listed without it.
pub proof fn root_group_is_listed_first(d: Seq<char>, groups: Map<Seq<char>, JsonView>)
    requires
        groups.dom().finite(),
        groups.contains_key("."@),
    ensures
        ({
            let root = map!["."@ => groups["."@]];
            let others = groups.remove("."@);
            url_listing(one_domain(d, JsonView::Object(groups))) == url_listing(
                one_domain(d, JsonView::Object(root)),
            ).drop_last() + url_listing(one_domain(d, JsonView::Object(others))).skip(2)
        }),
{
    let keep = |g: Seq<char>| g != "."@;
    let root = map!["."@ => groups["."@]];
    let others = groups.remove("."@);
    let keys = sorted_keys(groups);
    lemma_sorted_keys(groups);
    lemma_sorted_keys(others);
    lemma_filter_keys(keys);
    let kept = keys.filter(keep);
    assert(kept.to_set() =~= sorted_keys(others).to_set()) by {
        assert forall|x: Seq<char>| kept.to_set().contains(x) <==> sorted_keys(
            others,
        ).to_set().contains(x) by {
            assert(kept.contains(x) <==> keys.contains(x) && x != "."@);
            assert(keys.to_set().contains(x) <==> groups.contains_key(x));
            assert(sorted_keys(others).to_set().contains(x) <==> others.contains_key(x));
        }
    }
    lemma_increasing_unique(kept, sorted_keys(others));
    assert(keys.take(keys.len() as int) =~= keys);
    assert(sorted_keys(others).take(sorted_keys(others).len() as int) =~= sorted_keys(others));
    lemma_named_lines(d, groups, keys.len(), sorted_keys(others).len());
    lemma_one_key("."@, groups["."@]);
    lemma_one_domain(d, JsonView::Object(groups));
    lemma_one_domain(d, JsonView::Object(root));
    lemma_one_domain(d, JsonView::Object(others));
    let blank = Seq::<(Style, Seq<char>)>::empty();
    let head = seq![blank, seq![(Style::Green, d)]];
    let end = seq![blank];
    let first = group_lines(d, "."@, groups["."@]);
    let named = named_groups_lines(d, groups, keys.len());
    assert(named_groups_lines(d, root, 0) =~= Seq::<LineView>::empty());
    assert(named_groups_lines(d, root, 1) =~= Seq::<LineView>::empty());
    assert(url_listing(one_domain(d, JsonView::Object(groups))) =~= head + first + named + end);
    assert(url_listing(one_domain(d, JsonView::Object(root))) =~= head + first + end);
    assert(url_listing(one_domain(d, JsonView::Object(others))) =~= head + named + end);
    assert((head + first + end).drop_last() =~= head + first);
    assert((head + named + end).skip(2) =~= named + end);
    assert(head + first + named + end =~= head + first + (named + end));
}

/// A group without services is its name alone, or nothing for the root group. A service that
/// comes behind the others of its group is listed behind them, on one line more than it has
/// aliases.
pub proof fn services_are_listed_one_after_the_other(
    d: Seq<char>,
    g: Seq<char>,
    services: Map<Seq<char>, JsonView>,
    s: Seq<char>,
    entry: JsonView,
    aliases: Seq<Seq<char>>,
    t: Seq<char>,
    port: u64,
)
    requires
        services.dom().finite(),
        is_behind(s, services),
        gives_type(entry, t),
        gives_port(entry, port),
        gives_aliases(entry, aliases),
    ensures
        ({
            let blank = Seq::<(Style, Seq<char>)>::empty();
            let group = |m: Map<Seq<char>, JsonView>|
                one_domain(d, JsonView::Object(map![g => JsonView::Object(m)]));
            let before = url_listing(group(services));
            let after = url_listing(group(services.insert(s, entry)));
            let n = before.len() - 1;
            &&& after.len() == before.len() + aliases.len() + 1
            &&& after.take(n) == before.drop_last()
            &&& after.last() == blank
            &&& shows_entry(
                after.subrange(n, after.len() - 1),
                indent_of(g),
                d,
                s,
                entry,
                aliases,
                t,
                port,
            )
            &&& url_listing(group(Map::empty())) == if g == "."@ {
                seq![blank, seq![(Style::Green, d)], blank]
            } else {
                seq![
                    blank,
                    seq![(Style::Green, d)],
                    seq![(Style::Plain, "  "@), (Style::Cyan, g)],
                    blank,
                ]
            }
        }),
{
    entry_is_shown_with_every_alias(indent_of(g), d, s, entry, aliases, t, port);
    lemma_group_grows(d, g, services, s, entry);
    lemma_empty_group(d, g);
}

/// The listing of a group with given services.
spec fn group_listing(d: Seq<char>, g: Seq<char>, m: Map<Seq<char>, JsonView>) -> Seq<LineView> {
    url_listing(one_domain(d, JsonView::Object(map![g => JsonView::Object(m)])))
}

/// The line that names a group.
spec fn name_lines(g: Seq<char>) -> Seq<LineView> {
    if g == "."@ {
        Seq::<LineView>::empty()
    } else {
        seq![seq![(Style::Plain, "  "@), (Style::Cyan, g)]]
    }
}

proof fn lemma_group_listing(d: Seq<char>, g: Seq<char>, m: Map<Seq<char>, JsonView>)
    ensures
        group_listing(d, g, m) == seq![
            Seq::<(Style, Seq<char>)>::empty(),
            seq![(Style::Green, d)],
        ] + name_lines(g) + services_lines(indent_of(g), d, m, sorted_keys(m).len()) + seq![
            Seq::<(Style, Seq<char>)>::empty(),
        ],
{
    lemma_group_alone(d, g, JsonView::Object(m));
    let lines = services_lines(indent_of(g), d, m, sorted_keys(m).len());
    let head = seq![Seq::<(Style, Seq<char>)>::empty(), seq![(Style::Green, d)]];
    let end = seq![Seq::<(Style, Seq<char>)>::empty()];
    assert(group_lines(d, g, JsonView::Object(m)) =~= name_lines(g) + lines);
    assert(head + (name_lines(g) + lines) + end =~= head + name_lines(g) + lines + end);
}

proof fn lemma_empty_group(d: Seq<char>, g: Seq<char>)
    ensures
        ({
            let blank = Seq::<(Style, Seq<char>)>::empty();
            group_listing(d, g, Map::empty()) == if g == "."@ {
                seq![blank, seq![(Style::Green, d)], blank]
            } else {
                seq![
                    blank,
                    seq![(Style::Green, d)],
                    seq![(Style::Plain, "  "@), (Style::Cyan, g)],
                    blank,
                ]
            }
        }),
{
    let blank = Seq::<(Style, Seq<char>)>::empty();
    let none = Map::<Seq<char>, JsonView>::empty();
    lemma_one_key::<JsonView>(g, JsonView::Null);
    lemma_group_listing(d, g, none);
    assert(services_lines(indent_of(g), d, none, 0) =~= Seq::<LineView>::empty());
    if g == "."@ {
        assert(group_listing(d, g, none) =~= seq![blank, seq![(Style::Green, d)], blank]);
    } else {
        assert(group_listing(d, g, none) =~= seq![
            blank,
            seq![(Style::Green, d)],
            seq![(Style::Plain, "  "@), (Style::Cyan, g)],
            blank,
        ]);
    }
}

proof fn lemma_group_grows(
    d: Seq<char>,
    g: Seq<char>,
    services: Map<Seq<char>, JsonView>,
    s: Seq<char>,
    entry: JsonView,
)
    requires
        services.dom().finite(),
        is_behind(s, services),
    ensures
        ({
            let lines = service_lines(indent_of(g), d, s, entry);
            let before = group_listing(d, g, services);
            let after = group_listing(d, g, services.insert(s, entry));
            &&& after.len() == before.len() + lines.len()
            &&& after.take(before.len() - 1) == before.drop_last()
            &&& after.subrange(before.len() - 1, after.len() - 1) == lines
            &&& after.last() == Seq::<(Style, Seq<char>)>::empty()
        }),
{
    let all = services.insert(s, entry);
    let n = sorted_keys(services).len();
    lemma_keys_behind(services, s, entry);
    lemma_same_services(indent_of(g), d, services, all, n);
    let lines = service_lines(indent_of(g), d, s, entry);
    let old_lines = services_lines(indent_of(g), d, services, n);
    assert(services_lines(indent_of(g), d, all, n + 1) == old_lines + lines);
    lemma_group_listing(d, g, services);
    lemma_group_listing(d, g, all);
    let before = group_listing(d, g, services);
    let after = group_listing(d, g, all);
    assert(after.take(before.len() - 1) =~= before.drop_last());
    assert(after.subrange(before.len() - 1, after.len() - 1) =~= lines);
}

proof fn lemma_group_alone(d: Seq<char>, g: Seq<char>, v: JsonView)
    ensures
        ({
            let blank = Seq::<(Style, Seq<char>)>::empty();
            url_listing(one_domain(d, JsonView::Object(map![g => v]))) == seq![
                blank,
                seq![(Style::Green, d)],
            ] + group_lines(d, g, v) + seq![blank]
        }),
{
    let blank = Seq::<(Style, Seq<char>)>::empty();
    let one = map![g => v];
    lemma_one_key(g, v);
    lemma_one_domain(d, JsonView::Object(one));
    assert(named_groups_lines(d, one, 0) =~= Seq::<LineView>::empty());
    let lines = group_lines(d, g, v);
    if g == "."@ {
        assert(named_groups_lines(d, one, 1) =~= Seq::<LineView>::empty());
    } else {
        assert(named_groups_lines(d, one, 1) =~= lines);
    }
    assert(url_listing(one_domain(d, JsonView::Object(one))) =~= seq![
        blank,
        seq![(Style::Green, d)],
    ] + lines + seq![blank]);
}

} // verus!
