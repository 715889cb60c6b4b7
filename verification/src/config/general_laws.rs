//! What holds of words, paths and tokens.
use crate::config::connection::is_connection_type;
use crate::config::general::word_value;
use crate::config::paths::{host_path, joined, located, DarpPaths};
use crate::config::ports::{
    can_choose, chosen_port, first_free, lemma_first_free, proxy_port_in, search_start, skip_ports,
    TokenCtx,
};
use crate::json::{number_value, JsonView};
use crate::text::{decimal, lowered, replace_all, starts_with, trim};
use crate::text_laws::{is_bare, is_blank, trimming_takes_the_white_space_around};
use vstd::prelude::*;

verus! {

// ---------------------------------------------------------------------------
// Words
// ---------------------------------------------------------------------------
/// Five words say yes, and five say no; no other word says anything.
pub proof fn ten_words_say_yes_or_no(word: Seq<char>)
    ensures
        word == "true"@ || word == "1"@ || word == "yes"@ || word == "y"@ || word == "on"@
            <==> word_value(word) == Some(true),
        word == "false"@ || word == "0"@ || word == "no"@ || word == "n"@ || word == "off"@
            <==> word_value(word) == Some(false),
{
    reveal_strlit("true");
    reveal_strlit("1");
    reveal_strlit("yes");
    reveal_strlit("y");
    reveal_strlit("on");
    reveal_strlit("false");
    reveal_strlit("0");
    reveal_strlit("no");
    reveal_strlit("n");
    reveal_strlit("off");
    assert("true"@[0] == 't' && "1"@[0] == '1' && "yes"@[0] == 'y' && "y"@[0] == 'y' && "on"@[0]
        == 'o');
    assert("false"@[0] == 'f' && "0"@[0] == '0' && "no"@[0] == 'n' && "n"@[0] == 'n' && "off"@[0]
        == 'o');
    assert("on"@.len() == 2 && "off"@.len() == 3);
}

/// White space around a word has no say in what it says.
pub proof fn white_space_around_a_word_has_no_say(a: Seq<char>, word: Seq<char>, b: Seq<char>)
    requires
        is_blank(a),
        is_blank(b),
        is_bare(word),
    ensures
        word_value(lowered(trim(a + word + b))) == word_value(lowered(word)),
{
    trimming_takes_the_white_space_around(a, word, b);
}

/// There are three connection types.
pub proof fn there_are_three_connection_types(value: Seq<char>)
    ensures
        value == "http"@ || value == "websocket"@ || value == "tcp"@ <==> is_connection_type(value),
{
}

// ---------------------------------------------------------------------------
// Paths
// ---------------------------------------------------------------------------
/// A name is put behind its directory with one slash between them.
pub proof fn a_name_stands_behind_its_directory(directory: Seq<char>, name: Seq<char>)
    ensures
        directory.len() > 0 && directory.last() != '/' ==> joined(directory, name)
            == directory.push('/') + name,
        directory.len() > 0 && directory.last() == '/' ==> joined(directory, name) == directory
            + name,
        directory.len() == 0 ==> joined(directory, name) == name,
{
    reveal_strlit("/");
    if directory.len() > 0 && directory.last() != '/' {
        assert(joined(directory, name) =~= directory.push('/') + name);
    }
    if directory.len() == 0 {
        assert(joined(directory, name) =~= name);
    }
}

/// The files of the tool lie in its root, under their names.
pub proof fn files_lie_in_the_root(paths: DarpPaths, root: Seq<char>)
    requires
        paths.is_under(root),
        root.len() > 0,
        root.last() != '/',
    ensures
        paths._darp_root@ == root,
        paths.config_path@ == root.push('/') + "config.json"@,
        paths.portmap_path@ == root.push('/') + "portmap.json"@,
        paths.dnsmasq_dir@ == root.push('/') + "dnsmasq.d"@,
        paths.vhost_container_conf@ == root.push('/') + "vhost_container.conf"@,
        paths.hosts_container_path@ == root.push('/') + "hosts_container"@,
        paths.nginx_conf_path@ == root.push('/') + "nginx.conf"@,
        paths.container_host_ip_path@ == root.push('/') + "container_host_ip"@,
{
    a_name_stands_behind_its_directory(root, "config.json"@);
    a_name_stands_behind_its_directory(root, "portmap.json"@);
    a_name_stands_behind_its_directory(root, "dnsmasq.d"@);
    a_name_stands_behind_its_directory(root, "vhost_container.conf"@);
    a_name_stands_behind_its_directory(root, "hosts_container"@);
    a_name_stands_behind_its_directory(root, "nginx.conf"@);
    a_name_stands_behind_its_directory(root, "container_host_ip"@);
}

// ---------------------------------------------------------------------------
// Tokens
// ---------------------------------------------------------------------------
/// The text opens no brace.
pub open spec fn opens_nothing(s: Seq<char>) -> bool {
    forall|i: int| 0 <= i < s.len() ==> #[trigger] s[i] != '{'
}

/// The text opens a brace at its start, and nowhere else.
spec fn is_token(s: Seq<char>) -> bool {
    s.len() > 1 && s[0] == '{' && forall|i: int| 0 < i < s.len() ==> #[trigger] s[i] != '{'
}

/// What opens no brace is left as it is.
proof fn lemma_replace_behind(a: Seq<char>, s: Seq<char>, from: Seq<char>, to: Seq<char>)
    requires
        opens_nothing(a),
        from.len() > 0,
        from[0] == '{',
    ensures
        replace_all(a + s, from, to) == a + replace_all(s, from, to),
    decreases a.len(),
{
    let whole = a + s;
    if a.len() == 0 {
        assert(whole =~= s);
        assert(a + replace_all(s, from, to) =~= replace_all(s, from, to));
    } else {
        assert(!starts_with(whole, from)) by {
            if starts_with(whole, from) {
                assert(whole.subrange(0, from.len() as int)[0] == '{');
                assert(whole[0] == a[0]);
            }
        }
        let rest = a.drop_first();
        assert forall|i: int| 0 <= i < rest.len() implies #[trigger] rest[i] != '{' by {
            assert(rest[i] == a[i + 1]);
        }
        assert(whole.drop_first() =~= rest + s);
        lemma_replace_behind(rest, s, from, to);
        assert(seq![a[0]] + (rest + replace_all(s, from, to)) =~= a + replace_all(s, from, to));
    }
}

/// Another token is left as it is.
proof fn lemma_replace_other(
    token: Seq<char>,
    s: Seq<char>,
    from: Seq<char>,
    to: Seq<char>,
    k: int,
)
    requires
        is_token(token),
        is_token(from),
        0 <= k < token.len(),
        k < from.len(),
        token[k] != from[k],
    ensures
        replace_all(token + s, from, to) == token + replace_all(s, from, to),
{
    let whole = token + s;
    assert(!starts_with(whole, from)) by {
        if starts_with(whole, from) {
            assert(whole.subrange(0, from.len() as int)[k] == from[k]);
            assert(whole[k] == token[k]);
        }
    }
    let rest = token.drop_first();
    assert forall|i: int| 0 <= i < rest.len() implies #[trigger] rest[i] != '{' by {
        assert(rest[i] == token[i + 1]);
    }
    assert(whole.drop_first() =~= rest + s);
    lemma_replace_behind(rest, s, from, to);
    assert(seq![token[0]] + (rest + replace_all(s, from, to)) =~= token + replace_all(
        s,
        from,
        to,
    ));
}

/// The token itself is replaced.
proof fn lemma_replace_token(s: Seq<char>, from: Seq<char>, to: Seq<char>)
    requires
        from.len() > 0,
    ensures
        replace_all(from + s, from, to) == to + replace_all(s, from, to),
{
    let whole = from + s;
    assert(whole.subrange(0, from.len() as int) =~= from);
    assert(starts_with(whole, from));
    assert(whole.skip(from.len() as int) =~= s);
}

proof fn lemma_tokens()
    ensures
        is_token("{debug_port}"@),
        is_token("{service}"@),
        is_token("{domain}"@),
        is_token("{group}"@),
        is_token("{proxy_port}"@),
        is_token("{pwd}"@),
        is_token("{home}"@),
        "{debug_port}"@[1] == 'd' && "{debug_port}"@[2] == 'e',
        "{service}"@[1] == 's' && "{service}"@[2] == 'e',
        "{domain}"@[1] == 'd' && "{domain}"@[2] == 'o',
        "{group}"@[1] == 'g' && "{group}"@[2] == 'r',
        "{proxy_port}"@[1] == 'p' && "{proxy_port}"@[2] == 'r',
        "{pwd}"@[1] == 'p' && "{pwd}"@[2] == 'w',
        "{home}"@[1] == 'h' && "{home}"@[2] == 'o',
        "{debug_port}"@.len() == 12,
        "{service}"@.len() == 9,
        "{domain}"@.len() == 8,
        "{group}"@.len() == 7,
        "{proxy_port}"@.len() == 12,
        "{pwd}"@.len() == 5,
        "{home}"@.len() == 6,
{
    reveal_strlit("{debug_port}");
    reveal_strlit("{service}");
    reveal_strlit("{domain}");
    reveal_strlit("{group}");
    reveal_strlit("{proxy_port}");
    reveal_strlit("{pwd}");
    reveal_strlit("{home}");
}

proof fn lemma_decimal_opens_nothing(n: nat)
    ensures
        opens_nothing(decimal(n)),
{
    crate::text_laws::numbers_are_written_in_decimal(n);
    assert forall|i: int| 0 <= i < decimal(n).len() implies #[trigger] decimal(n)[i] != '{' by {
        assert('0' <= decimal(n)[i] <= '9');
    }
}

/// `{home}` is replaced wherever it stands, and nothing else.
pub proof fn home_is_replaced_in_a_location(a: Seq<char>, b: Seq<char>, home: Seq<char>)
    requires
        opens_nothing(a),
    ensures
        located(a, home) == a,
        located(a + "{home}"@ + b, home) == a + home + located(b, home),
{
    lemma_tokens();
    let none = Seq::<char>::empty();
    lemma_replace_behind(a, none, "{home}"@, home);
    assert(a + none =~= a);
    assert(a + "{home}"@ + b =~= a + ("{home}"@ + b));
    lemma_replace_behind(a, "{home}"@ + b, "{home}"@, home);
    lemma_replace_token(b, "{home}"@, home);
    assert(a + (home + located(b, home)) =~= a + home + located(b, home));
}

/// A host path gets the current directory for `{pwd}`, the home directory for `{home}` and the
/// location of the domain for `{domain}`, wherever they stand, and nothing else is replaced.
pub proof fn tokens_of_host_paths_are_replaced(
    a: Seq<char>,
    b: Seq<char>,
    pwd: Seq<char>,
    home: Seq<char>,
    domain: Seq<char>,
)
    requires
        opens_nothing(a),
        opens_nothing(pwd),
        opens_nothing(home),
    ensures
        host_path(a, pwd, home, domain) == a,
        host_path(a + "{pwd}"@ + b, pwd, home, domain) == a + pwd + host_path(
            b,
            pwd,
            home,
            domain,
        ),
        host_path(a + "{home}"@ + b, pwd, home, domain) == a + home + host_path(
            b,
            pwd,
            home,
            domain,
        ),
        host_path(a + "{domain}"@ + b, pwd, home, domain) == a + domain + host_path(
            b,
            pwd,
            home,
            domain,
        ),
{
    lemma_tokens();
    let none = Seq::<char>::empty();
    let p = "{pwd}"@;
    let h = "{home}"@;
    let d = "{domain}"@;
    lemma_replace_behind(a, none, p, pwd);
    lemma_replace_behind(a, none, h, home);
    lemma_replace_behind(a, none, d, domain);
    assert(a + none =~= a);
    let b1 = replace_all(b, p, pwd);
    let b2 = replace_all(b1, h, home);
    let b3 = replace_all(b2, d, domain);
    // `{pwd}`
    assert(a + p + b =~= a + (p + b));
    lemma_replace_behind(a, p + b, p, pwd);
    lemma_replace_token(b, p, pwd);
    lemma_replace_behind(a, pwd + b1, h, home);
    lemma_replace_behind(pwd, b1, h, home);
    lemma_replace_behind(a, pwd + b2, d, domain);
    lemma_replace_behind(pwd, b2, d, domain);
    assert(a + (pwd + b3) =~= a + pwd + b3);
    // `{home}`
    assert(a + h + b =~= a + (h + b));
    lemma_replace_behind(a, h + b, p, pwd);
    lemma_replace_other(h, b, p, pwd, 1);
    lemma_replace_behind(a, h + b1, h, home);
    lemma_replace_token(b1, h, home);
    lemma_replace_behind(a, home + b2, d, domain);
    lemma_replace_behind(home, b2, d, domain);
    assert(a + (home + b3) =~= a + home + b3);
    // `{domain}`
    assert(a + d + b =~= a + (d + b));
    lemma_replace_behind(a, d + b, p, pwd);
    lemma_replace_other(d, b, p, pwd, 1);
    lemma_replace_behind(a, d + b1, h, home);
    lemma_replace_other(d, b1, h, home, 1);
    lemma_replace_behind(a, d + b2, d, domain);
    lemma_replace_token(b2, d, domain);
    assert(a + (domain + b3) =~= a + domain + b3);
}

/// The names in the context open no brace.
pub open spec fn has_plain_names(ctx: TokenCtx) -> bool {
    opens_nothing(ctx.service@) && opens_nothing(ctx.domain@) && opens_nothing(ctx.group@)
}

/// What becomes of a piece of text behind something that opens no brace, if each of the five
/// replacements leaves the piece or turns it into something that opens no brace.
proof fn lemma_substitute(
    ctx: TokenCtx,
    a: Seq<char>,
    token: Seq<char>,
    to: Seq<char>,
    b: Seq<char>,
)
    requires
        opens_nothing(a),
        opens_nothing(to),
        has_plain_names(ctx),
        (token == "{debug_port}"@ && to == decimal(ctx.debug_port as nat)) || (token
            == "{service}"@ && to == ctx.service@) || (token == "{domain}"@ && to == ctx.domain@)
            || (token == "{group}"@ && to == ctx.group@) || (token == "{proxy_port}"@
            && ctx.proxy_port is Some && to == decimal(ctx.proxy_port->0 as nat)),
    ensures
        ctx.substituted(a + token + b) == a + to + ctx.substituted(b),
{
    lemma_tokens();
    let f1 = "{debug_port}"@;
    let f2 = "{service}"@;
    let f3 = "{domain}"@;
    let f4 = "{group}"@;
    let f5 = "{proxy_port}"@;
    let t1 = decimal(ctx.debug_port as nat);
    let b1 = replace_all(b, f1, t1);
    let b2 = replace_all(b1, f2, ctx.service@);
    let b3 = replace_all(b2, f3, ctx.domain@);
    let b4 = replace_all(b3, f4, ctx.group@);
    assert(a + token + b =~= a + (token + b));
    let x0 = token;
    let x1 = if token == f1 { to } else { token };
    let x2 = if token == f2 { to } else { x1 };
    let x3 = if token == f3 { to } else { x2 };
    let x4 = if token == f4 { to } else { x3 };
    lemma_step(a, x0, x1, b, f1, t1, token, to);
    lemma_step(a, x1, x2, b1, f2, ctx.service@, token, to);
    lemma_step(a, x2, x3, b2, f3, ctx.domain@, token, to);
    lemma_step(a, x3, x4, b3, f4, ctx.group@, token, to);
    if ctx.proxy_port is Some {
        let t5 = decimal(ctx.proxy_port->0 as nat);
        let x5 = if token == f5 { to } else { x4 };
        lemma_step(a, x4, x5, b4, f5, t5, token, to);
    }
    assert(a + (to + ctx.substituted(b)) =~= a + to + ctx.substituted(b));
}

/// One replacement behind something that opens no brace.
proof fn lemma_step(
    a: Seq<char>,
    x: Seq<char>,
    y: Seq<char>,
    b: Seq<char>,
    from: Seq<char>,
    to_now: Seq<char>,
    token: Seq<char>,
    to: Seq<char>,
)
    requires
        opens_nothing(a),
        opens_nothing(to),
        is_token(from),
        is_token(token),
        x == token || x == to,
        x == token && token == from ==> y == to && to_now == to,
        x != token || token != from ==> y == x,
        from != token ==> from.len() > 2 && token.len() > 2 && (from[1] != token[1] || from[2]
            != token[2]),
        x == token && x == to ==> false,
        x == to && token == from ==> y == to,
    ensures
        replace_all(a + (x + b), from, to_now) == a + (y + replace_all(b, from, to_now)),
{
    lemma_replace_behind(a, x + b, from, to_now);
    if x == to {
        lemma_replace_behind(to, b, from, to_now);
    } else if token == from {
        lemma_replace_token(b, from, to_now);
    } else if from[1] != token[1] {
        lemma_replace_other(token, b, from, to_now, 1);
    } else {
        lemma_replace_other(token, b, from, to_now, 2);
    }
}

/// Each token is replaced wherever it stands, and by its own value: the debug port, the names
/// of the service, the domain and the group, and the reverse-proxy port where there is one.
/// Nothing else is replaced.
pub proof fn tokens_are_replaced_by_their_values(ctx: TokenCtx, a: Seq<char>, b: Seq<char>)
    requires
        opens_nothing(a),
        has_plain_names(ctx),
    ensures
        ctx.substituted(a) == a,
        ctx.substituted(a + "{debug_port}"@ + b) == a + decimal(ctx.debug_port as nat)
            + ctx.substituted(b),
        ctx.substituted(a + "{service}"@ + b) == a + ctx.service@ + ctx.substituted(b),
        ctx.substituted(a + "{domain}"@ + b) == a + ctx.domain@ + ctx.substituted(b),
        ctx.substituted(a + "{group}"@ + b) == a + ctx.group@ + ctx.substituted(b),
        ctx.proxy_port is Some ==> ctx.substituted(a + "{proxy_port}"@ + b) == a + decimal(
            ctx.proxy_port->0 as nat,
        ) + ctx.substituted(b),
        ctx.proxy_port is None ==> ctx.substituted(a + "{proxy_port}"@ + b) == a
            + "{proxy_port}"@ + ctx.substituted(b),
{
    lemma_tokens();
    lemma_decimal_opens_nothing(ctx.debug_port as nat);
    lemma_substitute(ctx, a, "{debug_port}"@, decimal(ctx.debug_port as nat), b);
    lemma_substitute(ctx, a, "{service}"@, ctx.service@, b);
    lemma_substitute(ctx, a, "{domain}"@, ctx.domain@, b);
    lemma_substitute(ctx, a, "{group}"@, ctx.group@, b);
    lemma_nothing_to_substitute(ctx, a);
    if ctx.proxy_port is Some {
        lemma_decimal_opens_nothing(ctx.proxy_port->0 as nat);
        lemma_substitute(ctx, a, "{proxy_port}"@, decimal(ctx.proxy_port->0 as nat), b);
    } else {
        lemma_proxy_port_stays(ctx, a, b);
    }
}

proof fn lemma_nothing_to_substitute(ctx: TokenCtx, a: Seq<char>)
    requires
        opens_nothing(a),
    ensures
        ctx.substituted(a) == a,
{
    lemma_tokens();
    let none = Seq::<char>::empty();
    assert(a + none =~= a);
    lemma_replace_behind(a, none, "{debug_port}"@, decimal(ctx.debug_port as nat));
    lemma_replace_behind(a, none, "{service}"@, ctx.service@);
    lemma_replace_behind(a, none, "{domain}"@, ctx.domain@);
    lemma_replace_behind(a, none, "{group}"@, ctx.group@);
    if ctx.proxy_port is Some {
        lemma_replace_behind(a, none, "{proxy_port}"@, decimal(ctx.proxy_port->0 as nat));
    }
}

proof fn lemma_proxy_port_stays(ctx: TokenCtx, a: Seq<char>, b: Seq<char>)
    requires
        opens_nothing(a),
        ctx.proxy_port is None,
    ensures
        ctx.substituted(a + "{proxy_port}"@ + b) == a + "{proxy_port}"@ + ctx.substituted(b),
{
    lemma_tokens();
    let p = "{proxy_port}"@;
    let t1 = decimal(ctx.debug_port as nat);
    let b1 = replace_all(b, "{debug_port}"@, t1);
    let b2 = replace_all(b1, "{service}"@, ctx.service@);
    let b3 = replace_all(b2, "{domain}"@, ctx.domain@);
    let b4 = replace_all(b3, "{group}"@, ctx.group@);
    assert(a + p + b =~= a + (p + b));
    lemma_replace_behind(a, p + b, "{debug_port}"@, t1);
    lemma_replace_other(p, b, "{debug_port}"@, t1, 1);
    lemma_replace_behind(a, p + b1, "{service}"@, ctx.service@);
    lemma_replace_other(p, b1, "{service}"@, ctx.service@, 1);
    lemma_replace_behind(a, p + b2, "{domain}"@, ctx.domain@);
    lemma_replace_other(p, b2, "{domain}"@, ctx.domain@, 1);
    lemma_replace_behind(a, p + b3, "{group}"@, ctx.group@);
    lemma_replace_other(p, b3, "{group}"@, ctx.group@, 1);
    assert(a + (p + b4) =~= a + p + b4);
}

// ---------------------------------------------------------------------------
// Debug ports
// ---------------------------------------------------------------------------
/// The port can be handed out: not below the base, not below where the search goes on, and
/// neither skipped nor reserved.
pub open spec fn is_free(p: u16, base: u16, skip: Set<u16>, reserved: Set<u16>, next: u16) -> bool {
    p >= base && p >= next && !skip.contains(p) && !reserved.contains(p)
}

/// A service keeps the port that it had, where that is not below the base and not skipped.
/// Otherwise it gets the lowest port that is free. A port can be handed out where one is kept
/// or one is free, and another port follows it.
pub proof fn debug_port_is_kept_or_the_lowest_free(
    persisted: Option<u16>,
    base: u16,
    skip: Set<u16>,
    reserved: Set<u16>,
    next: u16,
)
    ensures
        ({
            let keeps = persisted is Some && persisted->0 >= base && !skip.contains(persisted->0);
            let p = chosen_port(persisted, base, skip, reserved, next);
            let can = can_choose(persisted, base, skip, reserved, next);
            &&& keeps ==> can && p == persisted->0
            &&& !keeps && can ==> is_free(p, base, skip, reserved, next)
            &&& !keeps && can ==> forall|q: u16| #[trigger]
                is_free(q, base, skip, reserved, next) ==> p <= q
            &&& !keeps ==> (can <==> exists|q: u16|
                q < 0xffff && #[trigger] is_free(q, base, skip, reserved, next))
        }),
{
    let start = search_start(base, next);
    lemma_first_free(start, reserved, skip);
    let f = first_free(start, reserved, skip);
    if f < 0xffff {
        assert(is_free(f as u16, base, skip, reserved, next));
    }
}

/// Conventional local services keep their ports to themselves.
pub proof fn conventional_ports_are_skipped(p: u16)
    ensures
        skip_ports().contains(p) <==> p == 9000 || p == 9003 || p == 9090 || p == 9092 || p == 9200
            || p == 9229 || p == 11211,
{
}

// ---------------------------------------------------------------------------
// Reverse-proxy ports
// ---------------------------------------------------------------------------
/// The number that a port map holds for a service as its reverse-proxy port: the one under
/// `port`, or the bare number that the entry is.
pub open spec fn holds_proxy_number(
    portmap: JsonView,
    d: Seq<char>,
    g: Seq<char>,
    s: Seq<char>,
    n: u64,
) -> bool {
    &&& portmap is Object && portmap->Object_0.contains_key(d)
    &&& portmap->Object_0[d] is Object && portmap->Object_0[d]->Object_0.contains_key(g)
    &&& portmap->Object_0[d]->Object_0[g] is Object
    &&& portmap->Object_0[d]->Object_0[g]->Object_0.contains_key(s)
    &&& match portmap->Object_0[d]->Object_0[g]->Object_0[s] {
        JsonView::Object(m) => m.contains_key("port"@) && m["port"@] is Number && number_value(
            m["port"@]->Number_0,
        ) == Some(n),
        JsonView::Number(x) => number_value(x) == Some(n),
        _ => false,
    }
}

/// The reverse-proxy port of a service is read from the number that the port map holds for it,
/// in the 16 bits of a port, and there is none where the port map holds no number.
pub proof fn proxy_port_is_read_from_the_portmap(
    portmap: JsonView,
    d: Seq<char>,
    g: Seq<char>,
    s: Seq<char>,
)
    ensures
        forall|n: u64| #[trigger]
            holds_proxy_number(portmap, d, g, s, n) ==> proxy_port_in(portmap, d, g, s) == Some(
                (n % 0x10000) as u16,
            ),
        (forall|n: u64| !#[trigger] holds_proxy_number(portmap, d, g, s, n)) ==> proxy_port_in(
            portmap,
            d,
            g,
            s,
        ) is None,
{
    if proxy_port_in(portmap, d, g, s) is Some {
        let n = match portmap->Object_0[d]->Object_0[g]->Object_0[s] {
            JsonView::Object(m) => number_value(m["port"@]->Number_0)->0,
            JsonView::Number(x) => number_value(x)->0,
            _ => 0,
        };
        assert(holds_proxy_number(portmap, d, g, s, n));
    }
}

} // verus!
