//! Ports: the debug port of each service, and the port map that a deployment
//! leaves behind.
use crate::json::{JsonValue, JsonView};
use crate::text::{decimal, decimal_of, has_part, lemma_replace_absent, replace_all, str_replace};
use std::collections::HashSet;
use vstd::prelude::*;

verus! {

broadcast use vstd::std_specs::hash::group_hash_axioms;

// ---------------------------------------------------------------------------
// Tokens
// ---------------------------------------------------------------------------
/// Values for the `{token}`s in `variables`, `serve_command` and
/// `host_portmappings`.
///
/// `{domain}` is the *name* of the domain here, unlike in host paths, where it is
/// the location of the domain.
pub struct TokenCtx<'a> {
    pub domain: &'a str,
    pub group: &'a str,
    pub service: &'a str,
    /// Stable debug port of the service, unique to it.
    pub debug_port: u16,
    /// Reverse-proxy port of the service, if assigned.
    pub proxy_port: Option<u16>,
}

impl<'a> TokenCtx<'a> {
    /// A text with its tokens replaced. One token is replaced after the other, and
    /// unknown tokens stay.
    pub open spec fn substituted(self, input: Seq<char>) -> Seq<char> {
        let s = replace_all(input, "{debug_port}"@, decimal(self.debug_port as nat));
        let s = replace_all(s, "{service}"@, self.service@);
        let s = replace_all(s, "{domain}"@, self.domain@);
        let s = replace_all(s, "{group}"@, self.group@);
        match self.proxy_port {
            Some(p) => replace_all(s, "{proxy_port}"@, decimal(p as nat)),
            None => s,
        }
    }
}

/// Replaces `{debug_port}`, `{service}`, `{domain}`, `{group}` and, where one is
/// assigned, `{proxy_port}`. Unknown tokens are left untouched.
pub fn substitute_tokens(input: &str, ctx: &TokenCtx) -> (r: String)
    ensures
        r@ == ctx.substituted(input@),
{
    proof {
        reveal_strlit("{debug_port}");
        reveal_strlit("{service}");
        reveal_strlit("{domain}");
        reveal_strlit("{group}");
        reveal_strlit("{proxy_port}");
    }
    let out = str_replace(input, "{debug_port}", decimal_of(ctx.debug_port as u64).as_str());
    let out = str_replace(out.as_str(), "{service}", ctx.service);
    let out = str_replace(out.as_str(), "{domain}", ctx.domain);
    let out = str_replace(out.as_str(), "{group}", ctx.group);
    match ctx.proxy_port {
        Some(p) => str_replace(out.as_str(), "{proxy_port}", decimal_of(p as u64).as_str()),
        None => out,
    }
}

/// A text in which no known token occurs is left as it is, whatever unknown tokens it holds.
pub proof fn text_without_known_tokens_is_unchanged(ctx: TokenCtx, input: Seq<char>)
    requires
        !has_part(input, "{debug_port}"@),
        !has_part(input, "{service}"@),
        !has_part(input, "{domain}"@),
        !has_part(input, "{group}"@),
        ctx.proxy_port is Some ==> !has_part(input, "{proxy_port}"@),
    ensures
        ctx.substituted(input) == input,
{
    lemma_replace_absent(input, "{debug_port}"@, decimal(ctx.debug_port as nat));
    lemma_replace_absent(input, "{service}"@, ctx.service@);
    lemma_replace_absent(input, "{domain}"@, ctx.domain@);
    lemma_replace_absent(input, "{group}"@, ctx.group@);
    if ctx.proxy_port is Some {
        lemma_replace_absent(input, "{proxy_port}"@, decimal(ctx.proxy_port->0 as nat));
    }
}

// ---------------------------------------------------------------------------
// Debug ports
// ---------------------------------------------------------------------------
/// Default base of the debug-port range: a sparse block well clear of the crowded
/// zone of development servers and below the ephemeral range. A configuration can
/// set another one.
pub const DEBUG_PORT_BASE: u16 = 13000;

/// Host ports of conventional local services, which are never handed out as debug
/// ports.
pub open spec fn skip_ports() -> Set<u16> {
    set![9000u16, 9003u16, 9090u16, 9092u16, 9200u16, 9229u16, 11211u16]
}

/// Host ports of conventional local services, which are never handed out as debug
/// ports.
pub fn well_known_skip_ports() -> (r: HashSet<u16>)
    ensures
        r@ == skip_ports(),
{
    let mut ports: HashSet<u16> = HashSet::new();
    ports.insert(9000);
    ports.insert(9003);
    ports.insert(9090);
    ports.insert(9092);
    ports.insert(9200);
    ports.insert(9229);
    ports.insert(11211);
    assert(ports@ =~= skip_ports());
    ports
}

/// A port that was assigned before is kept where it is in range and not skipped.
pub open spec fn keeps_port(persisted: Option<u16>, base: u16, skip: Set<u16>) -> bool {
    match persisted {
        Some(p) => p >= base && !skip.contains(p),
        None => false,
    }
}

/// The first port from `start` on that is neither reserved nor skipped, or one past
/// the last port where there is none.
pub open spec fn first_free(start: int, reserved: Set<u16>, skip: Set<u16>) -> int
    decreases 0x10000 - start,
{
    if start >= 0x10000 {
        0x10000
    } else if reserved.contains(start as u16) || skip.contains(start as u16) {
        first_free(start + 1, reserved, skip)
    } else {
        start
    }
}

/// Where the search for a new port starts.
pub open spec fn search_start(base: u16, next: u16) -> int {
    if next < base {
        base as int
    } else {
        next as int
    }
}

/// There is a port to hand out, and one after it to go on from.
pub open spec fn can_choose(
    persisted: Option<u16>,
    base: u16,
    skip: Set<u16>,
    reserved: Set<u16>,
    next: u16,
) -> bool {
    keeps_port(persisted, base, skip) || first_free(search_start(base, next), reserved, skip)
        < 0xffff
}

/// The port that a service gets.
pub open spec fn chosen_port(
    persisted: Option<u16>,
    base: u16,
    skip: Set<u16>,
    reserved: Set<u16>,
    next: u16,
) -> u16 {
    if keeps_port(persisted, base, skip) {
        persisted->0
    } else {
        first_free(search_start(base, next), reserved, skip) as u16
    }
}

/// What the search found lies in the range searched and is free, and everything
/// before it is not.
pub proof fn lemma_first_free(start: int, reserved: Set<u16>, skip: Set<u16>)
    requires
        0 <= start <= 0x10000,
    ensures
        start <= first_free(start, reserved, skip) <= 0x10000,
        first_free(start, reserved, skip) < 0x10000 ==> !reserved.contains(
            first_free(start, reserved, skip) as u16,
        ) && !skip.contains(first_free(start, reserved, skip) as u16),
        forall|q: u16|
            start <= q < first_free(start, reserved, skip) ==> reserved.contains(q)
                || skip.contains(q),
    decreases 0x10000 - start,
{
    if start < 0x10000 && (reserved.contains(start as u16) || skip.contains(start as u16)) {
        lemma_first_free(start + 1, reserved, skip);
        assert forall|q: u16| start <= q < first_free(start, reserved, skip) implies
            reserved.contains(q) || skip.contains(q) by {
            if q == start {
                assert(q == start as u16);
            }
        }
    }
}

/// Is there a port that [`choose_debug_port`] can hand out?
pub fn can_choose_debug_port(
    persisted: Option<u16>,
    base: u16,
    skip: &HashSet<u16>,
    reserved: &HashSet<u16>,
    next: u16,
) -> (r: bool)
    ensures
        r == can_choose(persisted, base, skip@, reserved@, next),
{
    match persisted {
        Some(p) => {
            if p >= base && !skip.contains(&p) {
                return true;
            }
        },
        None => {},
    }
    let mut p: u16 = if next < base {
        base
    } else {
        next
    };
    while p < 0xffff && (reserved.contains(&p) || skip.contains(&p))
        invariant
            first_free(search_start(base, next), reserved@, skip@) == first_free(
                p as int,
                reserved@,
                skip@,
            ),
        decreases 0xffff - p,
    {
        p += 1;
    }
    proof {
        lemma_first_free(p as int, reserved@, skip@);
    }
    p < 0xffff
}

/// Decides the debug port of a service.
///
/// A port that was assigned before is kept where it is in range and not skipped,
/// so that editor configurations stay valid across deployments. Otherwise the next
/// free port from `base` on is assigned and recorded. So a port below a new base
/// moves into the new range.
pub fn choose_debug_port(
    persisted: Option<u16>,
    base: u16,
    skip: &HashSet<u16>,
    reserved: &mut HashSet<u16>,
    next: &mut u16,
) -> (r: u16)
    requires
        can_choose(persisted, base, skip@, old(reserved)@, *old(next)),
    ensures
        r == chosen_port(persisted, base, skip@, old(reserved)@, *old(next)),
        keeps_port(persisted, base, skip@) ==> final(reserved)@ == old(reserved)@ && *final(next)
            == *old(next),
        !keeps_port(persisted, base, skip@) ==> final(reserved)@ == old(reserved)@.insert(r)
            && *final(next) == r + 1,
{
    match persisted {
        Some(p) => {
            if p >= base && !skip.contains(&p) {
                return p;
            }
        },
        None => {},
    }
    if *next < base {
        *next = base;
    }
    while reserved.contains(&*next) || skip.contains(&*next)
        invariant
            reserved@ == old(reserved)@,
            first_free(search_start(base, *old(next)), reserved@, skip@) < 0xffff,
            first_free(search_start(base, *old(next)), reserved@, skip@) == first_free(
                *next as int,
                reserved@,
                skip@,
            ),
        decreases 0x10000 - *next,
    {
        proof {
            lemma_first_free(*next + 1, reserved@, skip@);
        }
        *next += 1;
    }
    let p: u16 = *next;
    reserved.insert(p);
    *next += 1;
    p
}

/// The port of a service is in range and none of the skipped ones. A port that was
/// assigned before stays; a new one was not reserved.
pub proof fn debug_port_is_usable(
    persisted: Option<u16>,
    base: u16,
    skip: Set<u16>,
    reserved: Set<u16>,
    next: u16,
)
    requires
        can_choose(persisted, base, skip, reserved, next),
    ensures
        chosen_port(persisted, base, skip, reserved, next) >= base,
        !skip.contains(chosen_port(persisted, base, skip, reserved, next)),
        keeps_port(persisted, base, skip) ==> Some(
            chosen_port(persisted, base, skip, reserved, next),
        ) == persisted,
        !keeps_port(persisted, base, skip) ==> !reserved.contains(
            chosen_port(persisted, base, skip, reserved, next),
        ),
{
    lemma_first_free(search_start(base, next), reserved, skip);
}

// ---------------------------------------------------------------------------
// The port map
// ---------------------------------------------------------------------------
/// The entry of a service in a port map.
pub open spec fn portmap_entry(
    portmap: JsonView,
    domain: Seq<char>,
    group: Seq<char>,
    service: Seq<char>,
) -> Option<JsonView> {
    match portmap.member(domain) {
        Some(d) => match d.member(group) {
            Some(g) => g.member(service),
            None => None,
        },
        None => None,
    }
}

/// The low 16 bits of a number.
pub open spec fn low_bits(n: u64) -> u16 {
    (n % 0x10000) as u16
}

/// The number under a key of an entry, reduced to a port.
pub open spec fn entry_debug_port(entry: JsonView) -> Option<u16> {
    match entry.member("debug_port"@) {
        Some(p) => match p.number() {
            Some(n) => Some(low_bits(n)),
            None => None,
        },
        None => None,
    }
}

/// The reverse-proxy port of an entry: an object with a `port`, or a bare number.
pub open spec fn entry_proxy_port(entry: JsonView) -> Option<u16> {
    let named = match entry.member("port"@) {
        Some(p) => p.number(),
        None => None,
    };
    match named {
        Some(n) => Some(low_bits(n)),
        None => match entry.number() {
            Some(n) => Some(low_bits(n)),
            None => None,
        },
    }
}

/// The debug port that a port map holds for a service.
pub open spec fn debug_port_in(
    portmap: JsonView,
    domain: Seq<char>,
    group: Seq<char>,
    service: Seq<char>,
) -> Option<u16> {
    match portmap_entry(portmap, domain, group, service) {
        Some(entry) => entry_debug_port(entry),
        None => None,
    }
}

/// The reverse-proxy port that a port map holds for a service.
pub open spec fn proxy_port_in(
    portmap: JsonView,
    domain: Seq<char>,
    group: Seq<char>,
    service: Seq<char>,
) -> Option<u16> {
    match portmap_entry(portmap, domain, group, service) {
        Some(entry) => entry_proxy_port(entry),
        None => None,
    }
}

fn find_entry<'a>(portmap: &'a JsonValue, domain: &str, group: &str, service: &str) -> (r: Option<
    &'a JsonValue,
>)
    ensures
        r is Some <==> portmap_entry(portmap@, domain@, group@, service@) is Some,
        r matches Some(v) ==> portmap_entry(portmap@, domain@, group@, service@) == Some(v@),
{
    match portmap.get(domain) {
        Some(d) => match d.get(group) {
            Some(g) => g.get(service),
            None => None,
        },
        None => None,
    }
}

/// Reads the debug port of a service from a port map.
pub fn portmap_debug_port(portmap: &JsonValue, domain: &str, group: &str, service: &str) -> (r:
    Option<u16>)
    ensures
        r == debug_port_in(portmap@, domain@, group@, service@),
{
    match find_entry(portmap, domain, group, service) {
        Some(entry) => match entry.get("debug_port") {
            Some(p) => match p.as_u64() {
                Some(n) => Some((n % 0x10000) as u16),
                None => None,
            },
            None => None,
        },
        None => None,
    }
}

/// Reads the reverse-proxy port of a service from a port map. An entry is either a
/// bare number or an object with a `port`.
pub fn portmap_proxy_port(portmap: &JsonValue, domain: &str, group: &str, service: &str) -> (r:
    Option<u16>)
    ensures
        r == proxy_port_in(portmap@, domain@, group@, service@),
{
    match find_entry(portmap, domain, group, service) {
        Some(entry) => {
            let named: Option<u64> = match entry.get("port") {
                Some(p) => p.as_u64(),
                None => None,
            };
            match named {
                Some(n) => Some((n % 0x10000) as u16),
                None => match entry.as_u64() {
                    Some(n) => Some((n % 0x10000) as u16),
                    None => None,
                },
            }
        },
        None => None,
    }
}

} // verus!
