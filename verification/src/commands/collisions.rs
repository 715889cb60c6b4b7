//! Hostnames that more than one service claims.
use crate::alias::{comparison_form, normalize_for_comparison};
use crate::commands::collision_laws::deployment_passes_when_no_hostname_has_two_services;
use crate::commands::service::{PlannedService, PlannedView};
use crate::error::ConfigError;
use crate::map::{increasing, lemma_lists_keys, lists_keys, sorted_keys, StrMap};
use crate::sort::{rank, reversed, sort_items, sorted, Ranked};
use crate::text::{lex_less, str_eq, str_less};
use vstd::prelude::*;

verus! {

/// Whether a hostname is the canonical URL of a service or one of its aliases.
#[derive(Debug, Clone, Copy, PartialEq, Eq, PartialOrd, Ord, Structural)]
pub enum HostnameSource {
    Canonical,
    Alias,
}

impl HostnameSource {
    /// How a report speaks of the source.
    pub open spec fn text(self) -> Seq<char> {
        match self {
            HostnameSource::Canonical => "canonical URL"@,
            HostnameSource::Alias => "alias"@,
        }
    }

    fn describe(self) -> (r: &'static str)
        ensures
            r@ == self.text(),
    {
        match self {
            HostnameSource::Canonical => "canonical URL",
            HostnameSource::Alias => "alias",
        }
    }
}

/// One claim on a hostname that nginx routes by.
#[derive(Debug)]
pub struct HostnameOwner {
    pub domain: String,
    pub group: String,
    pub service: String,
    pub source: HostnameSource,
    pub connection_type: String,
}

/// What a claim on a hostname is.
pub struct OwnerView {
    pub domain: Seq<char>,
    pub group: Seq<char>,
    pub service: Seq<char>,
    pub source: HostnameSource,
    pub connection_type: Seq<char>,
}

impl DeepView for HostnameOwner {
    type V = OwnerView;

    open spec fn deep_view(&self) -> OwnerView {
        OwnerView {
            domain: self.domain@,
            group: self.group@,
            service: self.service@,
            source: self.source,
            connection_type: self.connection_type@,
        }
    }
}

/// Claims rank by domain, then group, then service, then source (canonical URLs first),
/// then connection type.
pub open spec fn owner_before(a: OwnerView, b: OwnerView) -> bool {
    if a.domain != b.domain {
        lex_less(a.domain, b.domain)
    } else if a.group != b.group {
        lex_less(a.group, b.group)
    } else if a.service != b.service {
        lex_less(a.service, b.service)
    } else if a.source != b.source {
        a.source == HostnameSource::Canonical
    } else {
        lex_less(a.connection_type, b.connection_type)
    }
}

impl Ranked for HostnameOwner {
    open spec fn before(a: OwnerView, b: OwnerView) -> bool {
        owner_before(a, b)
    }

    fn ranks_before(&self, other: &HostnameOwner) -> (r: bool) {
        if !str_eq(self.domain.as_str(), other.domain.as_str()) {
            str_less(self.domain.as_str(), other.domain.as_str())
        } else if !str_eq(self.group.as_str(), other.group.as_str()) {
            str_less(self.group.as_str(), other.group.as_str())
        } else if !str_eq(self.service.as_str(), other.service.as_str()) {
            str_less(self.service.as_str(), other.service.as_str())
        } else if self.source != other.source {
            self.source == HostnameSource::Canonical
        } else {
            str_less(self.connection_type.as_str(), other.connection_type.as_str())
        }
    }
}

// ---------------------------------------------------------------------------
// Claims
// ---------------------------------------------------------------------------
/// A claim of a service.
pub open spec fn owner(s: PlannedView, source: HostnameSource) -> OwnerView {
    OwnerView {
        domain: s.domain,
        group: s.group,
        service: s.service,
        source,
        connection_type: s.connection_type,
    }
}

/// nginx routes a hostname with the given form for comparison to the service.
pub open spec fn has_claim(s: PlannedView, name: Seq<char>) -> bool {
    s.is_host_routed() && exists|k: int|
        0 <= k < s.hostnames().len() && comparison_form(#[trigger] s.hostnames()[k]) == name
}

/// Two services that nginx routes by hostname share a hostname.
pub open spec fn share_hostname(a: PlannedView, b: PlannedView) -> bool {
    a.is_host_routed() && b.is_host_routed() && exists|x: int, y: int|
        0 <= x < a.hostnames().len() && 0 <= y < b.hostnames().len() && comparison_form(
            #[trigger] a.hostnames()[x],
        ) == comparison_form(#[trigger] b.hostnames()[y])
}

/// Two different services share a hostname. One that a service repeats is no collision: all
/// of its hostnames lead to the same place.
pub open spec fn has_collision(services: Seq<PlannedView>) -> bool {
    exists|i: int, j: int|
        0 <= i < j < services.len() && share_hostname(
            #[trigger] services[i],
            #[trigger] services[j],
        )
}

/// Two different services claim the hostname.
pub open spec fn collides(services: Seq<PlannedView>, name: Seq<char>) -> bool {
    exists|i: int, j: int|
        0 <= i < j < services.len() && has_claim(#[trigger] services[i], name) && has_claim(
            #[trigger] services[j],
            name,
        )
}

/// The claim that an alias is.
pub open spec fn alias_owners(s: PlannedView, alias: Seq<char>, name: Seq<char>) -> Seq<OwnerView> {
    if comparison_form(alias) == name {
        seq![owner(s, HostnameSource::Alias)]
    } else {
        Seq::empty()
    }
}

/// The claims that a service has on a hostname: by its canonical hostname, then by its
/// aliases.
pub open spec fn service_owners(s: PlannedView, name: Seq<char>) -> Seq<OwnerView>
    decreases s.aliases.len(),
{
    if !s.is_host_routed() {
        Seq::empty()
    } else if s.aliases.len() > 0 {
        service_owners(with_aliases(s, s.aliases.drop_last()), name) + alias_owners(
            s,
            s.aliases.last(),
            name,
        )
    } else if s.canonical_key() == name {
        seq![owner(s, HostnameSource::Canonical)]
    } else {
        Seq::empty()
    }
}

/// A service with other aliases.
pub open spec fn with_aliases(s: PlannedView, aliases: Seq<Seq<char>>) -> PlannedView {
    PlannedView { aliases, ..s }
}

/// All claims on a hostname, in the order of the services.
pub open spec fn owners(services: Seq<PlannedView>, name: Seq<char>) -> Seq<OwnerView>
    decreases services.len(),
{
    if services.len() == 0 {
        Seq::empty()
    } else {
        owners(services.drop_last(), name) + service_owners(services.last(), name)
    }
}

/// The hostnames that different services claim, each with all claims on it.
pub open spec fn collisions(services: Seq<PlannedView>) -> Map<Seq<char>, Seq<OwnerView>> {
    Map::new(
        |name: Seq<char>| collides(services, name),
        |name: Seq<char>| owners(services, name),
    )
}

/// The line of one claim.
pub open spec fn owner_line(o: OwnerView) -> Seq<char> {
    "    "@ + o.source.text() + " for "@ + o.domain + "/"@ + o.group + "/"@ + o.service + " ("@
        + o.connection_type + ")\n"@
}

/// The lines of claims.
pub open spec fn owner_lines(owners: Seq<OwnerView>) -> Seq<char>
    decreases owners.len(),
{
    if owners.len() == 0 {
        Seq::empty()
    } else {
        owner_lines(owners.drop_last()) + owner_line(owners.last())
    }
}

/// The report on the given hostnames, each with its claims in order.
pub open spec fn collision_lines(
    m: Map<Seq<char>, Seq<OwnerView>>,
    names: Seq<Seq<char>>,
) -> Seq<char>
    decreases names.len(),
{
    if names.len() == 0 {
        Seq::empty()
    } else {
        let name = names.last();
        collision_lines(m, names.drop_last()) + "  "@ + name + "\n"@ + owner_lines(
            sorted(m[name], rank::<HostnameOwner>()),
        ) + "\n"@
    }
}

/// The report of hostnames that different services claim, in the order of the hostnames.
pub open spec fn collision_report(services: Seq<PlannedView>) -> Seq<char> {
    "Cannot deploy because some HTTP/WebSocket hostnames are assigned to multiple services:\n\n"@
        + collision_lines(collisions(services), sorted_keys(collisions(services)))
        + "Each HTTP/WebSocket hostname must map to exactly one service. Remove or rename the\nconflicting aliases and run `darp deploy` again.\n\nNo deployment artifacts were changed."@
}

// ---------------------------------------------------------------------------
// Detecting
// ---------------------------------------------------------------------------
/// The claims on one hostname, with the position of the service that claimed it last.
pub struct Owners {
    pub list: Vec<HostnameOwner>,
    pub last: usize,
    /// More than one service is among the claims.
    pub shared: bool,
}

/// What is known of a hostname.
pub struct OwnersView {
    pub list: Seq<OwnerView>,
    pub last: int,
    pub shared: bool,
}

impl DeepView for Owners {
    type V = OwnersView;

    open spec fn deep_view(&self) -> OwnersView {
        OwnersView { list: self.list.deep_view(), last: self.last as int, shared: self.shared }
    }
}

/// What is known of a hostname is what the services claim.
spec fn is_known(
    m: Map<Seq<char>, OwnersView>,
    services: Seq<PlannedView>,
    name: Seq<char>,
) -> bool {
    if m.contains_key(name) {
        let e = m[name];
        &&& e.list == owners(services, name)
        &&& 0 <= e.last < services.len()
        &&& has_claim(services[e.last], name)
        &&& forall|j: int| e.last < j < services.len() ==> !has_claim(#[trigger] services[j], name)
        &&& e.shared == collides(services, name)
    } else {
        &&& owners(services, name) == Seq::<OwnerView>::empty()
        &&& forall|j: int| 0 <= j < services.len() ==> !has_claim(#[trigger] services[j], name)
    }
}

/// All claims of the services are known.
spec fn all_known(m: Map<Seq<char>, OwnersView>, services: Seq<PlannedView>) -> bool {
    forall|name: Seq<char>| #[trigger] is_known(m, services, name)
}

/// One more claim, of the last service, is known.
proof fn lemma_claim_is_known(
    m: Map<Seq<char>, OwnersView>,
    before: Seq<PlannedView>,
    after: Seq<PlannedView>,
    name: Seq<char>,
    o: OwnerView,
)
    requires
        all_known(m, before),
        after.len() > 0,
        before.len() == after.len() || before.len() == after.len() - 1,
        before.take(after.len() - 1) == after.drop_last(),
        has_claim(after.last(), name),
        owners(after, name) == owners(before, name).push(o),
        forall|n: Seq<char>|
            n != name ==> (#[trigger] has_claim(after.last(), n) <==> before.len() == after.len()
                && has_claim(before.last(), n)),
        forall|n: Seq<char>| n != name ==> #[trigger] owners(after, n) == owners(before, n),
    ensures
        ({
            let p = after.len() - 1;
            let e = if m.contains_key(name) {
                OwnersView {
                    list: m[name].list.push(o),
                    last: p,
                    shared: m[name].shared || m[name].last != p,
                }
            } else {
                OwnersView { list: seq![o], last: p, shared: false }
            };
            all_known(m.insert(name, e), after)
        }),
{
    let p = after.len() - 1;
    let e = if m.contains_key(name) {
        OwnersView {
            list: m[name].list.push(o),
            last: p,
            shared: m[name].shared || m[name].last != p,
        }
    } else {
        OwnersView { list: seq![o], last: p, shared: false }
    };
    let r = m.insert(name, e);
    assert forall|j: int| 0 <= j < p implies #[trigger] after[j] == before[j] by {
        assert(before.take(p)[j] == after.drop_last()[j]);
    }
    assert forall|n: Seq<char>| #[trigger] is_known(r, after, n) by {
        assert(is_known(m, before, n));
        if collides(before, n) {
            let (i, j) = choose|i: int, j: int|
                0 <= i < j < before.len() && has_claim(#[trigger] before[i], n) && has_claim(
                    #[trigger] before[j],
                    n,
                );
            assert(after[i] == before[i]);
            if j < p {
                assert(after[j] == before[j]);
            }
            assert(has_claim(after[i], n) && has_claim(after[j], n));
        }
        if collides(after, n) {
            let (i, j) = choose|i: int, j: int|
                0 <= i < j < after.len() && has_claim(#[trigger] after[i], n) && has_claim(
                    #[trigger] after[j],
                    n,
                );
            assert(after[i] == before[i]);
            assert(has_claim(before[i], n));
            if n != name {
                if j < p {
                    assert(after[j] == before[j]);
                }
                assert(has_claim(before[j], n));
            } else if j < p {
                assert(after[j] == before[j]);
                assert(has_claim(before[j], n));
            } else if m[n].last == p {
                assert(has_claim(before[p], n));
                assert(collides(before, n));
            }
        }
        if n == name {
            assert(seq![o] =~= Seq::<OwnerView>::empty().push(o));
            if m.contains_key(n) && m[n].last < p {
                assert(after[m[n].last] == before[m[n].last]);
                assert(has_claim(after[m[n].last], n) && has_claim(after[p], n));
            }
        } else {
            assert forall|j: int| 0 <= j < after.len() && (m.contains_key(n) ==> m[n].last
                < j) implies !has_claim(#[trigger] after[j], n) by {
                if j < p {
                    assert(after[j] == before[j]);
                } else if has_claim(after.last(), n) {
                    assert(has_claim(before[p], n));
                }
            }
            if m.contains_key(n) {
                let last = m[n].last;
                if last < p {
                    assert(after[last] == before[last]);
                }
                assert(has_claim(after[last], n));
            }
        }
    }
}

/// A service without claims changes nothing.
proof fn lemma_no_claims(
    m: Map<Seq<char>, OwnersView>,
    before: Seq<PlannedView>,
    s: PlannedView,
)
    requires
        all_known(m, before),
        !s.is_host_routed(),
    ensures
        all_known(m, before.push(s)),
{
    let after = before.push(s);
    assert(after.drop_last() =~= before);
    assert forall|n: Seq<char>| #[trigger] is_known(m, after, n) by {
        assert(is_known(m, before, n));
        assert(owners(after, n) =~= owners(before, n));
        assert(service_owners(s, n) =~= Seq::<OwnerView>::empty());
        if collides(before, n) {
            let (i, j) = choose|i: int, j: int|
                0 <= i < j < before.len() && has_claim(#[trigger] before[i], n) && has_claim(
                    #[trigger] before[j],
                    n,
                );
            assert(has_claim(after[i], n) && has_claim(after[j], n));
        }
        if collides(after, n) {
            let (i, j) = choose|i: int, j: int|
                0 <= i < j < after.len() && has_claim(#[trigger] after[i], n) && has_claim(
                    #[trigger] after[j],
                    n,
                );
            assert(has_claim(before[i], n) && has_claim(before[j], n));
        }
    }
}

/// The claims of a service with no aliases.
pub(crate) proof fn lemma_canonical_claim(s: PlannedView, name: Seq<char>)
    requires
        s.is_host_routed(),
        s.aliases.len() == 0,
    ensures
        has_claim(s, name) <==> s.canonical_key() == name,
{
    if s.canonical_key() == name {
        assert(comparison_form(s.hostnames()[0]) == name);
    }
}

/// The claims of a service with one more alias.
pub(crate) proof fn lemma_alias_claim(s: PlannedView, name: Seq<char>)
    requires
        s.is_host_routed(),
        s.aliases.len() > 0,
    ensures
        has_claim(s, name) <==> has_claim(with_aliases(s, s.aliases.drop_last()), name)
            || comparison_form(s.aliases.last()) == name,
{
    let t = with_aliases(s, s.aliases.drop_last());
    assert forall|k: int| 0 <= k < t.hostnames().len() implies #[trigger] t.hostnames()[k]
        == s.hostnames()[k] by {}
    assert(s.hostnames()[s.hostnames().len() - 1] == s.aliases.last());
    if has_claim(s, name) {
        let k = choose|k: int|
            0 <= k < s.hostnames().len() && comparison_form(#[trigger] s.hostnames()[k]) == name;
        if k < t.hostnames().len() {
            assert(comparison_form(t.hostnames()[k]) == name);
        }
    }
    if has_claim(t, name) {
        let k = choose|k: int|
            0 <= k < t.hostnames().len() && comparison_form(#[trigger] t.hostnames()[k]) == name;
        assert(comparison_form(s.hostnames()[k]) == name);
    }
}

fn claim(
    found: &mut StrMap<Owners>,
    name: String,
    service: &PlannedService,
    source: HostnameSource,
    position: usize,
)
    ensures
        ({
            let m = old(found)@;
            let o = owner(service.deep_view(), source);
            let e = if m.contains_key(name@) {
                OwnersView {
                    list: m[name@].list.push(o),
                    last: position as int,
                    shared: m[name@].shared || m[name@].last != position,
                }
            } else {
                OwnersView { list: seq![o], last: position as int, shared: false }
            };
            final(found)@ == m.insert(name@, e)
        }),
{
    let entry = HostnameOwner {
        domain: service.domain.clone(),
        group: service.group.clone(),
        service: service.service.clone(),
        source,
        connection_type: service.connection_type.clone(),
    };
    let ghost o = owner(service.deep_view(), source);
    assert(entry.deep_view() == o);
    let none = Owners { list: Vec::new(), last: position, shared: false };
    assert(none.deep_view().list =~= Seq::<OwnerView>::empty());
    assert(seq![o] =~= Seq::<OwnerView>::empty().push(o));
    let owners = found.get_or_insert(name.as_str(), none);
    let ghost there = owners.deep_view();
    owners.list.push(entry);
    if owners.last != position {
        owners.shared = true;
    }
    owners.last = position;
    assert(owners.deep_view().list =~= there.list.push(o));
}

fn claim_all(
    found: &mut StrMap<Owners>,
    service: &PlannedService,
    position: usize,
    Ghost(before): Ghost<Seq<PlannedView>>,
)
    requires
        all_known(old(found)@, before),
        before.len() == position,
        service.deep_view().is_host_routed(),
    ensures
        all_known(final(found)@, before.push(service.deep_view())),
{
    let ghost s = service.deep_view();
    let ghost m = found@;
    claim(found, service.canonical_key(), service, HostnameSource::Canonical, position);
    proof {
        let t = with_aliases(s, s.aliases.take(0));
        let after = before.push(t);
        assert(after.drop_last() =~= before);
        assert(before.take(position as int) =~= before);
        let o = owner(s, HostnameSource::Canonical);
        assert(owner(t, HostnameSource::Canonical) == o);
        lemma_canonical_claim(t, s.canonical_key());
        assert(owners(after, s.canonical_key()) =~= owners(before, s.canonical_key()).push(o));
        assert forall|n: Seq<char>| n != s.canonical_key() implies #[trigger] owners(after, n)
            == owners(before, n) by {
            assert(service_owners(t, n) =~= Seq::<OwnerView>::empty());
            assert(owners(after, n) =~= owners(before, n));
        }
        assert forall|n: Seq<char>| n != s.canonical_key() implies !(#[trigger] has_claim(
            after.last(),
            n,
        )) by {
            lemma_canonical_claim(t, n);
        }
        lemma_claim_is_known(m, before, after, s.canonical_key(), o);
    }
    let mut i: usize = 0;
    while i < service.aliases.len()
        invariant
            i <= service.aliases@.len(),
            s == service.deep_view(),
            s.is_host_routed(),
            before.len() == position,
            all_known(found@, before.push(with_aliases(s, s.aliases.take(i as int)))),
        decreases service.aliases@.len() - i,
    {
        let ghost m = found@;
        assert(s.aliases[i as int] == service.aliases@[i as int]@);
        claim(
            found,
            normalize_for_comparison(service.aliases[i].as_str()),
            service,
            HostnameSource::Alias,
            position,
        );
        proof {
            let name = comparison_form(s.aliases[i as int]);
            let t = with_aliases(s, s.aliases.take(i as int));
            let u = with_aliases(s, s.aliases.take(i + 1));
            assert(u.aliases.drop_last() =~= t.aliases);
            assert(with_aliases(u, u.aliases.drop_last()) == t);
            let old_ones = before.push(t);
            let after = before.push(u);
            assert(after.drop_last() =~= before);
            assert(old_ones.drop_last() =~= before);
            assert(old_ones.take(position as int) =~= before);
            let o = owner(s, HostnameSource::Alias);
            assert(owner(u, HostnameSource::Alias) == o);
            lemma_alias_claim(u, name);
            assert(owners(after, name) =~= owners(old_ones, name).push(o));
            assert forall|n: Seq<char>| n != name implies #[trigger] owners(after, n) == owners(
                old_ones,
                n,
            ) by {
                assert(owners(after, n) =~= owners(old_ones, n));
            }
            assert forall|n: Seq<char>| n != name implies (#[trigger] has_claim(after.last(), n)
                <==> has_claim(old_ones.last(), n)) by {
                lemma_alias_claim(u, n);
            }
            lemma_claim_is_known(m, old_ones, after, name, o);
        }
        i += 1;
    }
    assert(s.aliases.take(s.aliases.len() as int) =~= s.aliases);
}

fn render_owners(owners: &Vec<HostnameOwner>) -> (r: String)
    ensures
        r@ == owner_lines(owners.deep_view()),
{
    let ghost all = owners.deep_view();
    let mut lines = String::new();
    let mut i: usize = 0;
    assert(lines@ =~= owner_lines(all.take(0)));
    while i < owners.len()
        invariant
            i <= owners@.len(),
            all == owners.deep_view(),
            lines@ == owner_lines(all.take(i as int)),
        decreases owners@.len() - i,
    {
        assert(all.take(i as int + 1).drop_last() =~= all.take(i as int));
        assert(all.take(i as int + 1).last() == owners@[i as int].deep_view());
        let o = &owners[i];
        let mut line = "    ".to_string();
        line.append(o.source.describe());
        line.append(" for ");
        line.append(o.domain.as_str());
        line.append("/");
        line.append(o.group.as_str());
        line.append("/");
        line.append(o.service.as_str());
        line.append(" (");
        line.append(o.connection_type.as_str());
        line.append(")\n");
        lines.append(line.as_str());
        i += 1;
    }
    assert(all.take(all.len() as int) =~= all);
    lines
}

/// Rejects any hostname that nginx routes by and more than one service claims.
///
/// nginx routes by `server_name`. When two server blocks declare the same name it ignores
/// the second and sends every request to whichever service was registered first, and which
/// one that is can change between deployments. Silently routing a hostname to the wrong
/// project is worse than refusing to deploy.
///
/// Catches alias-to-alias, alias-to-canonical and canonical-to-canonical claims. The last
/// includes two folders of the same name in different groups, because a canonical hostname
/// has no group in it.
///
/// A hostname that one service repeats, as its canonical URL or among its aliases, is no
/// collision.
///
/// TCP services are exempt: they get no vhost, and their ports already tell them apart.
pub fn detect_hostname_collisions(services: &[PlannedService]) -> (r: Result<(), ConfigError>)
    ensures
        r is Err <==> has_collision(services.deep_view()),
        r matches Err(e) ==> e@ == collision_report(services.deep_view()),
{
    let ghost all = services.deep_view();
    let mut found: StrMap<Owners> = StrMap::new();
    let mut i: usize = 0;
    proof {
        let none = all.take(0);
        assert(none =~= Seq::<PlannedView>::empty());
        assert forall|name: Seq<char>| #[trigger] is_known(found@, none, name) by {
            assert(owners(none, name) =~= Seq::<OwnerView>::empty());
        }
    }
    while i < services.len()
        invariant
            i <= services@.len(),
            all == services.deep_view(),
            all_known(found@, all.take(i as int)),
        decreases services@.len() - i,
    {
        let ghost m = found@;
        assert(all.take(i as int).push(all[i as int]) =~= all.take(i as int + 1));
        assert(all[i as int] == services@[i as int].deep_view());
        if services[i].is_host_routed() {
            claim_all(&mut found, &services[i], i, Ghost(all.take(i as int)));
        } else {
            proof {
                lemma_no_claims(m, all.take(i as int), all[i as int]);
            }
        }
        i += 1;
    }
    assert(all.take(all.len() as int) =~= all);
    let ghost m = found@;
    let ghost names = sorted_keys(m);
    let ghost wanted = collisions(all);
    let entries = found.into_entries();
    let ghost given = entries@;
    let mut rest = reversed(entries);
    let mut lines = String::new();
    let mut collide = false;
    let ghost mut shown: Seq<Seq<char>> = Seq::empty();
    assert(lines@ =~= collision_lines(wanted, shown));
    while rest.len() > 0
        invariant
            all == services.deep_view(),
            wanted == collisions(all),
            all_known(m, all),
            names == sorted_keys(m),
            lists_keys(names, m),
            given.len() == names.len(),
            rest@.len() <= given.len(),
            forall|k: int|
                #![trigger given[k]]
                0 <= k < given.len() ==> given[k].0@ == names[k] && m.contains_key(given[k].0@)
                    && given[k].1.deep_view() == m[given[k].0@],
            forall|k: int|
                #![trigger rest@[k]]
                0 <= k < rest@.len() ==> rest@[k] == given[given.len() - 1 - k],
            is_selection(shown, names, given.len() - rest@.len(), all),
            lines@ == collision_lines(wanted, shown),
            collide == (shown.len() > 0),
        decreases rest@.len(),
    {
        let ghost n = given.len() - rest@.len();
        let ghost before = rest@;
        match rest.pop() {
            Some((name, owners)) => {
                let ghost entry = owners.deep_view();
                proof {
                    assert(before[before.len() - 1] == given[n]);
                    assert(given[n].0@ == names[n]);
                    assert(is_known(m, all, names[n]));
                    lemma_selection(shown, names, n, all);
                }
                if owners.shared {
                    collide = true;
                    let owners = sort_items(owners.list);
                    lines.append("  ");
                    lines.append(name.as_str());
                    lines.append("\n");
                    lines.append(render_owners(&owners).as_str());
                    lines.append("\n");
                    proof {
                        assert(wanted[names[n]] == entry.list);
                        assert(shown.push(names[n]).drop_last() =~= shown);
                        shown = shown.push(names[n]);
                    }
                }
            },
            None => {},
        }
    }
    proof {
        assert forall|name: Seq<char>| shown.to_set().contains(name) <==> wanted.contains_key(
            name,
        ) by {
            assert(is_known(m, all, name));
            if wanted.contains_key(name) {
                assert(m.contains_key(name)) by {
                    let (i, j) = choose|i: int, j: int|
                        0 <= i < j < all.len() && has_claim(#[trigger] all[i], name) && has_claim(
                            #[trigger] all[j],
                            name,
                        );
                }
                assert(names.to_set().contains(name));
                assert(names[names.index_of(name)] == name);
            }
        }
        assert(shown.to_set() =~= wanted.dom());
        assert(lists_keys(shown, wanted));
        lemma_lists_keys(shown, wanted);
        deployment_passes_when_no_hostname_has_two_services(all);
        if shown.len() > 0 {
            assert(shown.to_set().contains(shown[0]));
        } else if exists|name: Seq<char>| collides(all, name) {
            let name = choose|name: Seq<char>| collides(all, name);
            assert(wanted.contains_key(name));
            assert(shown.to_set().contains(name));
        }
    }
    if !collide {
        return Ok(());
    }
    let mut text =
        "Cannot deploy because some HTTP/WebSocket hostnames are assigned to multiple services:\n\n".to_string();
    text.append(lines.as_str());
    text.append(
        "Each HTTP/WebSocket hostname must map to exactly one service. Remove or rename the\nconflicting aliases and run `darp deploy` again.\n\nNo deployment artifacts were changed.",
    );
    Err(ConfigError::new(text))
}

/// The list holds those of the first `n` names that collide, in order.
spec fn is_selection(
    shown: Seq<Seq<char>>,
    names: Seq<Seq<char>>,
    n: int,
    services: Seq<PlannedView>,
) -> bool {
    &&& increasing(shown)
    &&& forall|name: Seq<char>| #[trigger]
        shown.contains(name) <==> collides(services, name) && exists|k: int|
            0 <= k < n && #[trigger] names[k] == name
}

/// A selection takes in one more name if it collides, and stays as it is if not.
proof fn lemma_selection(
    shown: Seq<Seq<char>>,
    names: Seq<Seq<char>>,
    n: int,
    services: Seq<PlannedView>,
)
    requires
        increasing(names),
        0 <= n < names.len(),
        is_selection(shown, names, n, services),
    ensures
        is_selection(
            if collides(services, names[n]) {
                shown.push(names[n])
            } else {
                shown
            },
            names,
            n + 1,
            services,
        ),
{
    let r = if collides(services, names[n]) {
        shown.push(names[n])
    } else {
        shown
    };
    assert forall|i: int, j: int| 0 <= i < j < r.len() implies lex_less(
        #[trigger] r[i],
        #[trigger] r[j],
    ) by {
        if j == shown.len() {
            assert(shown.contains(shown[i]));
            let k = choose|k: int| 0 <= k < n && #[trigger] names[k] == shown[i];
            assert(lex_less(names[k], names[n]));
        }
    }
    assert forall|name: Seq<char>| #[trigger] r.contains(name) <==> collides(services, name)
        && exists|k: int| 0 <= k < n + 1 && #[trigger] names[k] == name by {
        if shown.contains(name) {
            let k = choose|k: int| 0 <= k < n && #[trigger] names[k] == name;
            assert(0 <= k < n + 1 && names[k] == name);
            assert(r[shown.index_of(name)] == name);
        }
        if collides(services, name) && exists|k: int| 0 <= k < n + 1 && #[trigger] names[k]
            == name {
            let k = choose|k: int| 0 <= k < n + 1 && #[trigger] names[k] == name;
            if k < n {
                assert(shown.contains(name));
            } else {
                assert(r[shown.len() as int] == name);
            }
        }
        if r.contains(name) && !shown.contains(name) {
            assert(r[r.index_of(name)] == names[n]);
        }
    }
}

} // verus!
