//! What a deployment starts from: the services on disk, and the ports that are taken.
use crate::config::context::entry;
use crate::config::edit::PlaceView;
use crate::config::model::{Config, ConfigView, Domain, DomainView, Group, GroupView};
use crate::config::ports::{debug_port_in, entry_debug_port};
use crate::json::{JsonValue, JsonView};
use crate::map::{lemma_sorted_keys, lists_keys, sorted_keys, StrMap};
use crate::text::{parse_port, port_number, str_eq};
use std::collections::HashSet;
use vstd::prelude::*;

verus! {

broadcast use vstd::std_specs::hash::group_hash_axioms;

// ---------------------------------------------------------------------------
// Ports that are taken
// ---------------------------------------------------------------------------
/// All ports that one of the given keys stands for.
pub open spec fn ports_of_keys(
    keys: Seq<Seq<char>>,
    n: nat,
    ports: spec_fn(Seq<char>) -> Set<u16>,
) -> Set<u16>
    decreases n,
{
    if n == 0 {
        Set::empty()
    } else {
        ports_of_keys(keys, (n - 1) as nat, ports).union(ports(keys[n - 1]))
    }
}

/// All ports that some key of the map stands for.
pub open spec fn ports_of_map<V>(
    m: Map<Seq<char>, V>,
    ports: spec_fn(Seq<char>) -> Set<u16>,
) -> Set<u16> {
    Set::new(|p: u16| exists|k: Seq<char>| m.contains_key(k) && #[trigger] ports(k).contains(p))
}

proof fn lemma_ports_of_keys(
    keys: Seq<Seq<char>>,
    n: nat,
    ports: spec_fn(Seq<char>) -> Set<u16>,
    p: u16,
)
    requires
        n <= keys.len(),
    ensures
        ports_of_keys(keys, n, ports).contains(p) <==> exists|i: int|
            0 <= i < n && ports(#[trigger] keys[i]).contains(p),
    decreases n,
{
    if n > 0 {
        lemma_ports_of_keys(keys, (n - 1) as nat, ports, p);
        if ports(keys[n - 1]).contains(p) {
            assert(keys[n - 1] == keys[n - 1]);
        }
    }
}

/// The ports of all keys are the ports of the map.
proof fn lemma_ports_of_map<V>(
    keys: Seq<Seq<char>>,
    m: Map<Seq<char>, V>,
    ports: spec_fn(Seq<char>) -> Set<u16>,
)
    requires
        lists_keys(keys, m),
    ensures
        ports_of_keys(keys, keys.len(), ports) == ports_of_map(m, ports),
{
    assert forall|p: u16|
        ports_of_keys(keys, keys.len(), ports).contains(p) <==> ports_of_map(m, ports).contains(
            p,
        ) by {
        lemma_ports_of_keys(keys, keys.len(), ports, p);
        if ports_of_keys(keys, keys.len(), ports).contains(p) {
            let i = choose|i: int| 0 <= i < keys.len() && ports(#[trigger] keys[i]).contains(p);
            assert(keys.to_set().contains(keys[i]));
            assert(m.contains_key(keys[i]) && ports(keys[i]).contains(p));
        }
        if ports_of_map(m, ports).contains(p) {
            let k = choose|k: Seq<char>| m.contains_key(k) && #[trigger] ports(k).contains(p);
            assert(keys.to_set().contains(k));
            assert(keys[keys.index_of(k)] == k);
        }
    }
    assert(ports_of_keys(keys, keys.len(), ports) =~= ports_of_map(m, ports));
}

/// The port that a key of port mappings stands for. A key with a token in it is no number
/// and stands for none.
pub open spec fn key_port(key: Seq<char>) -> Set<u16> {
    match port_number(key) {
        Some(p) => Set::empty().insert(p),
        None => Set::empty(),
    }
}

/// The host ports of port mappings.
pub open spec fn mapping_ports(m: Option<Map<Seq<char>, Seq<char>>>) -> Set<u16> {
    match m {
        Some(m) => ports_of_map(m, |k: Seq<char>| key_port(k)),
        None => Set::empty(),
    }
}

/// The host ports of a group and its services.
pub open spec fn group_ports(g: GroupView) -> Set<u16> {
    mapping_ports(g.settings.host_portmappings).union(
        match g.services {
            Some(m) => ports_of_map(
                m,
                |k: Seq<char>| mapping_ports(m[k].settings.host_portmappings),
            ),
            None => Set::empty(),
        },
    )
}

/// The host ports of a domain, its groups and their services.
pub open spec fn domain_ports(d: DomainView) -> Set<u16> {
    mapping_ports(d.settings.host_portmappings).union(
        match d.groups {
            Some(m) => ports_of_map(m, |k: Seq<char>| group_ports(m[k])),
            None => Set::empty(),
        },
    )
}

/// Every host port that is mapped in a `host_portmappings`, anywhere in the configuration.
pub open spec fn host_ports(c: ConfigView) -> Set<u16> {
    (match c.domains {
        Some(m) => ports_of_map(m, |k: Seq<char>| domain_ports(m[k])),
        None => Set::empty(),
    }).union(
        match c.environments {
            Some(m) => ports_of_map(m, |k: Seq<char>| mapping_ports(m[k].host_portmappings)),
            None => Set::empty(),
        },
    )
}

fn add_mapping_ports(set: &mut HashSet<u16>, mappings: &Option<StrMap<String>>)
    ensures
        final(set)@ == old(set)@.union(mapping_ports(mappings.deep_view())),
{
    match mappings {
        Some(m) => {
            let n: usize = m.len();
            let ghost keys = sorted_keys(m@);
            let ghost f = |k: Seq<char>| key_port(k);
            let ghost before = set@;
            let mut i: usize = 0;
            assert(before.union(Set::empty()) =~= before);
            while i < n
                invariant
                    i <= n,
                    n == keys.len(),
                    keys == sorted_keys(m@),
                    f == (|k: Seq<char>| key_port(k)),
                    set@ == before.union(ports_of_keys(keys, i as nat, f)),
                decreases n - i,
            {
                match parse_port(m.key_at(i).as_str()) {
                    Some(p) => {
                        set.insert(p);
                    },
                    None => {},
                }
                i += 1;
                assert(set@ =~= before.union(ports_of_keys(keys, i as nat, f)));
            }
            proof {
                lemma_ports_of_map(keys, m@, f);
            }
        },
        None => {
            assert(set@.union(Set::empty()) =~= set@);
        },
    }
}

fn add_group_ports(set: &mut HashSet<u16>, group: &Group)
    ensures
        final(set)@ == old(set)@.union(group_ports(group.deep_view())),
{
    let ghost start = set@;
    add_mapping_ports(set, &group.host_portmappings);
    let ghost before = set@;
    match &group.services {
        Some(m) => {
            let n: usize = m.len();
            let ghost keys = sorted_keys(m@);
            let ghost f = |k: Seq<char>| mapping_ports(m@[k].settings.host_portmappings);
            let mut i: usize = 0;
            assert(before.union(Set::empty()) =~= before);
            while i < n
                invariant
                    i <= n,
                    n == keys.len(),
                    keys == sorted_keys(m@),
                    f == (|k: Seq<char>| mapping_ports(m@[k].settings.host_portmappings)),
                    set@ == before.union(ports_of_keys(keys, i as nat, f)),
                decreases n - i,
            {
                add_mapping_ports(set, &m.value_at(i).host_portmappings);
                i += 1;
                assert(set@ =~= before.union(ports_of_keys(keys, i as nat, f)));
            }
            proof {
                lemma_ports_of_map(keys, m@, f);
            }
        },
        None => {},
    }
    assert(set@ =~= start.union(group_ports(group.deep_view())));
}

fn add_domain_ports(set: &mut HashSet<u16>, domain: &Domain)
    ensures
        final(set)@ == old(set)@.union(domain_ports(domain.deep_view())),
{
    let ghost start = set@;
    add_mapping_ports(set, &domain.host_portmappings);
    let ghost before = set@;
    match &domain.groups {
        Some(m) => {
            let n: usize = m.len();
            let ghost keys = sorted_keys(m@);
            let ghost f = |k: Seq<char>| group_ports(m@[k]);
            let mut i: usize = 0;
            assert(before.union(Set::empty()) =~= before);
            while i < n
                invariant
                    i <= n,
                    n == keys.len(),
                    keys == sorted_keys(m@),
                    f == (|k: Seq<char>| group_ports(m@[k])),
                    set@ == before.union(ports_of_keys(keys, i as nat, f)),
                decreases n - i,
            {
                add_group_ports(set, m.value_at(i));
                i += 1;
                assert(set@ =~= before.union(ports_of_keys(keys, i as nat, f)));
            }
            proof {
                lemma_ports_of_map(keys, m@, f);
            }
        },
        None => {},
    }
    assert(set@ =~= start.union(domain_ports(domain.deep_view())));
}

/// Collects every host port that is mapped in a `host_portmappings`, on any level.
/// Debug ports skip these, so that a debug listener never clashes with a published port.
pub(crate) fn collect_host_portmap_ports(set: &mut HashSet<u16>, config: &Config)
    ensures
        final(set)@ == old(set)@.union(host_ports(config@)),
{
    let ghost start = set@;
    match &config.domains {
        Some(m) => {
            let n: usize = m.len();
            let ghost keys = sorted_keys(m@);
            let ghost f = |k: Seq<char>| domain_ports(m@[k]);
            let mut i: usize = 0;
            assert(start.union(Set::empty()) =~= start);
            while i < n
                invariant
                    i <= n,
                    n == keys.len(),
                    keys == sorted_keys(m@),
                    f == (|k: Seq<char>| domain_ports(m@[k])),
                    set@ == start.union(ports_of_keys(keys, i as nat, f)),
                decreases n - i,
            {
                add_domain_ports(set, m.value_at(i));
                i += 1;
                assert(set@ =~= start.union(ports_of_keys(keys, i as nat, f)));
            }
            proof {
                lemma_ports_of_map(keys, m@, f);
            }
        },
        None => {},
    }
    let ghost before = set@;
    match &config.environments {
        Some(m) => {
            let n: usize = m.len();
            let ghost keys = sorted_keys(m@);
            let ghost f = |k: Seq<char>| mapping_ports(m@[k].host_portmappings);
            let mut i: usize = 0;
            assert(before.union(Set::empty()) =~= before);
            while i < n
                invariant
                    i <= n,
                    n == keys.len(),
                    keys == sorted_keys(m@),
                    f == (|k: Seq<char>| mapping_ports(m@[k].host_portmappings)),
                    set@ == before.union(ports_of_keys(keys, i as nat, f)),
                decreases n - i,
            {
                add_mapping_ports(set, &m.value_at(i).host_portmappings);
                i += 1;
                assert(set@ =~= before.union(ports_of_keys(keys, i as nat, f)));
            }
            proof {
                lemma_ports_of_map(keys, m@, f);
            }
        },
        None => {},
    }
    assert(set@ =~= start.union(host_ports(config@)));
}

// ---------------------------------------------------------------------------
// Ports of the previous deployment
// ---------------------------------------------------------------------------
/// The debug ports that a port map holds.
pub open spec fn assigned_ports(portmap: JsonView) -> Set<u16> {
    Set::new(
        |p: u16|
            exists|d: Seq<char>, g: Seq<char>, s: Seq<char>| #[trigger]
                debug_port_in(portmap, d, g, s) == Some(p),
    )
}

/// The ports from `base` on that are not skipped.
pub open spec fn usable(base: u16, skip: Set<u16>) -> Set<u16> {
    Set::new(|p: u16| p >= base && !skip.contains(p))
}

/// The debug port of an entry.
pub open spec fn entry_ports(entry: JsonView) -> Set<u16> {
    match entry_debug_port(entry) {
        Some(p) => Set::empty().insert(p),
        None => Set::empty(),
    }
}

/// The debug ports below a group.
pub open spec fn group_entry_ports(v: JsonView) -> Set<u16> {
    match v {
        JsonView::Object(m) => ports_of_map(m, |k: Seq<char>| entry_ports(m[k])),
        _ => Set::empty(),
    }
}

/// The debug ports below a domain.
pub open spec fn domain_entry_ports(v: JsonView) -> Set<u16> {
    match v {
        JsonView::Object(m) => ports_of_map(m, |k: Seq<char>| group_entry_ports(m[k])),
        _ => Set::empty(),
    }
}

/// The debug ports below a port map.
pub open spec fn portmap_entry_ports(v: JsonView) -> Set<u16> {
    match v {
        JsonView::Object(m) => ports_of_map(m, |k: Seq<char>| domain_entry_ports(m[k])),
        _ => Set::empty(),
    }
}

proof fn lemma_assigned_ports(v: JsonView)
    ensures
        portmap_entry_ports(v) == assigned_ports(v),
{
    assert forall|p: u16|
        portmap_entry_ports(v).contains(p) <==> assigned_ports(v).contains(p) by {
        if portmap_entry_ports(v).contains(p) {
            let m = v->Object_0;
            let f = |k: Seq<char>| domain_entry_ports(m[k]);
            let d = choose|d: Seq<char>| m.contains_key(d) && #[trigger] f(d).contains(p);
            let dm = m[d]->Object_0;
            let g_ports = |k: Seq<char>| group_entry_ports(dm[k]);
            let g = choose|g: Seq<char>| dm.contains_key(g) && #[trigger] g_ports(g).contains(p);
            let gm = dm[g]->Object_0;
            let s_ports = |k: Seq<char>| entry_ports(gm[k]);
            let s = choose|s: Seq<char>| gm.contains_key(s) && #[trigger] s_ports(s).contains(p);
            assert(debug_port_in(v, d, g, s) == Some(p));
        }
        if assigned_ports(v).contains(p) {
            let (d, g, s) = choose|d: Seq<char>, g: Seq<char>, s: Seq<char>| #[trigger]
                debug_port_in(v, d, g, s) == Some(p);
            let m = v->Object_0;
            let dm = m[d]->Object_0;
            let gm = dm[g]->Object_0;
            let s_ports = |k: Seq<char>| entry_ports(gm[k]);
            assert(gm.contains_key(s) && s_ports(s).contains(p));
            assert(group_entry_ports(dm[g]).contains(p));
            let g_ports = |k: Seq<char>| group_entry_ports(dm[k]);
            assert(dm.contains_key(g) && g_ports(g).contains(p));
            assert(domain_entry_ports(m[d]).contains(p));
            let f = |k: Seq<char>| domain_entry_ports(m[k]);
            assert(m.contains_key(d) && f(d).contains(p));
        }
    }
    assert(portmap_entry_ports(v) =~= assigned_ports(v));
}

fn add_group_entry_ports(set: &mut HashSet<u16>, v: &JsonValue, base: u16, skip: &HashSet<u16>)
    ensures
        final(set)@ == old(set)@.union(group_entry_ports(v@).intersect(usable(base, skip@))),
{
    let ghost start = set@;
    let ghost u = usable(base, skip@);
    match v.as_object() {
        Some(m) => {
            let n: usize = m.len();
            let ghost keys = sorted_keys(m@);
            let ghost f = |k: Seq<char>| entry_ports(m@[k]);
            let mut i: usize = 0;
            assert(start.union(Set::<u16>::empty().intersect(u)) =~= start);
            while i < n
                invariant
                    i <= n,
                    n == keys.len(),
                    keys == sorted_keys(m@),
                    u == usable(base, skip@),
                    f == (|k: Seq<char>| entry_ports(m@[k])),
                    set@ == start.union(ports_of_keys(keys, i as nat, f).intersect(u)),
                decreases n - i,
            {
                match m.value_at(i).get("debug_port") {
                    Some(p) => match p.as_u64() {
                        Some(p) => {
                            let p: u16 = (p % 0x10000) as u16;
                            if p >= base && !skip.contains(&p) {
                                set.insert(p);
                            }
                        },
                        None => {},
                    },
                    None => {},
                }
                i += 1;
                assert(set@ =~= start.union(ports_of_keys(keys, i as nat, f).intersect(u)));
            }
            proof {
                lemma_ports_of_map(keys, m@, f);
            }
        },
        None => {
            assert(start.union(Set::<u16>::empty().intersect(u)) =~= start);
        },
    }
}

fn add_domain_entry_ports(set: &mut HashSet<u16>, v: &JsonValue, base: u16, skip: &HashSet<u16>)
    ensures
        final(set)@ == old(set)@.union(domain_entry_ports(v@).intersect(usable(base, skip@))),
{
    let ghost start = set@;
    let ghost u = usable(base, skip@);
    match v.as_object() {
        Some(m) => {
            let n: usize = m.len();
            let ghost keys = sorted_keys(m@);
            let ghost f = |k: Seq<char>| group_entry_ports(m@[k]);
            let mut i: usize = 0;
            assert(start.union(Set::<u16>::empty().intersect(u)) =~= start);
            while i < n
                invariant
                    i <= n,
                    n == keys.len(),
                    keys == sorted_keys(m@),
                    u == usable(base, skip@),
                    f == (|k: Seq<char>| group_entry_ports(m@[k])),
                    set@ == start.union(ports_of_keys(keys, i as nat, f).intersect(u)),
                decreases n - i,
            {
                add_group_entry_ports(set, m.value_at(i), base, skip);
                i += 1;
                assert(set@ =~= start.union(ports_of_keys(keys, i as nat, f).intersect(u)));
            }
            proof {
                lemma_ports_of_map(keys, m@, f);
            }
        },
        None => {
            assert(start.union(Set::<u16>::empty().intersect(u)) =~= start);
        },
    }
}

/// Collects every debug port that a previous deployment assigned and that can be kept: in
/// range and not skipped. So a port that is kept is not handed to another service, and a
/// removed service frees its port on the next deployment.
pub(crate) fn collect_debug_ports(
    portmap: &JsonValue,
    base: u16,
    skip: &HashSet<u16>,
) -> (r: HashSet<u16>)
    ensures
        r@ == assigned_ports(portmap@).intersect(usable(base, skip@)),
{
    let mut set: HashSet<u16> = HashSet::new();
    let ghost u = usable(base, skip@);
    proof {
        lemma_assigned_ports(portmap@);
    }
    match portmap.as_object() {
        Some(m) => {
            let n: usize = m.len();
            let ghost keys = sorted_keys(m@);
            let ghost f = |k: Seq<char>| domain_entry_ports(m@[k]);
            let mut i: usize = 0;
            assert(set@ =~= ports_of_keys(keys, 0, f).intersect(u));
            while i < n
                invariant
                    i <= n,
                    n == keys.len(),
                    keys == sorted_keys(m@),
                    u == usable(base, skip@),
                    f == (|k: Seq<char>| domain_entry_ports(m@[k])),
                    set@ == ports_of_keys(keys, i as nat, f).intersect(u),
                decreases n - i,
            {
                add_domain_entry_ports(&mut set, m.value_at(i), base, skip);
                i += 1;
                assert(set@ =~= ports_of_keys(keys, i as nat, f).intersect(u));
            }
            proof {
                lemma_ports_of_map(keys, m@, f);
            }
        },
        None => {
            assert(set@ =~= Set::<u16>::empty().intersect(u));
        },
    }
    set
}

// ---------------------------------------------------------------------------
// Services on disk
// ---------------------------------------------------------------------------
/// The folders that were found for a domain: those in its location, and those in the
/// directory of each named group, in the order in which they were found.
#[derive(Debug, Clone)]
pub struct Folders {
    pub root: Vec<String>,
    pub groups: Vec<(String, Vec<String>)>,
}

/// What was found for a domain.
pub struct FoldersView {
    pub root: Seq<Seq<char>>,
    pub groups: Seq<(Seq<char>, Seq<Seq<char>>)>,
}

impl DeepView for Folders {
    type V = FoldersView;

    open spec fn deep_view(&self) -> FoldersView {
        FoldersView { root: self.root.deep_view(), groups: self.groups.deep_view() }
    }
}

/// A service on disk.
#[derive(Debug, Clone)]
pub struct FoundService {
    pub domain: String,
    pub group: String,
    pub service: String,
}

/// Where a service on disk is.
pub struct FoundView {
    pub domain: Seq<char>,
    pub group: Seq<char>,
    pub service: Seq<char>,
}

impl DeepView for FoundService {
    type V = FoundView;

    open spec fn deep_view(&self) -> FoundView {
        FoundView { domain: self.domain@, group: self.group@, service: self.service@ }
    }
}

impl DomainView {
    /// The name is that of a group with a directory of its own.
    pub open spec fn is_named_group(self, g: Seq<char>) -> bool {
        g != "."@ && self.groups is Some && self.groups->0.contains_key(g)
    }

    /// The folders in the location of the domain are services, unless they are groups.
    pub open spec fn has_root_group(self) -> bool {
        self.groups is None || self.groups->0.contains_key("."@)
    }
}

/// The services in the location of a domain.
pub open spec fn root_services(d: Seq<char>, domain: DomainView, folders: Seq<Seq<char>>) -> Seq<
    FoundView,
>
    decreases folders.len(),
{
    if folders.len() == 0 {
        Seq::empty()
    } else {
        let before = root_services(d, domain, folders.drop_last());
        if domain.is_named_group(folders.last()) {
            before
        } else {
            before.push(FoundView { domain: d, group: "."@, service: folders.last() })
        }
    }
}

/// The services in the directories of groups.
pub open spec fn group_services(
    d: Seq<char>,
    domain: DomainView,
    groups: Seq<(Seq<char>, Seq<Seq<char>>)>,
) -> Seq<FoundView>
    decreases groups.len(),
{
    if groups.len() == 0 {
        Seq::empty()
    } else {
        let before = group_services(d, domain, groups.drop_last());
        let (g, folders) = groups.last();
        if domain.is_named_group(g) {
            before + folders.map_values(
                |f: Seq<char>| FoundView { domain: d, group: g, service: f },
            )
        } else {
            before
        }
    }
}

/// The services of a domain: those of the root group, then those of the named groups.
pub open spec fn domain_services(d: Seq<char>, domain: DomainView, folders: FoldersView) -> Seq<
    FoundView,
> {
    (if domain.has_root_group() {
        root_services(d, domain, folders.root)
    } else {
        Seq::empty()
    }) + group_services(d, domain, folders.groups)
}

/// The services of the first `n` domains, in the order of their names. A domain for which
/// nothing was found has none.
pub open spec fn found_services(
    domains: Map<Seq<char>, DomainView>,
    folders: Map<Seq<char>, FoldersView>,
    n: nat,
) -> Seq<FoundView>
    decreases n,
{
    if n == 0 {
        Seq::empty()
    } else {
        let d = sorted_keys(domains)[n - 1];
        let before = found_services(domains, folders, (n - 1) as nat);
        if folders.contains_key(d) {
            before + domain_services(d, domains[d], folders[d])
        } else {
            before
        }
    }
}

/// All services on disk.
pub open spec fn all_services(c: ConfigView, folders: Map<Seq<char>, FoldersView>) -> Seq<
    FoundView,
> {
    match c.domains {
        Some(m) => found_services(m, folders, sorted_keys(m).len()),
        None => Seq::empty(),
    }
}

impl Domain {
    fn named_group(&self, name: &str) -> (r: bool)
        ensures
            r == self.deep_view().is_named_group(name@),
    {
        match &self.groups {
            Some(m) => !str_eq(name, ".") && m.contains_key(name),
            None => false,
        }
    }

    /// Are the folders in the location of the domain services, unless they are groups?
    pub fn scans_root(&self) -> (r: bool)
        ensures
            r == self.deep_view().has_root_group(),
    {
        match &self.groups {
            Some(m) => m.contains_key("."),
            None => true,
        }
    }

    /// The groups with a directory of their own, in the order of their names.
    pub fn named_groups(&self) -> (r: Vec<String>)
        ensures
            r.deep_view() == match self.deep_view().groups {
                Some(m) => sorted_keys(m).filter(|g: Seq<char>| g != "."@),
                None => Seq::empty(),
            },
    {
        let mut names: Vec<String> = Vec::new();
        match &self.groups {
            Some(m) => {
                let n: usize = m.len();
                let ghost keys = sorted_keys(m@);
                let ghost keep = |g: Seq<char>| g != "."@;
                let mut i: usize = 0;
                reveal(Seq::filter);
                assert(names.deep_view() =~= keys.take(0).filter(keep));
                while i < n
                    invariant
                        i <= n,
                        n == keys.len(),
                        keys == sorted_keys(m@),
                        keep == (|g: Seq<char>| g != "."@),
                        names.deep_view() == keys.take(i as int).filter(keep),
                    decreases n - i,
                {
                    reveal(Seq::filter);
                    assert(keys.take(i as int + 1).drop_last() =~= keys.take(i as int));
                    let ghost before = names.deep_view();
                    let name = m.key_at(i);
                    if !str_eq(name.as_str(), ".") {
                        names.push(name.clone());
                        assert(names.deep_view() =~= before.push(keys[i as int]));
                    }
                    i += 1;
                }
                assert(keys.take(keys.len() as int) =~= keys);
            },
            None => {
                assert(names.deep_view() =~= Seq::<Seq<char>>::empty());
            },
        }
        names
    }
}

fn found(d: &str, g: &str, s: &str) -> (r: FoundService)
    ensures
        r.deep_view() == (FoundView { domain: d@, group: g@, service: s@ }),
{
    FoundService { domain: d.to_string(), group: g.to_string(), service: s.to_string() }
}

fn add_root_services(out: &mut Vec<FoundService>, d: &str, domain: &Domain, folders: &Vec<String>)
    ensures
        final(out).deep_view() == old(out).deep_view() + root_services(
            d@,
            domain.deep_view(),
            folders.deep_view(),
        ),
{
    let ghost start = out.deep_view();
    let ghost all = folders.deep_view();
    let ghost v = domain.deep_view();
    let mut i: usize = 0;
    assert(start + root_services(d@, v, all.take(0)) =~= start);
    while i < folders.len()
        invariant
            i <= folders@.len(),
            all == folders.deep_view(),
            v == domain.deep_view(),
            out.deep_view() == start + root_services(d@, v, all.take(i as int)),
        decreases folders@.len() - i,
    {
        let ghost before = out.deep_view();
        assert(all.take(i as int + 1).drop_last() =~= all.take(i as int));
        assert(all.take(i as int + 1).last() == folders@[i as int]@);
        if !domain.named_group(folders[i].as_str()) {
            let service = found(d, ".", folders[i].as_str());
            let ghost x = service.deep_view();
            out.push(service);
            assert(out.deep_view() =~= before.push(x));
        }
        i += 1;
        assert(out.deep_view() =~= start + root_services(d@, v, all.take(i as int)));
    }
    assert(all.take(all.len() as int) =~= all);
}

fn add_folders(out: &mut Vec<FoundService>, d: &str, g: &str, folders: &Vec<String>)
    ensures
        final(out).deep_view() == old(out).deep_view() + folders.deep_view().map_values(
            |f: Seq<char>| FoundView { domain: d@, group: g@, service: f },
        ),
{
    let ghost start = out.deep_view();
    let ghost all = folders.deep_view();
    let ghost want = all.map_values(
        |f: Seq<char>| FoundView { domain: d@, group: g@, service: f },
    );
    let mut i: usize = 0;
    assert(start + want.take(0) =~= start);
    while i < folders.len()
        invariant
            i <= folders@.len(),
            all == folders.deep_view(),
            want == all.map_values(
                |f: Seq<char>| FoundView { domain: d@, group: g@, service: f },
            ),
            out.deep_view() == start + want.take(i as int),
        decreases folders@.len() - i,
    {
        let ghost before = out.deep_view();
        let service = found(d, g, folders[i].as_str());
        let ghost x = service.deep_view();
        assert(x == want[i as int]);
        out.push(service);
        assert(out.deep_view() =~= before.push(x));
        i += 1;
        assert(out.deep_view() =~= start + want.take(i as int));
    }
    assert(want.take(want.len() as int) =~= want);
}

fn add_group_services(
    out: &mut Vec<FoundService>,
    d: &str,
    domain: &Domain,
    groups: &Vec<(String, Vec<String>)>,
)
    ensures
        final(out).deep_view() == old(out).deep_view() + group_services(
            d@,
            domain.deep_view(),
            groups.deep_view(),
        ),
{
    let ghost start = out.deep_view();
    let ghost all = groups.deep_view();
    let ghost v = domain.deep_view();
    let mut i: usize = 0;
    assert(start + group_services(d@, v, all.take(0)) =~= start);
    while i < groups.len()
        invariant
            i <= groups@.len(),
            all == groups.deep_view(),
            v == domain.deep_view(),
            out.deep_view() == start + group_services(d@, v, all.take(i as int)),
        decreases groups@.len() - i,
    {
        assert(all.take(i as int + 1).drop_last() =~= all.take(i as int));
        assert(all.take(i as int + 1).last() == groups@[i as int].deep_view());
        if domain.named_group(groups[i].0.as_str()) {
            add_folders(out, d, groups[i].0.as_str(), &groups[i].1);
        }
        i += 1;
        assert(out.deep_view() =~= start + group_services(d@, v, all.take(i as int)));
    }
    assert(all.take(all.len() as int) =~= all);
}

/// Lists the services on disk, given the folders that were found for each domain.
pub fn discover_services(config: &Config, folders: &StrMap<Folders>) -> (r: Vec<FoundService>)
    ensures
        r.deep_view() == all_services(config@, folders@),
{
    let mut out: Vec<FoundService> = Vec::new();
    match &config.domains {
        Some(m) => {
            let n: usize = m.len();
            let ghost keys = sorted_keys(m@);
            let mut i: usize = 0;
            assert(out.deep_view() =~= found_services(m@, folders@, 0));
            while i < n
                invariant
                    i <= n,
                    n == keys.len(),
                    keys == sorted_keys(m@),
                    out.deep_view() == found_services(m@, folders@, i as nat),
                decreases n - i,
            {
                let ghost before = out.deep_view();
                let d = m.key_at(i);
                let domain = m.value_at(i);
                match folders.get(d.as_str()) {
                    Some(found) => {
                        if domain.scans_root() {
                            add_root_services(&mut out, d.as_str(), domain, &found.root);
                        }
                        add_group_services(&mut out, d.as_str(), domain, &found.groups);
                        assert(out.deep_view() =~= before + domain_services(
                            d@,
                            domain.deep_view(),
                            found.deep_view(),
                        ));
                    },
                    None => {},
                }
                i += 1;
            }
        },
        None => {
            assert(out.deep_view() =~= Seq::<FoundView>::empty());
        },
    }
    out
}

proof fn lemma_root_services(d: Seq<char>, domain: DomainView, folders: Seq<Seq<char>>)
    ensures
        forall|i: int|
            0 <= i < root_services(d, domain, folders).len() ==> (#[trigger] root_services(
                d,
                domain,
                folders,
            )[i]).domain == d,
    decreases folders.len(),
{
    if folders.len() > 0 {
        let init = folders.drop_last();
        lemma_root_services(d, domain, init);
        let before = root_services(d, domain, init);
        let all = root_services(d, domain, folders);
        assert forall|i: int| 0 <= i < all.len() implies (#[trigger] all[i]).domain == d by {
            if i < before.len() {
                assert(all[i] == before[i]);
            }
        }
    }
}

proof fn lemma_group_services(
    d: Seq<char>,
    domain: DomainView,
    groups: Seq<(Seq<char>, Seq<Seq<char>>)>,
)
    ensures
        forall|i: int|
            0 <= i < group_services(d, domain, groups).len() ==> (#[trigger] group_services(
                d,
                domain,
                groups,
            )[i]).domain == d,
    decreases groups.len(),
{
    if groups.len() > 0 {
        let init = groups.drop_last();
        lemma_group_services(d, domain, init);
        let before = group_services(d, domain, init);
        let all = group_services(d, domain, groups);
        assert forall|i: int| 0 <= i < all.len() implies (#[trigger] all[i]).domain == d by {
            if i < before.len() {
                assert(all[i] == before[i]);
            }
        }
    }
}

/// The services on disk belong to domains that exist.
pub(crate) proof fn lemma_services_have_domains(
    domains: Map<Seq<char>, DomainView>,
    folders: Map<Seq<char>, FoldersView>,
    n: nat,
)
    requires
        domains.dom().finite(),
        n <= sorted_keys(domains).len(),
    ensures
        forall|i: int|
            0 <= i < found_services(domains, folders, n).len() ==> domains.contains_key(
                (#[trigger] found_services(domains, folders, n)[i]).domain,
            ),
    decreases n,
{
    if n > 0 {
        lemma_services_have_domains(domains, folders, (n - 1) as nat);
        lemma_sorted_keys(domains);
        let d = sorted_keys(domains)[n - 1];
        let before = found_services(domains, folders, (n - 1) as nat);
        let all = found_services(domains, folders, n);
        assert forall|i: int| 0 <= i < all.len() implies domains.contains_key(
            (#[trigger] all[i]).domain,
        ) by {
            if i < before.len() {
                assert(all[i] == before[i]);
            } else {
                let root = if domains[d].has_root_group() {
                    root_services(d, domains[d], folders[d].root)
                } else {
                    Seq::empty()
                };
                lemma_root_services(d, domains[d], folders[d].root);
                lemma_group_services(d, domains[d], folders[d].groups);
                let j = i - before.len();
                if j < root.len() {
                    assert(all[i] == root[j]);
                } else {
                    assert(all[i] == group_services(d, domains[d], folders[d].groups)[j
                        - root.len()]);
                }
            }
        }
    }
}

// ---------------------------------------------------------------------------
// Laws
// ---------------------------------------------------------------------------
proof fn lemma_key_is_mapped(m: Option<Map<Seq<char>, Seq<char>>>, key: Seq<char>)
    requires
        m is Some,
        m->0.contains_key(key),
        port_number(key) is Some,
    ensures
        mapping_ports(m).contains(port_number(key)->0),
{
    let f = |k: Seq<char>| key_port(k);
    assert(m->0.contains_key(key) && f(key).contains(port_number(key)->0));
}

proof fn lemma_group_port(c: ConfigView, d: Seq<char>, g: Seq<char>, p: u16)
    requires
        c.group(d, g) is Ok,
        group_ports(c.group(d, g)->Ok_0).contains(p),
    ensures
        host_ports(c).contains(p),
{
    let groups = c.domain(d)->Ok_0.groups->0;
    let f = |k: Seq<char>| group_ports(groups[k]);
    assert(groups.contains_key(g) && f(g).contains(p));
    lemma_domain_port(c, d, p);
}

proof fn lemma_domain_port(c: ConfigView, d: Seq<char>, p: u16)
    requires
        c.domain(d) is Ok,
        domain_ports(c.domain(d)->Ok_0).contains(p),
    ensures
        host_ports(c).contains(p),
{
    let domains = c.domains->0;
    let f = |k: Seq<char>| domain_ports(domains[k]);
    assert(domains.contains_key(d) && f(d).contains(p));
}

/// Every host port that a place maps in its `host_portmappings` is among the host ports of the configuration, be the
/// place a domain, a group, a service or an environment.
pub proof fn every_mapped_port_is_collected(c: ConfigView, place: PlaceView, key: Seq<char>)
    requires
        c.settings(place) is Ok,
        c.settings(place)->Ok_0.host_portmappings is Some,
        c.settings(place)->Ok_0.host_portmappings->0.contains_key(key),
        port_number(key) is Some,
    ensures
        host_ports(c).contains(port_number(key)->0),
{
    let p = port_number(key)->0;
    lemma_key_is_mapped(c.settings(place)->Ok_0.host_portmappings, key);
    match place {
        PlaceView::Domain(d) => {
            lemma_domain_port(c, d, p);
        },
        PlaceView::Group(d, g) => {
            lemma_group_port(c, d, g, p);
        },
        PlaceView::Service(d, g, s) => {
            let services = c.group(d, g)->Ok_0.services->0;
            let f = |k: Seq<char>| mapping_ports(services[k].settings.host_portmappings);
            assert(services.contains_key(s) && f(s).contains(p));
            lemma_group_port(c, d, g, p);
        },
        PlaceView::Environment(e) => {
            let environments = c.environments->0;
            let f = |k: Seq<char>| mapping_ports(environments[k].host_portmappings);
            assert(environments.contains_key(e) && f(e).contains(p));
        },
    }
}

} // verus!
