//! Planning a deployment: what each service on disk is, and which ports it gets.
use crate::alias::{comparison_form, names_below_test_are_resolved_by_wildcard};
use crate::commands::discover::{
    all_services, assigned_ports, collect_debug_ports, collect_host_portmap_ports,
    discover_services, every_mapped_port_is_collected, host_ports, lemma_services_have_domains,
    usable, Folders, FoldersView, FoundService, FoundView,
};
use crate::commands::service::{PlannedService, PlannedView};
use crate::config::context::entry;
use crate::config::edit::PlaceView;
use crate::config::model::{
    Config, ConfigView, Domain, DomainView, Group, GroupView, Service, ServiceView,
};
use crate::config::ports::{
    can_choose, can_choose_debug_port, choose_debug_port, chosen_port, debug_port_in,
    debug_port_is_usable, keeps_port, portmap_debug_port, skip_ports, well_known_skip_ports,
    DEBUG_PORT_BASE,
};
use crate::error::ConfigError;
use crate::json::{JsonValue, JsonView};
use crate::map::StrMap;
use crate::text::{ends_with, port_number};
use std::collections::HashSet;
use vstd::prelude::*;

verus! {

broadcast use vstd::std_specs::hash::group_hash_axioms;

// ---------------------------------------------------------------------------
// What the configuration says of a service
// ---------------------------------------------------------------------------
/// The group that a service on disk belongs to, where it is configured.
pub open spec fn group_of(domain: DomainView, g: Seq<char>) -> Option<GroupView> {
    entry(domain.groups, g)
}

/// The configuration of a service on disk, where there is one.
pub open spec fn service_of(domain: DomainView, g: Seq<char>, s: Seq<char>) -> Option<ServiceView> {
    match group_of(domain, g) {
        Some(group) => entry(group.services, s),
        None => None,
    }
}

/// The connection type of a service: that of the service, or else of its group, or else of
/// its domain. Environments do not matter, since a deployment takes place in none.
pub open spec fn connection_type_of(domain: DomainView, g: Seq<char>, s: Seq<char>) -> Option<
    Seq<char>,
> {
    let service = service_of(domain, g, s);
    let group = group_of(domain, g);
    if service is Some && service->0.settings.connection_type is Some {
        service->0.settings.connection_type
    } else if group is Some && group->0.settings.connection_type is Some {
        group->0.settings.connection_type
    } else {
        domain.settings.connection_type
    }
}

/// The aliases of a service as configured.
pub open spec fn urls_of(domain: DomainView, g: Seq<char>, s: Seq<char>) -> Seq<Seq<char>> {
    match service_of(domain, g, s) {
        Some(service) => match service.urls {
            Some(urls) => urls,
            None => Seq::empty(),
        },
        None => Seq::empty(),
    }
}

fn find_group<'a>(domain: &'a Domain, g: &str) -> (r: Option<&'a Group>)
    ensures
        r.deep_view() == group_of(domain.deep_view(), g@),
{
    match &domain.groups {
        Some(m) => m.get(g),
        None => None,
    }
}

fn find_service<'a>(domain: &'a Domain, g: &str, s: &str) -> (r: Option<&'a Service>)
    ensures
        r.deep_view() == service_of(domain.deep_view(), g@, s@),
{
    match find_group(domain, g) {
        Some(group) => match &group.services {
            Some(m) => m.get(s),
            None => None,
        },
        None => None,
    }
}

/// Resolves the connection type of a service: service, then group, then domain. `None`
/// stands for `http`.
fn resolve_deploy_connection_type(domain: &Domain, group_name: &str, service_name: &str) -> (r:
    Option<String>)
    ensures
        r.deep_view() == connection_type_of(domain.deep_view(), group_name@, service_name@),
{
    match find_service(domain, group_name, service_name) {
        Some(service) => match &service.connection_type {
            Some(t) => {
                return Some(t.clone());
            },
            None => {},
        },
        None => {},
    }
    match find_group(domain, group_name) {
        Some(group) => match &group.connection_type {
            Some(t) => {
                return Some(t.clone());
            },
            None => {},
        },
        None => {},
    }
    match &domain.connection_type {
        Some(t) => Some(t.clone()),
        None => None,
    }
}

/// Collects the aliases of a service exactly as configured. Trimming, lowercasing and
/// rejection all happen in validation, so that a malformed alias is reported as it was
/// written.
fn resolve_deploy_urls(domain: &Domain, group_name: &str, service_name: &str) -> (r: Vec<String>)
    ensures
        r.deep_view() == urls_of(domain.deep_view(), group_name@, service_name@),
{
    let mut copy: Vec<String> = Vec::new();
    assert(copy.deep_view() =~= Seq::<Seq<char>>::empty());
    match find_service(domain, group_name, service_name) {
        Some(service) => match &service.urls {
            Some(urls) => {
                let ghost all = urls.deep_view();
                let mut i: usize = 0;
                assert(copy.deep_view() =~= all.take(0));
                while i < urls.len()
                    invariant
                        i <= urls@.len(),
                        all == urls.deep_view(),
                        copy.deep_view() == all.take(i as int),
                    decreases urls@.len() - i,
                {
                    let ghost before = copy.deep_view();
                    copy.push(urls[i].clone());
                    assert(copy.deep_view() =~= before.push(all[i as int]));
                    i += 1;
                    assert(copy.deep_view() =~= all.take(i as int));
                }
                assert(all.take(all.len() as int) =~= all);
            },
            None => {},
        },
        None => {},
    }
    copy
}

// ---------------------------------------------------------------------------
// Assigning ports
// ---------------------------------------------------------------------------
/// The reverse-proxy port of the first service. The others follow.
pub const FIRST_PROXY_PORT: u16 = 50100;

/// What a plan is made from.
pub struct PlanInputs {
    pub domains: Map<Seq<char>, DomainView>,
    pub portmap: JsonView,
    pub base: u16,
    pub skip: Set<u16>,
}

/// The base of the debug-port range.
pub open spec fn debug_base(c: ConfigView) -> u16 {
    match c.debug_port_base {
        Some(base) => base,
        None => DEBUG_PORT_BASE,
    }
}

/// What a plan for a configuration is made from. Debug ports skip the ports of well-known
/// services and any host port that a `host_portmappings` maps.
pub open spec fn plan_inputs(c: ConfigView, portmap: JsonView) -> PlanInputs {
    PlanInputs {
        domains: c.domains->0,
        portmap,
        base: debug_base(c),
        skip: skip_ports().union(host_ports(c)),
    }
}

/// A plan under way: the services so far, the debug ports that are reserved, and where the
/// search for the next one starts.
pub struct PlanView {
    pub services: Seq<PlannedView>,
    pub reserved: Set<u16>,
    pub next: u16,
}

impl PlanInputs {
    /// The debug port that a service had, if any.
    pub open spec fn persisted(self, f: FoundView) -> Option<u16> {
        debug_port_in(self.portmap, f.domain, f.group, f.service)
    }

    /// The plan without services. The debug ports that can be kept are reserved.
    pub open spec fn start(self) -> PlanView {
        PlanView {
            services: Seq::empty(),
            reserved: assigned_ports(self.portmap).intersect(usable(self.base, self.skip)),
            next: self.base,
        }
    }

    /// There are ports for one more service.
    pub open spec fn has_ports_for(self, plan: PlanView, f: FoundView) -> bool {
        FIRST_PROXY_PORT + plan.services.len() < 0xffff && can_choose(
            self.persisted(f),
            self.base,
            self.skip,
            plan.reserved,
            plan.next,
        )
    }

    /// The debug port of one more service.
    pub open spec fn port_for(self, plan: PlanView, f: FoundView) -> u16 {
        chosen_port(self.persisted(f), self.base, self.skip, plan.reserved, plan.next)
    }

    /// One more service as it is planned.
    pub open spec fn service_for(self, plan: PlanView, f: FoundView) -> PlannedView {
        let domain = self.domains[f.domain];
        PlannedView {
            domain: f.domain,
            group: f.group,
            service: f.service,
            connection_type: match connection_type_of(domain, f.group, f.service) {
                Some(t) => t,
                None => "http"@,
            },
            proxy_port: (FIRST_PROXY_PORT + plan.services.len()) as u16,
            debug_port: self.port_for(plan, f),
            canonical_hostname: f.service + "."@ + f.domain + ".test"@,
            aliases: urls_of(domain, f.group, f.service),
        }
    }

    /// The plan with one more service. A service keeps its debug port where it can.
    pub open spec fn extended(self, plan: PlanView, f: FoundView) -> PlanView {
        let service = self.service_for(plan, f);
        let keeps = keeps_port(self.persisted(f), self.base, self.skip);
        PlanView {
            services: plan.services.push(service),
            reserved: if keeps {
                plan.reserved
            } else {
                plan.reserved.insert(service.debug_port)
            },
            next: if keeps {
                plan.next
            } else {
                (service.debug_port + 1) as u16
            },
        }
    }

    /// The plan for the services on disk.
    pub open spec fn plan(self, found: Seq<FoundView>) -> PlanView
        decreases found.len(),
    {
        if found.len() == 0 {
            self.start()
        } else {
            self.extended(self.plan(found.drop_last()), found.last())
        }
    }

    /// There are ports for all services on disk.
    pub open spec fn fits(self, found: Seq<FoundView>) -> bool
        decreases found.len(),
    {
        found.len() == 0 || (self.fits(found.drop_last()) && self.has_ports_for(
            self.plan(found.drop_last()),
            found.last(),
        ))
    }
}

/// There are ports for all services on disk.
pub open spec fn plan_fits(
    c: ConfigView,
    portmap: JsonView,
    folders: Map<Seq<char>, FoldersView>,
) -> bool {
    plan_inputs(c, portmap).fits(all_services(c, folders))
}

/// The services of a deployment.
pub open spec fn planned_services(
    c: ConfigView,
    portmap: JsonView,
    folders: Map<Seq<char>, FoldersView>,
) -> Seq<PlannedView> {
    plan_inputs(c, portmap).plan(all_services(c, folders)).services
}

struct Planner {
    base: u16,
    skip: HashSet<u16>,
    reserved: HashSet<u16>,
    next: u16,
    services: Vec<PlannedService>,
}

impl Planner {
    spec fn model(self) -> PlanView {
        PlanView {
            services: self.services.deep_view(),
            reserved: self.reserved@,
            next: self.next,
        }
    }

    /// Plans one more service, where there are ports for it.
    fn register(
        &mut self,
        domain: &Domain,
        portmap: &JsonValue,
        found: &FoundService,
        Ghost(inputs): Ghost<PlanInputs>,
    ) -> (r: bool)
        requires
            inputs.portmap == portmap@,
            inputs.domains.contains_key(found.domain@),
            inputs.domains[found.domain@] == domain.deep_view(),
            inputs.base == old(self).base,
            inputs.skip == old(self).skip@,
        ensures
            r == inputs.has_ports_for(old(self).model(), found.deep_view()),
            r ==> final(self).model() == inputs.extended(old(self).model(), found.deep_view()),
            final(self).base == old(self).base,
            final(self).skip@ == old(self).skip@,
    {
        let ghost before = self.services.deep_view();
        let ghost plan = self.model();
        let ghost f = found.deep_view();
        let persisted = portmap_debug_port(
            portmap,
            found.domain.as_str(),
            found.group.as_str(),
            found.service.as_str(),
        );
        let count: usize = self.services.len();
        assert(before.len() == count);
        if count >= 0xffff - FIRST_PROXY_PORT as usize {
            return false;
        }
        if !can_choose_debug_port(persisted, self.base, &self.skip, &self.reserved, self.next) {
            return false;
        }
        let debug_port = choose_debug_port(
            persisted,
            self.base,
            &self.skip,
            &mut self.reserved,
            &mut self.next,
        );
        let connection_type = match resolve_deploy_connection_type(
            domain,
            found.group.as_str(),
            found.service.as_str(),
        ) {
            Some(t) => t,
            None => "http".to_string(),
        };
        let mut canonical_hostname = found.service.clone();
        canonical_hostname.append(".");
        canonical_hostname.append(found.domain.as_str());
        canonical_hostname.append(".test");
        let service = PlannedService {
            domain: found.domain.clone(),
            group: found.group.clone(),
            service: found.service.clone(),
            connection_type,
            proxy_port: FIRST_PROXY_PORT + count as u16,
            debug_port,
            canonical_hostname,
            aliases: resolve_deploy_urls(domain, found.group.as_str(), found.service.as_str()),
        };
        let ghost s = service.deep_view();
        assert(s == inputs.service_for(plan, f));
        self.services.push(service);
        assert(self.services.deep_view() =~= before.push(s));
        true
    }
}

/// Ports that do not suffice for some of the services do not suffice for all.
pub(crate) proof fn lemma_fits_prefix(inputs: PlanInputs, found: Seq<FoundView>, n: int)
    requires
        0 <= n <= found.len(),
        inputs.fits(found),
    ensures
        inputs.fits(found.take(n)),
    decreases found.len(),
{
    if n == found.len() {
        assert(found.take(n) =~= found);
    } else {
        assert(found.drop_last().take(n) =~= found.take(n));
        lemma_fits_prefix(inputs, found.drop_last(), n);
    }
}

fn assign_ports(config: &Config, old_portmap: &JsonValue, found: &Vec<FoundService>) -> (r: Option<
    Vec<PlannedService>,
>)
    requires
        config@.domains is Some,
        forall|i: int|
            0 <= i < found.deep_view().len() ==> config@.domains->0.contains_key(
                (#[trigger] found.deep_view()[i]).domain,
            ),
    ensures
        r is Some <==> plan_inputs(config@, old_portmap@).fits(found.deep_view()),
        r matches Some(services) ==> services.deep_view() == plan_inputs(
            config@,
            old_portmap@,
        ).plan(found.deep_view()).services,
{
    let ghost inputs = plan_inputs(config@, old_portmap@);
    let ghost all = found.deep_view();
    let base: u16 = match config.debug_port_base {
        Some(base) => base,
        None => DEBUG_PORT_BASE,
    };
    let mut skip = well_known_skip_ports();
    collect_host_portmap_ports(&mut skip, config);
    let reserved = collect_debug_ports(old_portmap, base, &skip);
    let mut planner = Planner { base, skip, reserved, next: base, services: Vec::new() };
    proof {
        assert(planner.services.deep_view() =~= Seq::<PlannedView>::empty());
        assert(all.take(0) =~= Seq::<FoundView>::empty());
        assert(planner.model() == inputs.start());
    }
    let mut i: usize = 0;
    while i < found.len()
        invariant
            i <= found@.len(),
            all == found.deep_view(),
            config@.domains is Some,
            forall|k: int|
                0 <= k < all.len() ==> config@.domains->0.contains_key((#[trigger] all[k]).domain),
            inputs == plan_inputs(config@, old_portmap@),
            inputs.base == planner.base,
            inputs.skip == planner.skip@,
            inputs.fits(all.take(i as int)),
            planner.model() == inputs.plan(all.take(i as int)),
        decreases found@.len() - i,
    {
        proof {
            assert(all.take(i as int + 1).drop_last() =~= all.take(i as int));
            assert(all.take(i as int + 1).last() == found@[i as int].deep_view());
            assert(config@.domains->0.contains_key(all[i as int].domain));
        }
        let done = match &config.domains {
            Some(m) => match m.get(found[i].domain.as_str()) {
                Some(domain) => planner.register(domain, old_portmap, &found[i], Ghost(inputs)),
                None => false,
            },
            None => false,
        };
        if !done {
            proof {
                if inputs.fits(all) {
                    lemma_fits_prefix(inputs, all, i as int + 1);
                }
            }
            return None;
        }
        i += 1;
    }
    assert(all.take(all.len() as int) =~= all);
    Some(planner.services)
}

fn try_plan(config: &Config, old_portmap: &JsonValue, folders: &StrMap<Folders>) -> (r: Option<
    Vec<PlannedService>,
>)
    requires
        config@.domains is Some,
    ensures
        r is Some <==> plan_fits(config@, old_portmap@, folders@),
        r matches Some(services) ==> services.deep_view() == planned_services(
            config@,
            old_portmap@,
            folders@,
        ),
{
    let found = discover_services(config, folders);
    match &config.domains {
        Some(m) => {
            let n: usize = m.len();
            proof {
                lemma_services_have_domains(m@, folders@, n as nat);
            }
        },
        None => {},
    }
    assign_ports(config, old_portmap, &found)
}

/// The message where no domain is configured.
pub open spec fn no_domain_message() -> Seq<char> {
    "Please configure a domain."@
}

/// Some domain is configured.
pub open spec fn has_domains(c: ConfigView) -> bool {
    c.domains is Some && c.domains->0 != Map::<Seq<char>, DomainView>::empty()
}

/// Are there ports for all services on disk? [`plan_deployment`] can be called then.
pub fn can_plan_deployment(
    config: &Config,
    old_portmap: &JsonValue,
    folders: &StrMap<Folders>,
) -> (r:
    bool)
    ensures
        r == (has_domains(config@) ==> plan_fits(config@, old_portmap@, folders@)),
{
    match &config.domains {
        Some(m) => m.is_empty() || try_plan(config, old_portmap, folders).is_some(),
        None => true,
    }
}

/// Lists every service on disk with its ports, without touching any artifact of a
/// deployment.
///
/// `old_portmap` is the port map of the previous deployment, so that each service keeps its
/// debug port. `folders` holds the folders that were found for each domain. Reverse-proxy
/// ports are handed out one after the other. Fails where no domain is configured.
pub fn plan_deployment(config: &Config, old_portmap: &JsonValue, folders: &StrMap<Folders>) -> (r:
    Result<Vec<PlannedService>, ConfigError>)
    requires
        has_domains(config@) ==> plan_fits(config@, old_portmap@, folders@),
    ensures
        r is Ok <==> has_domains(config@),
        r matches Ok(services) ==> services.deep_view() == planned_services(
            config@,
            old_portmap@,
            folders@,
        ),
        r matches Err(e) ==> e@ == no_domain_message(),
{
    let configured = match &config.domains {
        Some(m) => !m.is_empty(),
        None => false,
    };
    if !configured {
        return Err(ConfigError::new("Please configure a domain.".to_string()));
    }
    match try_plan(config, old_portmap, folders) {
        Some(services) => Ok(services),
        None => vstd::pervasive::unreached(),
    }
}

// ---------------------------------------------------------------------------
// Laws
// ---------------------------------------------------------------------------
impl PlanInputs {
    /// A service keeps the debug port that it had.
    pub open spec fn keeps(self, f: FoundView) -> bool {
        keeps_port(self.persisted(f), self.base, self.skip)
    }
}

/// A kept port was reserved from the start.
proof fn lemma_kept_port_is_reserved(inputs: PlanInputs, f: FoundView)
    requires
        inputs.keeps(f),
    ensures
        inputs.start().reserved.contains(inputs.persisted(f)->0),
{
    let p = inputs.persisted(f)->0;
    assert(debug_port_in(inputs.portmap, f.domain, f.group, f.service) == Some(p));
    assert(assigned_ports(inputs.portmap).contains(p));
}

pub(crate) proof fn lemma_plan(inputs: PlanInputs, found: Seq<FoundView>)
    requires
        inputs.fits(found),
    ensures
        ({
            let plan = inputs.plan(found);
            &&& plan.services.len() == found.len()
            &&& FIRST_PROXY_PORT + found.len() <= 0xffff
            &&& inputs.start().reserved.subset_of(plan.reserved)
            &&& forall|i: int|
                #![trigger plan.services[i]]
                0 <= i < found.len() ==> {
                    let s = plan.services[i];
                    &&& s == inputs.service_for(inputs.plan(found.take(i)), found[i])
                    &&& s.debug_port >= inputs.base
                    &&& !inputs.skip.contains(s.debug_port)
                    &&& plan.reserved.contains(s.debug_port)
                    &&& inputs.keeps(found[i]) ==> Some(s.debug_port) == inputs.persisted(found[i])
                    &&& !inputs.keeps(found[i]) ==> !inputs.start().reserved.contains(s.debug_port)
                }
            &&& forall|i: int, j: int|
                #![trigger plan.services[i], plan.services[j]]
                0 <= i < j < found.len() && !inputs.keeps(found[j]) ==> plan.services[i].debug_port
                    != plan.services[j].debug_port
        }),
    decreases found.len(),
{
    if found.len() > 0 {
        let init = found.drop_last();
        let f = found.last();
        let before = inputs.plan(init);
        let plan = inputs.plan(found);
        lemma_plan(inputs, init);
        assert(inputs.has_ports_for(before, f));
        debug_port_is_usable(
            inputs.persisted(f),
            inputs.base,
            inputs.skip,
            before.reserved,
            before.next,
        );
        if inputs.keeps(f) {
            lemma_kept_port_is_reserved(inputs, f);
        }
        assert(found.take(found.len() - 1) =~= init);
        assert forall|i: int| #![trigger plan.services[i]] 0 <= i < found.len() implies {
            let s = plan.services[i];
            &&& s == inputs.service_for(inputs.plan(found.take(i)), found[i])
            &&& s.debug_port >= inputs.base
            &&& !inputs.skip.contains(s.debug_port)
            &&& plan.reserved.contains(s.debug_port)
            &&& inputs.keeps(found[i]) ==> Some(s.debug_port) == inputs.persisted(found[i])
            &&& !inputs.keeps(found[i]) ==> !inputs.start().reserved.contains(s.debug_port)
        } by {
            if i < init.len() {
                assert(plan.services[i] == before.services[i]);
                assert(init.take(i) =~= found.take(i));
                assert(init[i] == found[i]);
            }
        }
        assert forall|i: int, j: int|
            #![trigger plan.services[i], plan.services[j]]
            0 <= i < j < found.len() && !inputs.keeps(found[j]) implies plan.services[i].debug_port
            != plan.services[j].debug_port by {
            assert(plan.services[i] == before.services[i]);
            if j < init.len() {
                assert(plan.services[j] == before.services[j]);
                assert(init[j] == found[j]);
            }
        }
    }
}

/// The plan lists the services on disk in the order in which they were found, each under its
/// own name, with a canonical hostname that is resolved by wildcard, and with reverse-proxy
/// ports that follow each other.
pub proof fn plan_follows_the_disk(inputs: PlanInputs, found: Seq<FoundView>, i: int)
    requires
        inputs.fits(found),
        0 <= i < found.len(),
    ensures
        inputs.plan(found).services.len() == found.len(),
        ({
            let s = inputs.plan(found).services[i];
            &&& s.domain == found[i].domain
            &&& s.group == found[i].group
            &&& s.service == found[i].service
            &&& s.canonical_hostname == found[i].service + "."@ + found[i].domain + ".test"@
            &&& ends_with(comparison_form(s.canonical_hostname), ".test"@)
            &&& s.proxy_port == FIRST_PROXY_PORT + i
        }),
{
    names_below_test_are_resolved_by_wildcard(found[i].service + "."@ + found[i].domain);
    lemma_plan(inputs, found);
    lemma_fits_prefix(inputs, found, i);
    lemma_plan(inputs, found.take(i));
    assert(inputs.plan(found).services[i] == inputs.service_for(
        inputs.plan(found.take(i)),
        found[i],
    ));
}

/// Every debug port is in range and none of the skipped ones, and a service keeps the debug
/// port that it had where that is still so.
pub proof fn planned_debug_ports_are_usable(inputs: PlanInputs, found: Seq<FoundView>, i: int)
    requires
        inputs.fits(found),
        0 <= i < found.len(),
    ensures
        inputs.plan(found).services[i].debug_port >= inputs.base,
        !inputs.skip.contains(inputs.plan(found).services[i].debug_port),
        inputs.keeps(found[i]) ==> Some(inputs.plan(found).services[i].debug_port)
            == inputs.persisted(found[i]),
{
    lemma_plan(inputs, found);
    assert(inputs.plan(found).services[i] == inputs.plan(found).services[i]);
}

/// A debug port never clashes with a host port that the configuration maps in a
/// `host_portmappings`, on any level. Ports that stand only in a `*host_portmappings` are not
/// looked at.
pub proof fn mapped_ports_are_no_debug_ports(
    c: ConfigView,
    portmap: JsonView,
    found: Seq<FoundView>,
    i: int,
    place: PlaceView,
    key: Seq<char>,
)
    requires
        plan_inputs(c, portmap).fits(found),
        0 <= i < found.len(),
        c.settings(place) is Ok,
        c.settings(place)->Ok_0.host_portmappings is Some,
        c.settings(place)->Ok_0.host_portmappings->0.contains_key(key),
    ensures
        port_number(key) != Some(plan_inputs(c, portmap).plan(found).services[i].debug_port),
{
    planned_debug_ports_are_usable(plan_inputs(c, portmap), found, i);
    if port_number(key) is Some {
        every_mapped_port_is_collected(c, place, key);
    }
}

/// Every service has a debug port of its own, unless the previous port map gave two of them
/// the same one.
pub proof fn planned_debug_ports_are_distinct(
    inputs: PlanInputs,
    found: Seq<FoundView>,
    i: int,
    j: int,
)
    requires
        inputs.fits(found),
        0 <= i < j < found.len(),
        inputs.keeps(found[i]) && inputs.keeps(found[j]) ==> inputs.persisted(found[i])
            != inputs.persisted(found[j]),
    ensures
        inputs.plan(found).services[i].debug_port != inputs.plan(found).services[j].debug_port,
{
    lemma_plan(inputs, found);
    let a = inputs.plan(found).services[i];
    let b = inputs.plan(found).services[j];
    if inputs.keeps(found[j]) {
        lemma_kept_port_is_reserved(inputs, found[j]);
        assert(Some(b.debug_port) == inputs.persisted(found[j]));
        if inputs.keeps(found[i]) {
            assert(Some(a.debug_port) == inputs.persisted(found[i]));
        } else {
            assert(!inputs.start().reserved.contains(a.debug_port));
        }
    }
}

/// Ports are stable: a deployment of the same services that finds their debug ports in the
/// port map plans exactly the same.
pub proof fn redeployment_keeps_every_port(
    inputs: PlanInputs,
    found: Seq<FoundView>,
    portmap: JsonView,
)
    requires
        inputs.fits(found),
        forall|i: int|
            0 <= i < found.len() ==> #[trigger] debug_port_in(
                portmap,
                found[i].domain,
                found[i].group,
                found[i].service,
            ) == Some(inputs.plan(found).services[i].debug_port),
    ensures
        ({
            let again = PlanInputs { portmap, ..inputs };
            again.fits(found) && again.plan(found).services == inputs.plan(found).services
        }),
{
    let again = PlanInputs { portmap, ..inputs };
    lemma_plan(inputs, found);
    lemma_replan(inputs, again, found, found.len() as int);
    assert(found.take(found.len() as int) =~= found);
}

proof fn lemma_replan(inputs: PlanInputs, again: PlanInputs, found: Seq<FoundView>, n: int)
    requires
        inputs.fits(found),
        again == (PlanInputs { portmap: again.portmap, ..inputs }),
        0 <= n <= found.len(),
        forall|i: int|
            0 <= i < found.len() ==> #[trigger] debug_port_in(
                again.portmap,
                found[i].domain,
                found[i].group,
                found[i].service,
            ) == Some(inputs.plan(found).services[i].debug_port),
    ensures
        again.fits(found.take(n)),
        again.plan(found.take(n)).services == inputs.plan(found.take(n)).services,
    decreases n,
{
    if n == 0 {
        assert(found.take(0) =~= Seq::<FoundView>::empty());
    } else {
        lemma_replan(inputs, again, found, n - 1);
        lemma_plan(inputs, found);
        lemma_fits_prefix(inputs, found, n);
        lemma_plan(inputs, found.take(n));
        assert(found.take(n).drop_last() =~= found.take(n - 1));
        let f = found[n - 1];
        let s = inputs.plan(found).services[n - 1];
        assert(s == inputs.service_for(inputs.plan(found.take(n - 1)), f));
        assert(again.persisted(f) == Some(s.debug_port)) by {
            assert(debug_port_in(again.portmap, found[n - 1].domain, found[n - 1].group, found[n
                - 1].service) == Some(inputs.plan(found).services[n - 1].debug_port));
        }
        assert(again.keeps(f));
        assert(inputs.plan(found.take(n - 1)).services.len() == n - 1) by {
            lemma_fits_prefix(inputs, found, n - 1);
            lemma_plan(inputs, found.take(n - 1));
        }
    }
}

} // verus!
