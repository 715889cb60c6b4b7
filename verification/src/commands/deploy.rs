//! A deployment as a whole: planned, validated, and only then turned into artifacts.
use crate::alias::comparison_form;
use crate::commands::aliases::{
    all_failures, failure_report, kept_aliases_are_distinct_hostnames, validate_plan_aliases,
    validated_all,
};
use crate::commands::artifacts::{
    all_hostnames, build_debug_report, build_hosts_lines, build_vhost_container_conf, debug_report,
    every_hostname_has_one_line, first_seen, hosts_line, hosts_lines, vhost_conf,
};
use crate::commands::collision_laws::{
    has_distinct_hostnames, server_names, server_names_of_a_passing_deployment_are_distinct,
};
use crate::commands::collisions::{collision_report, detect_hostname_collisions, has_collision};
use crate::commands::portmap::{build_portmap, holds_ports, is_last_of_its_name, portmap_of};
use crate::commands::service::{PlannedService, PlannedView};
use crate::config::model::{Config, ConfigView, Domain};
use crate::error::ConfigError;
use crate::json::{document_tree, tree_document, write_document, JsonValue, JsonView};
use crate::map::{sorted_keys, StrMap};
use vstd::prelude::*;

verus! {

/// Why a plan is rejected, if it is: rejected aliases first, then hostnames that
/// different services claim.
pub open spec fn plan_fault(planned: Seq<PlannedView>) -> Option<Seq<char>> {
    if all_failures(planned).len() > 0 {
        Some(failure_report(all_failures(planned)))
    } else if has_collision(validated_all(planned)) {
        Some(collision_report(validated_all(planned)))
    } else {
        None
    }
}

/// Validates a plan: normalizes its aliases in place and rejects hostnames that different
/// services claim.
pub fn validate_plan(services: &mut [PlannedService]) -> (r: Result<(), ConfigError>)
    ensures
        final(services).deep_view() == validated_all(old(services).deep_view()),
        match plan_fault(old(services).deep_view()) {
            Some(message) => r is Err && r->Err_0@ == message,
            None => r is Ok,
        },
{
    let checked = validate_plan_aliases(services);
    if checked.is_err() {
        return checked;
    }
    detect_hostname_collisions(services)
}

/// Everything that a deployment writes and reports, but for the hosts file of containers,
/// which also needs the address of the gateway.
#[derive(Debug)]
pub struct Deployment {
    pub services: Vec<PlannedService>,
    pub vhost_conf: String,
    pub hosts_lines: Vec<String>,
    pub portmap: Vec<u8>,
    pub debug_report: Vec<String>,
}

impl Deployment {
    /// The deployment consists of the services, with the artifacts made from them.
    pub open spec fn is_of(
        self,
        services: Seq<PlannedView>,
        domain_names: Seq<Seq<char>>,
        host_gateway: Seq<char>,
    ) -> bool {
        &&& self.services.deep_view() == services
        &&& self.vhost_conf@ == vhost_conf(services, host_gateway)
        &&& self.hosts_lines.deep_view() == hosts_lines(services)
        &&& self.portmap@ == tree_document(JsonView::Object(portmap_of(services, domain_names)))
        &&& document_tree(self.portmap@) == JsonView::Object(portmap_of(services, domain_names))
        &&& self.debug_report.deep_view() == debug_report(services)
    }
}

fn key_list(m: &StrMap<Domain>) -> (r: Vec<String>)
    ensures
        r.deep_view() == sorted_keys(m@),
{
    let n: usize = m.len();
    let ghost keys = sorted_keys(m@);
    let mut names: Vec<String> = Vec::new();
    let mut i: usize = 0;
    while i < n
        invariant
            i <= n,
            n == keys.len(),
            keys == sorted_keys(m@),
            names@.len() == i,
            forall|k: int| 0 <= k < i ==> (#[trigger] names@[k])@ == keys[k],
        decreases n - i,
    {
        names.push(m.key_at(i).clone());
        i += 1;
    }
    assert(names.deep_view() =~= keys);
    names
}

/// The names of the configured domains, in order.
pub open spec fn domain_names(c: ConfigView) -> Seq<Seq<char>> {
    match c.domains {
        Some(m) => sorted_keys(m),
        None => Seq::empty(),
    }
}

/// Validates the plan of a deployment and builds its artifacts.
///
/// Nothing is built for a plan that is rejected, so a rejected configuration leaves the
/// previous deployment as it is. Other commands read the port map: it gives them the ports
/// that each service has.
pub fn cmd_deploy(config: &Config, planned: Vec<PlannedService>, host_gateway: &str) -> (r: Result<
    Deployment,
    ConfigError,
>)
    ensures
        match plan_fault(planned.deep_view()) {
            Some(message) => r is Err && r->Err_0@ == message,
            None => r is Ok && r->Ok_0.is_of(
                validated_all(planned.deep_view()),
                domain_names(config@),
                host_gateway@,
            ),
        },
        r matches Ok(d) ==> forall|i: int|
            #![trigger d.services.deep_view()[i]]
            0 <= i < d.services.deep_view().len() && is_last_of_its_name(
                d.services.deep_view(),
                i,
            ) ==> holds_ports(document_tree(d.portmap@), d.services.deep_view()[i]),
{
    let mut services = planned;
    match validate_plan(services.as_mut_slice()) {
        Ok(_) => {},
        Err(e) => {
            return Err(e);
        },
    }
    let names = match &config.domains {
        Some(m) => key_list(m),
        None => {
            let none: Vec<String> = Vec::new();
            assert(none.deep_view() =~= Seq::<Seq<char>>::empty());
            none
        },
    };
    let vhost_conf = build_vhost_container_conf(services.as_slice(), host_gateway);
    let hosts_lines = build_hosts_lines(services.as_slice());
    let portmap = build_portmap(services.as_slice(), names.as_slice());
    let debug_report = build_debug_report(services.as_slice());
    Ok(
        Deployment {
            services,
            vhost_conf,
            hosts_lines,
            portmap: write_document(JsonValue::object(portmap)),
            debug_report,
        },
    )
}

// ---------------------------------------------------------------------------
// Laws
// ---------------------------------------------------------------------------
proof fn lemma_server_names_are_hostnames(services: Seq<PlannedView>)
    ensures
        forall|i: int|
            0 <= i < server_names(services).len() ==> all_hostnames(services).contains(
                #[trigger] server_names(services)[i],
            ),
    decreases services.len(),
{
    if services.len() > 0 {
        let init = services.drop_last();
        lemma_server_names_are_hostnames(init);
        let all = all_hostnames(services);
        let before = all_hostnames(init);
        let names = server_names(services);
        let more = services.last().hostnames();
        assert forall|i: int| 0 <= i < names.len() implies all.contains(#[trigger] names[i]) by {
            if i < server_names(init).len() {
                assert(names[i] == server_names(init)[i]);
                let k = before.index_of(names[i]);
                assert(all[k] == names[i]);
            } else {
                let j = i - server_names(init).len();
                assert(names[i] == more[j]);
                assert(all[before.len() + j] == more[j]);
            }
        }
    }
}

/// In a plan that is accepted, no two server names are the same for DNS, so nginx routes every
/// hostname to one service.
pub proof fn server_names_of_an_accepted_plan_are_distinct(
    planned: Seq<PlannedView>,
    i: int,
    j: int,
)
    requires
        plan_fault(planned) is None,
        0 <= i < j < server_names(validated_all(planned)).len(),
    ensures
        ({
            let names = server_names(validated_all(planned));
            comparison_form(names[i]) != comparison_form(names[j])
        }),
{
    let services = validated_all(planned);
    assert forall|k: int|
        0 <= k < services.len() && services[k].is_host_routed() implies has_distinct_hostnames(
        #[trigger] services[k],
    ) by {
        let s = services[k];
        let names = s.hostnames();
        let canonical = planned[k].canonical_key();
        kept_aliases_are_distinct_hostnames(planned[k].aliases, canonical);
        assert(s.canonical_key() == canonical);
        assert forall|x: int, y: int| 0 <= x < y < names.len() implies comparison_form(
            #[trigger] names[x],
        ) != comparison_form(#[trigger] names[y]) by {
            assert(names[y] == s.aliases[y - 1]);
            if x > 0 {
                assert(names[x] == s.aliases[x - 1]);
            }
        }
    }
    server_names_of_a_passing_deployment_are_distinct(services, i, j);
}

/// Every server name of the reverse proxy has a line in the hosts files, so that it can be
/// reached.
pub proof fn every_server_name_has_a_hosts_line(services: Seq<PlannedView>, i: int)
    requires
        0 <= i < server_names(services).len(),
    ensures
        exists|j: int|
            0 <= j < hosts_lines(services).len() && #[trigger] hosts_lines(services)[j]
                == hosts_line(first_seen(all_hostnames(services))[j]) && comparison_form(
                first_seen(all_hostnames(services))[j],
            ) == comparison_form(server_names(services)[i]),
{
    lemma_server_names_are_hostnames(services);
    let all = all_hostnames(services);
    every_hostname_has_one_line(all);
    let name = server_names(services)[i];
    assert(all.contains(name));
    let k = all.index_of(name);
    let seen = first_seen(all);
    let j = choose|j: int|
        0 <= j < seen.len() && comparison_form(#[trigger] seen[j]) == comparison_form(all[k]);
    assert(hosts_lines(services)[j] == hosts_line(seen[j]));
}

} // verus!
