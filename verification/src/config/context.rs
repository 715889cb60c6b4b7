//! Which service the current directory belongs to.
//!
//! Directories are named by texts: a canonical path where directories are compared,
//! and a bare name where a directory stands for a group or a service.
use crate::config::model::{
    Config, ConfigView, Domain, DomainView, Environment, Group, GroupView, Service, ServiceView,
    SettingsView,
};
use crate::map::{sorted_keys, StrMap};
use crate::text::str_eq;
use vstd::prelude::*;

verus! {

/// The current directory and the directories above it.
#[derive(Debug, Clone)]
pub struct CurrentDir {
    pub path: String,
    /// Its own name, where it has one.
    pub name: Option<String>,
    /// The canonical path of its parent, where it has one.
    pub parent: Option<String>,
    /// The name of its parent, where that has one.
    pub parent_name: Option<String>,
    /// The canonical path of its parent's parent, where there is one.
    pub grandparent: Option<String>,
}

/// The first of the given domains that lies at the path.
pub open spec fn first_at(
    keys: Seq<Seq<char>>,
    locations: Map<Seq<char>, Seq<char>>,
    path: Seq<char>,
) -> Option<Seq<char>>
    decreases keys.len(),
{
    if keys.len() == 0 {
        None
    } else if locations.contains_key(keys[0]) && locations[keys[0]] == path {
        Some(keys[0])
    } else {
        first_at(keys.drop_first(), locations, path)
    }
}

impl ConfigView {
    /// The first domain, in the order of names, that lies at the path. `locations` gives
    /// the canonical path of each domain that has one.
    pub open spec fn domain_at(
        self,
        locations: Map<Seq<char>, Seq<char>>,
        path: Seq<char>,
    ) -> Option<Seq<char>> {
        match self.domains {
            Some(m) => first_at(sorted_keys(m), locations, path),
            None => None,
        }
    }

    /// The domain and the group that a directory belongs to. Where its parent is a domain,
    /// the group is `.`; where its parent's parent is one, the group is its parent.
    pub open spec fn context_at(
        self,
        dir: CurrentDir,
        locations: Map<Seq<char>, Seq<char>>,
    ) -> Option<(Seq<char>, Seq<char>)> {
        if dir.name is None || dir.parent is None {
            None
        } else {
            match self.domain_at(locations, dir.parent->0@) {
                Some(d) => Some((d, "."@)),
                None => if dir.grandparent is None || dir.parent_name is None {
                    None
                } else {
                    match self.domain_at(locations, dir.grandparent->0@) {
                        Some(d) => Some((d, dir.parent_name->0@)),
                        None => None,
                    }
                },
            }
        }
    }
}

/// What stands under a key of a map that may be missing.
pub open spec fn entry<V>(m: Option<Map<Seq<char>, V>>, k: Seq<char>) -> Option<V> {
    match m {
        Some(m) => if m.contains_key(k) {
            Some(m[k])
        } else {
            None
        },
        None => None,
    }
}

/// The name of the environment that applies: the one from the command line, or else the
/// default of the service, of the group, or of the domain.
pub open spec fn environment_choice(
    cli: Option<Seq<char>>,
    service: Option<ServiceView>,
    group: Option<GroupView>,
    domain: DomainView,
) -> Option<Seq<char>> {
    if cli is Some {
        cli
    } else if service is Some && service->0.default_environment is Some {
        service->0.default_environment
    } else if group is Some && group->0.default_environment is Some {
        group->0.default_environment
    } else {
        domain.default_environment
    }
}

/// Everything that bears on the service of the current directory.
pub struct ServiceContext<'a> {
    pub current_dir: String,
    pub current_directory_name: String,
    pub domain_name: String,
    pub domain: &'a Domain,
    pub group_name: String,
    pub group: Option<&'a Group>,
    pub service: Option<&'a Service>,
    pub environment_name: Option<String>,
    pub environment: Option<&'a Environment>,
}

/// What bears on the service of a directory.
pub struct ContextView {
    pub current_dir: Seq<char>,
    pub current_directory_name: Seq<char>,
    pub domain_name: Seq<char>,
    pub domain: DomainView,
    pub group_name: Seq<char>,
    pub group: Option<GroupView>,
    pub service: Option<ServiceView>,
    pub environment_name: Option<Seq<char>>,
    pub environment: Option<SettingsView>,
}

impl<'a> View for ServiceContext<'a> {
    type V = ContextView;

    open spec fn view(&self) -> ContextView {
        ContextView {
            current_dir: self.current_dir@,
            current_directory_name: self.current_directory_name@,
            domain_name: self.domain_name@,
            domain: self.domain.deep_view(),
            group_name: self.group_name@,
            group: self.group.deep_view(),
            service: self.service.deep_view(),
            environment_name: self.environment_name.deep_view(),
            environment: self.environment.deep_view(),
        }
    }
}

impl ConfigView {
    /// What bears on the service of a directory, or nothing where the directory lies in no
    /// configured domain. `cli` is the environment from the command line.
    pub open spec fn service_context(
        self,
        dir: CurrentDir,
        locations: Map<Seq<char>, Seq<char>>,
        cli: Option<Seq<char>>,
    ) -> Option<ContextView> {
        match self.context_at(dir, locations) {
            None => None,
            Some((d, g)) => {
                let domain = self.domains->0[d];
                let group = entry(domain.groups, g);
                let service = match group {
                    Some(group) => entry(group.services, dir.name->0@),
                    None => None,
                };
                let environment_name = environment_choice(cli, service, group, domain);
                Some(
                    ContextView {
                        current_dir: dir.path@,
                        current_directory_name: dir.name->0@,
                        domain_name: d,
                        domain,
                        group_name: g,
                        group,
                        service,
                        environment_name,
                        environment: match environment_name {
                            Some(e) => entry(self.environments, e),
                            None => None,
                        },
                    },
                )
            },
        }
    }
}

fn find<'a, V: DeepView>(m: &'a Option<StrMap<V>>, k: &str) -> (r: Option<&'a V>)
    ensures
        r.deep_view() == entry(m.deep_view(), k@),
{
    match m {
        Some(m) => m.get(k),
        None => None,
    }
}

fn copy_name(name: &Option<String>) -> (r: Option<String>)
    ensures
        r.deep_view() == name.deep_view(),
{
    match name {
        Some(s) => Some(s.clone()),
        None => None,
    }
}

impl Config {
    /// The first domain, in the order of names, that lies at a canonical path.
    /// `locations` gives the canonical path of each domain that has one.
    pub fn find_domain_by_location(
        &self,
        canonical_path: &str,
        locations: &StrMap<String>,
    ) -> (r: Option<(&str, &Domain)>)
        ensures
            match (self@.domain_at(locations@, canonical_path@), r) {
                (Some(d), Some((name, domain))) => name@ == d && self@.domains is Some
                    && self@.domains->0.contains_key(d) && domain.deep_view()
                    == self@.domains->0[d],
                (None, None) => true,
                _ => false,
            },
    {
        match &self.domains {
            None => None,
            Some(m) => {
                let n: usize = m.len();
                let ghost keys = sorted_keys(m@);
                let mut i: usize = 0;
                assert(keys.skip(0) =~= keys);
                while i < n
                    invariant
                        i <= n,
                        n == keys.len(),
                        keys == sorted_keys(m@),
                        self@.domains == Some(m@),
                        first_at(keys, locations@, canonical_path@) == first_at(
                            keys.skip(i as int),
                            locations@,
                            canonical_path@,
                        ),
                    decreases n - i,
                {
                    assert(keys.skip(i as int)[0] == keys[i as int]);
                    assert(keys.skip(i as int).drop_first() =~= keys.skip(i as int + 1));
                    let name = m.key_at(i);
                    let here = match locations.get(name.as_str()) {
                        Some(path) => str_eq(path.as_str(), canonical_path),
                        None => false,
                    };
                    if here {
                        return Some((name.as_str(), m.value_at(i)));
                    }
                    i += 1;
                }
                None
            },
        }
    }

    /// The domain and the group that a directory belongs to: the names of both, the
    /// domain, and the group where it is configured.
    ///
    /// 1. Where the parent directory is a domain, the group is `.`.
    /// 2. Where the parent's parent is a domain, the group is the parent directory.
    pub fn find_context_by_cwd(
        &self,
        current_dir: &CurrentDir,
        locations: &StrMap<String>,
    ) -> (r: Option<(&str, &Domain, String, Option<&Group>)>)
        ensures
            match (self@.context_at(*current_dir, locations@), r) {
                (Some((d, g)), Some((name, domain, group_name, group))) => name@ == d
                    && self@.domains is Some && self@.domains->0.contains_key(d)
                    && domain.deep_view() == self@.domains->0[d] && group_name@ == g
                    && group.deep_view() == entry(self@.domains->0[d].groups, g),
                (None, None) => true,
                _ => false,
            },
    {
        if current_dir.name.is_none() {
            return None;
        }
        let parent = match &current_dir.parent {
            Some(parent) => parent,
            None => {
                return None;
            },
        };
        match self.find_domain_by_location(parent.as_str(), locations) {
            Some((name, domain)) => {
                let group = find(&domain.groups, ".");
                return Some((name, domain, ".".to_string(), group));
            },
            None => {},
        }
        match (&current_dir.grandparent, &current_dir.parent_name) {
            (Some(grandparent), Some(parent_name)) => match self.find_domain_by_location(
                grandparent.as_str(),
                locations,
            ) {
                Some((name, domain)) => {
                    let group = find(&domain.groups, parent_name.as_str());
                    Some((name, domain, parent_name.clone(), group))
                },
                None => None,
            },
            _ => None,
        }
    }

    /// Everything that bears on the service of the current directory, or `None` where the
    /// directory lies in no configured domain.
    pub fn service_context_from_cwd(
        &self,
        env_cli: Option<String>,
        current_dir: &CurrentDir,
        locations: &StrMap<String>,
    ) -> (r: Option<ServiceContext<'_>>)
        ensures
            match self@.service_context(*current_dir, locations@, env_cli.deep_view()) {
                Some(ctx) => r is Some && r->0@ == ctx,
                None => r is None,
            },
    {
        let (found_name, domain, group_name, group) = match self.find_context_by_cwd(
            current_dir,
            locations,
        ) {
            Some(found) => found,
            None => {
                return None;
            },
        };
        let name = match &current_dir.name {
            Some(name) => name,
            None => {
                return None;
            },
        };
        let service = match group {
            Some(group) => find(&group.services, name.as_str()),
            None => None,
        };
        let mut environment_name = env_cli;
        if environment_name.is_none() {
            match service {
                Some(service) => {
                    environment_name = copy_name(&service.default_environment);
                },
                None => {},
            }
        }
        if environment_name.is_none() {
            match group {
                Some(group) => {
                    environment_name = copy_name(&group.default_environment);
                },
                None => {},
            }
        }
        if environment_name.is_none() {
            environment_name = copy_name(&domain.default_environment);
        }
        let environment = match &environment_name {
            Some(e) => find(&self.environments, e.as_str()),
            None => None,
        };
        Some(
            ServiceContext {
                current_dir: current_dir.path.clone(),
                current_directory_name: name.clone(),
                domain_name: found_name.to_string(),
                domain,
                group_name,
                group,
                service,
                environment_name,
                environment,
            },
        )
    }
}

} // verus!
