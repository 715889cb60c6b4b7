//! Places of a configuration, opened for writing.
use crate::config::edit::{
    get_or, no_default_environment, no_environment, no_group, no_groups, no_service, no_services,
    put, EntrySetting, Place, Setting,
};
use crate::config::model::{
    Config, ConfigView, Domain, DomainView, Environment, Group, GroupView, Service, ServiceView,
    SettingsView, Volume,
};
use crate::error::ConfigError;
use crate::map::StrMap;
use crate::text::{four, three, two};
use vstd::prelude::*;

verus! {

// ---------------------------------------------------------------------------
// Fields by setting
// ---------------------------------------------------------------------------
impl Domain {
    pub(crate) fn value_slot(&mut self, setting: Setting) -> (r: &mut Option<String>)
        ensures
            (*r).deep_view() == old(self).settings().value(setting),
            final(self).deep_view() == (DomainView {
                settings: old(self).deep_view().settings.with_value(
                    setting,
                    (*final(r)).deep_view(),
                ),
                ..old(self).deep_view()
            }),
    {
        match setting {
            Setting::ServeCommand => &mut self.serve_command,
            Setting::ShellCommand => &mut self.shell_command,
            Setting::ImageRepository => &mut self.image_repository,
            Setting::Platform => &mut self.platform,
            Setting::DefaultContainerImage => &mut self.default_container_image,
            Setting::ConnectionType => &mut self.connection_type,
        }
    }

    pub(crate) fn entries_slot(&mut self, setting: EntrySetting) -> (r: &mut Option<
        StrMap<String>,
    >)
        ensures
            (*r).deep_view() == old(self).settings().entries(setting),
            final(self).deep_view() == (DomainView {
                settings: old(self).deep_view().settings.with_entries(
                    setting,
                    (*final(r)).deep_view(),
                ),
                ..old(self).deep_view()
            }),
    {
        match setting {
            EntrySetting::HostPortmappings => &mut self.host_portmappings,
            EntrySetting::Variables => &mut self.variables,
        }
    }

    pub(crate) fn volumes_slot(&mut self) -> (r: &mut Option<Vec<Volume>>)
        ensures
            (*r).deep_view() == old(self).settings().volumes,
            final(self).deep_view() == (DomainView {
                settings: old(self).deep_view().settings.with_volumes((*final(r)).deep_view()),
                ..old(self).deep_view()
            }),
    {
        &mut self.volumes
    }
}

impl Group {
    pub(crate) fn value_slot(&mut self, setting: Setting) -> (r: &mut Option<String>)
        ensures
            (*r).deep_view() == old(self).settings().value(setting),
            final(self).deep_view() == (GroupView {
                settings: old(self).deep_view().settings.with_value(
                    setting,
                    (*final(r)).deep_view(),
                ),
                ..old(self).deep_view()
            }),
    {
        match setting {
            Setting::ServeCommand => &mut self.serve_command,
            Setting::ShellCommand => &mut self.shell_command,
            Setting::ImageRepository => &mut self.image_repository,
            Setting::Platform => &mut self.platform,
            Setting::DefaultContainerImage => &mut self.default_container_image,
            Setting::ConnectionType => &mut self.connection_type,
        }
    }

    pub(crate) fn entries_slot(&mut self, setting: EntrySetting) -> (r: &mut Option<
        StrMap<String>,
    >)
        ensures
            (*r).deep_view() == old(self).settings().entries(setting),
            final(self).deep_view() == (GroupView {
                settings: old(self).deep_view().settings.with_entries(
                    setting,
                    (*final(r)).deep_view(),
                ),
                ..old(self).deep_view()
            }),
    {
        match setting {
            EntrySetting::HostPortmappings => &mut self.host_portmappings,
            EntrySetting::Variables => &mut self.variables,
        }
    }

    pub(crate) fn volumes_slot(&mut self) -> (r: &mut Option<Vec<Volume>>)
        ensures
            (*r).deep_view() == old(self).settings().volumes,
            final(self).deep_view() == (GroupView {
                settings: old(self).deep_view().settings.with_volumes((*final(r)).deep_view()),
                ..old(self).deep_view()
            }),
    {
        &mut self.volumes
    }
}

impl Service {
    pub(crate) fn value_slot(&mut self, setting: Setting) -> (r: &mut Option<String>)
        ensures
            (*r).deep_view() == old(self).settings().value(setting),
            final(self).deep_view() == (ServiceView {
                settings: old(self).deep_view().settings.with_value(
                    setting,
                    (*final(r)).deep_view(),
                ),
                ..old(self).deep_view()
            }),
    {
        match setting {
            Setting::ServeCommand => &mut self.serve_command,
            Setting::ShellCommand => &mut self.shell_command,
            Setting::ImageRepository => &mut self.image_repository,
            Setting::Platform => &mut self.platform,
            Setting::DefaultContainerImage => &mut self.default_container_image,
            Setting::ConnectionType => &mut self.connection_type,
        }
    }

    pub(crate) fn entries_slot(&mut self, setting: EntrySetting) -> (r: &mut Option<
        StrMap<String>,
    >)
        ensures
            (*r).deep_view() == old(self).settings().entries(setting),
            final(self).deep_view() == (ServiceView {
                settings: old(self).deep_view().settings.with_entries(
                    setting,
                    (*final(r)).deep_view(),
                ),
                ..old(self).deep_view()
            }),
    {
        match setting {
            EntrySetting::HostPortmappings => &mut self.host_portmappings,
            EntrySetting::Variables => &mut self.variables,
        }
    }

    pub(crate) fn volumes_slot(&mut self) -> (r: &mut Option<Vec<Volume>>)
        ensures
            (*r).deep_view() == old(self).settings().volumes,
            final(self).deep_view() == (ServiceView {
                settings: old(self).deep_view().settings.with_volumes((*final(r)).deep_view()),
                ..old(self).deep_view()
            }),
    {
        &mut self.volumes
    }
}

impl Environment {
    pub(crate) fn value_slot(&mut self, setting: Setting) -> (r: &mut Option<String>)
        ensures
            (*r).deep_view() == old(self).settings().value(setting),
            final(self).deep_view() == old(self).deep_view().with_value(
                setting,
                (*final(r)).deep_view(),
            ),
    {
        match setting {
            Setting::ServeCommand => &mut self.serve_command,
            Setting::ShellCommand => &mut self.shell_command,
            Setting::ImageRepository => &mut self.image_repository,
            Setting::Platform => &mut self.platform,
            Setting::DefaultContainerImage => &mut self.default_container_image,
            Setting::ConnectionType => &mut self.connection_type,
        }
    }

    pub(crate) fn entries_slot(&mut self, setting: EntrySetting) -> (r: &mut Option<
        StrMap<String>,
    >)
        ensures
            (*r).deep_view() == old(self).settings().entries(setting),
            final(self).deep_view() == old(self).deep_view().with_entries(
                setting,
                (*final(r)).deep_view(),
            ),
    {
        match setting {
            EntrySetting::HostPortmappings => &mut self.host_portmappings,
            EntrySetting::Variables => &mut self.variables,
        }
    }

    pub(crate) fn volumes_slot(&mut self) -> (r: &mut Option<Vec<Volume>>)
        ensures
            (*r).deep_view() == old(self).settings().volumes,
            final(self).deep_view() == old(self).deep_view().with_volumes((*final(r)).deep_view()),
    {
        &mut self.volumes
    }
}

// ---------------------------------------------------------------------------
// Messages
// ---------------------------------------------------------------------------
pub(crate) fn missing_environment(e: &str) -> (r: ConfigError)
    ensures
        r@ == no_environment(e@),
{
    ConfigError::new(three("Environment '", e, "' does not exist."))
}

pub(crate) fn missing_default_environment(place: &Place) -> (r: ConfigError)
    ensures
        r@ == no_default_environment(place@),
{
    ConfigError::new(two(place.describe_first().as_str(), " has no default_environment."))
}

// ---------------------------------------------------------------------------
// Domains, groups, services, environments
// ---------------------------------------------------------------------------
impl Domain {
    fn group_mut(&mut self, d: &str, g: &str) -> (r: Result<&mut Group, ConfigError>)
        ensures
            match r {
                Ok(x) => old(self).deep_view().groups is Some
                    && old(self).deep_view().groups->0.contains_key(g@)
                    && (*x).deep_view() == old(self).deep_view().groups->0[g@]
                    && final(self).deep_view() == (DomainView {
                    groups: put(old(self).deep_view().groups, g@, (*final(x)).deep_view()),
                    ..old(self).deep_view()
                }),
                Err(e) => *final(self) == *old(self) && e@ == match old(self).deep_view().groups {
                    None => no_groups(d@),
                    Some(m) => no_group(d@, g@),
                } && (old(self).deep_view().groups matches Some(m) ==> !m.contains_key(g@)),
            },
    {
        match &mut self.groups {
            None => Err(ConfigError::new(two("No groups configured for domain ", d))),
            Some(m) => match m.get_mut(g) {
                None => Err(
                    ConfigError::new(four("group, ", g, ", does not exist in domain ", d)),
                ),
                Some(x) => Ok(x),
            },
        }
    }

    fn group_or_new_mut(&mut self, g: &str) -> (r: &mut Group)
        ensures
            (*r).deep_view() == get_or(old(self).deep_view().groups, g@, GroupView::none()),
            final(self).deep_view() == (DomainView {
                groups: put(old(self).deep_view().groups, g@, (*final(r)).deep_view()),
                ..old(self).deep_view()
            }),
    {
        if self.groups.is_none() {
            self.groups = Some(StrMap::new());
        }
        match &mut self.groups {
            Some(m) => m.get_or_insert(g, Group::default()),
            None => vstd::pervasive::unreached(),
        }
    }
}

impl Group {
    fn service_mut(&mut self, d: &str, g: &str, s: &str) -> (r: Result<&mut Service, ConfigError>)
        ensures
            match r {
                Ok(x) => old(self).deep_view().services is Some
                    && old(self).deep_view().services->0.contains_key(s@)
                    && (*x).deep_view() == old(self).deep_view().services->0[s@]
                    && final(self).deep_view() == (GroupView {
                    services: put(old(self).deep_view().services, s@, (*final(x)).deep_view()),
                    ..old(self).deep_view()
                }),
                Err(e) => *final(self) == *old(self) && e@ == match old(self).deep_view().services {
                    None => no_services(d@, g@),
                    Some(m) => no_service(s@),
                } && (old(self).deep_view().services matches Some(m) ==> !m.contains_key(s@)),
            },
    {
        match &mut self.services {
            None => Err(
                ConfigError::new(
                    four("No services configured for group '", g, "' in domain ", d),
                ),
            ),
            Some(m) => match m.get_mut(s) {
                None => Err(ConfigError::new(three("service, ", s, ", does not exist"))),
                Some(x) => Ok(x),
            },
        }
    }

    fn service_or_new_mut(&mut self, s: &str) -> (r: &mut Service)
        ensures
            (*r).deep_view() == get_or(old(self).deep_view().services, s@, ServiceView::none()),
            final(self).deep_view() == (GroupView {
                services: put(old(self).deep_view().services, s@, (*final(r)).deep_view()),
                ..old(self).deep_view()
            }),
    {
        if self.services.is_none() {
            self.services = Some(StrMap::new());
        }
        match &mut self.services {
            Some(m) => m.get_or_insert(s, Service::default()),
            None => vstd::pervasive::unreached(),
        }
    }
}

impl Config {
    pub(crate) fn domain_mut(&mut self, d: &str) -> (r: Result<&mut Domain, ConfigError>)
        ensures
            match r {
                Ok(x) => old(self)@.domain(d@) == Ok::<DomainView, Seq<char>>((*x).deep_view())
                    && final(self)@ == old(self)@.with_domain(d@, (*final(x)).deep_view()),
                Err(e) => old(self)@.domain(d@) == Err::<DomainView, Seq<char>>(e@) && final(self)@
                    == old(self)@,
            },
    {
        match &mut self.domains {
            None => Err(ConfigError::new("No domains configured".to_string())),
            Some(m) => match m.get_mut(d) {
                None => Err(ConfigError::new(three("domain, ", d, ", does not exist"))),
                Some(x) => Ok(x),
            },
        }
    }

    pub(crate) fn group_mut(&mut self, d: &str, g: &str) -> (r: Result<&mut Group, ConfigError>)
        ensures
            match r {
                Ok(x) => old(self)@.group(d@, g@) == Ok::<GroupView, Seq<char>>((*x).deep_view())
                    && final(self)@ == old(self)@.with_group(d@, g@, (*final(x)).deep_view()),
                Err(e) => old(self)@.group(d@, g@) == Err::<GroupView, Seq<char>>(e@)
                    && final(self)@ == old(self)@,
            },
    {
        let ghost before = self@;
        match self.domain_mut(d) {
            Err(e) => Err(e),
            Ok(domain) => {
                proof {
                    lemma_same_domain(before, d@);
                }
                domain.group_mut(d, g)
            },
        }
    }

    pub(crate) fn group_or_new_mut(&mut self, d: &str, g: &str) -> (r: Result<
        &mut Group,
        ConfigError,
    >)
        ensures
            match r {
                Ok(x) => old(self)@.group_or_new(d@, g@) == Ok::<GroupView, Seq<char>>(
                    (*x).deep_view(),
                ) && final(self)@ == old(self)@.with_group(d@, g@, (*final(x)).deep_view()),
                Err(e) => old(self)@.group_or_new(d@, g@) == Err::<GroupView, Seq<char>>(e@)
                    && final(self)@ == old(self)@,
            },
    {
        match self.domain_mut(d) {
            Err(e) => Err(e),
            Ok(domain) => Ok(domain.group_or_new_mut(g)),
        }
    }

    pub(crate) fn service_mut(&mut self, d: &str, g: &str, s: &str) -> (r: Result<
        &mut Service,
        ConfigError,
    >)
        ensures
            match r {
                Ok(x) => old(self)@.service(d@, g@, s@) == Ok::<ServiceView, Seq<char>>(
                    (*x).deep_view(),
                ) && final(self)@ == old(self)@.with_service(d@, g@, s@, (*final(x)).deep_view()),
                Err(e) => old(self)@.service(d@, g@, s@) == Err::<ServiceView, Seq<char>>(e@)
                    && final(self)@ == old(self)@,
            },
    {
        let ghost before = self@;
        match self.group_mut(d, g) {
            Err(e) => Err(e),
            Ok(group) => {
                proof {
                    lemma_same_group(before, d@, g@);
                }
                group.service_mut(d, g, s)
            },
        }
    }

    pub(crate) fn service_or_new_mut(&mut self, d: &str, g: &str, s: &str) -> (r: Result<
        &mut Service,
        ConfigError,
    >)
        ensures
            match r {
                Ok(x) => old(self)@.service_or_new(d@, g@, s@) == Ok::<ServiceView, Seq<char>>(
                    (*x).deep_view(),
                ) && final(self)@ == old(self)@.with_service(d@, g@, s@, (*final(x)).deep_view()),
                Err(e) => old(self)@.service_or_new(d@, g@, s@) == Err::<ServiceView, Seq<char>>(e@)
                    && final(self)@ == old(self)@,
            },
    {
        match self.group_or_new_mut(d, g) {
            Err(e) => Err(e),
            Ok(group) => Ok(group.service_or_new_mut(s)),
        }
    }

    pub(crate) fn environment_mut(&mut self, e: &str) -> (r: Result<&mut Environment, ConfigError>)
        ensures
            match r {
                Ok(x) => old(self)@.environment(e@) == Ok::<SettingsView, Seq<char>>(
                    (*x).deep_view(),
                ) && final(self)@ == old(self)@.with_environment(e@, (*final(x)).deep_view()),
                Err(m) => old(self)@.environment(e@) == Err::<SettingsView, Seq<char>>(m@)
                    && final(self)@ == old(self)@,
            },
    {
        match &mut self.environments {
            None => Err(missing_environment(e)),
            Some(m) => match m.get_mut(e) {
                None => Err(missing_environment(e)),
                Some(x) => Ok(x),
            },
        }
    }

    pub(crate) fn environment_or_new_mut(&mut self, e: &str) -> (r: &mut Environment)
        ensures
            (*r).deep_view() == get_or(old(self)@.environments, e@, SettingsView::none()),
            final(self)@ == old(self)@.with_environment(e@, (*final(r)).deep_view()),
    {
        if self.environments.is_none() {
            self.environments = Some(StrMap::new());
        }
        match &mut self.environments {
            Some(m) => m.get_or_insert(e, Environment::default()),
            None => vstd::pervasive::unreached(),
        }
    }
}

/// Putting a domain back changes nothing.
pub proof fn lemma_same_domain(c: ConfigView, d: Seq<char>)
    requires
        c.domain(d) is Ok,
    ensures
        c.with_domain(d, c.domain(d)->Ok_0) == c,
{
    let m = c.domains->0;
    assert(m.insert(d, m[d]) =~= m);
}

/// Putting a group back changes nothing.
pub proof fn lemma_same_group(c: ConfigView, d: Seq<char>, g: Seq<char>)
    requires
        c.group(d, g) is Ok,
    ensures
        c.group_or_new(d, g) == c.group(d, g),
        c.with_group(d, g, c.group(d, g)->Ok_0) == c,
{
    let m = c.domain(d)->Ok_0.groups->0;
    assert(m.insert(g, m[g]) =~= m);
    lemma_same_domain(c, d);
}

/// Putting a service back changes nothing.
pub proof fn lemma_same_service(c: ConfigView, d: Seq<char>, g: Seq<char>, s: Seq<char>)
    requires
        c.service(d, g, s) is Ok,
    ensures
        c.service_or_new(d, g, s) == c.service(d, g, s),
        c.with_service(d, g, s, c.service(d, g, s)->Ok_0) == c,
{
    lemma_same_group(c, d, g);
    let m = c.group(d, g)->Ok_0.services->0;
    assert(m.insert(s, m[s]) =~= m);
}

} // verus!
