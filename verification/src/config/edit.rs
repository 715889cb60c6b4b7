//! Editing a configuration.
//!
//! Settings stand in four kinds of places: domains, groups, services and
//! environments. The operations on them are defined once, for any place; the
//! methods of [`Config`] that edit one setting of one kind of place are instances
//! of them. An operation that fails leaves the configuration as it was.
use crate::config::connection::{bad_connection_type, is_connection_type};
use crate::config::model::{
    ConfigView, Domain, DomainView, Environment, Group, GroupView, PreConfigView, Service,
    ServiceView, SettingsView, Volume, VolumeView,
};
use crate::error::ConfigError;
use vstd::prelude::*;

verus! {

// ---------------------------------------------------------------------------
// Settings
// ---------------------------------------------------------------------------
/// A setting that holds a single value.
#[derive(Debug, Clone, Copy, PartialEq, Eq, Structural)]
pub enum Setting {
    ServeCommand,
    ShellCommand,
    ImageRepository,
    Platform,
    DefaultContainerImage,
    ConnectionType,
}

/// A setting that holds entries.
#[derive(Debug, Clone, Copy, PartialEq, Eq, Structural)]
pub enum EntrySetting {
    HostPortmappings,
    Variables,
}

impl Setting {
    /// The key of the setting.
    pub open spec fn key(self) -> Seq<char> {
        match self {
            Setting::ServeCommand => "serve_command"@,
            Setting::ShellCommand => "shell_command"@,
            Setting::ImageRepository => "image_repository"@,
            Setting::Platform => "platform"@,
            Setting::DefaultContainerImage => "default_container_image"@,
            Setting::ConnectionType => "connection_type"@,
        }
    }

    pub(crate) fn name(self) -> (r: &'static str)
        ensures
            r@ == self.key(),
    {
        match self {
            Setting::ServeCommand => "serve_command",
            Setting::ShellCommand => "shell_command",
            Setting::ImageRepository => "image_repository",
            Setting::Platform => "platform",
            Setting::DefaultContainerImage => "default_container_image",
            Setting::ConnectionType => "connection_type",
        }
    }

    /// How messages speak of the setting.
    pub open spec fn text(self) -> Seq<char> {
        match self {
            Setting::ServeCommand => "custom serve_command"@,
            Setting::ShellCommand => "custom shell_command"@,
            Setting::ImageRepository => "custom image_repository"@,
            Setting::Platform => "custom platform"@,
            Setting::DefaultContainerImage => "default_container_image"@,
            Setting::ConnectionType => "custom connection_type"@,
        }
    }

    pub(crate) fn describe(self) -> (r: &'static str)
        ensures
            r@ == self.text(),
    {
        match self {
            Setting::ServeCommand => "custom serve_command",
            Setting::ShellCommand => "custom shell_command",
            Setting::ImageRepository => "custom image_repository",
            Setting::Platform => "custom platform",
            Setting::DefaultContainerImage => "default_container_image",
            Setting::ConnectionType => "custom connection_type",
        }
    }
}

impl EntrySetting {
    /// The key of the setting.
    pub open spec fn key(self) -> Seq<char> {
        match self {
            EntrySetting::HostPortmappings => "host_portmappings"@,
            EntrySetting::Variables => "variables"@,
        }
    }

    /// What one entry of the setting is called.
    pub open spec fn entry(self) -> Seq<char> {
        match self {
            EntrySetting::HostPortmappings => "portmapping"@,
            EntrySetting::Variables => "variable"@,
        }
    }

    pub(crate) fn key_text(self) -> (r: &'static str)
        ensures
            r@ == self.key(),
    {
        match self {
            EntrySetting::HostPortmappings => "host_portmappings",
            EntrySetting::Variables => "variables",
        }
    }

    pub(crate) fn entry_text(self) -> (r: &'static str)
        ensures
            r@ == self.entry(),
    {
        match self {
            EntrySetting::HostPortmappings => "portmapping",
            EntrySetting::Variables => "variable",
        }
    }
}

impl SettingsView {
    /// The value of a setting.
    pub open spec fn value(self, setting: Setting) -> Option<Seq<char>> {
        match setting {
            Setting::ServeCommand => self.serve_command,
            Setting::ShellCommand => self.shell_command,
            Setting::ImageRepository => self.image_repository,
            Setting::Platform => self.platform,
            Setting::DefaultContainerImage => self.default_container_image,
            Setting::ConnectionType => self.connection_type,
        }
    }

    /// The settings with one value replaced.
    pub open spec fn with_value(self, setting: Setting, value: Option<Seq<char>>) -> SettingsView {
        match setting {
            Setting::ServeCommand => SettingsView { serve_command: value, ..self },
            Setting::ShellCommand => SettingsView { shell_command: value, ..self },
            Setting::ImageRepository => SettingsView { image_repository: value, ..self },
            Setting::Platform => SettingsView { platform: value, ..self },
            Setting::DefaultContainerImage => SettingsView { default_container_image: value, ..self },
            Setting::ConnectionType => SettingsView { connection_type: value, ..self },
        }
    }

    /// The entries of a setting.
    pub open spec fn entries(self, setting: EntrySetting) -> Option<Map<Seq<char>, Seq<char>>> {
        match setting {
            EntrySetting::HostPortmappings => self.host_portmappings,
            EntrySetting::Variables => self.variables,
        }
    }

    /// The settings with the entries of one setting replaced.
    pub open spec fn with_entries(
        self,
        setting: EntrySetting,
        entries: Option<Map<Seq<char>, Seq<char>>>,
    ) -> SettingsView {
        match setting {
            EntrySetting::HostPortmappings => SettingsView { host_portmappings: entries, ..self },
            EntrySetting::Variables => SettingsView { variables: entries, ..self },
        }
    }

    /// The settings with the volumes replaced.
    pub open spec fn with_volumes(self, volumes: Option<Seq<VolumeView>>) -> SettingsView {
        SettingsView { volumes, ..self }
    }
}

// ---------------------------------------------------------------------------
// Places
// ---------------------------------------------------------------------------
/// A place that carries settings.
#[derive(Debug, Clone, Copy)]
pub enum Place<'a> {
    Domain(&'a str),
    /// A domain and one of its groups.
    Group(&'a str, &'a str),
    /// A domain, one of its groups, and one of the group's services.
    Service(&'a str, &'a str, &'a str),
    Environment(&'a str),
}

/// What a place is.
pub enum PlaceView {
    Domain(Seq<char>),
    Group(Seq<char>, Seq<char>),
    Service(Seq<char>, Seq<char>, Seq<char>),
    Environment(Seq<char>),
}

impl<'a> View for Place<'a> {
    type V = PlaceView;

    open spec fn view(&self) -> PlaceView {
        match *self {
            Place::Domain(d) => PlaceView::Domain(d@),
            Place::Group(d, g) => PlaceView::Group(d@, g@),
            Place::Service(d, g, s) => PlaceView::Service(d@, g@, s@),
            Place::Environment(e) => PlaceView::Environment(e@),
        }
    }
}

impl PlaceView {
    /// The place within a sentence.
    pub open spec fn text(self) -> Seq<char> {
        match self {
            PlaceView::Domain(d) => "domain '"@ + d + "'"@,
            PlaceView::Group(d, g) => "group '"@ + g + "' in domain '"@ + d + "'"@,
            PlaceView::Service(d, _, s) => "service '"@ + d + "."@ + s + "'"@,
            PlaceView::Environment(e) => "environment '"@ + e + "'"@,
        }
    }

    /// The place at the start of a sentence.
    pub open spec fn title(self) -> Seq<char> {
        match self {
            PlaceView::Domain(d) => "Domain '"@ + d + "'"@,
            PlaceView::Group(d, g) => "Group '"@ + g + "' in domain '"@ + d + "'"@,
            PlaceView::Service(d, _, s) => "Service '"@ + d + "."@ + s + "'"@,
            PlaceView::Environment(e) => "Environment '"@ + e + "'"@,
        }
    }

    /// The place where entries are spoken of: a service without its kind.
    pub open spec fn short(self) -> Seq<char> {
        match self {
            PlaceView::Service(d, _, s) => "'"@ + d + "."@ + s + "'"@,
            _ => self.text(),
        }
    }

    /// What is said to exist or not where an entry of the place is concerned.
    pub open spec fn entry_subject(self, setting: EntrySetting) -> Seq<char> {
        let start = match (setting, self) {
            (EntrySetting::HostPortmappings, PlaceView::Service(..)) => {
                "Portmapping on host side "@
            },
            (EntrySetting::HostPortmappings, _) => "Portmapping on host side for "@,
            (EntrySetting::Variables, PlaceView::Service(..)) => "Variable on host side "@,
            (EntrySetting::Variables, PlaceView::Environment(_)) => "Variable on host side for "@,
            (EntrySetting::Variables, _) => "Variable for "@,
        };
        start + self.short()
    }
}

impl<'a> Place<'a> {
    fn quoted(start: &str, domain: &str, service: &str) -> (r: String)
        ensures
            r@ == start@ + domain@ + "."@ + service@ + "'"@,
    {
        let mut text = start.to_string();
        text.append(domain);
        text.append(".");
        text.append(service);
        text.append("'");
        text
    }

    fn named(start: &str, name: &str) -> (r: String)
        ensures
            r@ == start@ + name@ + "'"@,
    {
        let mut text = start.to_string();
        text.append(name);
        text.append("'");
        text
    }

    fn named_in(start: &str, group: &str, domain: &str) -> (r: String)
        ensures
            r@ == start@ + group@ + "' in domain '"@ + domain@ + "'"@,
    {
        let mut text = start.to_string();
        text.append(group);
        text.append("' in domain '");
        text.append(domain);
        text.append("'");
        text
    }

    pub(crate) fn describe(&self) -> (r: String)
        ensures
            r@ == self@.text(),
    {
        match *self {
            Place::Domain(d) => Place::named("domain '", d),
            Place::Group(d, g) => Place::named_in("group '", g, d),
            Place::Service(d, _g, s) => Place::quoted("service '", d, s),
            Place::Environment(e) => Place::named("environment '", e),
        }
    }

    pub(crate) fn describe_first(&self) -> (r: String)
        ensures
            r@ == self@.title(),
    {
        match *self {
            Place::Domain(d) => Place::named("Domain '", d),
            Place::Group(d, g) => Place::named_in("Group '", g, d),
            Place::Service(d, _g, s) => Place::quoted("Service '", d, s),
            Place::Environment(e) => Place::named("Environment '", e),
        }
    }

    pub(crate) fn describe_short(&self) -> (r: String)
        ensures
            r@ == self@.short(),
    {
        match *self {
            Place::Service(d, _g, s) => Place::quoted("'", d, s),
            _ => self.describe(),
        }
    }

    pub(crate) fn describe_entry(&self, setting: EntrySetting) -> (r: String)
        ensures
            r@ == self@.entry_subject(setting),
    {
        let mut text = match (setting, *self) {
            (EntrySetting::HostPortmappings, Place::Service(_d, _g, _s)) => {
                "Portmapping on host side ".to_string()
            },
            (EntrySetting::HostPortmappings, _) => "Portmapping on host side for ".to_string(),
            (EntrySetting::Variables, Place::Service(_d, _g, _s)) => {
                "Variable on host side ".to_string()
            },
            (EntrySetting::Variables, Place::Environment(_e)) => {
                "Variable on host side for ".to_string()
            },
            (EntrySetting::Variables, _) => "Variable for ".to_string(),
        };
        text.append(self.describe_short().as_str());
        text
    }
}

// ---------------------------------------------------------------------------
// Finding places
// ---------------------------------------------------------------------------
/// The message where no domain is configured.
pub open spec fn no_domains() -> Seq<char> {
    "No domains configured"@
}

/// The message for a domain that does not exist.
pub open spec fn no_domain(d: Seq<char>) -> Seq<char> {
    "domain, "@ + d + ", does not exist"@
}

/// The message where a domain has no groups.
pub open spec fn no_groups(d: Seq<char>) -> Seq<char> {
    "No groups configured for domain "@ + d
}

/// The message for a group that does not exist.
pub open spec fn no_group(d: Seq<char>, g: Seq<char>) -> Seq<char> {
    "group, "@ + g + ", does not exist in domain "@ + d
}

/// The message where a group has no services.
pub open spec fn no_services(d: Seq<char>, g: Seq<char>) -> Seq<char> {
    "No services configured for group '"@ + g + "' in domain "@ + d
}

/// The message for a service that does not exist.
pub open spec fn no_service(s: Seq<char>) -> Seq<char> {
    "service, "@ + s + ", does not exist"@
}

/// The message for an environment that does not exist.
pub open spec fn no_environment(e: Seq<char>) -> Seq<char> {
    "Environment '"@ + e + "' does not exist."@
}

/// What stands under a key, or the given value.
pub open spec fn get_or<V>(m: Option<Map<Seq<char>, V>>, k: Seq<char>, default: V) -> V {
    match m {
        Some(m) => if m.contains_key(k) {
            m[k]
        } else {
            default
        },
        None => default,
    }
}

/// The map with one more entry. Where there is no map, there is one then.
pub open spec fn put<V>(m: Option<Map<Seq<char>, V>>, k: Seq<char>, v: V) -> Option<
    Map<Seq<char>, V>,
> {
    match m {
        Some(m) => Some(m.insert(k, v)),
        None => Some(Map::empty().insert(k, v)),
    }
}

impl ConfigView {
    /// The domain of a name, which must exist.
    pub open spec fn domain(self, d: Seq<char>) -> Result<DomainView, Seq<char>> {
        match self.domains {
            None => Err(no_domains()),
            Some(m) => if m.contains_key(d) {
                Ok(m[d])
            } else {
                Err(no_domain(d))
            },
        }
    }

    /// The group of a name, which must exist.
    pub open spec fn group(self, d: Seq<char>, g: Seq<char>) -> Result<GroupView, Seq<char>> {
        match self.domain(d) {
            Err(e) => Err(e),
            Ok(domain) => match domain.groups {
                None => Err(no_groups(d)),
                Some(m) => if m.contains_key(g) {
                    Ok(m[g])
                } else {
                    Err(no_group(d, g))
                },
            },
        }
    }

    /// The group of a name, which is empty where it does not exist yet.
    pub open spec fn group_or_new(self, d: Seq<char>, g: Seq<char>) -> Result<
        GroupView,
        Seq<char>,
    > {
        match self.domain(d) {
            Err(e) => Err(e),
            Ok(domain) => Ok(get_or(domain.groups, g, GroupView::none())),
        }
    }

    /// The service of a name, which must exist.
    pub open spec fn service(self, d: Seq<char>, g: Seq<char>, s: Seq<char>) -> Result<
        ServiceView,
        Seq<char>,
    > {
        match self.group(d, g) {
            Err(e) => Err(e),
            Ok(group) => match group.services {
                None => Err(no_services(d, g)),
                Some(m) => if m.contains_key(s) {
                    Ok(m[s])
                } else {
                    Err(no_service(s))
                },
            },
        }
    }

    /// The service of a name, which is empty where it does not exist yet.
    pub open spec fn service_or_new(self, d: Seq<char>, g: Seq<char>, s: Seq<char>) -> Result<
        ServiceView,
        Seq<char>,
    > {
        match self.group_or_new(d, g) {
            Err(e) => Err(e),
            Ok(group) => Ok(get_or(group.services, s, ServiceView::none())),
        }
    }

    /// The environment of a name, which must exist.
    pub open spec fn environment(self, e: Seq<char>) -> Result<SettingsView, Seq<char>> {
        match self.environments {
            None => Err(no_environment(e)),
            Some(m) => if m.contains_key(e) {
                Ok(m[e])
            } else {
                Err(no_environment(e))
            },
        }
    }

    /// The configuration with one domain replaced.
    pub open spec fn with_domain(self, d: Seq<char>, domain: DomainView) -> ConfigView {
        ConfigView { domains: put(self.domains, d, domain), ..self }
    }

    /// The configuration with one group replaced. Its domain exists.
    pub open spec fn with_group(self, d: Seq<char>, g: Seq<char>, group: GroupView) -> ConfigView {
        let domain = self.domain(d)->Ok_0;
        self.with_domain(d, DomainView { groups: put(domain.groups, g, group), ..domain })
    }

    /// The configuration with one service replaced. Its domain exists.
    pub open spec fn with_service(
        self,
        d: Seq<char>,
        g: Seq<char>,
        s: Seq<char>,
        service: ServiceView,
    ) -> ConfigView {
        let group = self.group_or_new(d, g)->Ok_0;
        self.with_group(d, g, GroupView { services: put(group.services, s, service), ..group })
    }

    /// The configuration with one environment replaced.
    pub open spec fn with_environment(self, e: Seq<char>, settings: SettingsView) -> ConfigView {
        ConfigView { environments: put(self.environments, e, settings), ..self }
    }

    /// The settings of a place, which must exist.
    pub open spec fn settings(self, place: PlaceView) -> Result<SettingsView, Seq<char>> {
        match place {
            PlaceView::Domain(d) => match self.domain(d) {
                Ok(domain) => Ok(domain.settings),
                Err(e) => Err(e),
            },
            PlaceView::Group(d, g) => match self.group(d, g) {
                Ok(group) => Ok(group.settings),
                Err(e) => Err(e),
            },
            PlaceView::Service(d, g, s) => match self.service(d, g, s) {
                Ok(service) => Ok(service.settings),
                Err(e) => Err(e),
            },
            PlaceView::Environment(e) => self.environment(e),
        }
    }

    /// The settings of a place, in which groups, services and environments are empty
    /// where they do not exist yet. Domains must exist.
    pub open spec fn settings_or_new(self, place: PlaceView) -> Result<SettingsView, Seq<char>> {
        match place {
            PlaceView::Domain(d) => match self.domain(d) {
                Ok(domain) => Ok(domain.settings),
                Err(e) => Err(e),
            },
            PlaceView::Group(d, g) => match self.group_or_new(d, g) {
                Ok(group) => Ok(group.settings),
                Err(e) => Err(e),
            },
            PlaceView::Service(d, g, s) => match self.service_or_new(d, g, s) {
                Ok(service) => Ok(service.settings),
                Err(e) => Err(e),
            },
            PlaceView::Environment(e) => Ok(get_or(self.environments, e, SettingsView::none())),
        }
    }

    /// The configuration with the settings of one place replaced. The domain of the
    /// place exists.
    pub open spec fn with_settings(self, place: PlaceView, settings: SettingsView) -> ConfigView {
        match place {
            PlaceView::Domain(d) => {
                let domain = self.domain(d)->Ok_0;
                self.with_domain(d, DomainView { settings, ..domain })
            },
            PlaceView::Group(d, g) => {
                let group = self.group_or_new(d, g)->Ok_0;
                self.with_group(d, g, GroupView { settings, ..group })
            },
            PlaceView::Service(d, g, s) => {
                let service = self.service_or_new(d, g, s)->Ok_0;
                self.with_service(d, g, s, ServiceView { settings, ..service })
            },
            PlaceView::Environment(e) => self.with_environment(e, settings),
        }
    }
}

// ---------------------------------------------------------------------------
// Operations on settings
// ---------------------------------------------------------------------------
/// An edit that is owed: the configuration after it, or the message of the error.
pub type Edit = Result<ConfigView, Seq<char>>;

/// An edit that is owed, with the notice that it gives.
pub type NotedEdit = Result<(ConfigView, Seq<char>), Seq<char>>;

/// The edit was made, or the error reported and nothing changed.
pub open spec fn done(
    edit: Edit,
    before: ConfigView,
    after: ConfigView,
    r: Result<(), ConfigError>,
) -> bool {
    match edit {
        Ok(c) => r is Ok && after == c,
        Err(message) => r is Err && r->Err_0@ == message && after == before,
    }
}

/// The edit was made and its notice given, or the error reported and nothing
/// changed.
pub open spec fn done_noted(
    edit: NotedEdit,
    before: ConfigView,
    after: ConfigView,
    r: Result<String, ConfigError>,
) -> bool {
    match edit {
        Ok((c, notice)) => r is Ok && r->Ok_0@ == notice && after == c,
        Err(message) => r is Err && r->Err_0@ == message && after == before,
    }
}

/// An edit that is made only where the value is a connection type.
pub open spec fn checked_connection_type(value: Seq<char>, edit: Edit) -> Edit {
    if is_connection_type(value) {
        edit
    } else {
        Err(bad_connection_type(value))
    }
}

/// A volume with the two paths.
pub open spec fn volume(container: Seq<char>, host: Seq<char>) -> VolumeView {
    VolumeView { container, host }
}

impl ConfigView {
    /// Gives a setting of a place a value. Groups, services and environments that do
    /// not exist are created.
    pub open spec fn set_value(self, place: PlaceView, setting: Setting, value: Seq<char>) -> Edit {
        match self.settings_or_new(place) {
            Err(e) => Err(e),
            Ok(s) => Ok(self.with_settings(place, s.with_value(setting, Some(value)))),
        }
    }

    /// Gives a setting of a place, which must exist, a value.
    pub open spec fn set_existing_value(
        self,
        place: PlaceView,
        setting: Setting,
        value: Seq<char>,
    ) -> Edit {
        match self.settings(place) {
            Err(e) => Err(e),
            Ok(s) => Ok(self.with_settings(place, s.with_value(setting, Some(value)))),
        }
    }

    /// Takes the value of a setting away.
    pub open spec fn rm_value(self, place: PlaceView, setting: Setting) -> Edit {
        match self.settings(place) {
            Err(e) => Err(e),
            Ok(s) => if s.value(setting) is None {
                Err(place.title() + " has no "@ + setting.text() + "."@)
            } else {
                Ok(self.with_settings(place, s.with_value(setting, None)))
            },
        }
    }

    /// Adds an entry. Groups, services and environments that do not exist are created.
    pub open spec fn add_entry(
        self,
        place: PlaceView,
        setting: EntrySetting,
        key: Seq<char>,
        value: Seq<char>,
    ) -> NotedEdit {
        match self.settings_or_new(place) {
            Err(e) => Err(e),
            Ok(s) => if s.entries(setting) is Some && s.entries(setting)->0.contains_key(key) {
                Err(place.entry_subject(setting) + " ("@ + key + ":____) already exists"@)
            } else {
                Ok(
                    (
                        self.with_settings(
                            place,
                            s.with_entries(setting, put(s.entries(setting), key, value)),
                        ),
                        "Created "@ + setting.entry() + " for "@ + place.short() + " ("@ + key
                            + ":"@ + value + ")"@,
                    ),
                )
            },
        }
    }

    /// The settings of a place that an entry or a volume is to be removed from.
    pub open spec fn settings_to_shrink(self, place: PlaceView) -> Result<SettingsView, Seq<char>> {
        if place is Environment && self.environments is None {
            Err("No environments configured"@)
        } else {
            self.settings(place)
        }
    }

    /// Removes an entry.
    pub open spec fn rm_entry(
        self,
        place: PlaceView,
        setting: EntrySetting,
        key: Seq<char>,
    ) -> NotedEdit {
        match self.settings_to_shrink(place) {
            Err(e) => Err(e),
            Ok(s) => match s.entries(setting) {
                None => if place is Service {
                    Err("No "@ + setting.key() + " configured"@)
                } else {
                    Err("No "@ + setting.key() + " configured for "@ + place.text())
                },
                Some(m) => if m.contains_key(key) {
                    Ok(
                        (
                            self.with_settings(
                                place,
                                s.with_entries(setting, Some(m.remove(key))),
                            ),
                            "Removed "@ + setting.entry() + " for "@ + place.short() + " ("@ + key
                                + ":____)"@,
                        ),
                    )
                } else {
                    Err(place.entry_subject(setting) + " ("@ + key + ":____) does not exist"@)
                },
            },
        }
    }

    /// Adds a volume. Groups, services and environments that do not exist are created.
    pub open spec fn add_volume(
        self,
        place: PlaceView,
        container: Seq<char>,
        host: Seq<char>,
    ) -> NotedEdit {
        match self.settings_or_new(place) {
            Err(e) => Err(e),
            Ok(s) => {
                let volumes = match s.volumes {
                    Some(v) => v,
                    None => Seq::empty(),
                };
                if volumes.contains(volume(container, host)) {
                    Err(
                        "Volume mapping already exists for "@ + place.text() + ": "@ + host
                            + " -> "@ + container,
                    )
                } else {
                    Ok(
                        (
                            self.with_settings(
                                place,
                                s.with_volumes(Some(volumes.push(volume(container, host)))),
                            ),
                            "Added volume to "@ + place.text() + ": "@ + host + " -> "@
                                + container,
                        ),
                    )
                }
            },
        }
    }

    /// Removes a volume.
    pub open spec fn rm_volume(
        self,
        place: PlaceView,
        container: Seq<char>,
        host: Seq<char>,
    ) -> NotedEdit {
        match self.settings_to_shrink(place) {
            Err(e) => Err(e),
            Ok(s) => match s.volumes {
                None => Err("No volumes configured for "@ + place.text()),
                Some(v) => if v.contains(volume(container, host)) {
                    Ok(
                        (
                            self.with_settings(
                                place,
                                s.with_volumes(
                                    Some(
                                        v.filter(|x: VolumeView| x != volume(container, host)),
                                    ),
                                ),
                            ),
                            "Removed volume from "@ + place.text() + ": "@ + host + " -> "@
                                + container,
                        ),
                    )
                } else {
                    Err(
                        "No matching volume found in "@ + place.text() + " for host '"@ + host
                            + "' -> container '"@ + container + "'"@,
                    )
                },
            },
        }
    }
}

// ---------------------------------------------------------------------------
// Operations on domains, groups, services and parents
// ---------------------------------------------------------------------------
/// A map that may be missing, as a map.
pub open spec fn or_empty<V>(m: Option<Map<Seq<char>, V>>) -> Map<Seq<char>, V> {
    match m {
        Some(m) => m,
        None => Map::empty(),
    }
}

/// A new domain with nothing but a location.
pub open spec fn new_domain(location: Seq<char>) -> DomainView {
    DomainView { location, ..DomainView::none() }
}

/// The location of the domain in the first of the configurations that has it.
pub open spec fn first_location(parents: Seq<ConfigView>, d: Seq<char>) -> Option<Seq<char>>
    decreases parents.len(),
{
    if parents.len() == 0 {
        None
    } else {
        match parents[0].domain(d) {
            Ok(domain) => Some(domain.location),
            Err(_) => first_location(parents.drop_first(), d),
        }
    }
}

impl ConfigView {
    /// Adds a domain.
    pub open spec fn add_domain(self, d: Seq<char>, location: Seq<char>) -> NotedEdit {
        if self.domain(d) is Ok {
            Err("Domain '"@ + d + "' already exists."@)
        } else {
            Ok(
                (
                    self.with_domain(d, new_domain(location)),
                    "created '"@ + d + "' at "@ + location,
                ),
            )
        }
    }

    /// Removes a domain.
    pub open spec fn rm_domain(self, d: Seq<char>) -> NotedEdit {
        match self.domains {
            None => Err("no domains configured"@),
            Some(m) => if m.contains_key(d) {
                Ok(
                    (
                        ConfigView { domains: Some(m.remove(d)), ..self },
                        "removed '"@ + d + "'"@,
                    ),
                )
            } else {
                Err("domain "@ + d + " does not exist"@)
            },
        }
    }

    /// The configuration with a map of domains, though it be empty.
    pub open spec fn with_domain_map(self) -> ConfigView {
        ConfigView { domains: Some(or_empty(self.domains)), ..self }
    }

    /// Makes sure that a domain exists. One that does not is created at the location
    /// that is given, or at the one that the first parent with the domain has.
    pub open spec fn ensure_domain(
        self,
        d: Seq<char>,
        location: Option<Seq<char>>,
        parents: Seq<ConfigView>,
    ) -> Result<(ConfigView, Option<Seq<char>>), Seq<char>> {
        let place = match location {
            Some(l) => Some(l),
            None => first_location(parents, d),
        };
        if self.domain(d) is Ok {
            Ok((self, None))
        } else {
            match place {
                Some(l) => {
                    let added = self.add_domain(d, l)->Ok_0;
                    Ok((added.0, Some(added.1)))
                },
                None => Err("domain '"@ + d + "' does not exist. Use -l <path> to create it."@),
            }
        }
    }

    /// Removes a group.
    pub open spec fn rm_group(self, d: Seq<char>, g: Seq<char>) -> NotedEdit {
        match self.group(d, g) {
            Err(e) => Err(e),
            Ok(_) => {
                let domain = self.domain(d)->Ok_0;
                Ok(
                    (
                        self.with_domain(
                            d,
                            DomainView { groups: Some(domain.groups->0.remove(g)), ..domain },
                        ),
                        "Removed group '"@ + g + "' from domain '"@ + d + "'"@,
                    ),
                )
            },
        }
    }

    /// Removes a service.
    pub open spec fn rm_service(self, d: Seq<char>, g: Seq<char>, s: Seq<char>) -> NotedEdit {
        match self.group(d, g) {
            Err(e) => Err(e),
            Ok(group) => match group.services {
                None => Err(no_services(d, g)),
                Some(m) => if m.contains_key(s) {
                    Ok(
                        (
                            self.with_group(
                                d,
                                g,
                                GroupView { services: Some(m.remove(s)), ..group },
                            ),
                            "Removed service '"@ + s + "' from group '"@ + g + "' in domain '"@ + d
                                + "'"@,
                        ),
                    )
                } else {
                    Err(
                        "service, "@ + s + ", does not exist in group '"@ + g + "' of domain "@
                            + d,
                    )
                },
            },
        }
    }

    /// Sets the default environment of a domain. The environment must exist.
    pub open spec fn set_domain_default_environment(self, d: Seq<char>, e: Seq<char>) -> Edit {
        match self.environment(e) {
            Err(m) => Err(m),
            Ok(_) => match self.domain(d) {
                Err(m) => Err(m),
                Ok(domain) => Ok(
                    self.with_domain(d, DomainView { default_environment: Some(e), ..domain }),
                ),
            },
        }
    }

    /// Takes the default environment of a domain away.
    pub open spec fn rm_domain_default_environment(self, d: Seq<char>) -> Edit {
        match self.domain(d) {
            Err(m) => Err(m),
            Ok(domain) => if domain.default_environment is None {
                Err(no_default_environment(PlaceView::Domain(d)))
            } else {
                Ok(self.with_domain(d, DomainView { default_environment: None, ..domain }))
            },
        }
    }

    /// Sets the default environment of a group, which is created where it does not
    /// exist.
    pub open spec fn set_group_default_environment(
        self,
        d: Seq<char>,
        g: Seq<char>,
        e: Seq<char>,
    ) -> Edit {
        match self.group_or_new(d, g) {
            Err(m) => Err(m),
            Ok(group) => Ok(
                self.with_group(d, g, GroupView { default_environment: Some(e), ..group }),
            ),
        }
    }

    /// Takes the default environment of a group away.
    pub open spec fn rm_group_default_environment(self, d: Seq<char>, g: Seq<char>) -> Edit {
        match self.group(d, g) {
            Err(m) => Err(m),
            Ok(group) => if group.default_environment is None {
                Err(no_default_environment(PlaceView::Group(d, g)))
            } else {
                Ok(self.with_group(d, g, GroupView { default_environment: None, ..group }))
            },
        }
    }

    /// Sets the default environment of a service, which is created where it does not
    /// exist.
    pub open spec fn set_service_default_environment(
        self,
        d: Seq<char>,
        g: Seq<char>,
        s: Seq<char>,
        e: Seq<char>,
    ) -> Edit {
        match self.service_or_new(d, g, s) {
            Err(m) => Err(m),
            Ok(service) => Ok(
                self.with_service(
                    d,
                    g,
                    s,
                    ServiceView { default_environment: Some(e), ..service },
                ),
            ),
        }
    }

    /// Takes the default environment of a service away.
    pub open spec fn rm_service_default_environment(
        self,
        d: Seq<char>,
        g: Seq<char>,
        s: Seq<char>,
    ) -> Edit {
        match self.service(d, g, s) {
            Err(m) => Err(m),
            Ok(service) => if service.default_environment is None {
                Err(no_default_environment(PlaceView::Service(d, g, s)))
            } else {
                Ok(
                    self.with_service(
                        d,
                        g,
                        s,
                        ServiceView { default_environment: None, ..service },
                    ),
                )
            },
        }
    }

    /// Some entry of `pre_config` has the location.
    pub open spec fn has_parent(self, location: Seq<char>) -> bool {
        self.pre_config is Some && exists|i: int|
            0 <= i < self.pre_config->0.len() && (#[trigger] self.pre_config->0[i]).location
                == location
    }

    /// Adds a parent configuration.
    pub open spec fn add_pre_config(
        self,
        location: Seq<char>,
        repo_location: Option<Seq<char>>,
    ) -> Edit {
        if self.has_parent(location) {
            Err("pre_config with location '"@ + location + "' already exists"@)
        } else {
            let entry = PreConfigView { location, repo_location };
            let entries = match self.pre_config {
                Some(v) => v,
                None => Seq::empty(),
            };
            Ok(ConfigView { pre_config: Some(entries.push(entry)), ..self })
        }
    }

    /// Removes the parent configurations with a location. Where none is left, the list
    /// goes too.
    pub open spec fn rm_pre_config(self, location: Seq<char>) -> Edit {
        match self.pre_config {
            None => Err("No pre_config entries configured"@),
            Some(v) => if !self.has_parent(location) {
                Err("pre_config with location '"@ + location + "' does not exist"@)
            } else {
                let rest = v.filter(|p: PreConfigView| p.location != location);
                Ok(
                    ConfigView {
                        pre_config: if rest.len() == 0 {
                            None
                        } else {
                            Some(rest)
                        },
                        ..self
                    },
                )
            },
        }
    }
}

/// The message where a place has no default environment.
pub open spec fn no_default_environment(place: PlaceView) -> Seq<char> {
    place.title() + " has no default_environment."@
}

} // verus!
