//! What a configuration holds, and its mathematical model.
//!
//! A configuration has domains, a domain has groups, a group has services.
//! Environments stand beside them. Domains, groups, services and environments all
//! carry the same settings, each of them in a plain form (`field`) and in a form
//! that overrides what less specific levels say (`*field`). The double `Option` of
//! an override tells a key that is absent (`None`) from one that is null
//! (`Some(None)`).
use crate::map::{Duplicate, StrMap};
use vstd::prelude::*;

verus! {

/// A path on the host and where it is mounted in the container.
#[derive(Debug)]
pub struct Volume {
    pub container: String,
    pub host: String,
}

/// What a volume is.
pub struct VolumeView {
    pub container: Seq<char>,
    pub host: Seq<char>,
}

impl DeepView for Volume {
    type V = VolumeView;

    open spec fn deep_view(&self) -> VolumeView {
        VolumeView { container: self.container@, host: self.host@ }
    }
}

impl Clone for Volume {
    fn clone(&self) -> (r: Volume)
        ensures
            r.deep_view() == self.deep_view(),
    {
        Volume { container: self.container.clone(), host: self.host.clone() }
    }
}

impl Duplicate for Volume {
    fn duplicate(&self) -> (r: Volume) {
        self.clone()
    }
}

/// A parent configuration: where its file is, and the repository that holds it.
#[derive(Debug)]
pub struct PreConfig {
    pub location: String,
    pub repo_location: Option<String>,
}

/// What an entry for a parent configuration is.
pub struct PreConfigView {
    pub location: Seq<char>,
    pub repo_location: Option<Seq<char>>,
}

impl DeepView for PreConfig {
    type V = PreConfigView;

    open spec fn deep_view(&self) -> PreConfigView {
        PreConfigView {
            location: self.location@,
            repo_location: self.repo_location.deep_view(),
        }
    }
}

impl Duplicate for PreConfig {
    fn duplicate(&self) -> (r: PreConfig) {
        PreConfig {
            location: self.location.duplicate(),
            repo_location: self.repo_location.duplicate(),
        }
    }
}

impl Clone for PreConfig {
    fn clone(&self) -> (r: PreConfig)
        ensures
            r.deep_view() == self.deep_view(),
    {
        self.duplicate()
    }
}

/// The settings that domains, groups, services and environments share.
pub struct SettingsView {
    pub host_portmappings: Option<Map<Seq<char>, Seq<char>>>,
    pub host_portmappings_override: Option<Option<Map<Seq<char>, Seq<char>>>>,
    pub variables: Option<Map<Seq<char>, Seq<char>>>,
    pub variables_override: Option<Option<Map<Seq<char>, Seq<char>>>>,
    pub volumes: Option<Seq<VolumeView>>,
    pub volumes_override: Option<Option<Seq<VolumeView>>>,
    pub serve_command: Option<Seq<char>>,
    pub serve_command_override: Option<Option<Seq<char>>>,
    pub shell_command: Option<Seq<char>>,
    pub shell_command_override: Option<Option<Seq<char>>>,
    pub image_repository: Option<Seq<char>>,
    pub image_repository_override: Option<Option<Seq<char>>>,
    pub platform: Option<Seq<char>>,
    pub platform_override: Option<Option<Seq<char>>>,
    pub default_container_image: Option<Seq<char>>,
    pub default_container_image_override: Option<Option<Seq<char>>>,
    pub connection_type: Option<Seq<char>>,
    pub connection_type_override: Option<Option<Seq<char>>>,
}

impl SettingsView {
    /// No setting is declared.
    pub open spec fn none() -> SettingsView {
        SettingsView {
            host_portmappings: None,
            host_portmappings_override: None,
            variables: None,
            variables_override: None,
            volumes: None,
            volumes_override: None,
            serve_command: None,
            serve_command_override: None,
            shell_command: None,
            shell_command_override: None,
            image_repository: None,
            image_repository_override: None,
            platform: None,
            platform_override: None,
            default_container_image: None,
            default_container_image_override: None,
            connection_type: None,
            connection_type_override: None,
        }
    }
}

/// A service: one project folder.
#[derive(Debug)]
pub struct Service {
    pub default_environment: Option<String>,
    /// Extra hostnames that reach this service alongside its canonical
    /// `{service}.{domain}.test` URL. They are hostnames, not URLs, apply at deploy
    /// time only and take no part in the settings cascade.
    pub urls: Option<Vec<String>>,
    pub host_portmappings: Option<StrMap<String>>,
    pub host_portmappings_override: Option<Option<StrMap<String>>>,
    pub variables: Option<StrMap<String>>,
    pub variables_override: Option<Option<StrMap<String>>>,
    pub volumes: Option<Vec<Volume>>,
    pub volumes_override: Option<Option<Vec<Volume>>>,
    pub serve_command: Option<String>,
    pub serve_command_override: Option<Option<String>>,
    pub shell_command: Option<String>,
    pub shell_command_override: Option<Option<String>>,
    pub image_repository: Option<String>,
    pub image_repository_override: Option<Option<String>>,
    pub platform: Option<String>,
    pub platform_override: Option<Option<String>>,
    pub default_container_image: Option<String>,
    pub default_container_image_override: Option<Option<String>>,
    pub connection_type: Option<String>,
    pub connection_type_override: Option<Option<String>>,
}

/// What a service holds.
pub struct ServiceView {
    pub default_environment: Option<Seq<char>>,
    pub urls: Option<Seq<Seq<char>>>,
    pub settings: SettingsView,
}

impl Service {
    /// The settings that the level declares.
    pub open spec fn settings(&self) -> SettingsView {
        SettingsView {
            host_portmappings: self.host_portmappings.deep_view(),
            host_portmappings_override: self.host_portmappings_override.deep_view(),
            variables: self.variables.deep_view(),
            variables_override: self.variables_override.deep_view(),
            volumes: self.volumes.deep_view(),
            volumes_override: self.volumes_override.deep_view(),
            serve_command: self.serve_command.deep_view(),
            serve_command_override: self.serve_command_override.deep_view(),
            shell_command: self.shell_command.deep_view(),
            shell_command_override: self.shell_command_override.deep_view(),
            image_repository: self.image_repository.deep_view(),
            image_repository_override: self.image_repository_override.deep_view(),
            platform: self.platform.deep_view(),
            platform_override: self.platform_override.deep_view(),
            default_container_image: self.default_container_image.deep_view(),
            default_container_image_override: self.default_container_image_override.deep_view(),
            connection_type: self.connection_type.deep_view(),
            connection_type_override: self.connection_type_override.deep_view(),
        }
    }
}

impl DeepView for Service {
    type V = ServiceView;

    open spec fn deep_view(&self) -> ServiceView {
        ServiceView {
            default_environment: self.default_environment.deep_view(),
            urls: self.urls.deep_view(),
            settings: self.settings(),
        }
    }
}

impl Duplicate for Service {
    fn duplicate(&self) -> (r: Service) {
        Service {
            default_environment: self.default_environment.duplicate(),
            urls: self.urls.duplicate(),
            host_portmappings: self.host_portmappings.duplicate(),
            host_portmappings_override: self.host_portmappings_override.duplicate(),
            variables: self.variables.duplicate(),
            variables_override: self.variables_override.duplicate(),
            volumes: self.volumes.duplicate(),
            volumes_override: self.volumes_override.duplicate(),
            serve_command: self.serve_command.duplicate(),
            serve_command_override: self.serve_command_override.duplicate(),
            shell_command: self.shell_command.duplicate(),
            shell_command_override: self.shell_command_override.duplicate(),
            image_repository: self.image_repository.duplicate(),
            image_repository_override: self.image_repository_override.duplicate(),
            platform: self.platform.duplicate(),
            platform_override: self.platform_override.duplicate(),
            default_container_image: self.default_container_image.duplicate(),
            default_container_image_override: self.default_container_image_override.duplicate(),
            connection_type: self.connection_type.duplicate(),
            connection_type_override: self.connection_type_override.duplicate(),
        }
    }
}

impl Clone for Service {
    fn clone(&self) -> (r: Service)
        ensures
            r.deep_view() == self.deep_view(),
    {
        self.duplicate()
    }
}

impl ServiceView {
    /// Nothing is declared.
    pub open spec fn none() -> ServiceView {
        ServiceView {
            default_environment: None,
            urls: None,
            settings: SettingsView::none(),
        }
    }
}

impl Default for Service {
    fn default() -> (r: Service)
        ensures
            r.deep_view() == ServiceView::none(),
    {
        Service {
            default_environment: None,
            urls: None,
            host_portmappings: None,
            host_portmappings_override: None,
            variables: None,
            variables_override: None,
            volumes: None,
            volumes_override: None,
            serve_command: None,
            serve_command_override: None,
            shell_command: None,
            shell_command_override: None,
            image_repository: None,
            image_repository_override: None,
            platform: None,
            platform_override: None,
            default_container_image: None,
            default_container_image_override: None,
            connection_type: None,
            connection_type_override: None,
        }
    }
}

/// A group of services.
#[derive(Debug)]
pub struct Group {
    pub services: Option<StrMap<Service>>,
    pub default_environment: Option<String>,
    pub host_portmappings: Option<StrMap<String>>,
    pub host_portmappings_override: Option<Option<StrMap<String>>>,
    pub variables: Option<StrMap<String>>,
    pub variables_override: Option<Option<StrMap<String>>>,
    pub volumes: Option<Vec<Volume>>,
    pub volumes_override: Option<Option<Vec<Volume>>>,
    pub serve_command: Option<String>,
    pub serve_command_override: Option<Option<String>>,
    pub shell_command: Option<String>,
    pub shell_command_override: Option<Option<String>>,
    pub image_repository: Option<String>,
    pub image_repository_override: Option<Option<String>>,
    pub platform: Option<String>,
    pub platform_override: Option<Option<String>>,
    pub default_container_image: Option<String>,
    pub default_container_image_override: Option<Option<String>>,
    pub connection_type: Option<String>,
    pub connection_type_override: Option<Option<String>>,
}

/// What a group holds.
pub struct GroupView {
    pub services: Option<Map<Seq<char>, ServiceView>>,
    pub default_environment: Option<Seq<char>>,
    pub settings: SettingsView,
}

impl Group {
    /// The settings that the level declares.
    pub open spec fn settings(&self) -> SettingsView {
        SettingsView {
            host_portmappings: self.host_portmappings.deep_view(),
            host_portmappings_override: self.host_portmappings_override.deep_view(),
            variables: self.variables.deep_view(),
            variables_override: self.variables_override.deep_view(),
            volumes: self.volumes.deep_view(),
            volumes_override: self.volumes_override.deep_view(),
            serve_command: self.serve_command.deep_view(),
            serve_command_override: self.serve_command_override.deep_view(),
            shell_command: self.shell_command.deep_view(),
            shell_command_override: self.shell_command_override.deep_view(),
            image_repository: self.image_repository.deep_view(),
            image_repository_override: self.image_repository_override.deep_view(),
            platform: self.platform.deep_view(),
            platform_override: self.platform_override.deep_view(),
            default_container_image: self.default_container_image.deep_view(),
            default_container_image_override: self.default_container_image_override.deep_view(),
            connection_type: self.connection_type.deep_view(),
            connection_type_override: self.connection_type_override.deep_view(),
        }
    }
}

impl DeepView for Group {
    type V = GroupView;

    open spec fn deep_view(&self) -> GroupView {
        GroupView {
            services: self.services.deep_view(),
            default_environment: self.default_environment.deep_view(),
            settings: self.settings(),
        }
    }
}

impl Duplicate for Group {
    fn duplicate(&self) -> (r: Group) {
        Group {
            services: self.services.duplicate(),
            default_environment: self.default_environment.duplicate(),
            host_portmappings: self.host_portmappings.duplicate(),
            host_portmappings_override: self.host_portmappings_override.duplicate(),
            variables: self.variables.duplicate(),
            variables_override: self.variables_override.duplicate(),
            volumes: self.volumes.duplicate(),
            volumes_override: self.volumes_override.duplicate(),
            serve_command: self.serve_command.duplicate(),
            serve_command_override: self.serve_command_override.duplicate(),
            shell_command: self.shell_command.duplicate(),
            shell_command_override: self.shell_command_override.duplicate(),
            image_repository: self.image_repository.duplicate(),
            image_repository_override: self.image_repository_override.duplicate(),
            platform: self.platform.duplicate(),
            platform_override: self.platform_override.duplicate(),
            default_container_image: self.default_container_image.duplicate(),
            default_container_image_override: self.default_container_image_override.duplicate(),
            connection_type: self.connection_type.duplicate(),
            connection_type_override: self.connection_type_override.duplicate(),
        }
    }
}

impl Clone for Group {
    fn clone(&self) -> (r: Group)
        ensures
            r.deep_view() == self.deep_view(),
    {
        self.duplicate()
    }
}

impl GroupView {
    /// Nothing is declared.
    pub open spec fn none() -> GroupView {
        GroupView {
            services: None,
            default_environment: None,
            settings: SettingsView::none(),
        }
    }
}

impl Default for Group {
    fn default() -> (r: Group)
        ensures
            r.deep_view() == GroupView::none(),
    {
        Group {
            services: None,
            default_environment: None,
            host_portmappings: None,
            host_portmappings_override: None,
            variables: None,
            variables_override: None,
            volumes: None,
            volumes_override: None,
            serve_command: None,
            serve_command_override: None,
            shell_command: None,
            shell_command_override: None,
            image_repository: None,
            image_repository_override: None,
            platform: None,
            platform_override: None,
            default_container_image: None,
            default_container_image_override: None,
            connection_type: None,
            connection_type_override: None,
        }
    }
}

/// A domain: a folder that holds projects.
#[derive(Debug)]
pub struct Domain {
    pub location: String,
    pub groups: Option<StrMap<Group>>,
    pub default_environment: Option<String>,
    pub host_portmappings: Option<StrMap<String>>,
    pub host_portmappings_override: Option<Option<StrMap<String>>>,
    pub variables: Option<StrMap<String>>,
    pub variables_override: Option<Option<StrMap<String>>>,
    pub volumes: Option<Vec<Volume>>,
    pub volumes_override: Option<Option<Vec<Volume>>>,
    pub serve_command: Option<String>,
    pub serve_command_override: Option<Option<String>>,
    pub shell_command: Option<String>,
    pub shell_command_override: Option<Option<String>>,
    pub image_repository: Option<String>,
    pub image_repository_override: Option<Option<String>>,
    pub platform: Option<String>,
    pub platform_override: Option<Option<String>>,
    pub default_container_image: Option<String>,
    pub default_container_image_override: Option<Option<String>>,
    pub connection_type: Option<String>,
    pub connection_type_override: Option<Option<String>>,
}

/// What a domain holds.
pub struct DomainView {
    pub location: Seq<char>,
    pub groups: Option<Map<Seq<char>, GroupView>>,
    pub default_environment: Option<Seq<char>>,
    pub settings: SettingsView,
}

impl Domain {
    /// The settings that the level declares.
    pub open spec fn settings(&self) -> SettingsView {
        SettingsView {
            host_portmappings: self.host_portmappings.deep_view(),
            host_portmappings_override: self.host_portmappings_override.deep_view(),
            variables: self.variables.deep_view(),
            variables_override: self.variables_override.deep_view(),
            volumes: self.volumes.deep_view(),
            volumes_override: self.volumes_override.deep_view(),
            serve_command: self.serve_command.deep_view(),
            serve_command_override: self.serve_command_override.deep_view(),
            shell_command: self.shell_command.deep_view(),
            shell_command_override: self.shell_command_override.deep_view(),
            image_repository: self.image_repository.deep_view(),
            image_repository_override: self.image_repository_override.deep_view(),
            platform: self.platform.deep_view(),
            platform_override: self.platform_override.deep_view(),
            default_container_image: self.default_container_image.deep_view(),
            default_container_image_override: self.default_container_image_override.deep_view(),
            connection_type: self.connection_type.deep_view(),
            connection_type_override: self.connection_type_override.deep_view(),
        }
    }
}

impl DeepView for Domain {
    type V = DomainView;

    open spec fn deep_view(&self) -> DomainView {
        DomainView {
            location: self.location.deep_view(),
            groups: self.groups.deep_view(),
            default_environment: self.default_environment.deep_view(),
            settings: self.settings(),
        }
    }
}

impl Duplicate for Domain {
    fn duplicate(&self) -> (r: Domain) {
        Domain {
            location: self.location.duplicate(),
            groups: self.groups.duplicate(),
            default_environment: self.default_environment.duplicate(),
            host_portmappings: self.host_portmappings.duplicate(),
            host_portmappings_override: self.host_portmappings_override.duplicate(),
            variables: self.variables.duplicate(),
            variables_override: self.variables_override.duplicate(),
            volumes: self.volumes.duplicate(),
            volumes_override: self.volumes_override.duplicate(),
            serve_command: self.serve_command.duplicate(),
            serve_command_override: self.serve_command_override.duplicate(),
            shell_command: self.shell_command.duplicate(),
            shell_command_override: self.shell_command_override.duplicate(),
            image_repository: self.image_repository.duplicate(),
            image_repository_override: self.image_repository_override.duplicate(),
            platform: self.platform.duplicate(),
            platform_override: self.platform_override.duplicate(),
            default_container_image: self.default_container_image.duplicate(),
            default_container_image_override: self.default_container_image_override.duplicate(),
            connection_type: self.connection_type.duplicate(),
            connection_type_override: self.connection_type_override.duplicate(),
        }
    }
}

impl Clone for Domain {
    fn clone(&self) -> (r: Domain)
        ensures
            r.deep_view() == self.deep_view(),
    {
        self.duplicate()
    }
}

impl DomainView {
    /// Nothing is declared.
    pub open spec fn none() -> DomainView {
        DomainView {
            location: Seq::empty(),
            groups: None,
            default_environment: None,
            settings: SettingsView::none(),
        }
    }
}

impl Default for Domain {
    fn default() -> (r: Domain)
        ensures
            r.deep_view() == DomainView::none(),
    {
        Domain {
            location: String::new(),
            groups: None,
            default_environment: None,
            host_portmappings: None,
            host_portmappings_override: None,
            variables: None,
            variables_override: None,
            volumes: None,
            volumes_override: None,
            serve_command: None,
            serve_command_override: None,
            shell_command: None,
            shell_command_override: None,
            image_repository: None,
            image_repository_override: None,
            platform: None,
            platform_override: None,
            default_container_image: None,
            default_container_image_override: None,
            connection_type: None,
            connection_type_override: None,
        }
    }
}

/// An environment: settings that apply where nothing more specific does.
#[derive(Debug)]
pub struct Environment {
    pub host_portmappings: Option<StrMap<String>>,
    pub host_portmappings_override: Option<Option<StrMap<String>>>,
    pub variables: Option<StrMap<String>>,
    pub variables_override: Option<Option<StrMap<String>>>,
    pub volumes: Option<Vec<Volume>>,
    pub volumes_override: Option<Option<Vec<Volume>>>,
    pub serve_command: Option<String>,
    pub serve_command_override: Option<Option<String>>,
    pub shell_command: Option<String>,
    pub shell_command_override: Option<Option<String>>,
    pub image_repository: Option<String>,
    pub image_repository_override: Option<Option<String>>,
    pub platform: Option<String>,
    pub platform_override: Option<Option<String>>,
    pub default_container_image: Option<String>,
    pub default_container_image_override: Option<Option<String>>,
    pub connection_type: Option<String>,
    pub connection_type_override: Option<Option<String>>,
}

impl Environment {
    /// The settings that the level declares.
    pub open spec fn settings(&self) -> SettingsView {
        SettingsView {
            host_portmappings: self.host_portmappings.deep_view(),
            host_portmappings_override: self.host_portmappings_override.deep_view(),
            variables: self.variables.deep_view(),
            variables_override: self.variables_override.deep_view(),
            volumes: self.volumes.deep_view(),
            volumes_override: self.volumes_override.deep_view(),
            serve_command: self.serve_command.deep_view(),
            serve_command_override: self.serve_command_override.deep_view(),
            shell_command: self.shell_command.deep_view(),
            shell_command_override: self.shell_command_override.deep_view(),
            image_repository: self.image_repository.deep_view(),
            image_repository_override: self.image_repository_override.deep_view(),
            platform: self.platform.deep_view(),
            platform_override: self.platform_override.deep_view(),
            default_container_image: self.default_container_image.deep_view(),
            default_container_image_override: self.default_container_image_override.deep_view(),
            connection_type: self.connection_type.deep_view(),
            connection_type_override: self.connection_type_override.deep_view(),
        }
    }
}

impl DeepView for Environment {
    type V = SettingsView;

    open spec fn deep_view(&self) -> SettingsView {
        self.settings()
    }
}

impl Duplicate for Environment {
    fn duplicate(&self) -> (r: Environment) {
        Environment {
            host_portmappings: self.host_portmappings.duplicate(),
            host_portmappings_override: self.host_portmappings_override.duplicate(),
            variables: self.variables.duplicate(),
            variables_override: self.variables_override.duplicate(),
            volumes: self.volumes.duplicate(),
            volumes_override: self.volumes_override.duplicate(),
            serve_command: self.serve_command.duplicate(),
            serve_command_override: self.serve_command_override.duplicate(),
            shell_command: self.shell_command.duplicate(),
            shell_command_override: self.shell_command_override.duplicate(),
            image_repository: self.image_repository.duplicate(),
            image_repository_override: self.image_repository_override.duplicate(),
            platform: self.platform.duplicate(),
            platform_override: self.platform_override.duplicate(),
            default_container_image: self.default_container_image.duplicate(),
            default_container_image_override: self.default_container_image_override.duplicate(),
            connection_type: self.connection_type.duplicate(),
            connection_type_override: self.connection_type_override.duplicate(),
        }
    }
}

impl Clone for Environment {
    fn clone(&self) -> (r: Environment)
        ensures
            r.deep_view() == self.deep_view(),
    {
        self.duplicate()
    }
}

impl Default for Environment {
    fn default() -> (r: Environment)
        ensures
            r.deep_view() == SettingsView::none(),
    {
        Environment {
            host_portmappings: None,
            host_portmappings_override: None,
            variables: None,
            variables_override: None,
            volumes: None,
            volumes_override: None,
            serve_command: None,
            serve_command_override: None,
            shell_command: None,
            shell_command_override: None,
            image_repository: None,
            image_repository_override: None,
            platform: None,
            platform_override: None,
            default_container_image: None,
            default_container_image_override: None,
            connection_type: None,
            connection_type_override: None,
        }
    }
}

/// A configuration.
#[derive(Debug)]
pub struct Config {
    pub pre_config: Option<Vec<PreConfig>>,
    pub engine: Option<String>,
    pub podman_machine: Option<String>,
    pub domains: Option<StrMap<Domain>>,
    pub environments: Option<StrMap<Environment>>,
    pub urls_in_hosts: Option<bool>,
    pub wsl: Option<bool>,
    /// Base of the range from which each service gets its debug port.
    pub debug_port_base: Option<u16>,
}

/// What a configuration holds.
pub struct ConfigView {
    pub pre_config: Option<Seq<PreConfigView>>,
    pub engine: Option<Seq<char>>,
    pub podman_machine: Option<Seq<char>>,
    pub domains: Option<Map<Seq<char>, DomainView>>,
    pub environments: Option<Map<Seq<char>, SettingsView>>,
    pub urls_in_hosts: Option<bool>,
    pub wsl: Option<bool>,
    pub debug_port_base: Option<u16>,
}

impl View for Config {
    type V = ConfigView;

    open spec fn view(&self) -> ConfigView {
        ConfigView {
            pre_config: self.pre_config.deep_view(),
            engine: self.engine.deep_view(),
            podman_machine: self.podman_machine.deep_view(),
            domains: self.domains.deep_view(),
            environments: self.environments.deep_view(),
            urls_in_hosts: self.urls_in_hosts,
            wsl: self.wsl,
            debug_port_base: self.debug_port_base,
        }
    }
}

impl DeepView for Config {
    type V = ConfigView;

    open spec fn deep_view(&self) -> ConfigView {
        self@
    }
}

impl Duplicate for Config {
    fn duplicate(&self) -> (r: Config) {
        Config {
            pre_config: self.pre_config.duplicate(),
            engine: self.engine.duplicate(),
            podman_machine: self.podman_machine.duplicate(),
            domains: self.domains.duplicate(),
            environments: self.environments.duplicate(),
            urls_in_hosts: self.urls_in_hosts,
            wsl: self.wsl,
            debug_port_base: self.debug_port_base,
        }
    }
}

impl Clone for Config {
    fn clone(&self) -> (r: Config)
        ensures
            r@ == self@,
    {
        self.duplicate()
    }
}

impl ConfigView {
    /// Nothing is configured.
    pub open spec fn none() -> ConfigView {
        ConfigView {
            pre_config: None,
            engine: None,
            podman_machine: None,
            domains: None,
            environments: None,
            urls_in_hosts: None,
            wsl: None,
            debug_port_base: None,
        }
    }
}

impl Default for Config {
    fn default() -> (r: Config)
        ensures
            r@ == ConfigView::none(),
    {
        Config {
            pre_config: None,
            engine: None,
            podman_machine: None,
            domains: None,
            environments: None,
            urls_in_hosts: None,
            wsl: None,
            debug_port_base: None,
        }
    }
}

} // verus!
