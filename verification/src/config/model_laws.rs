//! What the models of a configuration show.
use crate::config::model::{Config, Domain, Environment, Group, PreConfig, Service, Volume};
use crate::config::resolve::ResolvedSettings;
use vstd::prelude::*;

verus! {

/// The model of an environment shows each of its settings under its own name.
pub proof fn environment_shows_its_fields(e: Environment)
    ensures
        e.deep_view().host_portmappings == e.host_portmappings.deep_view(),
        e.deep_view().host_portmappings_override == e.host_portmappings_override.deep_view(),
        e.deep_view().variables == e.variables.deep_view(),
        e.deep_view().variables_override == e.variables_override.deep_view(),
        e.deep_view().volumes == e.volumes.deep_view(),
        e.deep_view().volumes_override == e.volumes_override.deep_view(),
        e.deep_view().serve_command == e.serve_command.deep_view(),
        e.deep_view().serve_command_override == e.serve_command_override.deep_view(),
        e.deep_view().shell_command == e.shell_command.deep_view(),
        e.deep_view().shell_command_override == e.shell_command_override.deep_view(),
        e.deep_view().image_repository == e.image_repository.deep_view(),
        e.deep_view().image_repository_override == e.image_repository_override.deep_view(),
        e.deep_view().platform == e.platform.deep_view(),
        e.deep_view().platform_override == e.platform_override.deep_view(),
        e.deep_view().default_container_image == e.default_container_image.deep_view(),
        e.deep_view().default_container_image_override == e.default_container_image_override.deep_view(),
        e.deep_view().connection_type == e.connection_type.deep_view(),
        e.deep_view().connection_type_override == e.connection_type_override.deep_view(),
{
}

/// The model of a service shows each of its fields under its own name.
pub proof fn service_shows_its_fields(s: Service)
    ensures
        s.deep_view().default_environment == s.default_environment.deep_view(),
        s.deep_view().urls == s.urls.deep_view(),
        s.deep_view().settings.host_portmappings == s.host_portmappings.deep_view(),
        s.deep_view().settings.host_portmappings_override == s.host_portmappings_override.deep_view(),
        s.deep_view().settings.variables == s.variables.deep_view(),
        s.deep_view().settings.variables_override == s.variables_override.deep_view(),
        s.deep_view().settings.volumes == s.volumes.deep_view(),
        s.deep_view().settings.volumes_override == s.volumes_override.deep_view(),
        s.deep_view().settings.serve_command == s.serve_command.deep_view(),
        s.deep_view().settings.serve_command_override == s.serve_command_override.deep_view(),
        s.deep_view().settings.shell_command == s.shell_command.deep_view(),
        s.deep_view().settings.shell_command_override == s.shell_command_override.deep_view(),
        s.deep_view().settings.image_repository == s.image_repository.deep_view(),
        s.deep_view().settings.image_repository_override == s.image_repository_override.deep_view(),
        s.deep_view().settings.platform == s.platform.deep_view(),
        s.deep_view().settings.platform_override == s.platform_override.deep_view(),
        s.deep_view().settings.default_container_image == s.default_container_image.deep_view(),
        s.deep_view().settings.default_container_image_override == s.default_container_image_override.deep_view(),
        s.deep_view().settings.connection_type == s.connection_type.deep_view(),
        s.deep_view().settings.connection_type_override == s.connection_type_override.deep_view(),
{
}

/// The model of a group shows each of its fields under its own name.
pub proof fn group_shows_its_fields(g: Group)
    ensures
        g.deep_view().services == g.services.deep_view(),
        g.deep_view().default_environment == g.default_environment.deep_view(),
        g.deep_view().settings.host_portmappings == g.host_portmappings.deep_view(),
        g.deep_view().settings.host_portmappings_override == g.host_portmappings_override.deep_view(),
        g.deep_view().settings.variables == g.variables.deep_view(),
        g.deep_view().settings.variables_override == g.variables_override.deep_view(),
        g.deep_view().settings.volumes == g.volumes.deep_view(),
        g.deep_view().settings.volumes_override == g.volumes_override.deep_view(),
        g.deep_view().settings.serve_command == g.serve_command.deep_view(),
        g.deep_view().settings.serve_command_override == g.serve_command_override.deep_view(),
        g.deep_view().settings.shell_command == g.shell_command.deep_view(),
        g.deep_view().settings.shell_command_override == g.shell_command_override.deep_view(),
        g.deep_view().settings.image_repository == g.image_repository.deep_view(),
        g.deep_view().settings.image_repository_override == g.image_repository_override.deep_view(),
        g.deep_view().settings.platform == g.platform.deep_view(),
        g.deep_view().settings.platform_override == g.platform_override.deep_view(),
        g.deep_view().settings.default_container_image == g.default_container_image.deep_view(),
        g.deep_view().settings.default_container_image_override == g.default_container_image_override.deep_view(),
        g.deep_view().settings.connection_type == g.connection_type.deep_view(),
        g.deep_view().settings.connection_type_override == g.connection_type_override.deep_view(),
{
}

/// The model of a domain shows each of its fields under its own name.
pub proof fn domain_shows_its_fields(d: Domain)
    ensures
        d.deep_view().location == d.location.deep_view(),
        d.deep_view().groups == d.groups.deep_view(),
        d.deep_view().default_environment == d.default_environment.deep_view(),
        d.deep_view().settings.host_portmappings == d.host_portmappings.deep_view(),
        d.deep_view().settings.host_portmappings_override == d.host_portmappings_override.deep_view(),
        d.deep_view().settings.variables == d.variables.deep_view(),
        d.deep_view().settings.variables_override == d.variables_override.deep_view(),
        d.deep_view().settings.volumes == d.volumes.deep_view(),
        d.deep_view().settings.volumes_override == d.volumes_override.deep_view(),
        d.deep_view().settings.serve_command == d.serve_command.deep_view(),
        d.deep_view().settings.serve_command_override == d.serve_command_override.deep_view(),
        d.deep_view().settings.shell_command == d.shell_command.deep_view(),
        d.deep_view().settings.shell_command_override == d.shell_command_override.deep_view(),
        d.deep_view().settings.image_repository == d.image_repository.deep_view(),
        d.deep_view().settings.image_repository_override == d.image_repository_override.deep_view(),
        d.deep_view().settings.platform == d.platform.deep_view(),
        d.deep_view().settings.platform_override == d.platform_override.deep_view(),
        d.deep_view().settings.default_container_image == d.default_container_image.deep_view(),
        d.deep_view().settings.default_container_image_override == d.default_container_image_override.deep_view(),
        d.deep_view().settings.connection_type == d.connection_type.deep_view(),
        d.deep_view().settings.connection_type_override == d.connection_type_override.deep_view(),
{
}

/// The model of a configuration shows each of its fields under its own name.
pub proof fn config_shows_its_fields(c: Config)
    ensures
        c@.pre_config == c.pre_config.deep_view(),
        c@.engine == c.engine.deep_view(),
        c@.podman_machine == c.podman_machine.deep_view(),
        c@.domains == c.domains.deep_view(),
        c@.environments == c.environments.deep_view(),
        c@.urls_in_hosts == c.urls_in_hosts,
        c@.wsl == c.wsl,
        c@.debug_port_base == c.debug_port_base,
{
}

/// The models of a parent and of a volume show their paths.
pub proof fn parent_and_volume_show_their_fields(p: PreConfig, v: Volume)
    ensures
        p.deep_view().location == p.location@,
        p.deep_view().repo_location == p.repo_location.deep_view(),
        v.deep_view().container == v.container@,
        v.deep_view().host == v.host@,
{
}

/// The values of resolved settings are those of their fields.
pub proof fn resolved_settings_show_their_fields(r: ResolvedSettings)
    ensures
        r.settled().serve_command == r.serve_command.deep_view(),
        r.settled().shell_command == r.shell_command.deep_view(),
        r.settled().image_repository == r.image_repository.deep_view(),
        r.settled().platform == r.platform.deep_view(),
        r.settled().default_container_image == r.default_container_image.deep_view(),
        r.settled().host_portmappings == r.host_portmappings.deep_view(),
        r.settled().variables == r.variables.deep_view(),
        r.settled().volumes == r.volumes.deep_view(),
        r.settled().connection_type == r.connection_type.deep_view(),
{
}

} // verus!
