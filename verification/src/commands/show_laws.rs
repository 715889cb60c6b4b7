//! What holds of the settings that are shown, and of the steps that update parents.
use crate::commands::show::{pull_steps, settled_in, PullView};
use crate::config::cascade_laws::{
    connection_type_said, default_container_image_said, host_portmappings_said,
    image_repository_said, is_layered_list, is_layered_map, is_nearest, maps_are_layered_key_by_key,
    platform_said, serve_command_said, shell_command_said,
    single_values_come_from_the_nearest_level, variables_said, volumes_of_all_levels_are_listed,
    volumes_said, Sayings,
};
use crate::config::context::ContextView;
use crate::config::model::{ConfigView, SettingsView};
use vstd::prelude::*;

verus! {

/// The settings of the group of a context, where it is configured.
pub open spec fn group_settings(ctx: ContextView) -> Option<SettingsView> {
    if ctx.group is Some {
        Some(ctx.group->0.settings)
    } else {
        None
    }
}

/// The settings of the service of a context, where it is configured.
pub open spec fn service_settings(ctx: ContextView) -> Option<SettingsView> {
    if ctx.service is Some {
        Some(ctx.service->0.settings)
    } else {
        None
    }
}

/// What is shown is resolved from the service, the group, the domain and the environment of
/// the directory, all four of them.
pub proof fn all_levels_of_a_context_are_resolved(ctx: ContextView)
    ensures
        ({
            let r = settled_in(ctx);
            let g = group_settings(ctx);
            let s = service_settings(ctx);
            let d = Some(ctx.domain.settings);
            let e = ctx.environment;
            &&& is_nearest(
                r.serve_command,
                (Sayings {
                    environment: serve_command_said(e),
                    domain: serve_command_said(d),
                    group: serve_command_said(g),
                    service: serve_command_said(s),
                }),
            )
            &&& is_nearest(
                r.shell_command,
                (Sayings {
                    environment: shell_command_said(e),
                    domain: shell_command_said(d),
                    group: shell_command_said(g),
                    service: shell_command_said(s),
                }),
            )
            &&& is_nearest(
                r.image_repository,
                (Sayings {
                    environment: image_repository_said(e),
                    domain: image_repository_said(d),
                    group: image_repository_said(g),
                    service: image_repository_said(s),
                }),
            )
            &&& is_nearest(
                r.platform,
                (Sayings {
                    environment: platform_said(e),
                    domain: platform_said(d),
                    group: platform_said(g),
                    service: platform_said(s),
                }),
            )
            &&& is_nearest(
                r.default_container_image,
                (Sayings {
                    environment: default_container_image_said(e),
                    domain: default_container_image_said(d),
                    group: default_container_image_said(g),
                    service: default_container_image_said(s),
                }),
            )
            &&& is_nearest(
                r.connection_type,
                (Sayings {
                    environment: connection_type_said(e),
                    domain: connection_type_said(d),
                    group: connection_type_said(g),
                    service: connection_type_said(s),
                }),
            )
            &&& is_layered_map(
                r.host_portmappings,
                (Sayings {
                    environment: host_portmappings_said(e),
                    domain: host_portmappings_said(d),
                    group: host_portmappings_said(g),
                    service: host_portmappings_said(s),
                }),
            )
            &&& is_layered_map(
                r.variables,
                (Sayings {
                    environment: variables_said(e),
                    domain: variables_said(d),
                    group: variables_said(g),
                    service: variables_said(s),
                }),
            )
            &&& is_layered_list(
                r.volumes,
                (Sayings {
                    environment: volumes_said(e),
                    domain: volumes_said(d),
                    group: volumes_said(g),
                    service: volumes_said(s),
                }),
            )
        }),
{
    let g = group_settings(ctx);
    let s = service_settings(ctx);
    single_values_come_from_the_nearest_level(ctx.environment, ctx.domain.settings, g, s);
    maps_are_layered_key_by_key(ctx.environment, ctx.domain.settings, g, s);
    volumes_of_all_levels_are_listed(ctx.environment, ctx.domain.settings, g, s);
}

/// Every parent with a repository is updated there, and one without is passed over and said to
/// be, in the order of the parents. Without parents, that is said.
pub proof fn every_parent_is_pulled_or_passed_over(c: ConfigView, i: int)
    ensures
        c.pre_config is Some && c.pre_config->0.len() > 0 ==> {
            let parents = c.pre_config->0;
            &&& pull_steps(c).len() == parents.len()
            &&& 0 <= i < parents.len() && parents[i].repo_location is Some ==> pull_steps(c)[i]
                == PullView::Pull(parents[i].repo_location->0)
            &&& 0 <= i < parents.len() && parents[i].repo_location is None ==> pull_steps(c)[i]
                == PullView::Say("Skipping '"@ + parents[i].location + "' (no repo_location)"@)
        },
        !(c.pre_config is Some && c.pre_config->0.len() > 0) ==> pull_steps(c) == seq![
            PullView::Say("No pre_config entries configured."@),
        ],
{
}

} // verus!
