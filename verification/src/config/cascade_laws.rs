//! What holds of settings that are resolved across levels.
use crate::config::model::{SettingsView, VolumeView};
use crate::config::resolve::{cascade, full_image_name};
use vstd::prelude::*;

verus! {

/// What one level says of one field: its plain form, and its override.
pub struct Saying<T> {
    pub plain: Option<T>,
    pub overriding: Option<Option<T>>,
}

impl<T> Saying<T> {
    /// A level that is not there says nothing.
    pub open spec fn nothing() -> Saying<T> {
        Saying { plain: None, overriding: None }
    }

    /// The level says nothing of the field.
    pub open spec fn is_silent(self) -> bool {
        self.plain is None && self.overriding is None
    }

    /// The value that the level itself gives, if any.
    pub open spec fn value(self) -> Option<T> {
        if self.overriding is Some {
            self.overriding->0
        } else {
            self.plain
        }
    }

    /// The value that the level gives, unless one of the given levels, which are more specific,
    /// overrides the field.
    pub open spec fn value_below(self, a: Saying<T>, b: Saying<T>, c: Saying<T>) -> Option<T> {
        if a.overriding is Some || b.overriding is Some || c.overriding is Some {
            None
        } else {
            self.value()
        }
    }
}

/// What the levels say of one field.
pub struct Sayings<T> {
    pub environment: Saying<T>,
    pub domain: Saying<T>,
    pub group: Saying<T>,
    pub service: Saying<T>,
}

impl<T> Sayings<T> {
    /// What counts of the service's own value.
    pub open spec fn of_service(self) -> Option<T> {
        self.service.value()
    }

    /// What counts of the group's value.
    pub open spec fn of_group(self) -> Option<T> {
        self.group.value_below(self.service, Saying::nothing(), Saying::nothing())
    }

    /// What counts of the domain's value.
    pub open spec fn of_domain(self) -> Option<T> {
        self.domain.value_below(self.service, self.group, Saying::nothing())
    }

    /// What counts of the environment's value.
    pub open spec fn of_environment(self) -> Option<T> {
        self.environment.value_below(self.service, self.group, self.domain)
    }
}

/// The value comes from the most specific level that says something: service, then group,
/// then domain, then environment. There is none where no level says anything.
pub open spec fn is_nearest(value: Option<Seq<char>>, said: Sayings<Seq<char>>) -> bool {
    &&& !said.service.is_silent() ==> value == said.service.value()
    &&& said.service.is_silent() && !said.group.is_silent() ==> value == said.group.value()
    &&& said.service.is_silent() && said.group.is_silent() && !said.domain.is_silent() ==> value
        == said.domain.value()
    &&& said.service.is_silent() && said.group.is_silent() && said.domain.is_silent()
        && !said.environment.is_silent() ==> value == said.environment.value()
    &&& said.service.is_silent() && said.group.is_silent() && said.domain.is_silent()
        && said.environment.is_silent() ==> value is None
}

/// The key has a value in a map that may be missing.
pub open spec fn has_key(m: Option<Map<Seq<char>, Seq<char>>>, k: Seq<char>) -> bool {
    m is Some && m->0.contains_key(k)
}

/// The map has each key that some level maps, with the value of the most specific level that
/// maps it: service, then group, then domain, then environment. There is a map where some
/// level has one. Levels below an override do not count.
pub open spec fn is_layered_map(
    value: Option<Map<Seq<char>, Seq<char>>>,
    said: Sayings<Map<Seq<char>, Seq<char>>>,
) -> bool {
    let s = said.of_service();
    let g = said.of_group();
    let d = said.of_domain();
    let e = said.of_environment();
    &&& value is Some <==> s is Some || g is Some || d is Some || e is Some
    &&& forall|k: Seq<char>|
        #![trigger has_key(value, k)]
        {
            &&& has_key(value, k) <==> has_key(s, k) || has_key(g, k) || has_key(d, k) || has_key(
                e,
                k,
            )
            &&& has_key(s, k) ==> value->0[k] == s->0[k]
            &&& !has_key(s, k) && has_key(g, k) ==> value->0[k] == g->0[k]
            &&& !has_key(s, k) && !has_key(g, k) && has_key(d, k) ==> value->0[k] == d->0[k]
            &&& !has_key(s, k) && !has_key(g, k) && !has_key(d, k) && has_key(e, k) ==> value->0[k]
                == e->0[k]
        }
}

/// The items of a list that may be missing.
pub open spec fn items_of(list: Option<Seq<VolumeView>>) -> Seq<VolumeView> {
    match list {
        Some(items) => items,
        None => Seq::empty(),
    }
}

/// The list holds the items of all levels, one level after the other, from the environment to
/// the service. There is a list where some level has one. Levels below an override do not
/// count.
pub open spec fn is_layered_list(
    value: Option<Seq<VolumeView>>,
    said: Sayings<Seq<VolumeView>>,
) -> bool {
    let s = said.of_service();
    let g = said.of_group();
    let d = said.of_domain();
    let e = said.of_environment();
    &&& value is Some <==> s is Some || g is Some || d is Some || e is Some
    &&& items_of(value) == items_of(e) + items_of(d) + items_of(g) + items_of(s)
}

/// What a level says of its `serve_command`.
pub open spec fn serve_command_said(level: Option<SettingsView>) -> Saying<Seq<char>> {
    match level {
        Some(s) => Saying { plain: s.serve_command, overriding: s.serve_command_override },
        None => Saying::nothing(),
    }
}

/// What a level says of its `shell_command`.
pub open spec fn shell_command_said(level: Option<SettingsView>) -> Saying<Seq<char>> {
    match level {
        Some(s) => Saying { plain: s.shell_command, overriding: s.shell_command_override },
        None => Saying::nothing(),
    }
}

/// What a level says of its `image_repository`.
pub open spec fn image_repository_said(level: Option<SettingsView>) -> Saying<Seq<char>> {
    match level {
        Some(s) => Saying { plain: s.image_repository, overriding: s.image_repository_override },
        None => Saying::nothing(),
    }
}

/// What a level says of its `platform`.
pub open spec fn platform_said(level: Option<SettingsView>) -> Saying<Seq<char>> {
    match level {
        Some(s) => Saying { plain: s.platform, overriding: s.platform_override },
        None => Saying::nothing(),
    }
}

/// What a level says of its `default_container_image`.
pub open spec fn default_container_image_said(level: Option<SettingsView>) -> Saying<Seq<char>> {
    match level {
        Some(s) => Saying { plain: s.default_container_image, overriding: s.default_container_image_override },
        None => Saying::nothing(),
    }
}

/// What a level says of its `connection_type`.
pub open spec fn connection_type_said(level: Option<SettingsView>) -> Saying<Seq<char>> {
    match level {
        Some(s) => Saying { plain: s.connection_type, overriding: s.connection_type_override },
        None => Saying::nothing(),
    }
}

/// What a level says of its `host_portmappings`.
pub open spec fn host_portmappings_said(level: Option<SettingsView>) -> Saying<Map<Seq<char>, Seq<char>>> {
    match level {
        Some(s) => Saying { plain: s.host_portmappings, overriding: s.host_portmappings_override },
        None => Saying::nothing(),
    }
}

/// What a level says of its `variables`.
pub open spec fn variables_said(level: Option<SettingsView>) -> Saying<Map<Seq<char>, Seq<char>>> {
    match level {
        Some(s) => Saying { plain: s.variables, overriding: s.variables_override },
        None => Saying::nothing(),
    }
}

/// What a level says of its `volumes`.
pub open spec fn volumes_said(level: Option<SettingsView>) -> Saying<Seq<VolumeView>> {
    match level {
        Some(s) => Saying { plain: s.volumes, overriding: s.volumes_override },
        None => Saying::nothing(),
    }
}

/// Every single value comes from the most specific level that says something of it: service,
/// then group, then domain, then environment. On one level the override counts, not the plain
/// form.
pub proof fn single_values_come_from_the_nearest_level(
    environment: Option<SettingsView>,
    domain: SettingsView,
    group: Option<SettingsView>,
    service: Option<SettingsView>,
)
    ensures
        ({
            let r = cascade(environment, domain, group, service);
            &&& is_nearest(
                r.serve_command,
                (Sayings {
                    environment: serve_command_said(environment),
                    domain: serve_command_said(Some(domain)),
                    group: serve_command_said(group),
                    service: serve_command_said(service),
                }),
            )
            &&& is_nearest(
                r.shell_command,
                (Sayings {
                    environment: shell_command_said(environment),
                    domain: shell_command_said(Some(domain)),
                    group: shell_command_said(group),
                    service: shell_command_said(service),
                }),
            )
            &&& is_nearest(
                r.image_repository,
                (Sayings {
                    environment: image_repository_said(environment),
                    domain: image_repository_said(Some(domain)),
                    group: image_repository_said(group),
                    service: image_repository_said(service),
                }),
            )
            &&& is_nearest(
                r.platform,
                (Sayings {
                    environment: platform_said(environment),
                    domain: platform_said(Some(domain)),
                    group: platform_said(group),
                    service: platform_said(service),
                }),
            )
            &&& is_nearest(
                r.default_container_image,
                (Sayings {
                    environment: default_container_image_said(environment),
                    domain: default_container_image_said(Some(domain)),
                    group: default_container_image_said(group),
                    service: default_container_image_said(service),
                }),
            )
            &&& is_nearest(
                r.connection_type,
                (Sayings {
                    environment: connection_type_said(environment),
                    domain: connection_type_said(Some(domain)),
                    group: connection_type_said(group),
                    service: connection_type_said(service),
                }),
            )
        }),
{
}

/// Ports and variables are layered key by key: a key has the value of the most specific level
/// that maps it, and no key of any level is lost.
pub proof fn maps_are_layered_key_by_key(
    environment: Option<SettingsView>,
    domain: SettingsView,
    group: Option<SettingsView>,
    service: Option<SettingsView>,
)
    ensures
        ({
            let r = cascade(environment, domain, group, service);
            &&& is_layered_map(
                r.host_portmappings,
                (Sayings {
                    environment: host_portmappings_said(environment),
                    domain: host_portmappings_said(Some(domain)),
                    group: host_portmappings_said(group),
                    service: host_portmappings_said(service),
                }),
            )
            &&& is_layered_map(
                r.variables,
                (Sayings {
                    environment: variables_said(environment),
                    domain: variables_said(Some(domain)),
                    group: variables_said(group),
                    service: variables_said(service),
                }),
            )
        }),
{
}

/// The volumes are those of all levels, from the environment to the service.
pub proof fn volumes_of_all_levels_are_listed(
    environment: Option<SettingsView>,
    domain: SettingsView,
    group: Option<SettingsView>,
    service: Option<SettingsView>,
)
    ensures
        is_layered_list(
            cascade(environment, domain, group, service).volumes,
            (Sayings {
                environment: volumes_said(environment),
                domain: volumes_said(Some(domain)),
                group: volumes_said(group),
                service: volumes_said(service),
            }),
        ),
{
    let r = cascade(environment, domain, group, service);
    let said = Sayings {
        environment: volumes_said(environment),
        domain: volumes_said(Some(domain)),
        group: volumes_said(group),
        service: volumes_said(service),
    };
    let s = items_of(said.of_service());
    let g = items_of(said.of_group());
    let d = items_of(said.of_domain());
    let e = items_of(said.of_environment());
    assert(items_of(r.volumes) =~= e + d + g + s);
}

/// Without overrides, a port is mapped exactly when some level maps it, and as the most
/// specific of these levels does; and the same holds of variables.
pub proof fn plain_maps_add_up(
    environment: Option<SettingsView>,
    domain: SettingsView,
    group: Option<SettingsView>,
    service: Option<SettingsView>,
    k: Seq<char>,
)
    requires
        environment is Some ==> environment->0.host_portmappings_override is None
            && environment->0.variables_override is None,
        domain.host_portmappings_override is None,
        domain.variables_override is None,
        group is Some ==> group->0.host_portmappings_override is None
            && group->0.variables_override is None,
        service is Some ==> service->0.host_portmappings_override is None
            && service->0.variables_override is None,
    ensures
        ({
            let r = cascade(environment, domain, group, service).host_portmappings;
            let in_service = service is Some && has_key(service->0.host_portmappings, k);
            let in_group = group is Some && has_key(group->0.host_portmappings, k);
            let in_domain = has_key(domain.host_portmappings, k);
            let in_environment = environment is Some && has_key(environment->0.host_portmappings, k);
            &&& has_key(r, k) <==> in_service || in_group || in_domain || in_environment
            &&& has_key(r, k) ==> r->0[k] == if in_service {
                service->0.host_portmappings->0[k]
            } else if in_group {
                group->0.host_portmappings->0[k]
            } else if in_domain {
                domain.host_portmappings->0[k]
            } else {
                environment->0.host_portmappings->0[k]
            }
        }),
        ({
            let r = cascade(environment, domain, group, service).variables;
            let in_service = service is Some && has_key(service->0.variables, k);
            let in_group = group is Some && has_key(group->0.variables, k);
            let in_domain = has_key(domain.variables, k);
            let in_environment = environment is Some && has_key(environment->0.variables, k);
            &&& has_key(r, k) <==> in_service || in_group || in_domain || in_environment
            &&& has_key(r, k) ==> r->0[k] == if in_service {
                service->0.variables->0[k]
            } else if in_group {
                group->0.variables->0[k]
            } else if in_domain {
                domain.variables->0[k]
            } else {
                environment->0.variables->0[k]
            }
        }),
{
}

/// The name of an image is the image itself, behind the repository and a colon where there is
/// one. Without an image there is no name.
pub proof fn image_name_is_repository_and_image(
    repository: Option<Seq<char>>,
    image: Option<Seq<char>>,
)
    ensures
        full_image_name(repository, image) is Some <==> image is Some,
        image is Some && repository is None ==> full_image_name(repository, image) == image,
        image is Some && repository is Some ==> {
            let name = full_image_name(repository, image)->0;
            let n = repository->0.len() as int;
            &&& name.len() == n + 1 + image->0.len()
            &&& name.take(n) == repository->0
            &&& name[n] == ':'
            &&& name.skip(n + 1) == image->0
        },
{
    reveal_strlit(":");
    if image is Some && repository is Some {
        let name = full_image_name(repository, image)->0;
        let n = repository->0.len() as int;
        assert(name.take(n) =~= repository->0);
        assert(name.skip(n + 1) =~= image->0);
    }
}

} // verus!
