//! What holds of the check for double declarations.
use crate::config::check::{
    config_fault, domains_fault, double_field, environments_fault, group_fault,
    groups_fault, place_fault, services_fault,
};
use crate::config::edit::PlaceView;
use crate::config::edit_laws::{exists_in, settings_at};
use crate::config::model::{ConfigView, SettingsView};
use crate::map::{lemma_sorted_keys, sorted_keys};
use vstd::prelude::*;

verus! {

/// The field of that name is declared both ways.
pub open spec fn is_double(s: SettingsView, field: Seq<char>) -> bool {
    ||| field == "serve_command"@ && s.serve_command is Some && s.serve_command_override is Some
    ||| field == "shell_command"@ && s.shell_command is Some && s.shell_command_override is Some
    ||| field == "image_repository"@ && s.image_repository is Some && s.image_repository_override is Some
    ||| field == "platform"@ && s.platform is Some && s.platform_override is Some
    ||| field == "default_container_image"@ && s.default_container_image is Some && s.default_container_image_override is Some
    ||| field == "connection_type"@ && s.connection_type is Some && s.connection_type_override is Some
    ||| field == "host_portmappings"@ && s.host_portmappings is Some && s.host_portmappings_override is Some
    ||| field == "variables"@ && s.variables is Some && s.variables_override is Some
    ||| field == "volumes"@ && s.volumes is Some && s.volumes_override is Some
}

/// Some field is declared both ways.
pub open spec fn has_double(s: SettingsView) -> bool {
    ||| s.serve_command is Some && s.serve_command_override is Some
    ||| s.shell_command is Some && s.shell_command_override is Some
    ||| s.image_repository is Some && s.image_repository_override is Some
    ||| s.platform is Some && s.platform_override is Some
    ||| s.default_container_image is Some && s.default_container_image_override is Some
    ||| s.connection_type is Some && s.connection_type_override is Some
    ||| s.host_portmappings is Some && s.host_portmappings_override is Some
    ||| s.variables is Some && s.variables_override is Some
    ||| s.volumes is Some && s.volumes_override is Some
}

/// A field that is declared both ways is found, whichever it is, and only such a field.
pub proof fn every_double_field_is_found(s: SettingsView)
    ensures
        double_field(s) is Some <==> has_double(s),
        double_field(s) matches Some(field) ==> is_double(s, field),
{
}

/// Where a place is, in the words of a report.
pub open spec fn whereabouts(place: PlaceView) -> Seq<char> {
    match place {
        PlaceView::Domain(d) => "domain '"@ + d + "'"@,
        PlaceView::Group(d, g) => "domain '"@ + d + "' group '"@ + g + "'"@,
        PlaceView::Service(d, g, s) => {
            "domain '"@ + d + "' group '"@ + g + "' service '"@ + s + "'"@
        },
        PlaceView::Environment(e) => "environment '"@ + e + "'"@,
    }
}

/// The report speaks of a field that the place declares both ways.
pub open spec fn is_report_of(c: ConfigView, report: Seq<char>, place: PlaceView, field: Seq<char>) -> bool {
    &&& exists_in(c, place)
    &&& is_double(settings_at(c, place), field)
    &&& report == "Config error at "@ + whereabouts(place) + ": both '"@ + field + "' and '*"@
        + field + "' are set. Use one or the other, not both."@
}

/// The report speaks of some place and field.
pub open spec fn is_report(c: ConfigView, report: Seq<char>) -> bool {
    exists|place: PlaceView, field: Seq<char>| #[trigger] is_report_of(c, report, place, field)
}

proof fn lemma_place(c: ConfigView, place: PlaceView)
    requires
        exists_in(c, place),
    ensures
        place_fault(whereabouts(place), settings_at(c, place)) matches Some(m) ==> is_report(c, m),
{
    let s = settings_at(c, place);
    every_double_field_is_found(s);
    if double_field(s) is Some {
        let m = place_fault(whereabouts(place), s)->0;
        assert(is_report_of(c, m, place, double_field(s)->0));
    }
}

proof fn lemma_services(c: ConfigView, d: Seq<char>, g: Seq<char>, keys: Seq<Seq<char>>)
    requires
        exists_in(c, PlaceView::Group(d, g)),
        c.domains->0[d].groups->0[g].services is Some,
        forall|i: int|
            0 <= i < keys.len() ==> c.domains->0[d].groups->0[g].services->0.contains_key(
                #[trigger] keys[i],
            ),
    ensures
        services_fault(d, g, c.domains->0[d].groups->0[g].services->0, keys) matches Some(m)
            ==> is_report(c, m),
    decreases keys.len(),
{
    if keys.len() > 0 {
        let rest = keys.drop_first();
        assert forall|i: int| 0 <= i < rest.len() implies c.domains->0[d].groups->0[g].services->0.contains_key(
            #[trigger] rest[i],
        ) by {
            assert(rest[i] == keys[i + 1]);
        }
        lemma_services(c, d, g, rest);
        assert(c.domains->0[d].groups->0[g].services->0.contains_key(keys[0]));
        lemma_place(c, PlaceView::Service(d, g, keys[0]));
    }
}

proof fn lemma_group(c: ConfigView, d: Seq<char>, g: Seq<char>)
    requires
        c.is_finite(),
        exists_in(c, PlaceView::Group(d, g)),
    ensures
        group_fault(d, g, c.domains->0[d].groups->0[g]) matches Some(m) ==> is_report(c, m),
{
    lemma_place(c, PlaceView::Group(d, g));
    let group = c.domains->0[d].groups->0[g];
    assert(c.domains->0[d].is_finite());
    assert(group.is_finite());
    if group.services is Some {
        lemma_sorted_keys(group.services->0);
        lemma_services(c, d, g, sorted_keys(group.services->0));
    }
}

proof fn lemma_groups(c: ConfigView, d: Seq<char>, keys: Seq<Seq<char>>)
    requires
        c.is_finite(),
        exists_in(c, PlaceView::Domain(d)),
        c.domains->0[d].groups is Some,
        forall|i: int|
            0 <= i < keys.len() ==> c.domains->0[d].groups->0.contains_key(#[trigger] keys[i]),
    ensures
        groups_fault(d, c.domains->0[d].groups->0, keys) matches Some(m) ==> is_report(c, m),
    decreases keys.len(),
{
    if keys.len() > 0 {
        let rest = keys.drop_first();
        assert forall|i: int| 0 <= i < rest.len() implies c.domains->0[d].groups->0.contains_key(
            #[trigger] rest[i],
        ) by {
            assert(rest[i] == keys[i + 1]);
        }
        lemma_groups(c, d, rest);
        assert(c.domains->0[d].groups->0.contains_key(keys[0]));
        lemma_group(c, d, keys[0]);
    }
}

proof fn lemma_domains(c: ConfigView, keys: Seq<Seq<char>>)
    requires
        c.is_finite(),
        c.domains is Some,
        forall|i: int| 0 <= i < keys.len() ==> c.domains->0.contains_key(#[trigger] keys[i]),
    ensures
        domains_fault(c.domains->0, keys) matches Some(m) ==> is_report(c, m),
    decreases keys.len(),
{
    if keys.len() > 0 {
        let rest = keys.drop_first();
        assert forall|i: int| 0 <= i < rest.len() implies c.domains->0.contains_key(
            #[trigger] rest[i],
        ) by {
            assert(rest[i] == keys[i + 1]);
        }
        lemma_domains(c, rest);
        let d = keys[0];
        assert(c.domains->0.contains_key(d));
        lemma_place(c, PlaceView::Domain(d));
        assert(c.domains->0[d].is_finite());
        if c.domains->0[d].groups is Some {
            lemma_sorted_keys(c.domains->0[d].groups->0);
            lemma_groups(c, d, sorted_keys(c.domains->0[d].groups->0));
        }
    }
}

proof fn lemma_environments(c: ConfigView, keys: Seq<Seq<char>>)
    requires
        c.environments is Some,
        forall|i: int| 0 <= i < keys.len() ==> c.environments->0.contains_key(#[trigger] keys[i]),
    ensures
        environments_fault(c.environments->0, keys) matches Some(m) ==> is_report(c, m),
    decreases keys.len(),
{
    if keys.len() > 0 {
        let rest = keys.drop_first();
        assert forall|i: int| 0 <= i < rest.len() implies c.environments->0.contains_key(
            #[trigger] rest[i],
        ) by {
            assert(rest[i] == keys[i + 1]);
        }
        lemma_environments(c, rest);
        assert(c.environments->0.contains_key(keys[0]));
        lemma_place(c, PlaceView::Environment(keys[0]));
    }
}

/// The configuration is rejected exactly when some place, be it a domain, a group, a service
/// or an environment, declares some field both ways; and the report names such a place and
/// such a field.
pub proof fn double_declarations_are_reported(c: ConfigView)
    requires
        c.is_finite(),
    ensures
        config_fault(c) is Some <==> exists|place: PlaceView| #[trigger]
            exists_in(c, place) && has_double(settings_at(c, place)),
        config_fault(c) matches Some(m) ==> is_report(c, m),
{
    crate::config::check::checked_config_declares_nothing_twice(c);
    if config_fault(c) is None {
        assert forall|place: PlaceView| #[trigger] exists_in(c, place) implies !has_double(
            settings_at(c, place),
        ) by {
            crate::config::edit_laws::settings_are_found_where_they_stand(c, place);
            assert(c.settings(place) is Ok);
            every_double_field_is_found(settings_at(c, place));
        }
    } else {
        if c.domains is Some {
            lemma_sorted_keys(c.domains->0);
            lemma_domains(c, sorted_keys(c.domains->0));
        }
        if c.environments is Some {
            lemma_sorted_keys(c.environments->0);
            lemma_environments(c, sorted_keys(c.environments->0));
        }
        let place = choose|place: PlaceView| #[trigger]
            c.settings(place) is Ok && double_field(c.settings(place)->Ok_0) is Some;
        crate::config::edit_laws::settings_are_found_where_they_stand(c, place);
        every_double_field_is_found(settings_at(c, place));
        assert(exists_in(c, place) && has_double(settings_at(c, place)));
    }
}

} // verus!
