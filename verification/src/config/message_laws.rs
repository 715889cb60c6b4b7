//! What edits say.
use crate::config::edit::{checked_connection_type, Edit, EntrySetting, PlaceView, Setting};
use crate::config::edit_laws::{
    can_exist_in, entries_in, exists_in, has_domain, has_group, has_key, has_service, settings_at,
};
use crate::config::model::ConfigView;
use vstd::prelude::*;

verus! {

/// The edit fails with the message.
pub open spec fn fails_with<T>(r: Result<T, Seq<char>>, message: Seq<char>) -> bool {
    r is Err && r->Err_0 == message
}

/// A place in the middle of a sentence.
pub open spec fn place_words(place: PlaceView) -> Seq<char> {
    match place {
        PlaceView::Domain(d) => "domain '"@ + d + "'"@,
        PlaceView::Group(d, g) => "group '"@ + g + "' in domain '"@ + d + "'"@,
        PlaceView::Service(d, _, s) => "service '"@ + d + "."@ + s + "'"@,
        PlaceView::Environment(e) => "environment '"@ + e + "'"@,
    }
}

/// A place at the start of a sentence.
pub open spec fn place_title(place: PlaceView) -> Seq<char> {
    match place {
        PlaceView::Domain(d) => "Domain '"@ + d + "'"@,
        PlaceView::Group(d, g) => "Group '"@ + g + "' in domain '"@ + d + "'"@,
        PlaceView::Service(d, _, s) => "Service '"@ + d + "."@ + s + "'"@,
        PlaceView::Environment(e) => "Environment '"@ + e + "'"@,
    }
}

/// A place where an entry of it is spoken of.
pub open spec fn entry_place(place: PlaceView) -> Seq<char> {
    match place {
        PlaceView::Service(d, _, s) => "'"@ + d + "."@ + s + "'"@,
        _ => place_words(place),
    }
}

/// What one entry is called.
pub open spec fn entry_word(setting: EntrySetting) -> Seq<char> {
    match setting {
        EntrySetting::HostPortmappings => "portmapping"@,
        EntrySetting::Variables => "variable"@,
    }
}

/// What all entries are called.
pub open spec fn entries_word(setting: EntrySetting) -> Seq<char> {
    match setting {
        EntrySetting::HostPortmappings => "host_portmappings"@,
        EntrySetting::Variables => "variables"@,
    }
}

/// What a value is called.
pub open spec fn value_word(setting: Setting) -> Seq<char> {
    match setting {
        Setting::ServeCommand => "custom serve_command"@,
        Setting::ShellCommand => "custom shell_command"@,
        Setting::ImageRepository => "custom image_repository"@,
        Setting::Platform => "custom platform"@,
        Setting::DefaultContainerImage => "default_container_image"@,
        Setting::ConnectionType => "custom connection_type"@,
    }
}

/// What is wrong where a domain is looked for.
pub open spec fn missing_domain(c: ConfigView, d: Seq<char>) -> Seq<char> {
    if c.domains is None {
        "No domains configured"@
    } else {
        "domain, "@ + d + ", does not exist"@
    }
}

/// What is wrong where a group is looked for in a domain.
pub open spec fn missing_group(c: ConfigView, d: Seq<char>, g: Seq<char>) -> Seq<char> {
    if !has_domain(c, d) {
        missing_domain(c, d)
    } else if c.domains->0[d].groups is None {
        "No groups configured for domain "@ + d
    } else {
        "group, "@ + g + ", does not exist in domain "@ + d
    }
}

/// What is wrong where a place is looked for.
pub open spec fn missing_place(c: ConfigView, place: PlaceView) -> Seq<char> {
    match place {
        PlaceView::Domain(d) => missing_domain(c, d),
        PlaceView::Group(d, g) => missing_group(c, d, g),
        PlaceView::Service(d, g, s) => if !has_group(c, d, g) {
            missing_group(c, d, g)
        } else if c.domains->0[d].groups->0[g].services is None {
            "No services configured for group '"@ + g + "' in domain "@ + d
        } else {
            "service, "@ + s + ", does not exist"@
        },
        PlaceView::Environment(e) => "Environment '"@ + e + "' does not exist."@,
    }
}

/// A place that does not exist is reported by its name, or by the first thing that is missing
/// on the way to it.
pub proof fn missing_places_are_reported(
    c: ConfigView,
    place: PlaceView,
    setting: Setting,
    value: Seq<char>,
)
    ensures
        !exists_in(c, place) ==> {
            &&& fails_with(c.settings(place), missing_place(c, place))
            &&& fails_with(c.set_existing_value(place, setting, value), missing_place(c, place))
            &&& fails_with(c.rm_value(place, setting), missing_place(c, place))
        },
        !can_exist_in(c, place) ==> {
            let d = match place {
                PlaceView::Domain(d) => d,
                PlaceView::Group(d, _) => d,
                PlaceView::Service(d, _, _) => d,
                PlaceView::Environment(e) => e,
            };
            fails_with(c.set_value(place, setting, value), missing_domain(c, d))
        },
        exists_in(c, place) && c.rm_value(place, setting) is Err ==> fails_with(
            c.rm_value(place, setting),
            place_title(place) + " has no "@ + value_word(setting) + "."@,
        ),
{
}

/// What an entry is called where it is there already, or is not.
pub open spec fn entry_title(place: PlaceView, setting: EntrySetting) -> Seq<char> {
    match (setting, place) {
        (EntrySetting::HostPortmappings, PlaceView::Service(..)) => {
            "Portmapping on host side "@ + entry_place(place)
        },
        (EntrySetting::HostPortmappings, _) => {
            "Portmapping on host side for "@ + entry_place(place)
        },
        (EntrySetting::Variables, PlaceView::Service(..)) => {
            "Variable on host side "@ + entry_place(place)
        },
        (EntrySetting::Variables, PlaceView::Environment(_)) => {
            "Variable on host side for "@ + entry_place(place)
        },
        (EntrySetting::Variables, _) => "Variable for "@ + entry_place(place),
    }
}

/// An entry that is added or removed is named with its place, its key and its value, and so is
/// one that is there already or is not.
pub proof fn entries_are_named_in_messages(
    c: ConfigView,
    place: PlaceView,
    setting: EntrySetting,
    key: Seq<char>,
    value: Seq<char>,
)
    ensures
        c.add_entry(place, setting, key, value) matches Ok((_, notice)) ==> notice == "Created "@
            + entry_word(setting) + " for "@ + entry_place(place) + " ("@ + key + ":"@ + value
            + ")"@,
        can_exist_in(c, place) && c.add_entry(place, setting, key, value) is Err ==> c.add_entry(
            place,
            setting,
            key,
            value,
        )->Err_0 == entry_title(place, setting) + " ("@ + key + ":____) already exists"@,
        c.rm_entry(place, setting, key) matches Ok((_, notice)) ==> notice == "Removed "@
            + entry_word(setting) + " for "@ + entry_place(place) + " ("@ + key + ":____)"@,
        exists_in(c, place) && c.rm_entry(place, setting, key) is Err ==> c.rm_entry(
            place,
            setting,
            key,
        )->Err_0 == if entries_in(settings_at(c, place), setting) is Some {
            entry_title(place, setting) + " ("@ + key + ":____) does not exist"@
        } else if place is Service {
            "No "@ + entries_word(setting) + " configured"@
        } else {
            "No "@ + entries_word(setting) + " configured for "@ + place_words(place)
        },
        place is Environment && c.environments is None ==> fails_with(
            c.rm_entry(place, setting, key),
            "No environments configured"@,
        ),
        !exists_in(c, place) && !(place is Environment && c.environments is None) ==> fails_with(
            c.rm_entry(place, setting, key),
            missing_place(c, place),
        ),
{
}

/// A volume that is added or removed is named with its place and both paths, and so is one
/// that is there already or is not.
pub proof fn volumes_are_named_in_messages(
    c: ConfigView,
    place: PlaceView,
    container: Seq<char>,
    host: Seq<char>,
)
    ensures
        c.add_volume(place, container, host) matches Ok((_, notice)) ==> notice
            == "Added volume to "@ + place_words(place) + ": "@ + host + " -> "@ + container,
        can_exist_in(c, place) && c.add_volume(place, container, host) is Err ==> c.add_volume(
            place,
            container,
            host,
        )->Err_0 == "Volume mapping already exists for "@ + place_words(place) + ": "@ + host
            + " -> "@ + container,
        c.rm_volume(place, container, host) matches Ok((_, notice)) ==> notice
            == "Removed volume from "@ + place_words(place) + ": "@ + host + " -> "@ + container,
        exists_in(c, place) && c.rm_volume(place, container, host) is Err ==> c.rm_volume(
            place,
            container,
            host,
        )->Err_0 == if settings_at(c, place).volumes is None {
            "No volumes configured for "@ + place_words(place)
        } else {
            "No matching volume found in "@ + place_words(place) + " for host '"@ + host
                + "' -> container '"@ + container + "'"@
        },
{
}

/// Domains, groups and services are named in what is said of adding and removing them.
pub proof fn domains_groups_and_services_are_named_in_messages(
    c: ConfigView,
    d: Seq<char>,
    g: Seq<char>,
    s: Seq<char>,
    location: Seq<char>,
)
    ensures
        c.add_domain(d, location) matches Ok((_, notice)) ==> notice == "created '"@ + d + "' at "@
            + location,
        has_domain(c, d) ==> fails_with(
            c.add_domain(d, location),
            "Domain '"@ + d + "' already exists."@,
        ),
        c.rm_domain(d) matches Ok((_, notice)) ==> notice == "removed '"@ + d + "'"@,
        !has_domain(c, d) ==> fails_with(
            c.rm_domain(d),
            if c.domains is None {
                "no domains configured"@
            } else {
                "domain "@ + d + " does not exist"@
            },
        ),
        c.rm_group(d, g) matches Ok((_, notice)) ==> notice == "Removed group '"@ + g
            + "' from domain '"@ + d + "'"@,
        !has_group(c, d, g) ==> fails_with(c.rm_group(d, g), missing_group(c, d, g)),
        c.rm_service(d, g, s) matches Ok((_, notice)) ==> notice == "Removed service '"@ + s
            + "' from group '"@ + g + "' in domain '"@ + d + "'"@,
        !has_service(c, d, g, s) ==> fails_with(
            c.rm_service(d, g, s),
            if !has_group(c, d, g) {
                missing_group(c, d, g)
            } else if c.domains->0[d].groups->0[g].services is None {
                "No services configured for group '"@ + g + "' in domain "@ + d
            } else {
                "service, "@ + s + ", does not exist in group '"@ + g + "' of domain "@ + d
            },
        ),
{
}

/// A domain that is created on the way is said to be; where it cannot be, its name is given.
pub proof fn created_domains_are_named_in_messages(
    c: ConfigView,
    d: Seq<char>,
    location: Option<Seq<char>>,
    parents: Seq<ConfigView>,
)
    ensures
        c.ensure_domain(d, location, parents) matches Ok((after, notice)) ==> (notice is Some
            ==> notice->0 == "created '"@ + d + "' at "@ + after.domains->0[d].location),
        c.ensure_domain(d, location, parents) matches Err(m) ==> m == "domain '"@ + d
            + "' does not exist. Use -l <path> to create it."@,
{
}

/// Default environments and parents are named in what is said of them.
pub proof fn default_environments_and_parents_are_named_in_messages(
    c: ConfigView,
    d: Seq<char>,
    g: Seq<char>,
    s: Seq<char>,
    e: Seq<char>,
    location: Seq<char>,
    repo: Option<Seq<char>>,
)
    ensures
        !has_key(c.environments, e) ==> fails_with(
            c.set_domain_default_environment(d, e),
            "Environment '"@ + e + "' does not exist."@,
        ),
        has_key(c.environments, e) && !has_domain(c, d) ==> fails_with(
            c.set_domain_default_environment(d, e),
            missing_domain(c, d),
        ),
        !has_domain(c, d) ==> fails_with(
            c.set_group_default_environment(d, g, e),
            missing_domain(c, d),
        ),
        !has_domain(c, d) ==> fails_with(
            c.set_service_default_environment(d, g, s, e),
            missing_domain(c, d),
        ),
        c.rm_domain_default_environment(d) is Err ==> c.rm_domain_default_environment(d)->Err_0
            == if has_domain(c, d) {
            "Domain '"@ + d + "'"@ + " has no default_environment."@
        } else {
            missing_domain(c, d)
        },
        c.rm_group_default_environment(d, g) is Err ==> c.rm_group_default_environment(d, g)->Err_0
            == if has_group(c, d, g) {
            "Group '"@ + g + "' in domain '"@ + d + "'"@ + " has no default_environment."@
        } else {
            missing_group(c, d, g)
        },
        c.rm_service_default_environment(d, g, s) is Err ==> c.rm_service_default_environment(
            d,
            g,
            s,
        )->Err_0 == if has_service(c, d, g, s) {
            "Service '"@ + d + "."@ + s + "'"@ + " has no default_environment."@
        } else {
            missing_place(c, PlaceView::Service(d, g, s))
        },
        c.add_pre_config(location, repo) is Err ==> c.add_pre_config(location, repo)->Err_0
            == "pre_config with location '"@ + location + "' already exists"@,
        c.rm_pre_config(location) is Err ==> c.rm_pre_config(location)->Err_0
            == if c.pre_config is None {
            "No pre_config entries configured"@
        } else {
            "pre_config with location '"@ + location + "' does not exist"@
        },
{
}

/// An edit goes ahead with one of the three connection types, as if it were not checked, and
/// is refused with any other, which is named together with the three.
pub proof fn connection_types_are_checked(value: Seq<char>, edit: Edit)
    ensures
        value == "http"@ || value == "websocket"@ || value == "tcp"@ ==> checked_connection_type(
            value,
            edit,
        ) == edit,
        !(value == "http"@ || value == "websocket"@ || value == "tcp"@) ==> fails_with(
            checked_connection_type(value, edit),
            "invalid connection_type '"@ + value + "' (must be one of: http, websocket, tcp)"@,
        ),
{
}

} // verus!
