//! What the commands that edit a configuration do to it.
use crate::commands::cli::{
    AddCommand, AddDomCommand, AddEnvCommand, AddGrpCommand, AddRequestView, AddSvcCommand,
    RmCommand, RmDomCommand, RmEnvCommand, RmGrpCommand, RmRequestView, RmSvcCommand, SetCommand,
    SetDomCommand, SetEnvCommand, SetGrpCommand, SetRequestView, SetSvcCommand,
};
use crate::commands::config_cmds::{
    add_applied, request_added, request_removed, request_set, rm_applied, set_applied, AppliedView,
    OutcomeView,
};
use crate::config::edit::{EntrySetting, PlaceView, Setting};
use crate::config::edit_laws::{
    adding_a_parent_adds_it, adding_a_volume_adds_it, adding_an_entry_adds_it, can_exist_in,
    differs_at, differs_in_domain, differs_in_group, differs_in_service, differs_in_settings,
    ensuring_a_domain_creates_it_where_it_belongs, entries_in, exists_in, has_domain, has_group,
    has_key, has_location, has_service, has_volume, holds_value, is_first_location, is_new_domain,
    is_without, is_without_key, keeps_the_rest, parents_of,
    removing_a_default_environment_removes_it,
    removing_a_domain_removes_it, removing_a_group_removes_it, removing_a_parent_removes_it,
    removing_a_service_removes_it, removing_a_value_empties_its_field,
    removing_a_volume_removes_it, removing_an_entry_removes_it, same_but_entries,
    same_but_parents, same_but_value, same_but_volumes, same_in_general,
    setting_a_default_environment_sets_it,
    setting_a_value_of_an_existing_place, setting_a_value_sets_its_field, settings_at,
    some_parent_has, stood_at,
};
use crate::config::message_laws::{
    entries_are_named_in_messages, entry_place, entry_word, place_words,
    volumes_are_named_in_messages,
};
use crate::config::model::{ConfigView, SettingsView, VolumeView};
use crate::text::{lowered, trim};
use vstd::prelude::*;

verus! {

// ---------------------------------------------------------------------------
// The domain comes first
// ---------------------------------------------------------------------------
/// The domain of a place, where it has one.
pub open spec fn domain_at(place: PlaceView) -> Option<Seq<char>> {
    match place {
        PlaceView::Domain(d) => Some(d),
        PlaceView::Group(d, _) => Some(d),
        PlaceView::Service(d, _, _) => Some(d),
        PlaceView::Environment(_) => None,
    }
}

/// The domain of the place exists, or can be created.
pub open spec fn has_ground(
    c: ConfigView,
    place: PlaceView,
    location: Option<Seq<char>>,
    parents: Seq<ConfigView>,
) -> bool {
    match domain_at(place) {
        Some(d) => has_domain(c, d) || location is Some || some_parent_has(parents, d),
        None => true,
    }
}

/// The second configuration is the first one, with the domain of the place created in it where
/// it does not exist.
pub open spec fn is_ground(
    c: ConfigView,
    b: ConfigView,
    place: PlaceView,
    location: Option<Seq<char>>,
    parents: Seq<ConfigView>,
) -> bool {
    match domain_at(place) {
        Some(d) => {
            &&& has_domain(c, d) ==> b == c
            &&& !has_domain(c, d) ==> {
                &&& differs_at(c.domains, b.domains, d)
                &&& same_in_general(c, b)
                &&& b.environments == c.environments
                &&& location is Some ==> is_new_domain(b.domains->0[d], location->0)
                &&& location is None ==> is_new_domain(
                    b.domains->0[d],
                    b.domains->0[d].location,
                ) && is_first_location(parents, d, b.domains->0[d].location)
            }
        },
        None => b == c,
    }
}

/// The command failed for want of a domain, and everything is as it was.
pub open spec fn fails_without_ground(c: ConfigView, a: AppliedView) -> bool {
    &&& a.outcome is Failed
    &&& same_in_general(c, a.config)
    &&& a.config.environments == c.environments
    &&& forall|x: Seq<char>|
        #![trigger has_key(a.config.domains, x)]
        (has_key(c.domains, x) <==> has_key(a.config.domains, x)) && (has_key(c.domains, x)
            ==> a.config.domains->0[x] == c.domains->0[x])
}

/// The command failed, and the configuration is as it was, but for the domain.
pub open spec fn fails_on(b: ConfigView, a: AppliedView) -> bool {
    a.outcome is Failed && a.config == b
}

// ---------------------------------------------------------------------------
// What is done
// ---------------------------------------------------------------------------
/// The value may be set: a connection type is one of the three, and an environment exists,
/// unless its command to serve is set.
pub open spec fn may_set(
    b: ConfigView,
    place: PlaceView,
    setting: Setting,
    value: Seq<char>,
) -> bool {
    &&& setting == Setting::ConnectionType ==> value == "http"@ || value == "websocket"@ || value
        == "tcp"@
    &&& place is Environment && setting != Setting::ServeCommand ==> exists_in(b, place)
}

/// The setting of the place has the value, and nothing else differs; or it may not be set.
pub open spec fn value_is_set(
    b: ConfigView,
    a: AppliedView,
    place: PlaceView,
    setting: Setting,
    value: Seq<char>,
) -> bool {
    &&& a.outcome is Done <==> may_set(b, place, setting, value)
    &&& a.outcome is Done ==> {
        &&& exists_in(a.config, place)
        &&& holds_value(settings_at(a.config, place), setting, Some(value))
        &&& forall|s: SettingsView| #[trigger]
            stood_at(b, place, s) ==> same_but_value(s, settings_at(a.config, place), setting)
        &&& differs_in_settings(b, a.config, place)
    }
    &&& !(a.outcome is Done) ==> fails_on(b, a)
}

/// The default environment of the place.
pub open spec fn default_at(c: ConfigView, place: PlaceView) -> Option<Seq<char>> {
    match place {
        PlaceView::Domain(d) => c.domains->0[d].default_environment,
        PlaceView::Group(d, g) => c.domains->0[d].groups->0[g].default_environment,
        PlaceView::Service(d, g, s) => {
            c.domains->0[d].groups->0[g].services->0[s].default_environment
        },
        PlaceView::Environment(_) => None,
    }
}

/// Nothing differs outside the place, nor in its settings.
pub open spec fn differs_in_default(b: ConfigView, c: ConfigView, place: PlaceView) -> bool {
    &&& match place {
        PlaceView::Domain(d) => differs_in_domain(b, c, d) && c.domains->0[d].groups
            == b.domains->0[d].groups && c.domains->0[d].location == b.domains->0[d].location,
        PlaceView::Group(d, g) => differs_in_group(b, c, d, g) && (has_group(b, d, g)
            ==> c.domains->0[d].groups->0[g].services == b.domains->0[d].groups->0[g].services),
        PlaceView::Service(d, g, s) => differs_in_service(b, c, d, g, s) && (has_service(b, d, g, s)
            ==> c.domains->0[d].groups->0[g].services->0[s].urls
            == b.domains->0[d].groups->0[g].services->0[s].urls),
        PlaceView::Environment(_) => b == c,
    }
    &&& stood_at(b, place, settings_at(c, place))
}

/// The place has the default environment, and nothing else differs; or it is a domain and the
/// environment does not exist.
pub open spec fn default_is_set(
    b: ConfigView,
    a: AppliedView,
    place: PlaceView,
    e: Seq<char>,
) -> bool {
    &&& a.outcome is Done <==> (place is Domain ==> has_key(b.environments, e))
    &&& a.outcome is Done ==> {
        &&& exists_in(a.config, place)
        &&& default_at(a.config, place) == Some(e)
        &&& differs_in_default(b, a.config, place)
    }
    &&& !(a.outcome is Done) ==> fails_on(b, a)
}

/// The place has the entry, and nothing else differs; or it had an entry of that key.
pub open spec fn entry_is_added(
    b: ConfigView,
    a: AppliedView,
    place: PlaceView,
    setting: EntrySetting,
    key: Seq<char>,
    value: Seq<char>,
) -> bool {
    let entries = entries_in(settings_at(a.config, place), setting);
    &&& a.outcome is Done <==> !(exists_in(b, place) && has_key(
        entries_in(settings_at(b, place), setting),
        key,
    ))
    &&& a.outcome is Done ==> {
        &&& exists_in(a.config, place)
        &&& has_key(entries, key) && entries->0[key] == value
        &&& forall|s: SettingsView| #[trigger]
            stood_at(b, place, s) ==> {
                &&& differs_at(entries_in(s, setting), entries, key)
                &&& same_but_entries(s, settings_at(a.config, place), setting)
            }
        &&& differs_in_settings(b, a.config, place)
    }
    &&& !(a.outcome is Done) ==> fails_on(b, a)
}

/// The place has the volume behind its others, and nothing else differs; or it had it.
pub open spec fn volume_is_added(
    b: ConfigView,
    a: AppliedView,
    place: PlaceView,
    container: Seq<char>,
    host: Seq<char>,
) -> bool {
    let volumes = settings_at(a.config, place).volumes;
    &&& a.outcome is Done <==> !(exists_in(b, place) && has_volume(
        settings_at(b, place).volumes,
        container,
        host,
    ))
    &&& a.outcome is Done ==> {
        &&& exists_in(a.config, place)
        &&& volumes is Some && volumes->0.len() > 0
        &&& volumes->0.last().container == container && volumes->0.last().host == host
        &&& forall|s: SettingsView| #[trigger]
            stood_at(b, place, s) ==> {
                &&& s.volumes is None ==> volumes->0.len() == 1
                &&& s.volumes is Some ==> volumes->0.drop_last() == s.volumes->0
                &&& same_but_volumes(s, settings_at(a.config, place))
            }
        &&& differs_in_settings(b, a.config, place)
    }
    &&& !(a.outcome is Done) ==> fails_on(b, a)
}

/// The setting of the place has no value, and nothing else differs; or it had none.
pub open spec fn value_is_removed(
    c: ConfigView,
    a: AppliedView,
    place: PlaceView,
    setting: Setting,
) -> bool {
    &&& a.outcome is Done <==> exists_in(c, place) && !holds_value(
        settings_at(c, place),
        setting,
        None,
    )
    &&& a.outcome is Done ==> {
        &&& exists_in(a.config, place)
        &&& holds_value(settings_at(a.config, place), setting, None)
        &&& same_but_value(settings_at(c, place), settings_at(a.config, place), setting)
        &&& differs_in_settings(c, a.config, place)
    }
    &&& !(a.outcome is Done) ==> fails_on(c, a)
}

/// The place has no default environment, and nothing else differs; or it had none.
pub open spec fn default_is_removed(c: ConfigView, a: AppliedView, place: PlaceView) -> bool {
    &&& a.outcome is Done <==> exists_in(c, place) && default_at(c, place) is Some
    &&& a.outcome is Done ==> {
        &&& exists_in(a.config, place)
        &&& default_at(a.config, place) is None
        &&& differs_in_default(c, a.config, place)
    }
    &&& !(a.outcome is Done) ==> fails_on(c, a)
}

/// The place has no entry of that key, and nothing else differs; or it had none.
pub open spec fn entry_is_removed(
    c: ConfigView,
    a: AppliedView,
    place: PlaceView,
    setting: EntrySetting,
    key: Seq<char>,
) -> bool {
    let before = entries_in(settings_at(c, place), setting);
    &&& a.outcome is Done <==> exists_in(c, place) && has_key(before, key)
    &&& a.outcome is Done ==> {
        &&& exists_in(a.config, place)
        &&& is_without_key(before, entries_in(settings_at(a.config, place), setting), key)
        &&& same_but_entries(settings_at(c, place), settings_at(a.config, place), setting)
        &&& differs_in_settings(c, a.config, place)
    }
    &&& !(a.outcome is Done) ==> fails_on(c, a)
}

/// The place has no such volume, and nothing else differs; or it had none.
pub open spec fn volume_is_removed(
    c: ConfigView,
    a: AppliedView,
    place: PlaceView,
    container: Seq<char>,
    host: Seq<char>,
) -> bool {
    let before = settings_at(c, place).volumes;
    let after = settings_at(a.config, place).volumes;
    &&& a.outcome is Done <==> exists_in(c, place) && has_volume(before, container, host)
    &&& a.outcome is Done ==> {
        &&& exists_in(a.config, place)
        &&& after is Some
        &&& is_without(before->0, after->0, VolumeView { container, host })
        &&& same_but_volumes(settings_at(c, place), settings_at(a.config, place))
        &&& differs_in_settings(c, a.config, place)
    }
    &&& !(a.outcome is Done) ==> fails_on(c, a)
}

// ---------------------------------------------------------------------------
// Requests
// ---------------------------------------------------------------------------
/// The domain of the place is made sure of, and then the value is set.
pub open spec fn sets_value(
    c: ConfigView,
    a: AppliedView,
    place: PlaceView,
    location: Option<Seq<char>>,
    parents: Seq<ConfigView>,
    setting: Setting,
    value: Seq<char>,
) -> bool {
    &&& !has_ground(c, place, location, parents) ==> fails_without_ground(c, a)
    &&& has_ground(c, place, location, parents) ==> exists|b: ConfigView| #[trigger]
        is_ground(c, b, place, location, parents) && value_is_set(b, a, place, setting, value)
}

/// The domain of the place is made sure of, and then the default environment is set.
pub open spec fn sets_default(
    c: ConfigView,
    a: AppliedView,
    place: PlaceView,
    location: Option<Seq<char>>,
    parents: Seq<ConfigView>,
    e: Seq<char>,
) -> bool {
    &&& !has_ground(c, place, location, parents) ==> fails_without_ground(c, a)
    &&& has_ground(c, place, location, parents) ==> exists|b: ConfigView| #[trigger]
        is_ground(c, b, place, location, parents) && default_is_set(b, a, place, e)
}

/// The domain of the place is made sure of, and then the entry is added.
pub open spec fn adds_entry(
    c: ConfigView,
    a: AppliedView,
    place: PlaceView,
    location: Option<Seq<char>>,
    parents: Seq<ConfigView>,
    setting: EntrySetting,
    key: Seq<char>,
    value: Seq<char>,
) -> bool {
    &&& !has_ground(c, place, location, parents) ==> fails_without_ground(c, a)
    &&& has_ground(c, place, location, parents) ==> exists|b: ConfigView| #[trigger]
        is_ground(c, b, place, location, parents) && entry_is_added(
            b,
            a,
            place,
            setting,
            key,
            value,
        )
}

/// The domain of the place is made sure of, and then the volume is added.
pub open spec fn adds_volume(
    c: ConfigView,
    a: AppliedView,
    place: PlaceView,
    location: Option<Seq<char>>,
    parents: Seq<ConfigView>,
    container: Seq<char>,
    host: Seq<char>,
) -> bool {
    &&& !has_ground(c, place, location, parents) ==> fails_without_ground(c, a)
    &&& has_ground(c, place, location, parents) ==> exists|b: ConfigView| #[trigger]
        is_ground(c, b, place, location, parents) && volume_is_added(b, a, place, container, host)
}

/// The configuration in which the domain of the place was made sure of.
spec fn ground(
    c: ConfigView,
    place: PlaceView,
    location: Option<Seq<char>>,
    parents: Seq<ConfigView>,
) -> ConfigView {
    match domain_at(place) {
        Some(d) => c.ensure_domain(d, location, parents)->Ok_0.0,
        None => c,
    }
}

proof fn lemma_ground(
    c: ConfigView,
    place: PlaceView,
    location: Option<Seq<char>>,
    parents: Seq<ConfigView>,
)
    requires
        has_ground(c, place, location, parents),
    ensures
        is_ground(c, ground(c, place, location, parents), place, location, parents),
        can_exist_in(ground(c, place, location, parents), place),
        domain_at(place) matches Some(d) ==> c.ensure_domain(d, location, parents) is Ok,
{
    if let Some(d) = domain_at(place) {
        ensuring_a_domain_creates_it_where_it_belongs(c, d, location, parents);
    }
}

proof fn lemma_sets_value(
    c: ConfigView,
    place: PlaceView,
    location: Option<Seq<char>>,
    parents: Seq<ConfigView>,
    setting: Setting,
    value: Seq<char>,
)
    ensures
        sets_value(
            c,
            request_set(c, place, location, parents, SetRequestView::Value(setting, value)),
            place,
            location,
            parents,
            setting,
            value,
        ),
{
    let a = request_set(c, place, location, parents, SetRequestView::Value(setting, value));
    if has_ground(c, place, location, parents) {
        let b = ground(c, place, location, parents);
        lemma_ground(c, place, location, parents);
        setting_a_value_sets_its_field(b, place, setting, value);
        setting_a_value_of_an_existing_place(b, place, setting, value);
        assert(value_is_set(b, a, place, setting, value));
    } else {
        ensuring_a_domain_creates_it_where_it_belongs(c, domain_at(place)->0, location, parents);
    }
}

proof fn lemma_sets_default(
    c: ConfigView,
    place: PlaceView,
    location: Option<Seq<char>>,
    parents: Seq<ConfigView>,
    e: Seq<char>,
)
    requires
        !(place is Environment),
    ensures
        sets_default(
            c,
            request_set(c, place, location, parents, SetRequestView::DefaultEnvironment(e)),
            place,
            location,
            parents,
            e,
        ),
{
    let a = request_set(c, place, location, parents, SetRequestView::DefaultEnvironment(e));
    if has_ground(c, place, location, parents) {
        let b = ground(c, place, location, parents);
        lemma_ground(c, place, location, parents);
        let none = Seq::<char>::empty();
        match place {
            PlaceView::Domain(d) => setting_a_default_environment_sets_it(b, d, none, none, e),
            PlaceView::Group(d, g) => setting_a_default_environment_sets_it(b, d, g, none, e),
            PlaceView::Service(d, g, s) => setting_a_default_environment_sets_it(b, d, g, s, e),
            PlaceView::Environment(_) => {},
        }
        assert(default_is_set(b, a, place, e));
    } else {
        ensuring_a_domain_creates_it_where_it_belongs(c, domain_at(place)->0, location, parents);
    }
}

proof fn lemma_adds_entry(
    c: ConfigView,
    place: PlaceView,
    location: Option<Seq<char>>,
    parents: Seq<ConfigView>,
    setting: EntrySetting,
    key: Seq<char>,
    value: Seq<char>,
)
    ensures
        adds_entry(
            c,
            request_added(c, place, location, parents, AddRequestView::Entry(setting, key, value)),
            place,
            location,
            parents,
            setting,
            key,
            value,
        ),
{
    let a = request_added(c, place, location, parents, AddRequestView::Entry(setting, key, value));
    if has_ground(c, place, location, parents) {
        let b = ground(c, place, location, parents);
        lemma_ground(c, place, location, parents);
        adding_an_entry_adds_it(b, place, setting, key, value);
        assert(entry_is_added(b, a, place, setting, key, value));
    } else {
        ensuring_a_domain_creates_it_where_it_belongs(c, domain_at(place)->0, location, parents);
    }
}

proof fn lemma_adds_volume(
    c: ConfigView,
    place: PlaceView,
    location: Option<Seq<char>>,
    parents: Seq<ConfigView>,
    container: Seq<char>,
    host: Seq<char>,
)
    ensures
        adds_volume(
            c,
            request_added(c, place, location, parents, AddRequestView::Volume(container, host)),
            place,
            location,
            parents,
            container,
            host,
        ),
{
    let a = request_added(c, place, location, parents, AddRequestView::Volume(container, host));
    if has_ground(c, place, location, parents) {
        let b = ground(c, place, location, parents);
        lemma_ground(c, place, location, parents);
        adding_a_volume_adds_it(b, place, container, host);
        assert(volume_is_added(b, a, place, container, host));
    } else {
        ensuring_a_domain_creates_it_where_it_belongs(c, domain_at(place)->0, location, parents);
    }
}

proof fn lemma_removes(c: ConfigView, place: PlaceView, request: RmRequestView)
    requires
        request is DefaultEnvironment ==> !(place is Environment),
    ensures
        ({
            let a = request_removed(c, place, request);
            match request {
                RmRequestView::DefaultEnvironment => default_is_removed(c, a, place),
                RmRequestView::Value(setting) => value_is_removed(c, a, place, setting),
                RmRequestView::Entry(setting, key) => entry_is_removed(c, a, place, setting, key),
                RmRequestView::Volume(container, host) => volume_is_removed(
                    c,
                    a,
                    place,
                    container,
                    host,
                ),
            }
        }),
{
    match request {
        RmRequestView::DefaultEnvironment => {
            let none = Seq::<char>::empty();
            match place {
                PlaceView::Domain(d) => {
                    removing_a_default_environment_removes_it(c, d, none, none)
                },
                PlaceView::Group(d, g) => removing_a_default_environment_removes_it(c, d, g, none),
                PlaceView::Service(d, g, s) => {
                    removing_a_default_environment_removes_it(c, d, g, s)
                },
                PlaceView::Environment(_) => {},
            }
        },
        RmRequestView::Value(setting) => removing_a_value_empties_its_field(c, place, setting),
        RmRequestView::Entry(setting, key) => removing_an_entry_removes_it(c, place, setting, key),
        RmRequestView::Volume(container, host) => {
            removing_a_volume_removes_it(c, place, container, host)
        },
    }
}

// ---------------------------------------------------------------------------
// Commands
// ---------------------------------------------------------------------------
/// A command that sets something of an environment sets what it names, at the place that it names,
/// to the value that it gives.
pub proof fn set_env_command_sets_what_it_names(
    c: ConfigView,
    cmd: SetEnvCommand,
    path: Seq<char>,
    parents: Seq<ConfigView>,
)
    ensures
        ({
            let a = set_applied(c, SetCommand::Env { cmd }, path, parents);
            match cmd {
                SetEnvCommand::ImageRepository { environment, image_repository } => sets_value(
                    c,
                    a,
                    PlaceView::Environment(environment@),
                    None,
                    parents,
                    Setting::ImageRepository,
                    image_repository@,
                ),
                SetEnvCommand::ServeCommand { environment, serve_command } => sets_value(
                    c,
                    a,
                    PlaceView::Environment(environment@),
                    None,
                    parents,
                    Setting::ServeCommand,
                    serve_command@,
                ),
                SetEnvCommand::ShellCommand { environment, shell_command } => sets_value(
                    c,
                    a,
                    PlaceView::Environment(environment@),
                    None,
                    parents,
                    Setting::ShellCommand,
                    shell_command@,
                ),
                SetEnvCommand::Platform { environment, platform } => sets_value(
                    c,
                    a,
                    PlaceView::Environment(environment@),
                    None,
                    parents,
                    Setting::Platform,
                    platform@,
                ),
                SetEnvCommand::DefaultContainerImage {
                    environment,
                    default_container_image,
                } => sets_value(
                    c,
                    a,
                    PlaceView::Environment(environment@),
                    None,
                    parents,
                    Setting::DefaultContainerImage,
                    default_container_image@,
                ),
                SetEnvCommand::ConnectionType { environment, connection_type } => sets_value(
                    c,
                    a,
                    PlaceView::Environment(environment@),
                    None,
                    parents,
                    Setting::ConnectionType,
                    connection_type@,
                ),
            }
        }),
{
    match cmd {
        SetEnvCommand::ImageRepository { environment, image_repository } => {
            assert(cmd.place_view() == PlaceView::Environment(environment@));
            assert(cmd.request_view() == SetRequestView::Value(
                Setting::ImageRepository,
                image_repository@,
            ));
            lemma_sets_value(
                c,
                PlaceView::Environment(environment@),
                None,
                parents,
                Setting::ImageRepository,
                image_repository@,
            );
        },
        SetEnvCommand::ServeCommand { environment, serve_command } => {
            assert(cmd.place_view() == PlaceView::Environment(environment@));
            assert(cmd.request_view() == SetRequestView::Value(
                Setting::ServeCommand,
                serve_command@,
            ));
            lemma_sets_value(
                c,
                PlaceView::Environment(environment@),
                None,
                parents,
                Setting::ServeCommand,
                serve_command@,
            );
        },
        SetEnvCommand::ShellCommand { environment, shell_command } => {
            assert(cmd.place_view() == PlaceView::Environment(environment@));
            assert(cmd.request_view() == SetRequestView::Value(
                Setting::ShellCommand,
                shell_command@,
            ));
            lemma_sets_value(
                c,
                PlaceView::Environment(environment@),
                None,
                parents,
                Setting::ShellCommand,
                shell_command@,
            );
        },
        SetEnvCommand::Platform { environment, platform } => {
            assert(cmd.place_view() == PlaceView::Environment(environment@));
            assert(cmd.request_view() == SetRequestView::Value(Setting::Platform, platform@));
            lemma_sets_value(
                c,
                PlaceView::Environment(environment@),
                None,
                parents,
                Setting::Platform,
                platform@,
            );
        },
        SetEnvCommand::DefaultContainerImage { environment, default_container_image } => {
            assert(cmd.place_view() == PlaceView::Environment(environment@));
            assert(cmd.request_view() == SetRequestView::Value(
                Setting::DefaultContainerImage,
                default_container_image@,
            ));
            lemma_sets_value(
                c,
                PlaceView::Environment(environment@),
                None,
                parents,
                Setting::DefaultContainerImage,
                default_container_image@,
            );
        },
        SetEnvCommand::ConnectionType { environment, connection_type } => {
            assert(cmd.place_view() == PlaceView::Environment(environment@));
            assert(cmd.request_view() == SetRequestView::Value(
                Setting::ConnectionType,
                connection_type@,
            ));
            lemma_sets_value(
                c,
                PlaceView::Environment(environment@),
                None,
                parents,
                Setting::ConnectionType,
                connection_type@,
            );
        },
    }
}

/// A command that sets something of a service sets what it names, at the place that it names,
/// to the value that it gives.
pub proof fn set_svc_command_sets_what_it_names(
    c: ConfigView,
    cmd: SetSvcCommand,
    path: Seq<char>,
    parents: Seq<ConfigView>,
)
    ensures
        ({
            let a = set_applied(c, SetCommand::Svc { cmd }, path, parents);
            match cmd {
                SetSvcCommand::DefaultEnvironment {
                    domain_name,
                    group_name,
                    service_name,
                    default_environment,
                    location,
                } => sets_default(
                    c,
                    a,
                    PlaceView::Service(domain_name@, group_name@, service_name@),
                    location.deep_view(),
                    parents,
                    default_environment@,
                ),
                SetSvcCommand::ImageRepository {
                    domain_name,
                    group_name,
                    service_name,
                    image_repository,
                    location,
                } => sets_value(
                    c,
                    a,
                    PlaceView::Service(domain_name@, group_name@, service_name@),
                    location.deep_view(),
                    parents,
                    Setting::ImageRepository,
                    image_repository@,
                ),
                SetSvcCommand::ServeCommand {
                    domain_name,
                    group_name,
                    service_name,
                    serve_command,
                    location,
                } => sets_value(
                    c,
                    a,
                    PlaceView::Service(domain_name@, group_name@, service_name@),
                    location.deep_view(),
                    parents,
                    Setting::ServeCommand,
                    serve_command@,
                ),
                SetSvcCommand::ShellCommand {
                    domain_name,
                    group_name,
                    service_name,
                    shell_command,
                    location,
                } => sets_value(
                    c,
                    a,
                    PlaceView::Service(domain_name@, group_name@, service_name@),
                    location.deep_view(),
                    parents,
                    Setting::ShellCommand,
                    shell_command@,
                ),
                SetSvcCommand::Platform {
                    domain_name,
                    group_name,
                    service_name,
                    platform,
                    location,
                } => sets_value(
                    c,
                    a,
                    PlaceView::Service(domain_name@, group_name@, service_name@),
                    location.deep_view(),
                    parents,
                    Setting::Platform,
                    platform@,
                ),
                SetSvcCommand::DefaultContainerImage {
                    domain_name,
                    group_name,
                    service_name,
                    default_container_image,
                    location,
                } => sets_value(
                    c,
                    a,
                    PlaceView::Service(domain_name@, group_name@, service_name@),
                    location.deep_view(),
                    parents,
                    Setting::DefaultContainerImage,
                    default_container_image@,
                ),
                SetSvcCommand::ConnectionType {
                    domain_name,
                    group_name,
                    service_name,
                    connection_type,
                    location,
                } => sets_value(
                    c,
                    a,
                    PlaceView::Service(domain_name@, group_name@, service_name@),
                    location.deep_view(),
                    parents,
                    Setting::ConnectionType,
                    connection_type@,
                ),
            }
        }),
{
    match cmd {
        SetSvcCommand::DefaultEnvironment {
            domain_name,
            group_name,
            service_name,
            default_environment,
            location,
        } => {
            assert(cmd.place_view() == PlaceView::Service(
                domain_name@,
                group_name@,
                service_name@,
            ));
            assert(cmd.request_view() == SetRequestView::DefaultEnvironment(default_environment@));
            lemma_sets_default(
                c,
                PlaceView::Service(domain_name@, group_name@, service_name@),
                location.deep_view(),
                parents,
                default_environment@,
            );
        },
        SetSvcCommand::ImageRepository {
            domain_name,
            group_name,
            service_name,
            image_repository,
            location,
        } => {
            assert(cmd.place_view() == PlaceView::Service(
                domain_name@,
                group_name@,
                service_name@,
            ));
            assert(cmd.request_view() == SetRequestView::Value(
                Setting::ImageRepository,
                image_repository@,
            ));
            lemma_sets_value(
                c,
                PlaceView::Service(domain_name@, group_name@, service_name@),
                location.deep_view(),
                parents,
                Setting::ImageRepository,
                image_repository@,
            );
        },
        SetSvcCommand::ServeCommand {
            domain_name,
            group_name,
            service_name,
            serve_command,
            location,
        } => {
            assert(cmd.place_view() == PlaceView::Service(
                domain_name@,
                group_name@,
                service_name@,
            ));
            assert(cmd.request_view() == SetRequestView::Value(
                Setting::ServeCommand,
                serve_command@,
            ));
            lemma_sets_value(
                c,
                PlaceView::Service(domain_name@, group_name@, service_name@),
                location.deep_view(),
                parents,
                Setting::ServeCommand,
                serve_command@,
            );
        },
        SetSvcCommand::ShellCommand {
            domain_name,
            group_name,
            service_name,
            shell_command,
            location,
        } => {
            assert(cmd.place_view() == PlaceView::Service(
                domain_name@,
                group_name@,
                service_name@,
            ));
            assert(cmd.request_view() == SetRequestView::Value(
                Setting::ShellCommand,
                shell_command@,
            ));
            lemma_sets_value(
                c,
                PlaceView::Service(domain_name@, group_name@, service_name@),
                location.deep_view(),
                parents,
                Setting::ShellCommand,
                shell_command@,
            );
        },
        SetSvcCommand::Platform { domain_name, group_name, service_name, platform, location } => {
            assert(cmd.place_view() == PlaceView::Service(
                domain_name@,
                group_name@,
                service_name@,
            ));
            assert(cmd.request_view() == SetRequestView::Value(Setting::Platform, platform@));
            lemma_sets_value(
                c,
                PlaceView::Service(domain_name@, group_name@, service_name@),
                location.deep_view(),
                parents,
                Setting::Platform,
                platform@,
            );
        },
        SetSvcCommand::DefaultContainerImage {
            domain_name,
            group_name,
            service_name,
            default_container_image,
            location,
        } => {
            assert(cmd.place_view() == PlaceView::Service(
                domain_name@,
                group_name@,
                service_name@,
            ));
            assert(cmd.request_view() == SetRequestView::Value(
                Setting::DefaultContainerImage,
                default_container_image@,
            ));
            lemma_sets_value(
                c,
                PlaceView::Service(domain_name@, group_name@, service_name@),
                location.deep_view(),
                parents,
                Setting::DefaultContainerImage,
                default_container_image@,
            );
        },
        SetSvcCommand::ConnectionType {
            domain_name,
            group_name,
            service_name,
            connection_type,
            location,
        } => {
            assert(cmd.place_view() == PlaceView::Service(
                domain_name@,
                group_name@,
                service_name@,
            ));
            assert(cmd.request_view() == SetRequestView::Value(
                Setting::ConnectionType,
                connection_type@,
            ));
            lemma_sets_value(
                c,
                PlaceView::Service(domain_name@, group_name@, service_name@),
                location.deep_view(),
                parents,
                Setting::ConnectionType,
                connection_type@,
            );
        },
    }
}

/// A command that sets something of a domain sets what it names, at the place that it names,
/// to the value that it gives.
pub proof fn set_dom_command_sets_what_it_names(
    c: ConfigView,
    cmd: SetDomCommand,
    path: Seq<char>,
    parents: Seq<ConfigView>,
)
    ensures
        ({
            let a = set_applied(c, SetCommand::Dom { cmd }, path, parents);
            match cmd {
                SetDomCommand::DefaultEnvironment {
                    domain_name,
                    default_environment,
                    location,
                } => sets_default(
                    c,
                    a,
                    PlaceView::Domain(domain_name@),
                    location.deep_view(),
                    parents,
                    default_environment@,
                ),
                SetDomCommand::ImageRepository {
                    domain_name,
                    image_repository,
                    location,
                } => sets_value(
                    c,
                    a,
                    PlaceView::Domain(domain_name@),
                    location.deep_view(),
                    parents,
                    Setting::ImageRepository,
                    image_repository@,
                ),
                SetDomCommand::ServeCommand { domain_name, serve_command, location } => sets_value(
                    c,
                    a,
                    PlaceView::Domain(domain_name@),
                    location.deep_view(),
                    parents,
                    Setting::ServeCommand,
                    serve_command@,
                ),
                SetDomCommand::ShellCommand { domain_name, shell_command, location } => sets_value(
                    c,
                    a,
                    PlaceView::Domain(domain_name@),
                    location.deep_view(),
                    parents,
                    Setting::ShellCommand,
                    shell_command@,
                ),
                SetDomCommand::Platform { domain_name, platform, location } => sets_value(
                    c,
                    a,
                    PlaceView::Domain(domain_name@),
                    location.deep_view(),
                    parents,
                    Setting::Platform,
                    platform@,
                ),
                SetDomCommand::DefaultContainerImage {
                    domain_name,
                    default_container_image,
                    location,
                } => sets_value(
                    c,
                    a,
                    PlaceView::Domain(domain_name@),
                    location.deep_view(),
                    parents,
                    Setting::DefaultContainerImage,
                    default_container_image@,
                ),
                SetDomCommand::ConnectionType {
                    domain_name,
                    connection_type,
                    location,
                } => sets_value(
                    c,
                    a,
                    PlaceView::Domain(domain_name@),
                    location.deep_view(),
                    parents,
                    Setting::ConnectionType,
                    connection_type@,
                ),
            }
        }),
{
    match cmd {
        SetDomCommand::DefaultEnvironment { domain_name, default_environment, location } => {
            assert(cmd.place_view() == PlaceView::Domain(domain_name@));
            assert(cmd.request_view() == SetRequestView::DefaultEnvironment(default_environment@));
            lemma_sets_default(
                c,
                PlaceView::Domain(domain_name@),
                location.deep_view(),
                parents,
                default_environment@,
            );
        },
        SetDomCommand::ImageRepository { domain_name, image_repository, location } => {
            assert(cmd.place_view() == PlaceView::Domain(domain_name@));
            assert(cmd.request_view() == SetRequestView::Value(
                Setting::ImageRepository,
                image_repository@,
            ));
            lemma_sets_value(
                c,
                PlaceView::Domain(domain_name@),
                location.deep_view(),
                parents,
                Setting::ImageRepository,
                image_repository@,
            );
        },
        SetDomCommand::ServeCommand { domain_name, serve_command, location } => {
            assert(cmd.place_view() == PlaceView::Domain(domain_name@));
            assert(cmd.request_view() == SetRequestView::Value(
                Setting::ServeCommand,
                serve_command@,
            ));
            lemma_sets_value(
                c,
                PlaceView::Domain(domain_name@),
                location.deep_view(),
                parents,
                Setting::ServeCommand,
                serve_command@,
            );
        },
        SetDomCommand::ShellCommand { domain_name, shell_command, location } => {
            assert(cmd.place_view() == PlaceView::Domain(domain_name@));
            assert(cmd.request_view() == SetRequestView::Value(
                Setting::ShellCommand,
                shell_command@,
            ));
            lemma_sets_value(
                c,
                PlaceView::Domain(domain_name@),
                location.deep_view(),
                parents,
                Setting::ShellCommand,
                shell_command@,
            );
        },
        SetDomCommand::Platform { domain_name, platform, location } => {
            assert(cmd.place_view() == PlaceView::Domain(domain_name@));
            assert(cmd.request_view() == SetRequestView::Value(Setting::Platform, platform@));
            lemma_sets_value(
                c,
                PlaceView::Domain(domain_name@),
                location.deep_view(),
                parents,
                Setting::Platform,
                platform@,
            );
        },
        SetDomCommand::DefaultContainerImage { domain_name, default_container_image, location } => {
            assert(cmd.place_view() == PlaceView::Domain(domain_name@));
            assert(cmd.request_view() == SetRequestView::Value(
                Setting::DefaultContainerImage,
                default_container_image@,
            ));
            lemma_sets_value(
                c,
                PlaceView::Domain(domain_name@),
                location.deep_view(),
                parents,
                Setting::DefaultContainerImage,
                default_container_image@,
            );
        },
        SetDomCommand::ConnectionType { domain_name, connection_type, location } => {
            assert(cmd.place_view() == PlaceView::Domain(domain_name@));
            assert(cmd.request_view() == SetRequestView::Value(
                Setting::ConnectionType,
                connection_type@,
            ));
            lemma_sets_value(
                c,
                PlaceView::Domain(domain_name@),
                location.deep_view(),
                parents,
                Setting::ConnectionType,
                connection_type@,
            );
        },
    }
}

/// A command that sets something of a group sets what it names, at the place that it names,
/// to the value that it gives.
pub proof fn set_grp_command_sets_what_it_names(
    c: ConfigView,
    cmd: SetGrpCommand,
    path: Seq<char>,
    parents: Seq<ConfigView>,
)
    ensures
        ({
            let a = set_applied(c, SetCommand::Grp { cmd }, path, parents);
            match cmd {
                SetGrpCommand::DefaultEnvironment {
                    domain_name,
                    group_name,
                    default_environment,
                    location,
                } => sets_default(
                    c,
                    a,
                    PlaceView::Group(domain_name@, group_name@),
                    location.deep_view(),
                    parents,
                    default_environment@,
                ),
                SetGrpCommand::ImageRepository {
                    domain_name,
                    group_name,
                    image_repository,
                    location,
                } => sets_value(
                    c,
                    a,
                    PlaceView::Group(domain_name@, group_name@),
                    location.deep_view(),
                    parents,
                    Setting::ImageRepository,
                    image_repository@,
                ),
                SetGrpCommand::ServeCommand {
                    domain_name,
                    group_name,
                    serve_command,
                    location,
                } => sets_value(
                    c,
                    a,
                    PlaceView::Group(domain_name@, group_name@),
                    location.deep_view(),
                    parents,
                    Setting::ServeCommand,
                    serve_command@,
                ),
                SetGrpCommand::ShellCommand {
                    domain_name,
                    group_name,
                    shell_command,
                    location,
                } => sets_value(
                    c,
                    a,
                    PlaceView::Group(domain_name@, group_name@),
                    location.deep_view(),
                    parents,
                    Setting::ShellCommand,
                    shell_command@,
                ),
                SetGrpCommand::Platform {
                    domain_name,
                    group_name,
                    platform,
                    location,
                } => sets_value(
                    c,
                    a,
                    PlaceView::Group(domain_name@, group_name@),
                    location.deep_view(),
                    parents,
                    Setting::Platform,
                    platform@,
                ),
                SetGrpCommand::DefaultContainerImage {
                    domain_name,
                    group_name,
                    default_container_image,
                    location,
                } => sets_value(
                    c,
                    a,
                    PlaceView::Group(domain_name@, group_name@),
                    location.deep_view(),
                    parents,
                    Setting::DefaultContainerImage,
                    default_container_image@,
                ),
                SetGrpCommand::ConnectionType {
                    domain_name,
                    group_name,
                    connection_type,
                    location,
                } => sets_value(
                    c,
                    a,
                    PlaceView::Group(domain_name@, group_name@),
                    location.deep_view(),
                    parents,
                    Setting::ConnectionType,
                    connection_type@,
                ),
            }
        }),
{
    match cmd {
        SetGrpCommand::DefaultEnvironment {
            domain_name,
            group_name,
            default_environment,
            location,
        } => {
            assert(cmd.place_view() == PlaceView::Group(domain_name@, group_name@));
            assert(cmd.request_view() == SetRequestView::DefaultEnvironment(default_environment@));
            lemma_sets_default(
                c,
                PlaceView::Group(domain_name@, group_name@),
                location.deep_view(),
                parents,
                default_environment@,
            );
        },
        SetGrpCommand::ImageRepository { domain_name, group_name, image_repository, location } => {
            assert(cmd.place_view() == PlaceView::Group(domain_name@, group_name@));
            assert(cmd.request_view() == SetRequestView::Value(
                Setting::ImageRepository,
                image_repository@,
            ));
            lemma_sets_value(
                c,
                PlaceView::Group(domain_name@, group_name@),
                location.deep_view(),
                parents,
                Setting::ImageRepository,
                image_repository@,
            );
        },
        SetGrpCommand::ServeCommand { domain_name, group_name, serve_command, location } => {
            assert(cmd.place_view() == PlaceView::Group(domain_name@, group_name@));
            assert(cmd.request_view() == SetRequestView::Value(
                Setting::ServeCommand,
                serve_command@,
            ));
            lemma_sets_value(
                c,
                PlaceView::Group(domain_name@, group_name@),
                location.deep_view(),
                parents,
                Setting::ServeCommand,
                serve_command@,
            );
        },
        SetGrpCommand::ShellCommand { domain_name, group_name, shell_command, location } => {
            assert(cmd.place_view() == PlaceView::Group(domain_name@, group_name@));
            assert(cmd.request_view() == SetRequestView::Value(
                Setting::ShellCommand,
                shell_command@,
            ));
            lemma_sets_value(
                c,
                PlaceView::Group(domain_name@, group_name@),
                location.deep_view(),
                parents,
                Setting::ShellCommand,
                shell_command@,
            );
        },
        SetGrpCommand::Platform { domain_name, group_name, platform, location } => {
            assert(cmd.place_view() == PlaceView::Group(domain_name@, group_name@));
            assert(cmd.request_view() == SetRequestView::Value(Setting::Platform, platform@));
            lemma_sets_value(
                c,
                PlaceView::Group(domain_name@, group_name@),
                location.deep_view(),
                parents,
                Setting::Platform,
                platform@,
            );
        },
        SetGrpCommand::DefaultContainerImage {
            domain_name,
            group_name,
            default_container_image,
            location,
        } => {
            assert(cmd.place_view() == PlaceView::Group(domain_name@, group_name@));
            assert(cmd.request_view() == SetRequestView::Value(
                Setting::DefaultContainerImage,
                default_container_image@,
            ));
            lemma_sets_value(
                c,
                PlaceView::Group(domain_name@, group_name@),
                location.deep_view(),
                parents,
                Setting::DefaultContainerImage,
                default_container_image@,
            );
        },
        SetGrpCommand::ConnectionType { domain_name, group_name, connection_type, location } => {
            assert(cmd.place_view() == PlaceView::Group(domain_name@, group_name@));
            assert(cmd.request_view() == SetRequestView::Value(
                Setting::ConnectionType,
                connection_type@,
            ));
            lemma_sets_value(
                c,
                PlaceView::Group(domain_name@, group_name@),
                location.deep_view(),
                parents,
                Setting::ConnectionType,
                connection_type@,
            );
        },
    }
}

/// A command that adds something to a domain adds what it gives, at the place that it names.
pub proof fn add_dom_command_adds_what_it_names(
    c: ConfigView,
    cmd: AddDomCommand,
    parents: Seq<ConfigView>,
)
    ensures
        ({
            let a = add_applied(c, AddCommand::Dom { cmd }, parents);
            match cmd {
                AddDomCommand::Portmap {
                    domain_name,
                    host_port,
                    container_port,
                    location,
                } => adds_entry(
                    c,
                    a,
                    PlaceView::Domain(domain_name@),
                    location.deep_view(),
                    parents,
                    EntrySetting::HostPortmappings,
                    host_port@,
                    container_port@,
                ),
                AddDomCommand::Variable { domain_name, name, value, location } => adds_entry(
                    c,
                    a,
                    PlaceView::Domain(domain_name@),
                    location.deep_view(),
                    parents,
                    EntrySetting::Variables,
                    name@,
                    value@,
                ),
                AddDomCommand::Volume {
                    domain_name,
                    container_dir,
                    host_dir,
                    location,
                } => adds_volume(
                    c,
                    a,
                    PlaceView::Domain(domain_name@),
                    location.deep_view(),
                    parents,
                    container_dir@,
                    host_dir@,
                ),
            }
        }),
{
    match cmd {
        AddDomCommand::Portmap { domain_name, host_port, container_port, location } => {
            assert(cmd.place_view() == PlaceView::Domain(domain_name@));
            assert(cmd.request_view() == AddRequestView::Entry(
                EntrySetting::HostPortmappings,
                host_port@,
                container_port@,
            ));
            lemma_adds_entry(
                c,
                PlaceView::Domain(domain_name@),
                location.deep_view(),
                parents,
                EntrySetting::HostPortmappings,
                host_port@,
                container_port@,
            );
        },
        AddDomCommand::Variable { domain_name, name, value, location } => {
            assert(cmd.place_view() == PlaceView::Domain(domain_name@));
            assert(cmd.request_view() == AddRequestView::Entry(
                EntrySetting::Variables,
                name@,
                value@,
            ));
            lemma_adds_entry(
                c,
                PlaceView::Domain(domain_name@),
                location.deep_view(),
                parents,
                EntrySetting::Variables,
                name@,
                value@,
            );
        },
        AddDomCommand::Volume { domain_name, container_dir, host_dir, location } => {
            assert(cmd.place_view() == PlaceView::Domain(domain_name@));
            assert(cmd.request_view() == AddRequestView::Volume(container_dir@, host_dir@));
            lemma_adds_volume(
                c,
                PlaceView::Domain(domain_name@),
                location.deep_view(),
                parents,
                container_dir@,
                host_dir@,
            );
        },
    }
}

/// A command that adds something to a group adds what it gives, at the place that it names.
pub proof fn add_grp_command_adds_what_it_names(
    c: ConfigView,
    cmd: AddGrpCommand,
    parents: Seq<ConfigView>,
)
    ensures
        ({
            let a = add_applied(c, AddCommand::Grp { cmd }, parents);
            match cmd {
                AddGrpCommand::Portmap {
                    domain_name,
                    group_name,
                    host_port,
                    container_port,
                    location,
                } => adds_entry(
                    c,
                    a,
                    PlaceView::Group(domain_name@, group_name@),
                    location.deep_view(),
                    parents,
                    EntrySetting::HostPortmappings,
                    host_port@,
                    container_port@,
                ),
                AddGrpCommand::Variable {
                    domain_name,
                    group_name,
                    name,
                    value,
                    location,
                } => adds_entry(
                    c,
                    a,
                    PlaceView::Group(domain_name@, group_name@),
                    location.deep_view(),
                    parents,
                    EntrySetting::Variables,
                    name@,
                    value@,
                ),
                AddGrpCommand::Volume {
                    domain_name,
                    group_name,
                    container_dir,
                    host_dir,
                    location,
                } => adds_volume(
                    c,
                    a,
                    PlaceView::Group(domain_name@, group_name@),
                    location.deep_view(),
                    parents,
                    container_dir@,
                    host_dir@,
                ),
            }
        }),
{
    match cmd {
        AddGrpCommand::Portmap { domain_name, group_name, host_port, container_port, location } => {
            assert(cmd.place_view() == PlaceView::Group(domain_name@, group_name@));
            assert(cmd.request_view() == AddRequestView::Entry(
                EntrySetting::HostPortmappings,
                host_port@,
                container_port@,
            ));
            lemma_adds_entry(
                c,
                PlaceView::Group(domain_name@, group_name@),
                location.deep_view(),
                parents,
                EntrySetting::HostPortmappings,
                host_port@,
                container_port@,
            );
        },
        AddGrpCommand::Variable { domain_name, group_name, name, value, location } => {
            assert(cmd.place_view() == PlaceView::Group(domain_name@, group_name@));
            assert(cmd.request_view() == AddRequestView::Entry(
                EntrySetting::Variables,
                name@,
                value@,
            ));
            lemma_adds_entry(
                c,
                PlaceView::Group(domain_name@, group_name@),
                location.deep_view(),
                parents,
                EntrySetting::Variables,
                name@,
                value@,
            );
        },
        AddGrpCommand::Volume { domain_name, group_name, container_dir, host_dir, location } => {
            assert(cmd.place_view() == PlaceView::Group(domain_name@, group_name@));
            assert(cmd.request_view() == AddRequestView::Volume(container_dir@, host_dir@));
            lemma_adds_volume(
                c,
                PlaceView::Group(domain_name@, group_name@),
                location.deep_view(),
                parents,
                container_dir@,
                host_dir@,
            );
        },
    }
}

/// A command that adds something to an environment adds what it gives, at the place that it names.
pub proof fn add_env_command_adds_what_it_names(
    c: ConfigView,
    cmd: AddEnvCommand,
    parents: Seq<ConfigView>,
)
    ensures
        ({
            let a = add_applied(c, AddCommand::Env { cmd }, parents);
            match cmd {
                AddEnvCommand::Portmap { environment, host_port, container_port } => adds_entry(
                    c,
                    a,
                    PlaceView::Environment(environment@),
                    None,
                    parents,
                    EntrySetting::HostPortmappings,
                    host_port@,
                    container_port@,
                ),
                AddEnvCommand::Variable { environment, name, value } => adds_entry(
                    c,
                    a,
                    PlaceView::Environment(environment@),
                    None,
                    parents,
                    EntrySetting::Variables,
                    name@,
                    value@,
                ),
                AddEnvCommand::Volume { environment, container_dir, host_dir } => adds_volume(
                    c,
                    a,
                    PlaceView::Environment(environment@),
                    None,
                    parents,
                    container_dir@,
                    host_dir@,
                ),
            }
        }),
{
    match cmd {
        AddEnvCommand::Portmap { environment, host_port, container_port } => {
            assert(cmd.place_view() == PlaceView::Environment(environment@));
            assert(cmd.request_view() == AddRequestView::Entry(
                EntrySetting::HostPortmappings,
                host_port@,
                container_port@,
            ));
            lemma_adds_entry(
                c,
                PlaceView::Environment(environment@),
                None,
                parents,
                EntrySetting::HostPortmappings,
                host_port@,
                container_port@,
            );
        },
        AddEnvCommand::Variable { environment, name, value } => {
            assert(cmd.place_view() == PlaceView::Environment(environment@));
            assert(cmd.request_view() == AddRequestView::Entry(
                EntrySetting::Variables,
                name@,
                value@,
            ));
            lemma_adds_entry(
                c,
                PlaceView::Environment(environment@),
                None,
                parents,
                EntrySetting::Variables,
                name@,
                value@,
            );
        },
        AddEnvCommand::Volume { environment, container_dir, host_dir } => {
            assert(cmd.place_view() == PlaceView::Environment(environment@));
            assert(cmd.request_view() == AddRequestView::Volume(container_dir@, host_dir@));
            lemma_adds_volume(
                c,
                PlaceView::Environment(environment@),
                None,
                parents,
                container_dir@,
                host_dir@,
            );
        },
    }
}

/// A command that adds something to a service adds what it gives, at the place that it names.
pub proof fn add_svc_command_adds_what_it_names(
    c: ConfigView,
    cmd: AddSvcCommand,
    parents: Seq<ConfigView>,
)
    ensures
        ({
            let a = add_applied(c, AddCommand::Svc { cmd }, parents);
            match cmd {
                AddSvcCommand::Portmap {
                    domain_name,
                    group_name,
                    service_name,
                    host_port,
                    container_port,
                    location,
                } => adds_entry(
                    c,
                    a,
                    PlaceView::Service(domain_name@, group_name@, service_name@),
                    location.deep_view(),
                    parents,
                    EntrySetting::HostPortmappings,
                    host_port@,
                    container_port@,
                ),
                AddSvcCommand::Variable {
                    domain_name,
                    group_name,
                    service_name,
                    name,
                    value,
                    location,
                } => adds_entry(
                    c,
                    a,
                    PlaceView::Service(domain_name@, group_name@, service_name@),
                    location.deep_view(),
                    parents,
                    EntrySetting::Variables,
                    name@,
                    value@,
                ),
                AddSvcCommand::Volume {
                    domain_name,
                    group_name,
                    service_name,
                    container_dir,
                    host_dir,
                    location,
                } => adds_volume(
                    c,
                    a,
                    PlaceView::Service(domain_name@, group_name@, service_name@),
                    location.deep_view(),
                    parents,
                    container_dir@,
                    host_dir@,
                ),
            }
        }),
{
    match cmd {
        AddSvcCommand::Portmap {
            domain_name,
            group_name,
            service_name,
            host_port,
            container_port,
            location,
        } => {
            assert(cmd.place_view() == PlaceView::Service(
                domain_name@,
                group_name@,
                service_name@,
            ));
            assert(cmd.request_view() == AddRequestView::Entry(
                EntrySetting::HostPortmappings,
                host_port@,
                container_port@,
            ));
            lemma_adds_entry(
                c,
                PlaceView::Service(domain_name@, group_name@, service_name@),
                location.deep_view(),
                parents,
                EntrySetting::HostPortmappings,
                host_port@,
                container_port@,
            );
        },
        AddSvcCommand::Variable {
            domain_name,
            group_name,
            service_name,
            name,
            value,
            location,
        } => {
            assert(cmd.place_view() == PlaceView::Service(
                domain_name@,
                group_name@,
                service_name@,
            ));
            assert(cmd.request_view() == AddRequestView::Entry(
                EntrySetting::Variables,
                name@,
                value@,
            ));
            lemma_adds_entry(
                c,
                PlaceView::Service(domain_name@, group_name@, service_name@),
                location.deep_view(),
                parents,
                EntrySetting::Variables,
                name@,
                value@,
            );
        },
        AddSvcCommand::Volume {
            domain_name,
            group_name,
            service_name,
            container_dir,
            host_dir,
            location,
        } => {
            assert(cmd.place_view() == PlaceView::Service(
                domain_name@,
                group_name@,
                service_name@,
            ));
            assert(cmd.request_view() == AddRequestView::Volume(container_dir@, host_dir@));
            lemma_adds_volume(
                c,
                PlaceView::Service(domain_name@, group_name@, service_name@),
                location.deep_view(),
                parents,
                container_dir@,
                host_dir@,
            );
        },
    }
}

/// A command that removes something from a domain removes what it names, at the place that it
/// names.
pub proof fn rm_dom_command_removes_what_it_names(c: ConfigView, cmd: RmDomCommand)
    ensures
        ({
            let a = rm_applied(c, RmCommand::Dom { cmd });
            match cmd {
                RmDomCommand::DefaultEnvironment { domain_name } => default_is_removed(
                    c,
                    a,
                    PlaceView::Domain(domain_name@),
                ),
                RmDomCommand::Portmap { domain_name, host_port } => entry_is_removed(
                    c,
                    a,
                    PlaceView::Domain(domain_name@),
                    EntrySetting::HostPortmappings,
                    host_port@,
                ),
                RmDomCommand::Variable { domain_name, name } => entry_is_removed(
                    c,
                    a,
                    PlaceView::Domain(domain_name@),
                    EntrySetting::Variables,
                    name@,
                ),
                RmDomCommand::Volume { domain_name, container_dir, host_dir } => volume_is_removed(
                    c,
                    a,
                    PlaceView::Domain(domain_name@),
                    container_dir@,
                    host_dir@,
                ),
                RmDomCommand::ImageRepository { domain_name } => value_is_removed(
                    c,
                    a,
                    PlaceView::Domain(domain_name@),
                    Setting::ImageRepository,
                ),
                RmDomCommand::ServeCommand { domain_name } => value_is_removed(
                    c,
                    a,
                    PlaceView::Domain(domain_name@),
                    Setting::ServeCommand,
                ),
                RmDomCommand::ShellCommand { domain_name } => value_is_removed(
                    c,
                    a,
                    PlaceView::Domain(domain_name@),
                    Setting::ShellCommand,
                ),
                RmDomCommand::Platform { domain_name } => value_is_removed(
                    c,
                    a,
                    PlaceView::Domain(domain_name@),
                    Setting::Platform,
                ),
                RmDomCommand::DefaultContainerImage { domain_name } => value_is_removed(
                    c,
                    a,
                    PlaceView::Domain(domain_name@),
                    Setting::DefaultContainerImage,
                ),
                RmDomCommand::ConnectionType { domain_name } => value_is_removed(
                    c,
                    a,
                    PlaceView::Domain(domain_name@),
                    Setting::ConnectionType,
                ),
            }
        }),
{
    match cmd {
        RmDomCommand::DefaultEnvironment { domain_name } => {
            assert(cmd.place_view() == PlaceView::Domain(domain_name@));
            assert(cmd.request_view() == RmRequestView::DefaultEnvironment);
            lemma_removes(c, PlaceView::Domain(domain_name@), RmRequestView::DefaultEnvironment);
        },
        RmDomCommand::Portmap { domain_name, host_port } => {
            assert(cmd.place_view() == PlaceView::Domain(domain_name@));
            assert(cmd.request_view() == RmRequestView::Entry(
                EntrySetting::HostPortmappings,
                host_port@,
            ));
            lemma_removes(
                c,
                PlaceView::Domain(domain_name@),
                RmRequestView::Entry(EntrySetting::HostPortmappings, host_port@),
            );
        },
        RmDomCommand::Variable { domain_name, name } => {
            assert(cmd.place_view() == PlaceView::Domain(domain_name@));
            assert(cmd.request_view() == RmRequestView::Entry(EntrySetting::Variables, name@));
            lemma_removes(
                c,
                PlaceView::Domain(domain_name@),
                RmRequestView::Entry(EntrySetting::Variables, name@),
            );
        },
        RmDomCommand::Volume { domain_name, container_dir, host_dir } => {
            assert(cmd.place_view() == PlaceView::Domain(domain_name@));
            assert(cmd.request_view() == RmRequestView::Volume(container_dir@, host_dir@));
            lemma_removes(
                c,
                PlaceView::Domain(domain_name@),
                RmRequestView::Volume(container_dir@, host_dir@),
            );
        },
        RmDomCommand::ImageRepository { domain_name } => {
            assert(cmd.place_view() == PlaceView::Domain(domain_name@));
            assert(cmd.request_view() == RmRequestView::Value(Setting::ImageRepository));
            lemma_removes(
                c,
                PlaceView::Domain(domain_name@),
                RmRequestView::Value(Setting::ImageRepository),
            );
        },
        RmDomCommand::ServeCommand { domain_name } => {
            assert(cmd.place_view() == PlaceView::Domain(domain_name@));
            assert(cmd.request_view() == RmRequestView::Value(Setting::ServeCommand));
            lemma_removes(
                c,
                PlaceView::Domain(domain_name@),
                RmRequestView::Value(Setting::ServeCommand),
            );
        },
        RmDomCommand::ShellCommand { domain_name } => {
            assert(cmd.place_view() == PlaceView::Domain(domain_name@));
            assert(cmd.request_view() == RmRequestView::Value(Setting::ShellCommand));
            lemma_removes(
                c,
                PlaceView::Domain(domain_name@),
                RmRequestView::Value(Setting::ShellCommand),
            );
        },
        RmDomCommand::Platform { domain_name } => {
            assert(cmd.place_view() == PlaceView::Domain(domain_name@));
            assert(cmd.request_view() == RmRequestView::Value(Setting::Platform));
            lemma_removes(
                c,
                PlaceView::Domain(domain_name@),
                RmRequestView::Value(Setting::Platform),
            );
        },
        RmDomCommand::DefaultContainerImage { domain_name } => {
            assert(cmd.place_view() == PlaceView::Domain(domain_name@));
            assert(cmd.request_view() == RmRequestView::Value(Setting::DefaultContainerImage));
            lemma_removes(
                c,
                PlaceView::Domain(domain_name@),
                RmRequestView::Value(Setting::DefaultContainerImage),
            );
        },
        RmDomCommand::ConnectionType { domain_name } => {
            assert(cmd.place_view() == PlaceView::Domain(domain_name@));
            assert(cmd.request_view() == RmRequestView::Value(Setting::ConnectionType));
            lemma_removes(
                c,
                PlaceView::Domain(domain_name@),
                RmRequestView::Value(Setting::ConnectionType),
            );
        },
    }
}

/// A command that removes something from a group removes what it names, at the place that it
/// names.
pub proof fn rm_grp_command_removes_what_it_names(c: ConfigView, cmd: RmGrpCommand)
    ensures
        ({
            let a = rm_applied(c, RmCommand::Grp { cmd });
            match cmd {
                RmGrpCommand::DefaultEnvironment { domain_name, group_name } => default_is_removed(
                    c,
                    a,
                    PlaceView::Group(domain_name@, group_name@),
                ),
                RmGrpCommand::Portmap { domain_name, group_name, host_port } => entry_is_removed(
                    c,
                    a,
                    PlaceView::Group(domain_name@, group_name@),
                    EntrySetting::HostPortmappings,
                    host_port@,
                ),
                RmGrpCommand::Variable { domain_name, group_name, name } => entry_is_removed(
                    c,
                    a,
                    PlaceView::Group(domain_name@, group_name@),
                    EntrySetting::Variables,
                    name@,
                ),
                RmGrpCommand::Volume {
                    domain_name,
                    group_name,
                    container_dir,
                    host_dir,
                } => volume_is_removed(
                    c,
                    a,
                    PlaceView::Group(domain_name@, group_name@),
                    container_dir@,
                    host_dir@,
                ),
                RmGrpCommand::ImageRepository { domain_name, group_name } => value_is_removed(
                    c,
                    a,
                    PlaceView::Group(domain_name@, group_name@),
                    Setting::ImageRepository,
                ),
                RmGrpCommand::ServeCommand { domain_name, group_name } => value_is_removed(
                    c,
                    a,
                    PlaceView::Group(domain_name@, group_name@),
                    Setting::ServeCommand,
                ),
                RmGrpCommand::ShellCommand { domain_name, group_name } => value_is_removed(
                    c,
                    a,
                    PlaceView::Group(domain_name@, group_name@),
                    Setting::ShellCommand,
                ),
                RmGrpCommand::Platform { domain_name, group_name } => value_is_removed(
                    c,
                    a,
                    PlaceView::Group(domain_name@, group_name@),
                    Setting::Platform,
                ),
                RmGrpCommand::DefaultContainerImage { domain_name, group_name } => value_is_removed(
                    c,
                    a,
                    PlaceView::Group(domain_name@, group_name@),
                    Setting::DefaultContainerImage,
                ),
                RmGrpCommand::ConnectionType { domain_name, group_name } => value_is_removed(
                    c,
                    a,
                    PlaceView::Group(domain_name@, group_name@),
                    Setting::ConnectionType,
                ),
            }
        }),
{
    match cmd {
        RmGrpCommand::DefaultEnvironment { domain_name, group_name } => {
            assert(cmd.place_view() == PlaceView::Group(domain_name@, group_name@));
            assert(cmd.request_view() == RmRequestView::DefaultEnvironment);
            lemma_removes(
                c,
                PlaceView::Group(domain_name@, group_name@),
                RmRequestView::DefaultEnvironment,
            );
        },
        RmGrpCommand::Portmap { domain_name, group_name, host_port } => {
            assert(cmd.place_view() == PlaceView::Group(domain_name@, group_name@));
            assert(cmd.request_view() == RmRequestView::Entry(
                EntrySetting::HostPortmappings,
                host_port@,
            ));
            lemma_removes(
                c,
                PlaceView::Group(domain_name@, group_name@),
                RmRequestView::Entry(EntrySetting::HostPortmappings, host_port@),
            );
        },
        RmGrpCommand::Variable { domain_name, group_name, name } => {
            assert(cmd.place_view() == PlaceView::Group(domain_name@, group_name@));
            assert(cmd.request_view() == RmRequestView::Entry(EntrySetting::Variables, name@));
            lemma_removes(
                c,
                PlaceView::Group(domain_name@, group_name@),
                RmRequestView::Entry(EntrySetting::Variables, name@),
            );
        },
        RmGrpCommand::Volume { domain_name, group_name, container_dir, host_dir } => {
            assert(cmd.place_view() == PlaceView::Group(domain_name@, group_name@));
            assert(cmd.request_view() == RmRequestView::Volume(container_dir@, host_dir@));
            lemma_removes(
                c,
                PlaceView::Group(domain_name@, group_name@),
                RmRequestView::Volume(container_dir@, host_dir@),
            );
        },
        RmGrpCommand::ImageRepository { domain_name, group_name } => {
            assert(cmd.place_view() == PlaceView::Group(domain_name@, group_name@));
            assert(cmd.request_view() == RmRequestView::Value(Setting::ImageRepository));
            lemma_removes(
                c,
                PlaceView::Group(domain_name@, group_name@),
                RmRequestView::Value(Setting::ImageRepository),
            );
        },
        RmGrpCommand::ServeCommand { domain_name, group_name } => {
            assert(cmd.place_view() == PlaceView::Group(domain_name@, group_name@));
            assert(cmd.request_view() == RmRequestView::Value(Setting::ServeCommand));
            lemma_removes(
                c,
                PlaceView::Group(domain_name@, group_name@),
                RmRequestView::Value(Setting::ServeCommand),
            );
        },
        RmGrpCommand::ShellCommand { domain_name, group_name } => {
            assert(cmd.place_view() == PlaceView::Group(domain_name@, group_name@));
            assert(cmd.request_view() == RmRequestView::Value(Setting::ShellCommand));
            lemma_removes(
                c,
                PlaceView::Group(domain_name@, group_name@),
                RmRequestView::Value(Setting::ShellCommand),
            );
        },
        RmGrpCommand::Platform { domain_name, group_name } => {
            assert(cmd.place_view() == PlaceView::Group(domain_name@, group_name@));
            assert(cmd.request_view() == RmRequestView::Value(Setting::Platform));
            lemma_removes(
                c,
                PlaceView::Group(domain_name@, group_name@),
                RmRequestView::Value(Setting::Platform),
            );
        },
        RmGrpCommand::DefaultContainerImage { domain_name, group_name } => {
            assert(cmd.place_view() == PlaceView::Group(domain_name@, group_name@));
            assert(cmd.request_view() == RmRequestView::Value(Setting::DefaultContainerImage));
            lemma_removes(
                c,
                PlaceView::Group(domain_name@, group_name@),
                RmRequestView::Value(Setting::DefaultContainerImage),
            );
        },
        RmGrpCommand::ConnectionType { domain_name, group_name } => {
            assert(cmd.place_view() == PlaceView::Group(domain_name@, group_name@));
            assert(cmd.request_view() == RmRequestView::Value(Setting::ConnectionType));
            lemma_removes(
                c,
                PlaceView::Group(domain_name@, group_name@),
                RmRequestView::Value(Setting::ConnectionType),
            );
        },
    }
}

/// A command that removes something from an environment removes what it names, at the place that it
/// names.
pub proof fn rm_env_command_removes_what_it_names(c: ConfigView, cmd: RmEnvCommand)
    ensures
        ({
            let a = rm_applied(c, RmCommand::Env { cmd });
            match cmd {
                RmEnvCommand::Portmap { environment, host_port } => entry_is_removed(
                    c,
                    a,
                    PlaceView::Environment(environment@),
                    EntrySetting::HostPortmappings,
                    host_port@,
                ),
                RmEnvCommand::Variable { environment, name } => entry_is_removed(
                    c,
                    a,
                    PlaceView::Environment(environment@),
                    EntrySetting::Variables,
                    name@,
                ),
                RmEnvCommand::Volume { environment, container_dir, host_dir } => volume_is_removed(
                    c,
                    a,
                    PlaceView::Environment(environment@),
                    container_dir@,
                    host_dir@,
                ),
                RmEnvCommand::ImageRepository { environment } => value_is_removed(
                    c,
                    a,
                    PlaceView::Environment(environment@),
                    Setting::ImageRepository,
                ),
                RmEnvCommand::ServeCommand { environment } => value_is_removed(
                    c,
                    a,
                    PlaceView::Environment(environment@),
                    Setting::ServeCommand,
                ),
                RmEnvCommand::ShellCommand { environment } => value_is_removed(
                    c,
                    a,
                    PlaceView::Environment(environment@),
                    Setting::ShellCommand,
                ),
                RmEnvCommand::Platform { environment } => value_is_removed(
                    c,
                    a,
                    PlaceView::Environment(environment@),
                    Setting::Platform,
                ),
                RmEnvCommand::DefaultContainerImage { environment } => value_is_removed(
                    c,
                    a,
                    PlaceView::Environment(environment@),
                    Setting::DefaultContainerImage,
                ),
                RmEnvCommand::ConnectionType { environment } => value_is_removed(
                    c,
                    a,
                    PlaceView::Environment(environment@),
                    Setting::ConnectionType,
                ),
            }
        }),
{
    match cmd {
        RmEnvCommand::Portmap { environment, host_port } => {
            assert(cmd.place_view() == PlaceView::Environment(environment@));
            assert(cmd.request_view() == RmRequestView::Entry(
                EntrySetting::HostPortmappings,
                host_port@,
            ));
            lemma_removes(
                c,
                PlaceView::Environment(environment@),
                RmRequestView::Entry(EntrySetting::HostPortmappings, host_port@),
            );
        },
        RmEnvCommand::Variable { environment, name } => {
            assert(cmd.place_view() == PlaceView::Environment(environment@));
            assert(cmd.request_view() == RmRequestView::Entry(EntrySetting::Variables, name@));
            lemma_removes(
                c,
                PlaceView::Environment(environment@),
                RmRequestView::Entry(EntrySetting::Variables, name@),
            );
        },
        RmEnvCommand::Volume { environment, container_dir, host_dir } => {
            assert(cmd.place_view() == PlaceView::Environment(environment@));
            assert(cmd.request_view() == RmRequestView::Volume(container_dir@, host_dir@));
            lemma_removes(
                c,
                PlaceView::Environment(environment@),
                RmRequestView::Volume(container_dir@, host_dir@),
            );
        },
        RmEnvCommand::ImageRepository { environment } => {
            assert(cmd.place_view() == PlaceView::Environment(environment@));
            assert(cmd.request_view() == RmRequestView::Value(Setting::ImageRepository));
            lemma_removes(
                c,
                PlaceView::Environment(environment@),
                RmRequestView::Value(Setting::ImageRepository),
            );
        },
        RmEnvCommand::ServeCommand { environment } => {
            assert(cmd.place_view() == PlaceView::Environment(environment@));
            assert(cmd.request_view() == RmRequestView::Value(Setting::ServeCommand));
            lemma_removes(
                c,
                PlaceView::Environment(environment@),
                RmRequestView::Value(Setting::ServeCommand),
            );
        },
        RmEnvCommand::ShellCommand { environment } => {
            assert(cmd.place_view() == PlaceView::Environment(environment@));
            assert(cmd.request_view() == RmRequestView::Value(Setting::ShellCommand));
            lemma_removes(
                c,
                PlaceView::Environment(environment@),
                RmRequestView::Value(Setting::ShellCommand),
            );
        },
        RmEnvCommand::Platform { environment } => {
            assert(cmd.place_view() == PlaceView::Environment(environment@));
            assert(cmd.request_view() == RmRequestView::Value(Setting::Platform));
            lemma_removes(
                c,
                PlaceView::Environment(environment@),
                RmRequestView::Value(Setting::Platform),
            );
        },
        RmEnvCommand::DefaultContainerImage { environment } => {
            assert(cmd.place_view() == PlaceView::Environment(environment@));
            assert(cmd.request_view() == RmRequestView::Value(Setting::DefaultContainerImage));
            lemma_removes(
                c,
                PlaceView::Environment(environment@),
                RmRequestView::Value(Setting::DefaultContainerImage),
            );
        },
        RmEnvCommand::ConnectionType { environment } => {
            assert(cmd.place_view() == PlaceView::Environment(environment@));
            assert(cmd.request_view() == RmRequestView::Value(Setting::ConnectionType));
            lemma_removes(
                c,
                PlaceView::Environment(environment@),
                RmRequestView::Value(Setting::ConnectionType),
            );
        },
    }
}

/// A command that removes something from a service removes what it names, at the place that it
/// names.
pub proof fn rm_svc_command_removes_what_it_names(c: ConfigView, cmd: RmSvcCommand)
    ensures
        ({
            let a = rm_applied(c, RmCommand::Svc { cmd });
            match cmd {
                RmSvcCommand::DefaultEnvironment {
                    domain_name,
                    group_name,
                    service_name,
                } => default_is_removed(
                    c,
                    a,
                    PlaceView::Service(domain_name@, group_name@, service_name@),
                ),
                RmSvcCommand::Portmap {
                    domain_name,
                    group_name,
                    service_name,
                    host_port,
                } => entry_is_removed(
                    c,
                    a,
                    PlaceView::Service(domain_name@, group_name@, service_name@),
                    EntrySetting::HostPortmappings,
                    host_port@,
                ),
                RmSvcCommand::Variable {
                    domain_name,
                    group_name,
                    service_name,
                    name,
                } => entry_is_removed(
                    c,
                    a,
                    PlaceView::Service(domain_name@, group_name@, service_name@),
                    EntrySetting::Variables,
                    name@,
                ),
                RmSvcCommand::Volume {
                    domain_name,
                    group_name,
                    service_name,
                    container_dir,
                    host_dir,
                } => volume_is_removed(
                    c,
                    a,
                    PlaceView::Service(domain_name@, group_name@, service_name@),
                    container_dir@,
                    host_dir@,
                ),
                RmSvcCommand::ImageRepository {
                    domain_name,
                    group_name,
                    service_name,
                } => value_is_removed(
                    c,
                    a,
                    PlaceView::Service(domain_name@, group_name@, service_name@),
                    Setting::ImageRepository,
                ),
                RmSvcCommand::ServeCommand {
                    domain_name,
                    group_name,
                    service_name,
                } => value_is_removed(
                    c,
                    a,
                    PlaceView::Service(domain_name@, group_name@, service_name@),
                    Setting::ServeCommand,
                ),
                RmSvcCommand::ShellCommand {
                    domain_name,
                    group_name,
                    service_name,
                } => value_is_removed(
                    c,
                    a,
                    PlaceView::Service(domain_name@, group_name@, service_name@),
                    Setting::ShellCommand,
                ),
                RmSvcCommand::Platform {
                    domain_name,
                    group_name,
                    service_name,
                } => value_is_removed(
                    c,
                    a,
                    PlaceView::Service(domain_name@, group_name@, service_name@),
                    Setting::Platform,
                ),
                RmSvcCommand::DefaultContainerImage {
                    domain_name,
                    group_name,
                    service_name,
                } => value_is_removed(
                    c,
                    a,
                    PlaceView::Service(domain_name@, group_name@, service_name@),
                    Setting::DefaultContainerImage,
                ),
                RmSvcCommand::ConnectionType {
                    domain_name,
                    group_name,
                    service_name,
                } => value_is_removed(
                    c,
                    a,
                    PlaceView::Service(domain_name@, group_name@, service_name@),
                    Setting::ConnectionType,
                ),
            }
        }),
{
    match cmd {
        RmSvcCommand::DefaultEnvironment { domain_name, group_name, service_name } => {
            assert(cmd.place_view() == PlaceView::Service(
                domain_name@,
                group_name@,
                service_name@,
            ));
            assert(cmd.request_view() == RmRequestView::DefaultEnvironment);
            lemma_removes(
                c,
                PlaceView::Service(domain_name@, group_name@, service_name@),
                RmRequestView::DefaultEnvironment,
            );
        },
        RmSvcCommand::Portmap { domain_name, group_name, service_name, host_port } => {
            assert(cmd.place_view() == PlaceView::Service(
                domain_name@,
                group_name@,
                service_name@,
            ));
            assert(cmd.request_view() == RmRequestView::Entry(
                EntrySetting::HostPortmappings,
                host_port@,
            ));
            lemma_removes(
                c,
                PlaceView::Service(domain_name@, group_name@, service_name@),
                RmRequestView::Entry(EntrySetting::HostPortmappings, host_port@),
            );
        },
        RmSvcCommand::Variable { domain_name, group_name, service_name, name } => {
            assert(cmd.place_view() == PlaceView::Service(
                domain_name@,
                group_name@,
                service_name@,
            ));
            assert(cmd.request_view() == RmRequestView::Entry(EntrySetting::Variables, name@));
            lemma_removes(
                c,
                PlaceView::Service(domain_name@, group_name@, service_name@),
                RmRequestView::Entry(EntrySetting::Variables, name@),
            );
        },
        RmSvcCommand::Volume { domain_name, group_name, service_name, container_dir, host_dir } => {
            assert(cmd.place_view() == PlaceView::Service(
                domain_name@,
                group_name@,
                service_name@,
            ));
            assert(cmd.request_view() == RmRequestView::Volume(container_dir@, host_dir@));
            lemma_removes(
                c,
                PlaceView::Service(domain_name@, group_name@, service_name@),
                RmRequestView::Volume(container_dir@, host_dir@),
            );
        },
        RmSvcCommand::ImageRepository { domain_name, group_name, service_name } => {
            assert(cmd.place_view() == PlaceView::Service(
                domain_name@,
                group_name@,
                service_name@,
            ));
            assert(cmd.request_view() == RmRequestView::Value(Setting::ImageRepository));
            lemma_removes(
                c,
                PlaceView::Service(domain_name@, group_name@, service_name@),
                RmRequestView::Value(Setting::ImageRepository),
            );
        },
        RmSvcCommand::ServeCommand { domain_name, group_name, service_name } => {
            assert(cmd.place_view() == PlaceView::Service(
                domain_name@,
                group_name@,
                service_name@,
            ));
            assert(cmd.request_view() == RmRequestView::Value(Setting::ServeCommand));
            lemma_removes(
                c,
                PlaceView::Service(domain_name@, group_name@, service_name@),
                RmRequestView::Value(Setting::ServeCommand),
            );
        },
        RmSvcCommand::ShellCommand { domain_name, group_name, service_name } => {
            assert(cmd.place_view() == PlaceView::Service(
                domain_name@,
                group_name@,
                service_name@,
            ));
            assert(cmd.request_view() == RmRequestView::Value(Setting::ShellCommand));
            lemma_removes(
                c,
                PlaceView::Service(domain_name@, group_name@, service_name@),
                RmRequestView::Value(Setting::ShellCommand),
            );
        },
        RmSvcCommand::Platform { domain_name, group_name, service_name } => {
            assert(cmd.place_view() == PlaceView::Service(
                domain_name@,
                group_name@,
                service_name@,
            ));
            assert(cmd.request_view() == RmRequestView::Value(Setting::Platform));
            lemma_removes(
                c,
                PlaceView::Service(domain_name@, group_name@, service_name@),
                RmRequestView::Value(Setting::Platform),
            );
        },
        RmSvcCommand::DefaultContainerImage { domain_name, group_name, service_name } => {
            assert(cmd.place_view() == PlaceView::Service(
                domain_name@,
                group_name@,
                service_name@,
            ));
            assert(cmd.request_view() == RmRequestView::Value(Setting::DefaultContainerImage));
            lemma_removes(
                c,
                PlaceView::Service(domain_name@, group_name@, service_name@),
                RmRequestView::Value(Setting::DefaultContainerImage),
            );
        },
        RmSvcCommand::ConnectionType { domain_name, group_name, service_name } => {
            assert(cmd.place_view() == PlaceView::Service(
                domain_name@,
                group_name@,
                service_name@,
            ));
            assert(cmd.request_view() == RmRequestView::Value(Setting::ConnectionType));
            lemma_removes(
                c,
                PlaceView::Service(domain_name@, group_name@, service_name@),
                RmRequestView::Value(Setting::ConnectionType),
            );
        },
    }
}

/// Everything but the given fields is the same.
pub open spec fn same_but_general(a: ConfigView, b: ConfigView) -> bool {
    &&& a.pre_config == b.pre_config
    &&& a.domains == b.domains
    &&& a.environments == b.environments
    &&& a.debug_port_base == b.debug_port_base
}

/// The word says yes.
pub open spec fn says_yes(word: Seq<char>) -> bool {
    word == "true"@ || word == "1"@ || word == "yes"@ || word == "y"@ || word == "on"@
}

/// The word says no.
pub open spec fn says_no(word: Seq<char>) -> bool {
    word == "false"@ || word == "0"@ || word == "no"@ || word == "n"@ || word == "off"@
}

/// The machine, the engine and the two switches are set to what is given, each on its own. The
/// engine is one of two, in lower case; a switch is set by a word for yes or no, in any case
/// and with white space around it. Anything else changes nothing.
pub proof fn general_settings_are_set_as_given(
    c: ConfigView,
    text: String,
    path: Seq<char>,
    parents: Seq<ConfigView>,
)
    ensures
        ({
            let a = set_applied(
                c,
                SetCommand::PodmanMachine { new_podman_machine: text },
                path,
                parents,
            );
            &&& a.outcome is Done
            &&& a.config.podman_machine == Some(text@)
            &&& same_but_general(c, a.config)
            &&& a.config.engine == c.engine
            &&& a.config.urls_in_hosts == c.urls_in_hosts
            &&& a.config.wsl == c.wsl
        }),
        ({
            let a = set_applied(c, SetCommand::Engine { engine: text }, path, parents);
            let word = lowered(text@);
            &&& a.outcome is Done <==> word == "podman"@ || word == "docker"@
            &&& a.outcome is Done ==> a.config.engine == Some(word)
            &&& !(a.outcome is Done) ==> a.outcome is Refused && a.config == c
            &&& same_but_general(c, a.config)
            &&& a.config.podman_machine == c.podman_machine
            &&& a.config.urls_in_hosts == c.urls_in_hosts
            &&& a.config.wsl == c.wsl
        }),
        ({
            let a = set_applied(c, SetCommand::UrlsInHosts { value: text }, path, parents);
            let word = lowered(trim(text@));
            &&& a.outcome is Done <==> says_yes(word) || says_no(word)
            &&& says_yes(word) ==> a.config.urls_in_hosts == Some(true)
            &&& says_no(word) ==> a.config.urls_in_hosts == Some(false)
            &&& !(a.outcome is Done) ==> a.outcome is Failed && a.config == c
            &&& same_but_general(c, a.config)
            &&& a.config.podman_machine == c.podman_machine
            &&& a.config.engine == c.engine
            &&& a.config.wsl == c.wsl
        }),
        ({
            let a = set_applied(c, SetCommand::Wsl { value: text }, path, parents);
            let word = lowered(trim(text@));
            &&& a.outcome is Done <==> says_yes(word) || says_no(word)
            &&& says_yes(word) ==> a.config.wsl == Some(true)
            &&& says_no(word) ==> a.config.wsl == Some(false)
            &&& !(a.outcome is Done) ==> a.outcome is Failed && a.config == c
            &&& same_but_general(c, a.config)
            &&& a.config.podman_machine == c.podman_machine
            &&& a.config.engine == c.engine
            &&& a.config.urls_in_hosts == c.urls_in_hosts
        }),
{
    lemma_yes_is_not_no(lowered(trim(text@)));
}

proof fn lemma_yes_is_not_no(word: Seq<char>)
    ensures
        !(says_yes(word) && says_no(word)),
{
    reveal_strlit("true");
    reveal_strlit("1");
    reveal_strlit("yes");
    reveal_strlit("y");
    reveal_strlit("on");
    reveal_strlit("false");
    reveal_strlit("0");
    reveal_strlit("no");
    reveal_strlit("n");
    reveal_strlit("off");
    assert("true"@[0] == 't' && "1"@[0] == '1' && "yes"@[0] == 'y' && "y"@[0] == 'y' && "on"@[0]
        == 'o');
    assert("false"@[0] == 'f' && "0"@[0] == '0' && "no"@[0] == 'n' && "n"@[0] == 'n' && "off"@[0]
        == 'o');
    assert("on"@.len() == 2 && "off"@.len() == 3);
}

/// A command that sets something says what it set, where, and to what; one that fails says
/// nothing but its error. The notice of a domain that was created comes first.
pub proof fn set_commands_say_what_they_set(
    c: ConfigView,
    place: PlaceView,
    location: Option<Seq<char>>,
    parents: Seq<ConfigView>,
    setting: Setting,
    value: Seq<char>,
)
    ensures
        ({
            let a = request_set(c, place, location, parents, SetRequestView::Value(setting, value));
            let word = match setting {
                Setting::ServeCommand => "serve_command"@,
                Setting::ShellCommand => "shell_command"@,
                Setting::ImageRepository => "image_repository"@,
                Setting::Platform => "platform"@,
                Setting::DefaultContainerImage => "default_container_image"@,
                Setting::ConnectionType => "connection_type"@,
            };
            &&& a.outcome is Done ==> a.outcome == OutcomeView::Done(
                Some("Set "@ + word + " for "@ + place_words(place) + " to:
  "@ + value),
            )
            &&& has_ground(c, place, location, parents) ==> says_of_ground(
                c,
                place,
                a.notices,
                Seq::empty(),
            )
        }),
        !(place is Environment) ==> {
            let a = request_set(
                c,
                place,
                location,
                parents,
                SetRequestView::DefaultEnvironment(value),
            );
            let to = if place is Domain {
                " to environment '"@
            } else {
                " to '"@
            };
            &&& a.outcome is Done ==> a.outcome == OutcomeView::Done(
                Some("Set default_environment for "@ + place_words(place) + to + value + "'"@),
            )
            &&& has_ground(c, place, location, parents) ==> says_of_ground(
                c,
                place,
                a.notices,
                Seq::empty(),
            )
        },
{
    if let Some(d) = domain_at(place) {
        ensuring_a_domain_creates_it_where_it_belongs(c, d, location, parents);
    }
    if has_ground(c, place, location, parents) {
        lemma_ground(c, place, location, parents);
        let none = Seq::<Seq<char>>::empty();
        assert forall|n: Seq<char>| (#[trigger] (seq![n] + none)).skip(1) == none by {
            assert((seq![n] + none).skip(1) =~= none);
        }
    }
}

/// There is a notice of the domain in front of the others exactly where the domain had to be
/// created.
pub open spec fn says_of_ground(
    c: ConfigView,
    place: PlaceView,
    notices: Seq<Seq<char>>,
    others: Seq<Seq<char>>,
) -> bool {
    let created = domain_at(place) is Some && !has_domain(c, domain_at(place)->0);
    &&& !created ==> notices == others
    &&& created ==> notices.len() == others.len() + 1 && notices.skip(1) == others
}

/// A command that adds something gives the notice of what it added, behind that of a domain
/// that was created. A command that removes something gives the notice of that, if any.
pub proof fn add_and_rm_commands_say_what_they_did(
    c: ConfigView,
    place: PlaceView,
    location: Option<Seq<char>>,
    parents: Seq<ConfigView>,
    setting: EntrySetting,
    key: Seq<char>,
    value: Seq<char>,
)
    ensures
        ({
            let a = request_added(
                c,
                place,
                location,
                parents,
                AddRequestView::Entry(setting, key, value),
            );
            a.outcome is Done ==> a.outcome == OutcomeView::Done(None) && says_of_ground(
                c,
                place,
                a.notices,
                seq![
                    "Created "@ + entry_word(setting) + " for "@ + entry_place(place) + " ("@ + key
                        + ":"@ + value + ")"@,
                ],
            )
        }),
        ({
            let a = request_added(c, place, location, parents, AddRequestView::Volume(key, value));
            a.outcome is Done ==> a.outcome == OutcomeView::Done(None) && says_of_ground(
                c,
                place,
                a.notices,
                seq!["Added volume to "@ + place_words(place) + ": "@ + value + " -> "@ + key],
            )
        }),
        ({
            let a = request_removed(c, place, RmRequestView::Entry(setting, key));
            a.outcome is Done ==> a.outcome == OutcomeView::Done(None) && a.notices == seq![
                "Removed "@ + entry_word(setting) + " for "@ + entry_place(place) + " ("@ + key
                    + ":____)"@,
            ]
        }),
        ({
            let a = request_removed(c, place, RmRequestView::Volume(key, value));
            a.outcome is Done ==> a.outcome == OutcomeView::Done(None) && a.notices == seq![
                "Removed volume from "@ + place_words(place) + ": "@ + value + " -> "@ + key,
            ]
        }),
        !(place is Environment) ==> {
            let a = request_removed(c, place, RmRequestView::DefaultEnvironment);
            a.outcome is Done ==> a.outcome == OutcomeView::Done(
                Some("Removed default_environment for "@ + place_words(place)),
            ) && a.notices.len() == 0
        },
{
    if let Some(d) = domain_at(place) {
        ensuring_a_domain_creates_it_where_it_belongs(c, d, location, parents);
    }
    if has_ground(c, place, location, parents) {
        lemma_ground(c, place, location, parents);
        let b = ground(c, place, location, parents);
        entries_are_named_in_messages(b, place, setting, key, value);
        volumes_are_named_in_messages(b, place, key, value);
        assert forall|n: Seq<char>, m: Seq<char>| #[trigger] (seq![n] + seq![m]).skip(1)
            == seq![m] by {
            assert((seq![n] + seq![m]).skip(1) =~= seq![m]);
        }
    }
    entries_are_named_in_messages(c, place, setting, key, value);
    volumes_are_named_in_messages(c, place, key, value);
}

/// A parent is added with its location and its repository, behind the others. Removing takes
/// it away. The machine is forgotten on demand; a domain, a group or a service is removed by
/// its name.
pub proof fn general_commands_add_and_remove(
    c: ConfigView,
    name: String,
    group: String,
    service: String,
    repo: Option<String>,
    parents: Seq<ConfigView>,
)
    ensures
        ({
            let a = add_applied(
                c,
                AddCommand::PreConfig { location: name, repo_location: repo },
                parents,
            );
            &&& a.outcome is Done <==> !has_location(parents_of(c), name@)
            &&& a.outcome is Done ==> {
                &&& parents_of(a.config).len() == parents_of(c).len() + 1
                &&& parents_of(a.config).drop_last() == parents_of(c)
                &&& parents_of(a.config).last().location == name@
                &&& parents_of(a.config).last().repo_location == repo.deep_view()
                &&& same_but_parents(c, a.config)
            }
            &&& !(a.outcome is Done) ==> fails_on(c, a)
        }),
        ({
            let a = rm_applied(c, RmCommand::PreConfig { location: name });
            &&& a.outcome is Done <==> has_location(parents_of(c), name@)
            &&& a.outcome is Done ==> keeps_the_rest(parents_of(c), parents_of(a.config), name@)
                && same_but_parents(c, a.config)
            &&& !(a.outcome is Done) ==> fails_on(c, a)
        }),
        ({
            let a = rm_applied(c, RmCommand::PodmanMachine {  });
            &&& a.outcome is Done
            &&& a.config == (ConfigView { podman_machine: None, ..c })
        }),
        ({
            let a = rm_applied(c, RmCommand::Domain { name });
            &&& a.outcome is Done <==> has_domain(c, name@)
            &&& a.outcome is Done ==> is_without_key(c.domains, a.config.domains, name@)
                && same_in_general(c, a.config) && a.config.environments == c.environments
            &&& !(a.outcome is Done) ==> fails_on(c, a)
        }),
        ({
            let a = rm_applied(c, RmCommand::Group { domain_name: name, group_name: group });
            &&& a.outcome is Done <==> has_group(c, name@, group@)
            &&& a.outcome is Done ==> differs_in_domain(c, a.config, name@) && is_without_key(
                c.domains->0[name@].groups,
                a.config.domains->0[name@].groups,
                group@,
            )
            &&& !(a.outcome is Done) ==> fails_on(c, a)
        }),
        ({
            let a = rm_applied(
                c,
                RmCommand::Service {
                    domain_name: name,
                    group_name: group,
                    service_name: service,
                },
            );
            &&& a.outcome is Done <==> has_service(c, name@, group@, service@)
            &&& a.outcome is Done ==> differs_in_group(c, a.config, name@, group@)
                && is_without_key(
                c.domains->0[name@].groups->0[group@].services,
                a.config.domains->0[name@].groups->0[group@].services,
                service@,
            )
            &&& !(a.outcome is Done) ==> fails_on(c, a)
        }),
{
    adding_a_parent_adds_it(c, name@, repo.deep_view());
    removing_a_parent_removes_it(c, name@);
    removing_a_domain_removes_it(c, name@);
    removing_a_group_removes_it(c, name@, group@);
    removing_a_service_removes_it(c, name@, group@, service@);
}

} // verus!
