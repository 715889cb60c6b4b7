//! What edits do to the places of a configuration.
use crate::config::edit::{EntrySetting, PlaceView, Setting};
use crate::config::model::{ConfigView, DomainView, PreConfigView, SettingsView, VolumeView};
use vstd::prelude::*;

verus! {

// ---------------------------------------------------------------------------
// Where things stand
// ---------------------------------------------------------------------------
/// The key has a value in a map that may be missing.
pub open spec fn has_key<V>(m: Option<Map<Seq<char>, V>>, k: Seq<char>) -> bool {
    m is Some && m->0.contains_key(k)
}

/// The domain exists.
pub open spec fn has_domain(c: ConfigView, d: Seq<char>) -> bool {
    has_key(c.domains, d)
}

/// The group exists.
pub open spec fn has_group(c: ConfigView, d: Seq<char>, g: Seq<char>) -> bool {
    has_domain(c, d) && has_key(c.domains->0[d].groups, g)
}

/// The service exists.
pub open spec fn has_service(c: ConfigView, d: Seq<char>, g: Seq<char>, s: Seq<char>) -> bool {
    has_group(c, d, g) && has_key(c.domains->0[d].groups->0[g].services, s)
}

/// The place exists.
pub open spec fn exists_in(c: ConfigView, place: PlaceView) -> bool {
    match place {
        PlaceView::Domain(d) => has_domain(c, d),
        PlaceView::Group(d, g) => has_group(c, d, g),
        PlaceView::Service(d, g, s) => has_service(c, d, g, s),
        PlaceView::Environment(e) => has_key(c.environments, e),
    }
}

/// The settings that stand at a place that exists.
pub open spec fn settings_at(c: ConfigView, place: PlaceView) -> SettingsView {
    match place {
        PlaceView::Domain(d) => c.domains->0[d].settings,
        PlaceView::Group(d, g) => c.domains->0[d].groups->0[g].settings,
        PlaceView::Service(d, g, s) => c.domains->0[d].groups->0[g].services->0[s].settings,
        PlaceView::Environment(e) => c.environments->0[e],
    }
}

/// The place exists, or can be created: its domain exists, or it is an environment.
pub open spec fn can_exist_in(c: ConfigView, place: PlaceView) -> bool {
    match place {
        PlaceView::Domain(d) => has_domain(c, d),
        PlaceView::Group(d, _) => has_domain(c, d),
        PlaceView::Service(d, _, _) => has_domain(c, d),
        PlaceView::Environment(_) => true,
    }
}

/// No setting is declared.
pub open spec fn says_nothing(s: SettingsView) -> bool {
    &&& s.host_portmappings is None
    &&& s.host_portmappings_override is None
    &&& s.variables is None
    &&& s.variables_override is None
    &&& s.volumes is None
    &&& s.volumes_override is None
    &&& s.serve_command is None
    &&& s.serve_command_override is None
    &&& s.shell_command is None
    &&& s.shell_command_override is None
    &&& s.image_repository is None
    &&& s.image_repository_override is None
    &&& s.platform is None
    &&& s.platform_override is None
    &&& s.default_container_image is None
    &&& s.default_container_image_override is None
    &&& s.connection_type is None
    &&& s.connection_type_override is None
}

/// The settings of a place before an edit: what stands there, or nothing where the place does
/// not exist yet.
pub open spec fn stood_at(c: ConfigView, place: PlaceView, s: SettingsView) -> bool {
    &&& exists_in(c, place) ==> s == settings_at(c, place)
    &&& !exists_in(c, place) ==> says_nothing(s)
}

/// The settings of a place are those that stand at it.
pub proof fn settings_are_found_where_they_stand(c: ConfigView, place: PlaceView)
    ensures
        c.settings(place) is Ok <==> exists_in(c, place),
        c.settings(place) is Ok ==> c.settings(place)->Ok_0 == settings_at(c, place),
        c.settings_or_new(place) is Ok <==> can_exist_in(c, place),
        c.settings_or_new(place) is Ok ==> stood_at(c, place, c.settings_or_new(place)->Ok_0),
{
}

// ---------------------------------------------------------------------------
// What stays
// ---------------------------------------------------------------------------
/// The map has the key afterwards, and every other key as before.
pub open spec fn differs_at<V>(
    before: Option<Map<Seq<char>, V>>,
    after: Option<Map<Seq<char>, V>>,
    k: Seq<char>,
) -> bool {
    &&& has_key(after, k)
    &&& forall|x: Seq<char>|
        #![trigger has_key(after, x)]
        x != k ==> (has_key(before, x) <==> has_key(after, x)) && (has_key(before, x) ==> after->0[x]
            == before->0[x])
}

/// What is no domain and no environment is the same.
pub open spec fn same_in_general(a: ConfigView, b: ConfigView) -> bool {
    &&& a.pre_config == b.pre_config
    &&& a.engine == b.engine
    &&& a.podman_machine == b.podman_machine
    &&& a.urls_in_hosts == b.urls_in_hosts
    &&& a.wsl == b.wsl
    &&& a.debug_port_base == b.debug_port_base
}

/// Nothing differs outside one domain, which exists.
pub open spec fn differs_in_domain(a: ConfigView, b: ConfigView, d: Seq<char>) -> bool {
    &&& same_in_general(a, b)
    &&& a.environments == b.environments
    &&& has_domain(a, d)
    &&& differs_at(a.domains, b.domains, d)
}

/// Nothing differs outside one group, which may be new.
pub open spec fn differs_in_group(a: ConfigView, b: ConfigView, d: Seq<char>, g: Seq<char>) -> bool {
    &&& differs_in_domain(a, b, d)
    &&& differs_at(a.domains->0[d].groups, b.domains->0[d].groups, g)
    &&& a.domains->0[d].location == b.domains->0[d].location
    &&& a.domains->0[d].default_environment == b.domains->0[d].default_environment
    &&& a.domains->0[d].settings == b.domains->0[d].settings
}

/// Nothing differs outside one service, which may be new, and so may its group.
pub open spec fn differs_in_service(
    a: ConfigView,
    b: ConfigView,
    d: Seq<char>,
    g: Seq<char>,
    s: Seq<char>,
) -> bool {
    let group = b.domains->0[d].groups->0[g];
    &&& differs_in_group(a, b, d, g)
    &&& has_group(a, d, g) ==> {
        let old_group = a.domains->0[d].groups->0[g];
        &&& differs_at(old_group.services, group.services, s)
        &&& group.default_environment == old_group.default_environment
        &&& group.settings == old_group.settings
    }
    &&& !has_group(a, d, g) ==> {
        &&& differs_at(None, group.services, s)
        &&& group.default_environment is None
        &&& says_nothing(group.settings)
    }
}

/// Nothing differs but the settings of one place. A place that is new has nothing else.
pub open spec fn differs_in_settings(a: ConfigView, b: ConfigView, place: PlaceView) -> bool {
    match place {
        PlaceView::Domain(d) => {
            &&& differs_in_domain(a, b, d)
            &&& a.domains->0[d].location == b.domains->0[d].location
            &&& a.domains->0[d].groups == b.domains->0[d].groups
            &&& a.domains->0[d].default_environment == b.domains->0[d].default_environment
        },
        PlaceView::Group(d, g) => {
            let group = b.domains->0[d].groups->0[g];
            &&& differs_in_group(a, b, d, g)
            &&& has_group(a, d, g) ==> group.services == a.domains->0[d].groups->0[g].services
                && group.default_environment == a.domains->0[d].groups->0[g].default_environment
            &&& !has_group(a, d, g) ==> group.services is None && group.default_environment is None
        },
        PlaceView::Service(d, g, s) => {
            let service = b.domains->0[d].groups->0[g].services->0[s];
            &&& differs_in_service(a, b, d, g, s)
            &&& has_service(a, d, g, s) ==> {
                let old_service = a.domains->0[d].groups->0[g].services->0[s];
                &&& service.default_environment == old_service.default_environment
                &&& service.urls == old_service.urls
            }
            &&& !has_service(a, d, g, s) ==> service.default_environment is None
                && service.urls is None
        },
        PlaceView::Environment(e) => {
            &&& same_in_general(a, b)
            &&& a.domains == b.domains
            &&& differs_at(a.environments, b.environments, e)
        },
    }
}

proof fn lemma_with_settings(c: ConfigView, place: PlaceView, s: SettingsView)
    requires
        can_exist_in(c, place),
    ensures
        exists_in(c.with_settings(place, s), place),
        settings_at(c.with_settings(place, s), place) == s,
        differs_in_settings(c, c.with_settings(place, s), place),
{
}

// ---------------------------------------------------------------------------
// Values
// ---------------------------------------------------------------------------
/// The field of the setting holds the value.
pub open spec fn holds_value(s: SettingsView, setting: Setting, value: Option<Seq<char>>) -> bool {
    match setting {
        Setting::ServeCommand => s.serve_command == value,
        Setting::ShellCommand => s.shell_command == value,
        Setting::ImageRepository => s.image_repository == value,
        Setting::Platform => s.platform == value,
        Setting::DefaultContainerImage => s.default_container_image == value,
        Setting::ConnectionType => s.connection_type == value,
    }
}

/// The settings are the same, but for the field of the setting.
pub open spec fn same_but_value(a: SettingsView, b: SettingsView, setting: Setting) -> bool {
    &&& a.host_portmappings == b.host_portmappings
    &&& a.host_portmappings_override == b.host_portmappings_override
    &&& a.variables == b.variables
    &&& a.variables_override == b.variables_override
    &&& a.volumes == b.volumes
    &&& a.volumes_override == b.volumes_override
    &&& setting != Setting::ServeCommand ==> a.serve_command == b.serve_command
    &&& a.serve_command_override == b.serve_command_override
    &&& setting != Setting::ShellCommand ==> a.shell_command == b.shell_command
    &&& a.shell_command_override == b.shell_command_override
    &&& setting != Setting::ImageRepository ==> a.image_repository == b.image_repository
    &&& a.image_repository_override == b.image_repository_override
    &&& setting != Setting::Platform ==> a.platform == b.platform
    &&& a.platform_override == b.platform_override
    &&& setting != Setting::DefaultContainerImage ==> a.default_container_image == b.default_container_image
    &&& a.default_container_image_override == b.default_container_image_override
    &&& setting != Setting::ConnectionType ==> a.connection_type == b.connection_type
    &&& a.connection_type_override == b.connection_type_override
}

/// Setting a value succeeds exactly when the domain of the place exists. The field of the
/// setting then holds the value, whatever it held before, and nothing else differs.
pub proof fn setting_a_value_sets_its_field(
    c: ConfigView,
    place: PlaceView,
    setting: Setting,
    value: Seq<char>,
)
    ensures
        c.set_value(place, setting, value) is Ok <==> can_exist_in(c, place),
        c.set_value(place, setting, value) matches Ok(after) ==> {
            &&& exists_in(after, place)
            &&& holds_value(settings_at(after, place), setting, Some(value))
            &&& forall|s: SettingsView| #[trigger]
                stood_at(c, place, s) ==> same_but_value(s, settings_at(after, place), setting)
            &&& differs_in_settings(c, after, place)
        },
{
    if can_exist_in(c, place) {
        let s = c.settings_or_new(place)->Ok_0;
        lemma_with_settings(c, place, s.with_value(setting, Some(value)));
    }
}

/// The same of a place that must exist.
pub proof fn setting_a_value_of_an_existing_place(
    c: ConfigView,
    place: PlaceView,
    setting: Setting,
    value: Seq<char>,
)
    ensures
        c.set_existing_value(place, setting, value) is Ok <==> exists_in(c, place),
        c.set_existing_value(place, setting, value) is Ok ==> c.set_existing_value(
            place,
            setting,
            value,
        ) == c.set_value(place, setting, value),
{
}

/// Taking a value away succeeds exactly when there is one. The field then holds none, and
/// nothing else differs.
pub proof fn removing_a_value_empties_its_field(c: ConfigView, place: PlaceView, setting: Setting)
    ensures
        c.rm_value(place, setting) is Ok <==> exists_in(c, place) && !holds_value(
            settings_at(c, place),
            setting,
            None,
        ),
        c.rm_value(place, setting) matches Ok(after) ==> {
            &&& exists_in(after, place)
            &&& holds_value(settings_at(after, place), setting, None)
            &&& same_but_value(settings_at(c, place), settings_at(after, place), setting)
            &&& differs_in_settings(c, after, place)
        },
{
    if exists_in(c, place) {
        let s = settings_at(c, place);
        lemma_with_settings(c, place, s.with_value(setting, None));
    }
}

// ---------------------------------------------------------------------------
// Entries
// ---------------------------------------------------------------------------
/// The entries of the setting.
pub open spec fn entries_in(s: SettingsView, setting: EntrySetting) -> Option<
    Map<Seq<char>, Seq<char>>,
> {
    match setting {
        EntrySetting::HostPortmappings => s.host_portmappings,
        EntrySetting::Variables => s.variables,
    }
}

/// The settings are the same, but for the entries of the setting.
pub open spec fn same_but_entries(a: SettingsView, b: SettingsView, setting: EntrySetting) -> bool {
    &&& setting != EntrySetting::HostPortmappings ==> a.host_portmappings == b.host_portmappings
    &&& a.host_portmappings_override == b.host_portmappings_override
    &&& setting != EntrySetting::Variables ==> a.variables == b.variables
    &&& a.variables_override == b.variables_override
    &&& a.volumes == b.volumes
    &&& a.volumes_override == b.volumes_override
    &&& a.serve_command == b.serve_command
    &&& a.serve_command_override == b.serve_command_override
    &&& a.shell_command == b.shell_command
    &&& a.shell_command_override == b.shell_command_override
    &&& a.image_repository == b.image_repository
    &&& a.image_repository_override == b.image_repository_override
    &&& a.platform == b.platform
    &&& a.platform_override == b.platform_override
    &&& a.default_container_image == b.default_container_image
    &&& a.default_container_image_override == b.default_container_image_override
    &&& a.connection_type == b.connection_type
    &&& a.connection_type_override == b.connection_type_override
}

/// Adding an entry succeeds exactly when the domain of the place exists and the place has no
/// entry of that key. The entry is there then, all others stay, and nothing else differs.
pub proof fn adding_an_entry_adds_it(
    c: ConfigView,
    place: PlaceView,
    setting: EntrySetting,
    key: Seq<char>,
    value: Seq<char>,
)
    ensures
        c.add_entry(place, setting, key, value) is Ok <==> can_exist_in(c, place) && !(exists_in(
            c,
            place,
        ) && has_key(entries_in(settings_at(c, place), setting), key)),
        c.add_entry(place, setting, key, value) matches Ok((after, _)) ==> {
            let entries = entries_in(settings_at(after, place), setting);
            &&& exists_in(after, place)
            &&& has_key(entries, key) && entries->0[key] == value
            &&& forall|s: SettingsView| #[trigger]
                stood_at(c, place, s) ==> {
                    &&& differs_at(entries_in(s, setting), entries, key)
                    &&& same_but_entries(s, settings_at(after, place), setting)
                }
            &&& differs_in_settings(c, after, place)
        },
{
    if can_exist_in(c, place) {
        let s = c.settings_or_new(place)->Ok_0;
        let m = crate::config::edit::put(s.entries(setting), key, value);
        lemma_with_settings(c, place, s.with_entries(setting, m));
    }
}

/// Removing an entry succeeds exactly when it is there. It is gone then, all others stay, and
/// nothing else differs.
pub proof fn removing_an_entry_removes_it(
    c: ConfigView,
    place: PlaceView,
    setting: EntrySetting,
    key: Seq<char>,
)
    ensures
        c.rm_entry(place, setting, key) is Ok <==> exists_in(c, place) && has_key(
            entries_in(settings_at(c, place), setting),
            key,
        ),
        c.rm_entry(place, setting, key) matches Ok((after, _)) ==> {
            let entries = entries_in(settings_at(after, place), setting);
            let before = entries_in(settings_at(c, place), setting);
            &&& exists_in(after, place)
            &&& entries is Some && !has_key(entries, key)
            &&& forall|x: Seq<char>|
                #![trigger has_key(entries, x)]
                x != key ==> (has_key(before, x) <==> has_key(entries, x)) && (has_key(before, x)
                    ==> entries->0[x] == before->0[x])
            &&& same_but_entries(settings_at(c, place), settings_at(after, place), setting)
            &&& differs_in_settings(c, after, place)
        },
{
    if exists_in(c, place) {
        let s = settings_at(c, place);
        if has_key(entries_in(s, setting), key) {
            lemma_with_settings(
                c,
                place,
                s.with_entries(setting, Some(entries_in(s, setting)->0.remove(key))),
            );
        }
    }
}

// ---------------------------------------------------------------------------
// Volumes
// ---------------------------------------------------------------------------
/// The volume with the two paths is in a list that may be missing.
pub open spec fn has_volume(
    list: Option<Seq<VolumeView>>,
    container: Seq<char>,
    host: Seq<char>,
) -> bool {
    list is Some && exists|i: int|
        0 <= i < list->0.len() && (#[trigger] list->0[i]).container == container && list->0[i].host
            == host
}

/// The settings are the same, but for the volumes.
pub open spec fn same_but_volumes(a: SettingsView, b: SettingsView) -> bool {
    &&& a.host_portmappings == b.host_portmappings
    &&& a.host_portmappings_override == b.host_portmappings_override
    &&& a.variables == b.variables
    &&& a.variables_override == b.variables_override
    &&& a.volumes_override == b.volumes_override
    &&& a.serve_command == b.serve_command
    &&& a.serve_command_override == b.serve_command_override
    &&& a.shell_command == b.shell_command
    &&& a.shell_command_override == b.shell_command_override
    &&& a.image_repository == b.image_repository
    &&& a.image_repository_override == b.image_repository_override
    &&& a.platform == b.platform
    &&& a.platform_override == b.platform_override
    &&& a.default_container_image == b.default_container_image
    &&& a.default_container_image_override == b.default_container_image_override
    &&& a.connection_type == b.connection_type
    &&& a.connection_type_override == b.connection_type_override
}

proof fn lemma_has_volume(list: Option<Seq<VolumeView>>, container: Seq<char>, host: Seq<char>)
    ensures
        has_volume(list, container, host) <==> list is Some && list->0.contains(
            VolumeView { container, host },
        ),
{
    let x = VolumeView { container, host };
    if list is Some && list->0.contains(x) {
        let i = list->0.index_of(x);
        assert(list->0[i].container == container && list->0[i].host == host);
    }
    if has_volume(list, container, host) {
        let i = choose|i: int|
            0 <= i < list->0.len() && (#[trigger] list->0[i]).container == container
                && list->0[i].host == host;
        assert(list->0[i] == x);
    }
}

/// Adding a volume succeeds exactly when the domain of the place exists and the place does not
/// have the volume. It stands behind all others then, which stay, and nothing else differs.
pub proof fn adding_a_volume_adds_it(
    c: ConfigView,
    place: PlaceView,
    container: Seq<char>,
    host: Seq<char>,
)
    ensures
        c.add_volume(place, container, host) is Ok <==> can_exist_in(c, place) && !(exists_in(
            c,
            place,
        ) && has_volume(settings_at(c, place).volumes, container, host)),
        c.add_volume(place, container, host) matches Ok((after, _)) ==> {
            let volumes = settings_at(after, place).volumes;
            &&& exists_in(after, place)
            &&& volumes is Some && volumes->0.len() > 0
            &&& volumes->0.last().container == container && volumes->0.last().host == host
            &&& forall|s: SettingsView| #[trigger]
                stood_at(c, place, s) ==> {
                    &&& s.volumes is None ==> volumes->0.len() == 1
                    &&& s.volumes is Some ==> volumes->0.drop_last() == s.volumes->0
                    &&& same_but_volumes(s, settings_at(after, place))
                }
            &&& differs_in_settings(c, after, place)
        },
{
    if can_exist_in(c, place) {
        let s = c.settings_or_new(place)->Ok_0;
        lemma_has_volume(s.volumes, container, host);
        let list = match s.volumes {
            Some(v) => v,
            None => Seq::empty(),
        };
        let longer = list.push(VolumeView { container, host });
        assert(longer.drop_last() =~= list);
        lemma_with_settings(c, place, s.with_volumes(Some(longer)));
    }
}

/// Removing a volume succeeds exactly when the place has it. It is gone then; the others stay,
/// in their order; and nothing else differs.
pub proof fn removing_a_volume_removes_it(
    c: ConfigView,
    place: PlaceView,
    container: Seq<char>,
    host: Seq<char>,
)
    ensures
        c.rm_volume(place, container, host) is Ok <==> exists_in(c, place) && has_volume(
            settings_at(c, place).volumes,
            container,
            host,
        ),
        c.rm_volume(place, container, host) matches Ok((after, _)) ==> {
            let volumes = settings_at(after, place).volumes;
            let before = settings_at(c, place).volumes->0;
            &&& exists_in(after, place)
            &&& volumes is Some && !has_volume(volumes, container, host)
            &&& is_without(before, volumes->0, VolumeView { container, host })
            &&& same_but_volumes(settings_at(c, place), settings_at(after, place))
            &&& differs_in_settings(c, after, place)
        },
{
    if exists_in(c, place) {
        let s = settings_at(c, place);
        lemma_has_volume(s.volumes, container, host);
        if has_volume(s.volumes, container, host) {
            let x = VolumeView { container, host };
            let rest = s.volumes->0.filter(|y: VolumeView| y != x);
            lemma_without(s.volumes->0, x);
            lemma_has_volume(Some(rest), container, host);
            lemma_with_settings(c, place, s.with_volumes(Some(rest)));
        }
    }
}

/// The second list is the first one without an item: the items before an occurrence of it and
/// those behind it, in their order.
pub open spec fn is_without<T>(before: Seq<T>, after: Seq<T>, x: T) -> bool
    decreases before.len(),
{
    if before.len() == 0 {
        after.len() == 0
    } else if before.last() == x {
        is_without(before.drop_last(), after, x)
    } else {
        after.len() > 0 && after.last() == before.last() && is_without(
            before.drop_last(),
            after.drop_last(),
            x,
        )
    }
}

proof fn lemma_without(v: Seq<VolumeView>, x: VolumeView)
    ensures
        is_without(v, v.filter(|y: VolumeView| y != x), x),
        !v.filter(|y: VolumeView| y != x).contains(x),
    decreases v.len(),
{
    reveal(Seq::filter);
    let keep = |y: VolumeView| y != x;
    if v.len() > 0 {
        let init = v.drop_last();
        lemma_without(init, x);
        let rest = init.filter(keep);
        if v.last() != x {
            let all = rest.push(v.last());
            assert(all.drop_last() =~= rest);
            if all.contains(x) {
                let i = all.index_of(x);
                assert(rest[i] == x);
            }
        }
    }
}

// ---------------------------------------------------------------------------
// Domains
// ---------------------------------------------------------------------------
/// The domain has a location and nothing else.
pub open spec fn is_new_domain(domain: DomainView, location: Seq<char>) -> bool {
    &&& domain.location == location
    &&& domain.groups is None
    &&& domain.default_environment is None
    &&& says_nothing(domain.settings)
}

/// Adding a domain succeeds exactly when there is none of that name. It then has its location
/// and nothing else, and nothing else differs.
pub proof fn adding_a_domain_adds_it(c: ConfigView, d: Seq<char>, location: Seq<char>)
    ensures
        c.add_domain(d, location) is Ok <==> !has_domain(c, d),
        c.add_domain(d, location) matches Ok((after, _)) ==> {
            &&& differs_at(c.domains, after.domains, d)
            &&& is_new_domain(after.domains->0[d], location)
            &&& same_in_general(c, after)
            &&& after.environments == c.environments
        },
{
}

/// The domain is gone, and nothing else differs.
pub open spec fn is_without_key<V>(
    before: Option<Map<Seq<char>, V>>,
    after: Option<Map<Seq<char>, V>>,
    k: Seq<char>,
) -> bool {
    &&& after is Some && !has_key(after, k)
    &&& forall|x: Seq<char>|
        #![trigger has_key(after, x)]
        x != k ==> (has_key(before, x) <==> has_key(after, x)) && (has_key(before, x) ==> after->0[x]
            == before->0[x])
}

/// Removing a domain succeeds exactly when it exists. It is gone then, and nothing else
/// differs.
pub proof fn removing_a_domain_removes_it(c: ConfigView, d: Seq<char>)
    ensures
        c.rm_domain(d) is Ok <==> has_domain(c, d),
        c.rm_domain(d) matches Ok((after, _)) ==> {
            &&& is_without_key(c.domains, after.domains, d)
            &&& same_in_general(c, after)
            &&& after.environments == c.environments
        },
{
}

/// Removing a group succeeds exactly when it exists. It is gone then, and nothing else
/// differs.
pub proof fn removing_a_group_removes_it(c: ConfigView, d: Seq<char>, g: Seq<char>)
    ensures
        c.rm_group(d, g) is Ok <==> has_group(c, d, g),
        c.rm_group(d, g) matches Ok((after, _)) ==> {
            let before = c.domains->0[d];
            let domain = after.domains->0[d];
            &&& differs_in_domain(c, after, d)
            &&& is_without_key(before.groups, domain.groups, g)
            &&& domain.location == before.location
            &&& domain.default_environment == before.default_environment
            &&& domain.settings == before.settings
        },
{
}

/// Removing a service succeeds exactly when it exists. It is gone then, and nothing else
/// differs.
pub proof fn removing_a_service_removes_it(
    c: ConfigView,
    d: Seq<char>,
    g: Seq<char>,
    s: Seq<char>,
)
    ensures
        c.rm_service(d, g, s) is Ok <==> has_service(c, d, g, s),
        c.rm_service(d, g, s) matches Ok((after, _)) ==> {
            let before = c.domains->0[d].groups->0[g];
            let group = after.domains->0[d].groups->0[g];
            &&& differs_in_group(c, after, d, g)
            &&& is_without_key(before.services, group.services, s)
            &&& group.default_environment == before.default_environment
            &&& group.settings == before.settings
        },
{
}

/// A parent has the domain, at the location, and no parent before it has the domain.
pub open spec fn is_first_location(parents: Seq<ConfigView>, d: Seq<char>, l: Seq<char>) -> bool {
    exists|i: int|
        {
            &&& 0 <= i < parents.len()
            &&& has_domain(#[trigger] parents[i], d)
            &&& parents[i].domains->0[d].location == l
            &&& forall|j: int| 0 <= j < i ==> !has_domain(#[trigger] parents[j], d)
        }
}

/// Some parent has the domain.
pub open spec fn some_parent_has(parents: Seq<ConfigView>, d: Seq<char>) -> bool {
    exists|i: int| 0 <= i < parents.len() && has_domain(#[trigger] parents[i], d)
}

proof fn lemma_first_location(parents: Seq<ConfigView>, d: Seq<char>)
    ensures
        match crate::config::edit::first_location(parents, d) {
            Some(l) => is_first_location(parents, d, l) && some_parent_has(parents, d),
            None => !some_parent_has(parents, d),
        },
    decreases parents.len(),
{
    if parents.len() > 0 {
        let rest = parents.drop_first();
        if has_domain(parents[0], d) {
            assert(has_domain(parents[0], d));
        } else {
            lemma_first_location(rest, d);
            match crate::config::edit::first_location(rest, d) {
                Some(l) => {
                    let i = choose|i: int|
                        {
                            &&& 0 <= i < rest.len()
                            &&& has_domain(#[trigger] rest[i], d)
                            &&& rest[i].domains->0[d].location == l
                            &&& forall|j: int| 0 <= j < i ==> !has_domain(#[trigger] rest[j], d)
                        };
                    assert(has_domain(parents[i + 1], d));
                    assert forall|j: int| 0 <= j < i + 1 implies !has_domain(
                        #[trigger] parents[j],
                        d,
                    ) by {
                        if j > 0 {
                            assert(parents[j] == rest[j - 1]);
                        }
                    }
                },
                None => {
                    assert forall|i: int| 0 <= i < parents.len() implies !has_domain(
                        #[trigger] parents[i],
                        d,
                    ) by {
                        if i > 0 {
                            assert(parents[i] == rest[i - 1]);
                        }
                    }
                },
            }
        }
    }
}

/// A domain that exists is left as it is. One that does not is created at the given location,
/// or else at the location that the first parent with the domain has; and where neither is to
/// be had, that is an error.
pub proof fn ensuring_a_domain_creates_it_where_it_belongs(
    c: ConfigView,
    d: Seq<char>,
    location: Option<Seq<char>>,
    parents: Seq<ConfigView>,
)
    ensures
        ({
            let r = c.ensure_domain(d, location, parents);
            &&& r is Ok <==> has_domain(c, d) || location is Some || some_parent_has(parents, d)
            &&& has_domain(c, d) ==> r->Ok_0.0 == c && r->Ok_0.1 is None
            &&& r is Ok && !has_domain(c, d) ==> {
                let after = r->Ok_0.0;
                &&& r->Ok_0.1 is Some
                &&& differs_at(c.domains, after.domains, d)
                &&& same_in_general(c, after)
                &&& after.environments == c.environments
                &&& location is Some ==> is_new_domain(after.domains->0[d], location->0)
                &&& location is None ==> is_new_domain(
                    after.domains->0[d],
                    after.domains->0[d].location,
                ) && is_first_location(parents, d, after.domains->0[d].location)
            }
        }),
{
    lemma_first_location(parents, d);
}

// ---------------------------------------------------------------------------
// Default environments
// ---------------------------------------------------------------------------
/// The default environment of a domain can be set where the domain and the environment exist;
/// that of a group or a service where the domain exists. It is set then, and nothing else
/// differs.
pub proof fn setting_a_default_environment_sets_it(
    c: ConfigView,
    d: Seq<char>,
    g: Seq<char>,
    s: Seq<char>,
    e: Seq<char>,
)
    ensures
        c.set_domain_default_environment(d, e) is Ok <==> has_key(c.environments, e) && has_domain(
            c,
            d,
        ),
        c.set_domain_default_environment(d, e) matches Ok(after) ==> {
            let before = c.domains->0[d];
            let domain = after.domains->0[d];
            &&& differs_in_domain(c, after, d)
            &&& domain.default_environment == Some(e)
            &&& domain.location == before.location
            &&& domain.groups == before.groups
            &&& domain.settings == before.settings
        },
        c.set_group_default_environment(d, g, e) is Ok <==> has_domain(c, d),
        c.set_group_default_environment(d, g, e) matches Ok(after) ==> {
            let before = c.domains->0[d].groups->0[g];
            let group = after.domains->0[d].groups->0[g];
            &&& differs_in_group(c, after, d, g)
            &&& group.default_environment == Some(e)
            &&& has_group(c, d, g) ==> group.services == before.services && group.settings
                == before.settings
            &&& !has_group(c, d, g) ==> group.services is None && says_nothing(group.settings)
        },
        c.set_service_default_environment(d, g, s, e) is Ok <==> has_domain(c, d),
        c.set_service_default_environment(d, g, s, e) matches Ok(after) ==> {
            let before = c.domains->0[d].groups->0[g].services->0[s];
            let service = after.domains->0[d].groups->0[g].services->0[s];
            &&& differs_in_service(c, after, d, g, s)
            &&& service.default_environment == Some(e)
            &&& has_service(c, d, g, s) ==> service.urls == before.urls && service.settings
                == before.settings
            &&& !has_service(c, d, g, s) ==> service.urls is None && says_nothing(service.settings)
        },
{
}

/// A default environment can be taken away where there is one. It is gone then, and nothing
/// else differs.
pub proof fn removing_a_default_environment_removes_it(
    c: ConfigView,
    d: Seq<char>,
    g: Seq<char>,
    s: Seq<char>,
)
    ensures
        c.rm_domain_default_environment(d) is Ok <==> has_domain(c, d)
            && c.domains->0[d].default_environment is Some,
        c.rm_domain_default_environment(d) matches Ok(after) ==> {
            let before = c.domains->0[d];
            let domain = after.domains->0[d];
            &&& differs_in_domain(c, after, d)
            &&& domain.default_environment is None
            &&& domain.location == before.location
            &&& domain.groups == before.groups
            &&& domain.settings == before.settings
        },
        c.rm_group_default_environment(d, g) is Ok <==> has_group(c, d, g)
            && c.domains->0[d].groups->0[g].default_environment is Some,
        c.rm_group_default_environment(d, g) matches Ok(after) ==> {
            let before = c.domains->0[d].groups->0[g];
            let group = after.domains->0[d].groups->0[g];
            &&& differs_in_group(c, after, d, g)
            &&& group.default_environment is None
            &&& group.services == before.services
            &&& group.settings == before.settings
        },
        c.rm_service_default_environment(d, g, s) is Ok <==> has_service(c, d, g, s)
            && c.domains->0[d].groups->0[g].services->0[s].default_environment is Some,
        c.rm_service_default_environment(d, g, s) matches Ok(after) ==> {
            let before = c.domains->0[d].groups->0[g].services->0[s];
            let service = after.domains->0[d].groups->0[g].services->0[s];
            &&& differs_in_service(c, after, d, g, s)
            &&& service.default_environment is None
            &&& service.urls == before.urls
            &&& service.settings == before.settings
        },
{
}

// ---------------------------------------------------------------------------
// Parents
// ---------------------------------------------------------------------------
/// The list of parents, which may be missing.
pub open spec fn parents_of(c: ConfigView) -> Seq<PreConfigView> {
    match c.pre_config {
        Some(v) => v,
        None => Seq::empty(),
    }
}

/// Some parent has the location.
pub open spec fn has_location(parents: Seq<PreConfigView>, location: Seq<char>) -> bool {
    exists|i: int| 0 <= i < parents.len() && (#[trigger] parents[i]).location == location
}

/// Everything but the parents is the same.
pub open spec fn same_but_parents(a: ConfigView, b: ConfigView) -> bool {
    &&& a.domains == b.domains
    &&& a.environments == b.environments
    &&& a.engine == b.engine
    &&& a.podman_machine == b.podman_machine
    &&& a.urls_in_hosts == b.urls_in_hosts
    &&& a.wsl == b.wsl
    &&& a.debug_port_base == b.debug_port_base
}

/// A parent can be added where none has its location. It stands behind the others then, with
/// its repository, and nothing else differs.
pub proof fn adding_a_parent_adds_it(
    c: ConfigView,
    location: Seq<char>,
    repo_location: Option<Seq<char>>,
)
    ensures
        c.add_pre_config(location, repo_location) is Ok <==> !has_location(parents_of(c), location),
        c.add_pre_config(location, repo_location) matches Ok(after) ==> {
            &&& parents_of(after).len() == parents_of(c).len() + 1
            &&& parents_of(after).drop_last() == parents_of(c)
            &&& parents_of(after).last().location == location
            &&& parents_of(after).last().repo_location == repo_location
            &&& same_but_parents(c, after)
        },
{
    if c.pre_config is None {
        assert(parents_of(c) =~= Seq::<PreConfigView>::empty());
    }
    if c.add_pre_config(location, repo_location) is Ok {
        let after = c.add_pre_config(location, repo_location)->Ok_0;
        assert(parents_of(after).drop_last() =~= parents_of(c));
    }
}

/// Parents with a location can be removed where there are any. They are gone then, and all
/// others stay, in their order. No empty list stays behind.
pub proof fn removing_a_parent_removes_it(c: ConfigView, location: Seq<char>)
    ensures
        c.rm_pre_config(location) is Ok <==> has_location(parents_of(c), location),
        c.rm_pre_config(location) matches Ok(after) ==> {
            &&& !has_location(parents_of(after), location)
            &&& keeps_the_rest(parents_of(c), parents_of(after), location)
            &&& after.pre_config is Some ==> after.pre_config->0.len() > 0
            &&& same_but_parents(c, after)
        },
{
    if c.rm_pre_config(location) is Ok {
        let after = c.rm_pre_config(location)->Ok_0;
        let v = c.pre_config->0;
        lemma_rest(v, location);
        let rest = v.filter(|p: PreConfigView| p.location != location);
        assert(parents_of(after) =~= rest);
    }
}

/// The second list holds the entries of the first one that have another location, in their
/// order.
pub open spec fn keeps_the_rest(
    before: Seq<PreConfigView>,
    after: Seq<PreConfigView>,
    location: Seq<char>,
) -> bool
    decreases before.len(),
{
    if before.len() == 0 {
        after.len() == 0
    } else if before.last().location == location {
        keeps_the_rest(before.drop_last(), after, location)
    } else {
        after.len() > 0 && after.last() == before.last() && keeps_the_rest(
            before.drop_last(),
            after.drop_last(),
            location,
        )
    }
}

proof fn lemma_rest(v: Seq<PreConfigView>, location: Seq<char>)
    ensures
        keeps_the_rest(v, v.filter(|p: PreConfigView| p.location != location), location),
        !has_location(v.filter(|p: PreConfigView| p.location != location), location),
    decreases v.len(),
{
    reveal(Seq::filter);
    let keep = |p: PreConfigView| p.location != location;
    if v.len() > 0 {
        let init = v.drop_last();
        lemma_rest(init, location);
        let rest = init.filter(keep);
        if v.last().location != location {
            let all = rest.push(v.last());
            assert(all.drop_last() =~= rest);
            if has_location(all, location) {
                let i = choose|i: int|
                    0 <= i < all.len() && (#[trigger] all[i]).location == location;
                assert(rest[i].location == location);
            }
        }
    }
}

} // verus!
