//! What holds of edits in general.
use crate::config::edit::{or_empty, put, volume, EntrySetting, PlaceView, Setting};
use crate::config::model::{ConfigView, SettingsView, VolumeView};
use crate::config::operations::lemma_same_settings;
use vstd::prelude::*;

verus! {

/// The settings that were written to a place are the settings of the place, and a
/// later write replaces an earlier one.
pub proof fn settings_are_read_back(
    c: ConfigView,
    place: PlaceView,
    a: SettingsView,
    b: SettingsView,
)
    requires
        c.settings_or_new(place) is Ok,
    ensures
        c.with_settings(place, a).settings(place) == Ok::<SettingsView, Seq<char>>(a),
        c.with_settings(place, a).settings_or_new(place) == Ok::<SettingsView, Seq<char>>(a),
        c.with_settings(place, a).settings_to_shrink(place) == Ok::<SettingsView, Seq<char>>(a),
        c.with_settings(place, a).with_settings(place, b) == c.with_settings(place, b),
{
    let x = c.with_settings(place, a);
    let y = x.with_settings(place, b);
    let z = c.with_settings(place, b);
    match place {
        PlaceView::Domain(d) => {
            assert(y.domains->0 =~= z.domains->0);
        },
        PlaceView::Group(d, g) => {
            let gy = y.domain(d)->Ok_0.groups->0;
            let gz = z.domain(d)->Ok_0.groups->0;
            assert(gy =~= gz);
            assert(y.domains->0 =~= z.domains->0);
        },
        PlaceView::Service(d, g, s) => {
            let sy = y.group(d, g)->Ok_0.services->0;
            let sz = z.group(d, g)->Ok_0.services->0;
            assert(sy =~= sz);
            let gy = y.domain(d)->Ok_0.groups->0;
            let gz = z.domain(d)->Ok_0.groups->0;
            assert(gy =~= gz);
            assert(y.domains->0 =~= z.domains->0);
        },
        PlaceView::Environment(e) => {
            assert(y.environments->0 =~= z.environments->0);
        },
    }
}

/// The group or domain that a place lies in.
pub open spec fn lies_in(place: PlaceView, outer: PlaceView) -> bool {
    match (place, outer) {
        (PlaceView::Service(d, g, _), PlaceView::Group(e, h)) => d == e && g == h,
        _ => false,
    }
}

/// Writing the settings of one place leaves the settings of every other place as they
/// were, and brings no place into being but the place itself and the group that it
/// lies in.
pub proof fn other_places_stay_as_they_were(
    c: ConfigView,
    place: PlaceView,
    other: PlaceView,
    s: SettingsView,
)
    requires
        c.settings_or_new(place) is Ok,
        place != other,
    ensures
        c.settings(other) is Ok ==> c.with_settings(place, s).settings(other) == c.settings(other),
        c.with_settings(place, s).settings(other) is Ok ==> c.settings(other) is Ok || lies_in(
            place,
            other,
        ),
{
    let x = c.with_settings(place, s);
    match (place, other) {
        (PlaceView::Service(d, g, _), PlaceView::Service(e, h, _)) => {
            if d == e {
                assert(x.group(d, g) is Ok);
            }
        },
        _ => {},
    }
}

/// A value that was set is read back, and the other settings of the place stay as they
/// were.
pub proof fn set_value_is_read_back(
    c: ConfigView,
    place: PlaceView,
    setting: Setting,
    value: Seq<char>,
)
    requires
        c.set_value(place, setting, value) is Ok,
    ensures
        ({
            let after = c.set_value(place, setting, value)->Ok_0;
            &&& after.settings(place) is Ok
            &&& after.settings(place)->Ok_0.value(setting) == Some(value)
            &&& forall|other: Setting|
                other != setting ==> #[trigger] after.settings(place)->Ok_0.value(other)
                    == c.settings_or_new(place)->Ok_0.value(other)
            &&& forall|other: EntrySetting| #[trigger]
                after.settings(place)->Ok_0.entries(other) == c.settings_or_new(
                    place,
                )->Ok_0.entries(other)
            &&& after.settings(place)->Ok_0.volumes == c.settings_or_new(place)->Ok_0.volumes
        }),
{
    let s = c.settings_or_new(place)->Ok_0;
    settings_are_read_back(c, place, s.with_value(setting, Some(value)), s);
}

/// Taking a value away undoes setting it, where there was none before.
pub proof fn removing_a_value_undoes_setting_it(
    c: ConfigView,
    place: PlaceView,
    setting: Setting,
    value: Seq<char>,
)
    requires
        c.settings(place) is Ok,
        c.settings(place)->Ok_0.value(setting) is None,
    ensures
        c.set_value(place, setting, value) is Ok,
        c.set_value(place, setting, value)->Ok_0.rm_value(place, setting) == Ok::<
            ConfigView,
            Seq<char>,
        >(c),
{
    lemma_same_settings(c, place);
    let s = c.settings(place)->Ok_0;
    let with = s.with_value(setting, Some(value));
    settings_are_read_back(c, place, with, with.with_value(setting, None));
    assert(with.with_value(setting, None) == s);
}

/// An entry that was added is there, cannot be added again, and removing it gives the
/// configuration back, but for a map that exists, though it be empty.
pub proof fn removing_an_entry_undoes_adding_it(
    c: ConfigView,
    place: PlaceView,
    setting: EntrySetting,
    key: Seq<char>,
    value: Seq<char>,
)
    requires
        c.add_entry(place, setting, key, value) is Ok,
    ensures
        ({
            let s = c.settings_or_new(place)->Ok_0;
            let after = c.add_entry(place, setting, key, value)->Ok_0.0;
            &&& after.settings(place) is Ok
            &&& after.settings(place)->Ok_0.entries(setting) == put(
                s.entries(setting),
                key,
                value,
            )
            &&& after.add_entry(place, setting, key, value) is Err
            &&& after.rm_entry(place, setting, key) is Ok
            &&& after.rm_entry(place, setting, key)->Ok_0.0 == c.with_settings(
                place,
                s.with_entries(setting, Some(or_empty(s.entries(setting)))),
            )
        }),
        c.settings(place) is Ok && c.settings(place)->Ok_0.entries(setting) is Some
            ==> c.add_entry(place, setting, key, value)->Ok_0.0.rm_entry(
            place,
            setting,
            key,
        )->Ok_0.0 == c,
{
    let s = c.settings_or_new(place)->Ok_0;
    let with = s.with_entries(setting, put(s.entries(setting), key, value));
    let m = or_empty(s.entries(setting));
    let without = with.with_entries(setting, Some(m.insert(key, value).remove(key)));
    settings_are_read_back(c, place, with, without);
    assert(m.insert(key, value).remove(key) =~= m);
    assert(without == s.with_entries(setting, Some(m)));
    if c.settings(place) is Ok && c.settings(place)->Ok_0.entries(setting) is Some {
        lemma_same_settings(c, place);
        assert(s.with_entries(setting, Some(m)) == s);
    }
}

/// Filtering out what a list does not hold changes nothing.
proof fn lemma_filter_absent(v: Seq<VolumeView>, x: VolumeView)
    requires
        !v.contains(x),
    ensures
        v.filter(|y: VolumeView| y != x) == v,
        v.push(x).filter(|y: VolumeView| y != x) == v,
    decreases v.len(),
{
    reveal(Seq::filter);
    let keep = |y: VolumeView| y != x;
    if v.len() > 0 {
        let init = v.drop_last();
        assert(!init.contains(x)) by {
            if init.contains(x) {
                let i = init.index_of(x);
                assert(v[i] == x);
            }
        }
        lemma_filter_absent(init, x);
        assert(v[v.len() - 1] != x);
        assert(init.push(v.last()) =~= v);
    }
    assert(v.push(x).drop_last() =~= v);
    assert(v.filter(keep) =~= v);
}

/// A volume that was added is there, cannot be added again, and removing it gives the
/// configuration back, where the place had volumes before.
pub proof fn removing_a_volume_undoes_adding_it(
    c: ConfigView,
    place: PlaceView,
    container: Seq<char>,
    host: Seq<char>,
)
    requires
        c.add_volume(place, container, host) is Ok,
    ensures
        ({
            let after = c.add_volume(place, container, host)->Ok_0.0;
            &&& after.settings(place) is Ok
            &&& after.settings(place)->Ok_0.volumes is Some
            &&& after.settings(place)->Ok_0.volumes->0.contains(volume(container, host))
            &&& after.add_volume(place, container, host) is Err
            &&& after.rm_volume(place, container, host) is Ok
        }),
        c.settings(place) is Ok && c.settings(place)->Ok_0.volumes is Some ==> c.add_volume(
            place,
            container,
            host,
        )->Ok_0.0.rm_volume(place, container, host)->Ok_0.0 == c,
{
    let s = c.settings_or_new(place)->Ok_0;
    let v = match s.volumes {
        Some(v) => v,
        None => Seq::empty(),
    };
    let x = volume(container, host);
    let with = s.with_volumes(Some(v.push(x)));
    assert(v.push(x)[v.len() as int] == x);
    assert(v.push(x).contains(x));
    lemma_filter_absent(v, x);
    let without = with.with_volumes(Some(v.push(x).filter(|y: VolumeView| y != x)));
    settings_are_read_back(c, place, with, without);
    if c.settings(place) is Ok && c.settings(place)->Ok_0.volumes is Some {
        lemma_same_settings(c, place);
        assert(without == s);
    }
}

/// A domain that was made sure of exists, and making sure of it again changes nothing.
pub proof fn ensured_domain_exists(
    c: ConfigView,
    d: Seq<char>,
    location: Option<Seq<char>>,
    parents: Seq<ConfigView>,
)
    requires
        c.ensure_domain(d, location, parents) is Ok,
    ensures
        ({
            let after = c.ensure_domain(d, location, parents)->Ok_0.0;
            &&& after.domain(d) is Ok
            &&& after.ensure_domain(d, location, parents) == Ok::<
                (ConfigView, Option<Seq<char>>),
                Seq<char>,
            >((after, None))
            &&& c.domain(d) is Ok ==> after == c
        }),
{
}

/// Removing a domain undoes adding it, but for a map of domains that exists, though it
/// be empty. A domain cannot be added twice.
pub proof fn removing_a_domain_undoes_adding_it(c: ConfigView, d: Seq<char>, location: Seq<char>)
    requires
        c.add_domain(d, location) is Ok,
    ensures
        c.add_domain(d, location)->Ok_0.0.domain(d) is Ok,
        c.add_domain(d, location)->Ok_0.0.domain(d)->Ok_0.location == location,
        c.add_domain(d, location)->Ok_0.0.add_domain(d, location) is Err,
        c.add_domain(d, location)->Ok_0.0.rm_domain(d) is Ok,
        c.add_domain(d, location)->Ok_0.0.rm_domain(d)->Ok_0.0 == c.with_domain_map(),
{
    let m = or_empty(c.domains);
    let x = c.add_domain(d, location)->Ok_0.0;
    assert(x.domains->0.remove(d) =~= m);
}

} // verus!
