//! The operations on the settings of a place.
use crate::config::edit::{done, done_noted, volume, EntrySetting, Place, PlaceView, Setting};
use crate::config::model::{Config, ConfigView, SettingsView, Volume, VolumeView};
use crate::config::places::{lemma_same_domain, lemma_same_group, lemma_same_service};
use crate::error::ConfigError;
use crate::map::StrMap;
use crate::text::{four, str_eq, three, two};
use vstd::prelude::*;

verus! {

// ---------------------------------------------------------------------------
// Slots
// ---------------------------------------------------------------------------
impl Config {
    fn value_slot(&mut self, place: &Place, setting: Setting) -> (r: Result<
        &mut Option<String>,
        ConfigError,
    >)
        ensures
            match r {
                Ok(slot) => old(self)@.settings(place@) is Ok
                    && (*slot).deep_view() == old(self)@.settings(place@)->Ok_0.value(setting)
                    && final(self)@ == old(self)@.with_settings(
                    place@,
                    old(self)@.settings(place@)->Ok_0.with_value(
                        setting,
                        (*final(slot)).deep_view(),
                    ),
                ),
                Err(e) => old(self)@.settings(place@) == Err::<SettingsView, Seq<char>>(e@)
                    && final(self)@ == old(self)@,
            },
    {
        match *place {
            Place::Domain(d) => match self.domain_mut(d) {
                Ok(x) => Ok(x.value_slot(setting)),
                Err(e) => Err(e),
            },
            Place::Group(d, g) => match self.group_mut(d, g) {
                Ok(x) => Ok(x.value_slot(setting)),
                Err(e) => Err(e),
            },
            Place::Service(d, g, s) => match self.service_mut(d, g, s) {
                Ok(x) => Ok(x.value_slot(setting)),
                Err(e) => Err(e),
            },
            Place::Environment(e) => match self.environment_mut(e) {
                Ok(x) => Ok(x.value_slot(setting)),
                Err(e) => Err(e),
            },
        }
    }

    fn value_slot_or_new(&mut self, place: &Place, setting: Setting) -> (r: Result<
        &mut Option<String>,
        ConfigError,
    >)
        ensures
            match r {
                Ok(slot) => old(self)@.settings_or_new(place@) is Ok
                    && (*slot).deep_view() == old(self)@.settings_or_new(place@)->Ok_0.value(setting)
                    && final(self)@ == old(self)@.with_settings(
                    place@,
                    old(self)@.settings_or_new(place@)->Ok_0.with_value(
                        setting,
                        (*final(slot)).deep_view(),
                    ),
                ),
                Err(e) => old(self)@.settings_or_new(place@) == Err::<SettingsView, Seq<char>>(e@)
                    && final(self)@ == old(self)@,
            },
    {
        match *place {
            Place::Domain(d) => match self.domain_mut(d) {
                Ok(x) => Ok(x.value_slot(setting)),
                Err(e) => Err(e),
            },
            Place::Group(d, g) => match self.group_or_new_mut(d, g) {
                Ok(x) => Ok(x.value_slot(setting)),
                Err(e) => Err(e),
            },
            Place::Service(d, g, s) => match self.service_or_new_mut(d, g, s) {
                Ok(x) => Ok(x.value_slot(setting)),
                Err(e) => Err(e),
            },
            Place::Environment(e) => Ok(self.environment_or_new_mut(e).value_slot(setting)),
        }
    }

    fn entries_slot(&mut self, place: &Place, setting: EntrySetting) -> (r: Result<
        &mut Option<StrMap<String>>,
        ConfigError,
    >)
        ensures
            match r {
                Ok(slot) => old(self)@.settings_to_shrink(place@) is Ok && (*slot).deep_view()
                    == old(self)@.settings_to_shrink(place@)->Ok_0.entries(setting) && final(self)@
                    == old(self)@.with_settings(
                    place@,
                    old(self)@.settings_to_shrink(place@)->Ok_0.with_entries(
                        setting,
                        (*final(slot)).deep_view(),
                    ),
                ),
                Err(e) => old(self)@.settings_to_shrink(place@) == Err::<SettingsView, Seq<char>>(
                    e@,
                ) && final(self)@ == old(self)@,
            },
    {
        match *place {
            Place::Domain(d) => match self.domain_mut(d) {
                Ok(x) => Ok(x.entries_slot(setting)),
                Err(e) => Err(e),
            },
            Place::Group(d, g) => match self.group_mut(d, g) {
                Ok(x) => Ok(x.entries_slot(setting)),
                Err(e) => Err(e),
            },
            Place::Service(d, g, s) => match self.service_mut(d, g, s) {
                Ok(x) => Ok(x.entries_slot(setting)),
                Err(e) => Err(e),
            },
            Place::Environment(e) => {
                if self.environments.is_none() {
                    return Err(ConfigError::new("No environments configured".to_string()));
                }
                match self.environment_mut(e) {
                    Ok(x) => Ok(x.entries_slot(setting)),
                    Err(e) => Err(e),
                }
            },
        }
    }

    fn entries_slot_or_new(&mut self, place: &Place, setting: EntrySetting) -> (r: Result<
        &mut Option<StrMap<String>>,
        ConfigError,
    >)
        ensures
            match r {
                Ok(slot) => old(self)@.settings_or_new(place@) is Ok
                    && (*slot).deep_view() == old(self)@.settings_or_new(place@)->Ok_0.entries(setting)
                    && final(self)@ == old(self)@.with_settings(
                    place@,
                    old(self)@.settings_or_new(place@)->Ok_0.with_entries(
                        setting,
                        (*final(slot)).deep_view(),
                    ),
                ),
                Err(e) => old(self)@.settings_or_new(place@) == Err::<SettingsView, Seq<char>>(e@)
                    && final(self)@ == old(self)@,
            },
    {
        match *place {
            Place::Domain(d) => match self.domain_mut(d) {
                Ok(x) => Ok(x.entries_slot(setting)),
                Err(e) => Err(e),
            },
            Place::Group(d, g) => match self.group_or_new_mut(d, g) {
                Ok(x) => Ok(x.entries_slot(setting)),
                Err(e) => Err(e),
            },
            Place::Service(d, g, s) => match self.service_or_new_mut(d, g, s) {
                Ok(x) => Ok(x.entries_slot(setting)),
                Err(e) => Err(e),
            },
            Place::Environment(e) => Ok(self.environment_or_new_mut(e).entries_slot(setting)),
        }
    }

    fn volumes_slot(&mut self, place: &Place) -> (r: Result<&mut Option<Vec<Volume>>, ConfigError>)
        ensures
            match r {
                Ok(slot) => old(self)@.settings_to_shrink(place@) is Ok && (*slot).deep_view()
                    == old(self)@.settings_to_shrink(place@)->Ok_0.volumes && final(self)@ == old(self)@.with_settings(
                    place@,
                    old(self)@.settings_to_shrink(place@)->Ok_0.with_volumes(
                        (*final(slot)).deep_view(),
                    ),
                ),
                Err(e) => old(self)@.settings_to_shrink(place@) == Err::<SettingsView, Seq<char>>(
                    e@,
                ) && final(self)@ == old(self)@,
            },
    {
        match *place {
            Place::Domain(d) => match self.domain_mut(d) {
                Ok(x) => Ok(x.volumes_slot()),
                Err(e) => Err(e),
            },
            Place::Group(d, g) => match self.group_mut(d, g) {
                Ok(x) => Ok(x.volumes_slot()),
                Err(e) => Err(e),
            },
            Place::Service(d, g, s) => match self.service_mut(d, g, s) {
                Ok(x) => Ok(x.volumes_slot()),
                Err(e) => Err(e),
            },
            Place::Environment(e) => {
                if self.environments.is_none() {
                    return Err(ConfigError::new("No environments configured".to_string()));
                }
                match self.environment_mut(e) {
                    Ok(x) => Ok(x.volumes_slot()),
                    Err(e) => Err(e),
                }
            },
        }
    }

    fn volumes_slot_or_new(&mut self, place: &Place) -> (r: Result<
        &mut Option<Vec<Volume>>,
        ConfigError,
    >)
        ensures
            match r {
                Ok(slot) => old(self)@.settings_or_new(place@) is Ok
                    && (*slot).deep_view() == old(self)@.settings_or_new(place@)->Ok_0.volumes
                    && final(self)@ == old(self)@.with_settings(
                    place@,
                    old(self)@.settings_or_new(place@)->Ok_0.with_volumes(
                        (*final(slot)).deep_view(),
                    ),
                ),
                Err(e) => old(self)@.settings_or_new(place@) == Err::<SettingsView, Seq<char>>(e@)
                    && final(self)@ == old(self)@,
            },
    {
        match *place {
            Place::Domain(d) => match self.domain_mut(d) {
                Ok(x) => Ok(x.volumes_slot()),
                Err(e) => Err(e),
            },
            Place::Group(d, g) => match self.group_or_new_mut(d, g) {
                Ok(x) => Ok(x.volumes_slot()),
                Err(e) => Err(e),
            },
            Place::Service(d, g, s) => match self.service_or_new_mut(d, g, s) {
                Ok(x) => Ok(x.volumes_slot()),
                Err(e) => Err(e),
            },
            Place::Environment(e) => Ok(self.environment_or_new_mut(e).volumes_slot()),
        }
    }
}

/// Putting the settings of a place back changes nothing.
pub proof fn lemma_same_settings(c: ConfigView, place: PlaceView)
    requires
        c.settings(place) is Ok,
    ensures
        c.settings_or_new(place) == c.settings(place),
        c.with_settings(place, c.settings(place)->Ok_0) == c,
{
    match place {
        PlaceView::Domain(d) => {
            lemma_same_domain(c, d);
        },
        PlaceView::Group(d, g) => {
            lemma_same_group(c, d, g);
        },
        PlaceView::Service(d, g, s) => {
            lemma_same_service(c, d, g, s);
        },
        PlaceView::Environment(e) => {
            let m = c.environments->0;
            assert(m.insert(e, m[e]) =~= m);
        },
    }
}

// ---------------------------------------------------------------------------
// Operations
// ---------------------------------------------------------------------------
impl Config {
    pub(crate) fn set_value(&mut self, place: &Place, setting: Setting, value: &str) -> (r: Result<
        (),
        ConfigError,
    >)
        ensures
            done(old(self)@.set_value(place@, setting, value@), old(self)@, final(self)@, r),
    {
        match self.value_slot_or_new(place, setting) {
            Err(e) => Err(e),
            Ok(slot) => {
                *slot = Some(value.to_string());
                Ok(())
            },
        }
    }

    pub(crate) fn set_existing_value(&mut self, place: &Place, setting: Setting, value: &str) -> (r:
        Result<(), ConfigError>)
        ensures
            done(
                old(self)@.set_existing_value(place@, setting, value@),
                old(self)@,
                final(self)@,
                r,
            ),
    {
        match self.value_slot(place, setting) {
            Err(e) => Err(e),
            Ok(slot) => {
                *slot = Some(value.to_string());
                Ok(())
            },
        }
    }

    pub(crate) fn rm_value(&mut self, place: &Place, setting: Setting) -> (r: Result<
        (),
        ConfigError,
    >)
        ensures
            done(old(self)@.rm_value(place@, setting), old(self)@, final(self)@, r),
    {
        proof {
            if self@.settings(place@) is Ok {
                lemma_same_settings(self@, place@);
                lemma_same_value(self@.settings(place@)->Ok_0, setting);
            }
        }
        match self.value_slot(place, setting) {
            Err(e) => Err(e),
            Ok(slot) => {
                if slot.is_none() {
                    return Err(
                        ConfigError::new(
                            four(
                                place.describe_first().as_str(),
                                " has no ",
                                setting.describe(),
                                ".",
                            ),
                        ),
                    );
                }
                *slot = None;
                Ok(())
            },
        }
    }
}

impl Config {
    pub(crate) fn add_entry(
        &mut self,
        place: &Place,
        setting: EntrySetting,
        key: &str,
        value: &str,
    ) -> (r: Result<String, ConfigError>)
        ensures
            done_noted(
                old(self)@.add_entry(place@, setting, key@, value@),
                old(self)@,
                final(self)@,
                r,
            ),
    {
        let ghost before = self@;
        match self.entries_slot_or_new(place, setting) {
            Err(e) => Err(e),
            Ok(slot) => {
                let ghost s = before.settings_or_new(place@)->Ok_0;
                let taken = match &*slot {
                    Some(m) => m.contains_key(key),
                    None => false,
                };
                if taken {
                    proof {
                        lemma_entries_exist(before, place@, setting);
                        lemma_same_settings(before, place@);
                        lemma_same_entries(s, setting);
                    }
                    return Err(
                        ConfigError::new(
                            four(
                                place.describe_entry(setting).as_str(),
                                " (",
                                key,
                                ":____) already exists",
                            ),
                        ),
                    );
                }
                if slot.is_none() {
                    *slot = Some(StrMap::new());
                }
                match slot {
                    Some(m) => {
                        m.insert(key.to_string(), value.to_string());
                    },
                    None => {},
                }
                let mut notice = four(
                    "Created ",
                    setting.entry_text(),
                    " for ",
                    place.describe_short().as_str(),
                );
                notice.append(" (");
                notice.append(key);
                notice.append(":");
                notice.append(value);
                notice.append(")");
                Ok(notice)
            },
        }
    }

    pub(crate) fn rm_entry(&mut self, place: &Place, setting: EntrySetting, key: &str) -> (r:
        Result<String, ConfigError>)
        ensures
            done_noted(
                old(self)@.rm_entry(place@, setting, key@),
                old(self)@,
                final(self)@,
                r,
            ),
    {
        let ghost before = self@;
        proof {
            if before.settings_to_shrink(place@) is Ok {
                lemma_same_settings(before, place@);
                lemma_same_entries(before.settings(place@)->Ok_0, setting);
            }
        }
        match self.entries_slot(place, setting) {
            Err(e) => Err(e),
            Ok(slot) => match slot {
                None => {
                    let mut message = three("No ", setting.key_text(), " configured");
                    match *place {
                        Place::Service(_d, _g, _s) => {},
                        _ => {
                            message = four(
                                "No ",
                                setting.key_text(),
                                " configured for ",
                                place.describe().as_str(),
                            );
                        },
                    }
                    Err(ConfigError::new(message))
                },
                Some(m) => {
                    if !m.contains_key(key) {
                        return Err(
                            ConfigError::new(
                                four(
                                    place.describe_entry(setting).as_str(),
                                    " (",
                                    key,
                                    ":____) does not exist",
                                ),
                            ),
                        );
                    }
                    m.remove(key);
                    let mut notice = four(
                        "Removed ",
                        setting.entry_text(),
                        " for ",
                        place.describe_short().as_str(),
                    );
                    notice.append(" (");
                    notice.append(key);
                    notice.append(":____)");
                    Ok(notice)
                },
            },
        }
    }

    pub(crate) fn add_volume_at(&mut self, place: &Place, container: &str, host: &str) -> (r:
        Result<String, ConfigError>)
        ensures
            done_noted(
                old(self)@.add_volume(place@, container@, host@),
                old(self)@,
                final(self)@,
                r,
            ),
    {
        let ghost before = self@;
        match self.volumes_slot_or_new(place) {
            Err(e) => Err(e),
            Ok(slot) => {
                let taken = match &*slot {
                    Some(v) => has_volume(v, container, host),
                    None => false,
                };
                if taken {
                    proof {
                        lemma_volumes_exist(before, place@);
                        lemma_same_settings(before, place@);
                    }
                    let mut message = four(
                        "Volume mapping already exists for ",
                        place.describe().as_str(),
                        ": ",
                        host,
                    );
                    message.append(" -> ");
                    message.append(container);
                    return Err(ConfigError::new(message));
                }
                if slot.is_none() {
                    let none: Vec<Volume> = Vec::new();
                    assert(none.deep_view() =~= Seq::<VolumeView>::empty());
                    *slot = Some(none);
                }
                match slot {
                    Some(v) => {
                        let ghost all = v.deep_view();
                        v.push(Volume { container: container.to_string(), host: host.to_string() });
                        assert(v.deep_view() =~= all.push(volume(container@, host@)));
                    },
                    None => {},
                }
                let mut notice = four(
                    "Added volume to ",
                    place.describe().as_str(),
                    ": ",
                    host,
                );
                notice.append(" -> ");
                notice.append(container);
                Ok(notice)
            },
        }
    }

    pub(crate) fn rm_volume_at(&mut self, place: &Place, container: &str, host: &str) -> (r: Result<
        String,
        ConfigError,
    >)
        ensures
            done_noted(
                old(self)@.rm_volume(place@, container@, host@),
                old(self)@,
                final(self)@,
                r,
            ),
    {
        let ghost before = self@;
        proof {
            if before.settings_to_shrink(place@) is Ok {
                lemma_same_settings(before, place@);
            }
        }
        match self.volumes_slot(place) {
            Err(e) => Err(e),
            Ok(slot) => match slot {
                None => Err(
                    ConfigError::new(
                        two("No volumes configured for ", place.describe().as_str()),
                    ),
                ),
                Some(v) => {
                    if !has_volume(v, container, host) {
                        let mut message = four(
                            "No matching volume found in ",
                            place.describe().as_str(),
                            " for host '",
                            host,
                        );
                        message.append("' -> container '");
                        message.append(container);
                        message.append("'");
                        return Err(ConfigError::new(message));
                    }
                    *v = without_volume(v, container, host);
                    let mut notice = four(
                        "Removed volume from ",
                        place.describe().as_str(),
                        ": ",
                        host,
                    );
                    notice.append(" -> ");
                    notice.append(container);
                    Ok(notice)
                },
            },
        }
    }
}

fn is_volume(v: &Volume, container: &str, host: &str) -> (r: bool)
    ensures
        r == (v.deep_view() == volume(container@, host@)),
{
    str_eq(v.container.as_str(), container) && str_eq(v.host.as_str(), host)
}

fn has_volume(volumes: &Vec<Volume>, container: &str, host: &str) -> (r: bool)
    ensures
        r == volumes.deep_view().contains(volume(container@, host@)),
{
    let mut i: usize = 0;
    while i < volumes.len()
        invariant
            i <= volumes@.len(),
            forall|k: int|
                0 <= k < i ==> (#[trigger] volumes.deep_view()[k]) != volume(container@, host@),
        decreases volumes@.len() - i,
    {
        if is_volume(&volumes[i], container, host) {
            assert(volumes.deep_view()[i as int] == volume(container@, host@));
            return true;
        }
        i += 1;
    }
    false
}

fn without_volume(volumes: &Vec<Volume>, container: &str, host: &str) -> (r: Vec<Volume>)
    ensures
        r.deep_view() == volumes.deep_view().filter(
            |x: VolumeView| x != volume(container@, host@),
        ),
{
    let ghost keep = |x: VolumeView| x != volume(container@, host@);
    let ghost all = volumes.deep_view();
    let mut kept: Vec<Volume> = Vec::new();
    let mut i: usize = 0;
    reveal(Seq::filter);
    assert(kept.deep_view() =~= all.take(0).filter(keep));
    while i < volumes.len()
        invariant
            i <= volumes@.len(),
            all == volumes.deep_view(),
            keep == (|x: VolumeView| x != volume(container@, host@)),
            kept.deep_view() == all.take(i as int).filter(keep),
        decreases volumes@.len() - i,
    {
        reveal(Seq::filter);
        let ghost before = kept.deep_view();
        assert(all.take(i as int + 1).drop_last() =~= all.take(i as int));
        assert(all.take(i as int + 1).last() == volumes@[i as int].deep_view());
        if !is_volume(&volumes[i], container, host) {
            kept.push(volumes[i].clone());
            assert(kept.deep_view() =~= before.push(all[i as int]));
        }
        i += 1;
    }
    assert(all.take(all.len() as int) =~= all);
    kept
}

/// A place that has entries exists.
proof fn lemma_entries_exist(c: ConfigView, place: PlaceView, setting: EntrySetting)
    requires
        c.settings_or_new(place) is Ok,
        c.settings_or_new(place)->Ok_0.entries(setting) is Some,
    ensures
        c.settings(place) is Ok,
{
}

/// A place that has volumes exists.
proof fn lemma_volumes_exist(c: ConfigView, place: PlaceView)
    requires
        c.settings_or_new(place) is Ok,
        c.settings_or_new(place)->Ok_0.volumes is Some,
    ensures
        c.settings(place) is Ok,
{
}

/// Putting the value of a setting back changes nothing.
proof fn lemma_same_value(s: SettingsView, setting: Setting)
    ensures
        s.with_value(setting, s.value(setting)) == s,
{
}

/// Putting the entries of a setting back changes nothing.
proof fn lemma_same_entries(s: SettingsView, setting: EntrySetting)
    ensures
        s.with_entries(setting, s.entries(setting)) == s,
{
}

} // verus!
