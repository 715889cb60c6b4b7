//! Parent configurations, yes-or-no values and host paths.
use crate::config::edit::done;
use crate::config::model::{Config, PreConfig, PreConfigView};
use crate::config::paths::{expand_host_path, home_directory, host_path, no_home, no_home_message};
use crate::error::ConfigError;
use crate::text::{lowered, str_eq, str_lowercase, str_trim, three, trim};
use vstd::prelude::*;

verus! {

// ---------------------------------------------------------------------------
// Parent configurations
// ---------------------------------------------------------------------------
fn has_location(entries: &Vec<PreConfig>, location: &str) -> (r: bool)
    ensures
        r == exists|i: int|
            0 <= i < entries.deep_view().len() && (#[trigger] entries.deep_view()[i]).location
                == location@,
{
    let mut i: usize = 0;
    while i < entries.len()
        invariant
            i <= entries@.len(),
            forall|k: int|
                0 <= k < i ==> (#[trigger] entries.deep_view()[k]).location != location@,
        decreases entries@.len() - i,
    {
        if str_eq(entries[i].location.as_str(), location) {
            assert(entries.deep_view()[i as int].location == location@);
            return true;
        }
        i += 1;
    }
    false
}

fn copy_parent(entry: &PreConfig) -> (r: PreConfig)
    ensures
        r.deep_view() == entry.deep_view(),
{
    PreConfig {
        location: entry.location.clone(),
        repo_location: match &entry.repo_location {
            Some(s) => Some(s.clone()),
            None => None,
        },
    }
}

fn without_location(entries: &Vec<PreConfig>, location: &str) -> (r: Vec<PreConfig>)
    ensures
        r.deep_view() == entries.deep_view().filter(|p: PreConfigView| p.location != location@),
{
    let ghost keep = |p: PreConfigView| p.location != location@;
    let ghost all = entries.deep_view();
    let mut kept: Vec<PreConfig> = Vec::new();
    let mut i: usize = 0;
    reveal(Seq::filter);
    assert(kept.deep_view() =~= all.take(0).filter(keep));
    while i < entries.len()
        invariant
            i <= entries@.len(),
            all == entries.deep_view(),
            keep == (|p: PreConfigView| p.location != location@),
            kept.deep_view() == all.take(i as int).filter(keep),
        decreases entries@.len() - i,
    {
        reveal(Seq::filter);
        let ghost before = kept.deep_view();
        assert(all.take(i as int + 1).drop_last() =~= all.take(i as int));
        assert(all.take(i as int + 1).last() == entries@[i as int].deep_view());
        if !str_eq(entries[i].location.as_str(), location) {
            kept.push(copy_parent(&entries[i]));
            assert(kept.deep_view() =~= before.push(all[i as int]));
        }
        i += 1;
    }
    assert(all.take(all.len() as int) =~= all);
    kept
}

impl Config {
    /// Adds a parent configuration. No two may have the same location.
    pub fn add_pre_config(&mut self, location: &str, repo_location: Option<&str>) -> (r: Result<
        (),
        ConfigError,
    >)
        ensures
            done(
                old(self)@.add_pre_config(
                    location@,
                    match repo_location {
                        Some(l) => Some(l@),
                        None => None,
                    },
                ),
                old(self)@,
                final(self)@,
                r,
            ),
    {
        let taken = match &self.pre_config {
            Some(entries) => has_location(entries, location),
            None => false,
        };
        if taken {
            return Err(
                ConfigError::new(
                    three("pre_config with location '", location, "' already exists"),
                ),
            );
        }
        if self.pre_config.is_none() {
            let none: Vec<PreConfig> = Vec::new();
            assert(none.deep_view() =~= Seq::<PreConfigView>::empty());
            self.pre_config = Some(none);
        }
        match &mut self.pre_config {
            Some(entries) => {
                let ghost all = entries.deep_view();
                let entry = PreConfig {
                    location: location.to_string(),
                    repo_location: match repo_location {
                        Some(l) => Some(l.to_string()),
                        None => None,
                    },
                };
                let ghost added = entry.deep_view();
                entries.push(entry);
                assert(entries.deep_view() =~= all.push(added));
            },
            None => {},
        }
        Ok(())
    }

    /// Removes the parent configuration with a location.
    pub fn rm_pre_config(&mut self, location: &str) -> (r: Result<(), ConfigError>)
        ensures
            done(old(self)@.rm_pre_config(location@), old(self)@, final(self)@, r),
    {
        let rest: Vec<PreConfig> = match &self.pre_config {
            None => {
                return Err(ConfigError::new("No pre_config entries configured".to_string()));
            },
            Some(entries) => {
                if !has_location(entries, location) {
                    return Err(
                        ConfigError::new(
                            three("pre_config with location '", location, "' does not exist"),
                        ),
                    );
                }
                without_location(entries, location)
            },
        };
        if rest.len() == 0 {
            self.pre_config = None;
        } else {
            self.pre_config = Some(rest);
        }
        Ok(())
    }
}

// ---------------------------------------------------------------------------
// Values
// ---------------------------------------------------------------------------
/// What a word in lower case says.
pub open spec fn word_value(word: Seq<char>) -> Option<bool> {
    if word == "true"@ || word == "1"@ || word == "yes"@ || word == "y"@ || word == "on"@ {
        Some(true)
    } else if word == "false"@ || word == "0"@ || word == "no"@ || word == "n"@ || word == "off"@ {
        Some(false)
    } else {
        None
    }
}

/// What a word in lower case says.
pub fn parse_bool_word(word: &str) -> (r: Option<bool>)
    ensures
        r == word_value(word@),
{
    if str_eq(word, "true") || str_eq(word, "1") || str_eq(word, "yes") || str_eq(word, "y")
        || str_eq(word, "on") {
        Some(true)
    } else if str_eq(word, "false") || str_eq(word, "0") || str_eq(word, "no") || str_eq(word, "n")
        || str_eq(word, "off") {
        Some(false)
    } else {
        None
    }
}

/// The message for a text that says neither yes nor no.
pub open spec fn bad_bool(s: Seq<char>) -> Seq<char> {
    "Invalid boolean value: "@ + s + " (expected TRUE/FALSE/yes/no/1/0)"@
}

/// The value was read, or the text that says neither yes nor no reported.
pub open spec fn reads(value: Option<bool>, s: Seq<char>, r: Result<bool, ConfigError>) -> bool {
    match value {
        Some(b) => r == Ok::<bool, ConfigError>(b),
        None => r is Err && r->Err_0@ == bad_bool(s),
    }
}

impl Config {
    /// Reads a yes-or-no value, in any case and with white space around it.
    pub fn parse_bool(&self, s: &str) -> (r: Result<bool, ConfigError>)
        ensures
            reads(word_value(lowered(trim(s@))), s@, r),
    {
        let word = str_lowercase(str_trim(s).as_str());
        match parse_bool_word(word.as_str()) {
            Some(b) => Ok(b),
            None => Err(
                ConfigError::new(
                    three("Invalid boolean value: ", s, " (expected TRUE/FALSE/yes/no/1/0)"),
                ),
            ),
        }
    }

    /// Replaces the tokens of a host path: `{pwd}`, `{home}` and `{domain}`, which is the
    /// location of the domain here.
    pub fn resolve_host_path(
        &self,
        template: &str,
        current_dir: &str,
        domain_location: &str,
    ) -> (r: Result<String, ConfigError>)
        ensures
            r matches Err(e) ==> e@ == no_home_message(),
            r matches Ok(path) ==> exists|home: Seq<char>|
                path@ == #[trigger] host_path(template@, current_dir@, home, domain_location@),
    {
        match home_directory() {
            None => Err(no_home()),
            Some(home) => Ok(
                expand_host_path(template, current_dir, home.as_str(), domain_location),
            ),
        }
    }
}

} // verus!
