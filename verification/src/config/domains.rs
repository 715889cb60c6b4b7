//! Editing domains.
use crate::config::connection::validate_connection_type;
use crate::config::edit::{
    checked_connection_type, done, done_noted, first_location, EntrySetting, Place, PlaceView,
    Setting,
};
use crate::config::model::{Config, Domain};
use crate::config::places::{lemma_same_domain, missing_default_environment, missing_environment};
use crate::error::ConfigError;
use crate::map::StrMap;
use crate::text::{four, three};
use vstd::prelude::*;

verus! {

impl Config {
    /// Adds a domain at a location, and returns the notice to show.
    pub fn add_domain(&mut self, name: &str, location: &str) -> (r: Result<String, ConfigError>)
        ensures
            done_noted(
                old(self)@.add_domain(name@, location@),
                old(self)@,
                final(self)@,
                r,
            ),
    {
        let taken = match &self.domains {
            Some(m) => m.contains_key(name),
            None => false,
        };
        if taken {
            return Err(ConfigError::new(three("Domain '", name, "' already exists.")));
        }
        if self.domains.is_none() {
            self.domains = Some(StrMap::new());
        }
        match &mut self.domains {
            Some(m) => {
                let mut domain = Domain::default();
                domain.location = location.to_string();
                m.insert(name.to_string(), domain);
            },
            None => {},
        }
        Ok(four("created '", name, "' at ", location))
    }

    /// Must the parents be looked into to tell where a domain is to be created?
    pub fn needs_parents(&self, domain_name: &str, location: Option<&str>) -> (r: bool)
        ensures
            r == (self@.domain(domain_name@) is Err && location is None),
    {
        match &self.domains {
            Some(m) => !m.contains_key(domain_name) && location.is_none(),
            None => location.is_none(),
        }
    }

    /// The location of a domain, where there is such a domain.
    pub fn domain_location(&self, domain_name: &str) -> (r: Option<String>)
        ensures
            r.deep_view() == match self@.domain(domain_name@) {
                Ok(domain) => Some(domain.location),
                Err(_) => None,
            },
    {
        match &self.domains {
            Some(m) => match m.get(domain_name) {
                Some(domain) => Some(domain.location.clone()),
                None => None,
            },
            None => None,
        }
    }

    /// Makes sure that a domain exists, and returns the notice to show where it was
    /// created.
    ///
    /// A domain that does not exist is created at `location`. Where none is given, the
    /// first of the parent configurations that has the domain says where. The map of
    /// domains exists afterwards, though it be empty.
    pub fn ensure_domain_exists(
        &mut self,
        domain_name: &str,
        location: Option<&str>,
        parents: &Vec<Config>,
    ) -> (r: Result<Option<String>, ConfigError>)
        ensures
            match old(self)@.ensure_domain(
                domain_name@,
                match location {
                    Some(l) => Some(l@),
                    None => None,
                },
                parents.deep_view(),
            ) {
                Ok((after, notice)) => r is Ok && r->Ok_0.deep_view() == notice && final(self)@
                    == after,
                Err(message) => r is Err
                    && r->Err_0@ == message
                    && final(self)@ == old(self)@.with_domain_map(),
            },
    {
        if self.domains.is_none() {
            self.domains = Some(StrMap::new());
        }
        let exists_already = match &self.domains {
            Some(m) => m.contains_key(domain_name),
            None => false,
        };
        if exists_already {
            return Ok(None);
        }
        let place = match location {
            Some(l) => Some(l.to_string()),
            None => find_location(parents, domain_name),
        };
        match place {
            Some(l) => match self.add_domain(domain_name, l.as_str()) {
                Ok(notice) => Ok(Some(notice)),
                Err(e) => Err(e),
            },
            None => Err(
                ConfigError::new(
                    three(
                        "domain '",
                        domain_name,
                        "' does not exist. Use -l <path> to create it.",
                    ),
                ),
            ),
        }
    }

    /// Removes a domain, and returns the notice to show.
    pub fn rm_domain(&mut self, name: &str) -> (r: Result<String, ConfigError>)
        ensures
            done_noted(old(self)@.rm_domain(name@), old(self)@, final(self)@, r),
    {
        match &mut self.domains {
            None => Err(ConfigError::new("no domains configured".to_string())),
            Some(m) => {
                if !m.contains_key(name) {
                    return Err(ConfigError::new(three("domain ", name, " does not exist")));
                }
                m.remove(name);
                Ok(three("removed '", name, "'"))
            },
        }
    }

    /// Sets the default environment of a domain. The environment must exist.
    pub fn set_domain_default_environment(&mut self, domain_name: &str, env_name: &str) -> (r:
        Result<(), ConfigError>)
        ensures
            done(
                old(self)@.set_domain_default_environment(domain_name@, env_name@),
                old(self)@,
                final(self)@,
                r,
            ),
    {
        let known = match &self.environments {
            Some(m) => m.contains_key(env_name),
            None => false,
        };
        if !known {
            return Err(missing_environment(env_name));
        }
        match self.domain_mut(domain_name) {
            Err(e) => Err(e),
            Ok(domain) => {
                domain.default_environment = Some(env_name.to_string());
                Ok(())
            },
        }
    }

    /// Takes the default environment of a domain away.
    pub fn rm_domain_default_environment(&mut self, domain_name: &str) -> (r: Result<
        (),
        ConfigError,
    >)
        ensures
            done(
                old(self)@.rm_domain_default_environment(domain_name@),
                old(self)@,
                final(self)@,
                r,
            ),
    {
        proof {
            if self@.domain(domain_name@) is Ok {
                lemma_same_domain(self@, domain_name@);
            }
        }
        match self.domain_mut(domain_name) {
            Err(e) => Err(e),
            Ok(domain) => {
                if domain.default_environment.is_none() {
                    return Err(missing_default_environment(&Place::Domain(domain_name)));
                }
                domain.default_environment = None;
                Ok(())
            },
        }
    }

    /// Sets the `serve_command` of a domain.
    pub fn set_domain_serve_command(
        &mut self,
        domain_name: &str,
        cmd: &str,
    ) -> (r: Result<(), ConfigError>)
        ensures
            done(
                old(self)@.set_value(PlaceView::Domain(domain_name@), Setting::ServeCommand, cmd@),
                old(self)@,
                final(self)@,
                r,
            ),
    {
        self.set_value(&Place::Domain(domain_name), Setting::ServeCommand, cmd)
    }

    /// Takes the `serve_command` of a domain away.
    pub fn rm_domain_serve_command(&mut self, domain_name: &str) -> (r: Result<(), ConfigError>)
        ensures
            done(
                old(self)@.rm_value(PlaceView::Domain(domain_name@), Setting::ServeCommand),
                old(self)@,
                final(self)@,
                r,
            ),
    {
        self.rm_value(&Place::Domain(domain_name), Setting::ServeCommand)
    }

    /// Sets the `shell_command` of a domain.
    pub fn set_domain_shell_command(
        &mut self,
        domain_name: &str,
        cmd: &str,
    ) -> (r: Result<(), ConfigError>)
        ensures
            done(
                old(self)@.set_value(PlaceView::Domain(domain_name@), Setting::ShellCommand, cmd@),
                old(self)@,
                final(self)@,
                r,
            ),
    {
        self.set_value(&Place::Domain(domain_name), Setting::ShellCommand, cmd)
    }

    /// Takes the `shell_command` of a domain away.
    pub fn rm_domain_shell_command(&mut self, domain_name: &str) -> (r: Result<(), ConfigError>)
        ensures
            done(
                old(self)@.rm_value(PlaceView::Domain(domain_name@), Setting::ShellCommand),
                old(self)@,
                final(self)@,
                r,
            ),
    {
        self.rm_value(&Place::Domain(domain_name), Setting::ShellCommand)
    }

    /// Sets the `image_repository` of a domain.
    pub fn set_domain_image_repository(
        &mut self,
        domain_name: &str,
        repo: &str,
    ) -> (r: Result<(), ConfigError>)
        ensures
            done(
                old(self)@.set_value(
                    PlaceView::Domain(domain_name@),
                    Setting::ImageRepository,
                    repo@,
                ),
                old(self)@,
                final(self)@,
                r,
            ),
    {
        self.set_value(&Place::Domain(domain_name), Setting::ImageRepository, repo)
    }

    /// Takes the `image_repository` of a domain away.
    pub fn rm_domain_image_repository(&mut self, domain_name: &str) -> (r: Result<(), ConfigError>)
        ensures
            done(
                old(self)@.rm_value(PlaceView::Domain(domain_name@), Setting::ImageRepository),
                old(self)@,
                final(self)@,
                r,
            ),
    {
        self.rm_value(&Place::Domain(domain_name), Setting::ImageRepository)
    }

    /// Sets the `platform` of a domain.
    pub fn set_domain_platform(
        &mut self,
        domain_name: &str,
        platform: &str,
    ) -> (r: Result<(), ConfigError>)
        ensures
            done(
                old(self)@.set_value(PlaceView::Domain(domain_name@), Setting::Platform, platform@),
                old(self)@,
                final(self)@,
                r,
            ),
    {
        self.set_value(&Place::Domain(domain_name), Setting::Platform, platform)
    }

    /// Takes the `platform` of a domain away.
    pub fn rm_domain_platform(&mut self, domain_name: &str) -> (r: Result<(), ConfigError>)
        ensures
            done(
                old(self)@.rm_value(PlaceView::Domain(domain_name@), Setting::Platform),
                old(self)@,
                final(self)@,
                r,
            ),
    {
        self.rm_value(&Place::Domain(domain_name), Setting::Platform)
    }

    /// Sets the `default_container_image` of a domain.
    pub fn set_domain_default_container_image(
        &mut self,
        domain_name: &str,
        image: &str,
    ) -> (r: Result<(), ConfigError>)
        ensures
            done(
                old(self)@.set_value(
                    PlaceView::Domain(domain_name@),
                    Setting::DefaultContainerImage,
                    image@,
                ),
                old(self)@,
                final(self)@,
                r,
            ),
    {
        self.set_value(&Place::Domain(domain_name), Setting::DefaultContainerImage, image)
    }

    /// Takes the `default_container_image` of a domain away.
    pub fn rm_domain_default_container_image(
        &mut self,
        domain_name: &str,
    ) -> (r: Result<(), ConfigError>)
        ensures
            done(
                old(self)@.rm_value(
                    PlaceView::Domain(domain_name@),
                    Setting::DefaultContainerImage,
                ),
                old(self)@,
                final(self)@,
                r,
            ),
    {
        self.rm_value(&Place::Domain(domain_name), Setting::DefaultContainerImage)
    }

    /// Sets the `connection_type` of a domain.
    pub fn set_domain_connection_type(
        &mut self,
        domain_name: &str,
        value: &str,
    ) -> (r: Result<(), ConfigError>)
        ensures
            done(
                checked_connection_type(
                    value@,
                    old(self)@.set_value(
                        PlaceView::Domain(domain_name@),
                        Setting::ConnectionType,
                        value@,
                    ),
                ),
                old(self)@,
                final(self)@,
                r,
            ),
    {
        match validate_connection_type(value) {
            Err(e) => Err(e),
            Ok(_) => self.set_value(&Place::Domain(domain_name), Setting::ConnectionType, value),
        }
    }

    /// Takes the `connection_type` of a domain away.
    pub fn rm_domain_connection_type(&mut self, domain_name: &str) -> (r: Result<(), ConfigError>)
        ensures
            done(
                old(self)@.rm_value(PlaceView::Domain(domain_name@), Setting::ConnectionType),
                old(self)@,
                final(self)@,
                r,
            ),
    {
        self.rm_value(&Place::Domain(domain_name), Setting::ConnectionType)
    }

    /// Adds a port mapping to a domain, and returns the notice to show.
    pub fn add_domain_portmap(
        &mut self,
        domain_name: &str,
        host_port: &str,
        container_port: &str,
    ) -> (r: Result<String, ConfigError>)
        ensures
            done_noted(
                old(self)@.add_entry(
                    PlaceView::Domain(domain_name@),
                    EntrySetting::HostPortmappings,
                    host_port@,
                    container_port@,
                ),
                old(self)@,
                final(self)@,
                r,
            ),
    {
        self.add_entry(
            &Place::Domain(domain_name),
            EntrySetting::HostPortmappings,
            host_port,
            container_port,
        )
    }

    /// Removes a port mapping from a domain, and returns the notice to show.
    pub fn rm_domain_portmap(
        &mut self,
        domain_name: &str,
        host_port: &str,
    ) -> (r: Result<String, ConfigError>)
        ensures
            done_noted(
                old(self)@.rm_entry(
                    PlaceView::Domain(domain_name@),
                    EntrySetting::HostPortmappings,
                    host_port@,
                ),
                old(self)@,
                final(self)@,
                r,
            ),
    {
        self.rm_entry(&Place::Domain(domain_name), EntrySetting::HostPortmappings, host_port)
    }

    /// Adds a variable to a domain, and returns the notice to show.
    pub fn add_domain_variable(
        &mut self,
        domain_name: &str,
        name: &str,
        value: &str,
    ) -> (r: Result<String, ConfigError>)
        ensures
            done_noted(
                old(self)@.add_entry(
                    PlaceView::Domain(domain_name@),
                    EntrySetting::Variables,
                    name@,
                    value@,
                ),
                old(self)@,
                final(self)@,
                r,
            ),
    {
        self.add_entry(&Place::Domain(domain_name), EntrySetting::Variables, name, value)
    }

    /// Removes a variable from a domain, and returns the notice to show.
    pub fn rm_domain_variable(
        &mut self,
        domain_name: &str,
        name: &str,
    ) -> (r: Result<String, ConfigError>)
        ensures
            done_noted(
                old(self)@.rm_entry(
                    PlaceView::Domain(domain_name@),
                    EntrySetting::Variables,
                    name@,
                ),
                old(self)@,
                final(self)@,
                r,
            ),
    {
        self.rm_entry(&Place::Domain(domain_name), EntrySetting::Variables, name)
    }

    /// Adds a volume to a domain, and returns the notice to show.
    pub fn add_domain_volume(
        &mut self,
        domain_name: &str,
        container_dir: &str,
        host_dir: &str,
    ) -> (r: Result<String, ConfigError>)
        ensures
            done_noted(
                old(self)@.add_volume(PlaceView::Domain(domain_name@), container_dir@, host_dir@),
                old(self)@,
                final(self)@,
                r,
            ),
    {
        self.add_volume_at(&Place::Domain(domain_name), container_dir, host_dir)
    }

    /// Removes a volume from a domain, and returns the notice to show.
    pub fn rm_domain_volume(
        &mut self,
        domain_name: &str,
        container_dir: &str,
        host_dir: &str,
    ) -> (r: Result<String, ConfigError>)
        ensures
            done_noted(
                old(self)@.rm_volume(PlaceView::Domain(domain_name@), container_dir@, host_dir@),
                old(self)@,
                final(self)@,
                r,
            ),
    {
        self.rm_volume_at(&Place::Domain(domain_name), container_dir, host_dir)
    }
}

fn find_location(parents: &Vec<Config>, domain_name: &str) -> (r: Option<String>)
    ensures
        r.deep_view() == first_location(parents.deep_view(), domain_name@),
{
    let ghost all = parents.deep_view();
    let mut i: usize = 0;
    assert(all.skip(0) =~= all);
    while i < parents.len()
        invariant
            i <= parents@.len(),
            all == parents.deep_view(),
            first_location(all, domain_name@) == first_location(all.skip(i as int), domain_name@),
        decreases parents@.len() - i,
    {
        assert(all.skip(i as int)[0] == parents@[i as int]@);
        assert(all.skip(i as int).drop_first() =~= all.skip(i as int + 1));
        let found = parents[i].domain_location(domain_name);
        if found.is_some() {
            return found;
        }
        i += 1;
    }
    None
}

} // verus!
