//! Editing groups.
use crate::config::connection::validate_connection_type;
use crate::config::edit::{
    checked_connection_type, done, done_noted, EntrySetting, Place, PlaceView, Setting,
};
use crate::config::model::Config;
use crate::config::places::{lemma_same_domain, lemma_same_group, missing_default_environment};
use crate::error::ConfigError;
use crate::text::{four, two};
use vstd::prelude::*;

verus! {

impl Config {
    /// Removes a group, and returns the notice to show.
    pub fn rm_group(&mut self, domain_name: &str, group_name: &str) -> (r: Result<
        String,
        ConfigError,
    >)
        ensures
            done_noted(
                old(self)@.rm_group(domain_name@, group_name@),
                old(self)@,
                final(self)@,
                r,
            ),
    {
        proof {
            if self@.domain(domain_name@) is Ok {
                lemma_same_domain(self@, domain_name@);
            }
        }
        match self.domain_mut(domain_name) {
            Err(e) => Err(e),
            Ok(domain) => match &mut domain.groups {
                None => Err(
                    ConfigError::new(two("No groups configured for domain ", domain_name)),
                ),
                Some(m) => {
                    if !m.contains_key(group_name) {
                        return Err(
                            ConfigError::new(
                                four(
                                    "group, ",
                                    group_name,
                                    ", does not exist in domain ",
                                    domain_name,
                                ),
                            ),
                        );
                    }
                    m.remove(group_name);
                    let mut notice = four(
                        "Removed group '",
                        group_name,
                        "' from domain '",
                        domain_name,
                    );
                    notice.append("'");
                    Ok(notice)
                },
            },
        }
    }

    /// Sets the default environment of a group. A group that does not exist is
    /// created.
    pub fn set_group_default_environment(
        &mut self,
        domain_name: &str,
        group_name: &str,
        env_name: &str,
    ) -> (r: Result<(), ConfigError>)
        ensures
            done(
                old(self)@.set_group_default_environment(domain_name@, group_name@, env_name@),
                old(self)@,
                final(self)@,
                r,
            ),
    {
        match self.group_or_new_mut(domain_name, group_name) {
            Err(e) => Err(e),
            Ok(group) => {
                group.default_environment = Some(env_name.to_string());
                Ok(())
            },
        }
    }

    /// Takes the default environment of a group away.
    pub fn rm_group_default_environment(&mut self, domain_name: &str, group_name: &str) -> (r:
        Result<(), ConfigError>)
        ensures
            done(
                old(self)@.rm_group_default_environment(domain_name@, group_name@),
                old(self)@,
                final(self)@,
                r,
            ),
    {
        proof {
            if self@.group(domain_name@, group_name@) is Ok {
                lemma_same_group(self@, domain_name@, group_name@);
            }
        }
        match self.group_mut(domain_name, group_name) {
            Err(e) => Err(e),
            Ok(group) => {
                if group.default_environment.is_none() {
                    return Err(
                        missing_default_environment(&Place::Group(domain_name, group_name)),
                    );
                }
                group.default_environment = None;
                Ok(())
            },
        }
    }

    /// Sets the `serve_command` of a group. A group that does not exist is created.
    pub fn set_group_serve_command(
        &mut self,
        domain_name: &str,
        group_name: &str,
        cmd: &str,
    ) -> (r: Result<(), ConfigError>)
        ensures
            done(
                old(self)@.set_value(
                    PlaceView::Group(domain_name@, group_name@),
                    Setting::ServeCommand,
                    cmd@,
                ),
                old(self)@,
                final(self)@,
                r,
            ),
    {
        self.set_value(&Place::Group(domain_name, group_name), Setting::ServeCommand, cmd)
    }

    /// Takes the `serve_command` of a group away.
    pub fn rm_group_serve_command(
        &mut self,
        domain_name: &str,
        group_name: &str,
    ) -> (r: Result<(), ConfigError>)
        ensures
            done(
                old(self)@.rm_value(
                    PlaceView::Group(domain_name@, group_name@),
                    Setting::ServeCommand,
                ),
                old(self)@,
                final(self)@,
                r,
            ),
    {
        self.rm_value(&Place::Group(domain_name, group_name), Setting::ServeCommand)
    }

    /// Sets the `shell_command` of a group. A group that does not exist is created.
    pub fn set_group_shell_command(
        &mut self,
        domain_name: &str,
        group_name: &str,
        cmd: &str,
    ) -> (r: Result<(), ConfigError>)
        ensures
            done(
                old(self)@.set_value(
                    PlaceView::Group(domain_name@, group_name@),
                    Setting::ShellCommand,
                    cmd@,
                ),
                old(self)@,
                final(self)@,
                r,
            ),
    {
        self.set_value(&Place::Group(domain_name, group_name), Setting::ShellCommand, cmd)
    }

    /// Takes the `shell_command` of a group away.
    pub fn rm_group_shell_command(
        &mut self,
        domain_name: &str,
        group_name: &str,
    ) -> (r: Result<(), ConfigError>)
        ensures
            done(
                old(self)@.rm_value(
                    PlaceView::Group(domain_name@, group_name@),
                    Setting::ShellCommand,
                ),
                old(self)@,
                final(self)@,
                r,
            ),
    {
        self.rm_value(&Place::Group(domain_name, group_name), Setting::ShellCommand)
    }

    /// Sets the `image_repository` of a group. A group that does not exist is created.
    pub fn set_group_image_repository(
        &mut self,
        domain_name: &str,
        group_name: &str,
        repo: &str,
    ) -> (r: Result<(), ConfigError>)
        ensures
            done(
                old(self)@.set_value(
                    PlaceView::Group(domain_name@, group_name@),
                    Setting::ImageRepository,
                    repo@,
                ),
                old(self)@,
                final(self)@,
                r,
            ),
    {
        self.set_value(&Place::Group(domain_name, group_name), Setting::ImageRepository, repo)
    }

    /// Takes the `image_repository` of a group away.
    pub fn rm_group_image_repository(
        &mut self,
        domain_name: &str,
        group_name: &str,
    ) -> (r: Result<(), ConfigError>)
        ensures
            done(
                old(self)@.rm_value(
                    PlaceView::Group(domain_name@, group_name@),
                    Setting::ImageRepository,
                ),
                old(self)@,
                final(self)@,
                r,
            ),
    {
        self.rm_value(&Place::Group(domain_name, group_name), Setting::ImageRepository)
    }

    /// Sets the `platform` of a group. A group that does not exist is created.
    pub fn set_group_platform(
        &mut self,
        domain_name: &str,
        group_name: &str,
        platform: &str,
    ) -> (r: Result<(), ConfigError>)
        ensures
            done(
                old(self)@.set_value(
                    PlaceView::Group(domain_name@, group_name@),
                    Setting::Platform,
                    platform@,
                ),
                old(self)@,
                final(self)@,
                r,
            ),
    {
        self.set_value(&Place::Group(domain_name, group_name), Setting::Platform, platform)
    }

    /// Takes the `platform` of a group away.
    pub fn rm_group_platform(
        &mut self,
        domain_name: &str,
        group_name: &str,
    ) -> (r: Result<(), ConfigError>)
        ensures
            done(
                old(self)@.rm_value(PlaceView::Group(domain_name@, group_name@), Setting::Platform),
                old(self)@,
                final(self)@,
                r,
            ),
    {
        self.rm_value(&Place::Group(domain_name, group_name), Setting::Platform)
    }

    /// Sets the `default_container_image` of a group. A group that does not exist is created.
    pub fn set_group_default_container_image(
        &mut self,
        domain_name: &str,
        group_name: &str,
        image: &str,
    ) -> (r: Result<(), ConfigError>)
        ensures
            done(
                old(self)@.set_value(
                    PlaceView::Group(domain_name@, group_name@),
                    Setting::DefaultContainerImage,
                    image@,
                ),
                old(self)@,
                final(self)@,
                r,
            ),
    {
        self.set_value(
            &Place::Group(domain_name, group_name),
            Setting::DefaultContainerImage,
            image,
        )
    }

    /// Takes the `default_container_image` of a group away.
    pub fn rm_group_default_container_image(
        &mut self,
        domain_name: &str,
        group_name: &str,
    ) -> (r: Result<(), ConfigError>)
        ensures
            done(
                old(self)@.rm_value(
                    PlaceView::Group(domain_name@, group_name@),
                    Setting::DefaultContainerImage,
                ),
                old(self)@,
                final(self)@,
                r,
            ),
    {
        self.rm_value(&Place::Group(domain_name, group_name), Setting::DefaultContainerImage)
    }

    /// Sets the `connection_type` of a group. A group that does not exist is created.
    pub fn set_group_connection_type(
        &mut self,
        domain_name: &str,
        group_name: &str,
        value: &str,
    ) -> (r: Result<(), ConfigError>)
        ensures
            done(
                checked_connection_type(
                    value@,
                    old(self)@.set_value(
                        PlaceView::Group(domain_name@, group_name@),
                        Setting::ConnectionType,
                        value@,
                    ),
                ),
                old(self)@,
                final(self)@,
                r,
            ),
    {
        match validate_connection_type(value) {
            Err(e) => Err(e),
            Ok(_) => self.set_value(
                &Place::Group(domain_name, group_name),
                Setting::ConnectionType,
                value,
            ),
        }
    }

    /// Takes the `connection_type` of a group away.
    pub fn rm_group_connection_type(
        &mut self,
        domain_name: &str,
        group_name: &str,
    ) -> (r: Result<(), ConfigError>)
        ensures
            done(
                old(self)@.rm_value(
                    PlaceView::Group(domain_name@, group_name@),
                    Setting::ConnectionType,
                ),
                old(self)@,
                final(self)@,
                r,
            ),
    {
        self.rm_value(&Place::Group(domain_name, group_name), Setting::ConnectionType)
    }

    /// Adds a port mapping to a group, and returns the notice to show.
    pub fn add_group_portmap(
        &mut self,
        domain_name: &str,
        group_name: &str,
        host_port: &str,
        container_port: &str,
    ) -> (r: Result<String, ConfigError>)
        ensures
            done_noted(
                old(self)@.add_entry(
                    PlaceView::Group(domain_name@, group_name@),
                    EntrySetting::HostPortmappings,
                    host_port@,
                    container_port@,
                ),
                old(self)@,
                final(self)@,
                r,
            ),
    {
        self.add_entry(
            &Place::Group(domain_name, group_name),
            EntrySetting::HostPortmappings,
            host_port,
            container_port,
        )
    }

    /// Removes a port mapping from a group, and returns the notice to show.
    pub fn rm_group_portmap(
        &mut self,
        domain_name: &str,
        group_name: &str,
        host_port: &str,
    ) -> (r: Result<String, ConfigError>)
        ensures
            done_noted(
                old(self)@.rm_entry(
                    PlaceView::Group(domain_name@, group_name@),
                    EntrySetting::HostPortmappings,
                    host_port@,
                ),
                old(self)@,
                final(self)@,
                r,
            ),
    {
        self.rm_entry(
            &Place::Group(domain_name, group_name),
            EntrySetting::HostPortmappings,
            host_port,
        )
    }

    /// Adds a variable to a group, and returns the notice to show.
    pub fn add_group_variable(
        &mut self,
        domain_name: &str,
        group_name: &str,
        name: &str,
        value: &str,
    ) -> (r: Result<String, ConfigError>)
        ensures
            done_noted(
                old(self)@.add_entry(
                    PlaceView::Group(domain_name@, group_name@),
                    EntrySetting::Variables,
                    name@,
                    value@,
                ),
                old(self)@,
                final(self)@,
                r,
            ),
    {
        self.add_entry(&Place::Group(domain_name, group_name), EntrySetting::Variables, name, value)
    }

    /// Removes a variable from a group, and returns the notice to show.
    pub fn rm_group_variable(
        &mut self,
        domain_name: &str,
        group_name: &str,
        name: &str,
    ) -> (r: Result<String, ConfigError>)
        ensures
            done_noted(
                old(self)@.rm_entry(
                    PlaceView::Group(domain_name@, group_name@),
                    EntrySetting::Variables,
                    name@,
                ),
                old(self)@,
                final(self)@,
                r,
            ),
    {
        self.rm_entry(&Place::Group(domain_name, group_name), EntrySetting::Variables, name)
    }

    /// Adds a volume to a group, and returns the notice to show.
    pub fn add_group_volume(
        &mut self,
        domain_name: &str,
        group_name: &str,
        container_dir: &str,
        host_dir: &str,
    ) -> (r: Result<String, ConfigError>)
        ensures
            done_noted(
                old(self)@.add_volume(
                    PlaceView::Group(domain_name@, group_name@),
                    container_dir@,
                    host_dir@,
                ),
                old(self)@,
                final(self)@,
                r,
            ),
    {
        self.add_volume_at(&Place::Group(domain_name, group_name), container_dir, host_dir)
    }

    /// Removes a volume from a group, and returns the notice to show.
    pub fn rm_group_volume(
        &mut self,
        domain_name: &str,
        group_name: &str,
        container_dir: &str,
        host_dir: &str,
    ) -> (r: Result<String, ConfigError>)
        ensures
            done_noted(
                old(self)@.rm_volume(
                    PlaceView::Group(domain_name@, group_name@),
                    container_dir@,
                    host_dir@,
                ),
                old(self)@,
                final(self)@,
                r,
            ),
    {
        self.rm_volume_at(&Place::Group(domain_name, group_name), container_dir, host_dir)
    }
}

} // verus!
