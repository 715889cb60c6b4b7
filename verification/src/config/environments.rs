//! Editing the settings of environments.
use crate::config::connection::validate_connection_type;
use crate::config::edit::{
    checked_connection_type, done, done_noted, EntrySetting, Place, PlaceView, Setting,
};
use crate::config::model::Config;
use crate::error::ConfigError;
use vstd::prelude::*;

verus! {

impl Config {
    /// Sets the `serve_command` of an environment.
    /// An environment that does not exist is created.
    pub fn set_serve_command(&mut self, env_name: &str, cmd: &str) -> (r: Result<(), ConfigError>)
        ensures
            done(
                old(self)@.set_value(
                    PlaceView::Environment(env_name@),
                    Setting::ServeCommand,
                    cmd@,
                ),
                old(self)@,
                final(self)@,
                r,
            ),
    {
        self.set_value(&Place::Environment(env_name), Setting::ServeCommand, cmd)
    }

    /// Takes the `serve_command` of an environment away.
    pub fn rm_serve_command(&mut self, env_name: &str) -> (r: Result<(), ConfigError>)
        ensures
            done(
                old(self)@.rm_value(PlaceView::Environment(env_name@), Setting::ServeCommand),
                old(self)@,
                final(self)@,
                r,
            ),
    {
        self.rm_value(&Place::Environment(env_name), Setting::ServeCommand)
    }

    /// Sets the `shell_command` of an environment.
    pub fn set_shell_command(&mut self, env_name: &str, cmd: &str) -> (r: Result<(), ConfigError>)
        ensures
            done(
                old(self)@.set_existing_value(
                    PlaceView::Environment(env_name@),
                    Setting::ShellCommand,
                    cmd@,
                ),
                old(self)@,
                final(self)@,
                r,
            ),
    {
        self.set_existing_value(&Place::Environment(env_name), Setting::ShellCommand, cmd)
    }

    /// Takes the `shell_command` of an environment away.
    pub fn rm_shell_command(&mut self, env_name: &str) -> (r: Result<(), ConfigError>)
        ensures
            done(
                old(self)@.rm_value(PlaceView::Environment(env_name@), Setting::ShellCommand),
                old(self)@,
                final(self)@,
                r,
            ),
    {
        self.rm_value(&Place::Environment(env_name), Setting::ShellCommand)
    }

    /// Sets the `image_repository` of an environment.
    pub fn set_image_repository(
        &mut self,
        env_name: &str,
        repo: &str,
    ) -> (r: Result<(), ConfigError>)
        ensures
            done(
                old(self)@.set_existing_value(
                    PlaceView::Environment(env_name@),
                    Setting::ImageRepository,
                    repo@,
                ),
                old(self)@,
                final(self)@,
                r,
            ),
    {
        self.set_existing_value(&Place::Environment(env_name), Setting::ImageRepository, repo)
    }

    /// Takes the `image_repository` of an environment away.
    pub fn rm_image_repository(&mut self, env_name: &str) -> (r: Result<(), ConfigError>)
        ensures
            done(
                old(self)@.rm_value(PlaceView::Environment(env_name@), Setting::ImageRepository),
                old(self)@,
                final(self)@,
                r,
            ),
    {
        self.rm_value(&Place::Environment(env_name), Setting::ImageRepository)
    }

    /// Sets the `platform` of an environment.
    pub fn set_platform(&mut self, env_name: &str, platform: &str) -> (r: Result<(), ConfigError>)
        ensures
            done(
                old(self)@.set_existing_value(
                    PlaceView::Environment(env_name@),
                    Setting::Platform,
                    platform@,
                ),
                old(self)@,
                final(self)@,
                r,
            ),
    {
        self.set_existing_value(&Place::Environment(env_name), Setting::Platform, platform)
    }

    /// Takes the `platform` of an environment away.
    pub fn rm_platform(&mut self, env_name: &str) -> (r: Result<(), ConfigError>)
        ensures
            done(
                old(self)@.rm_value(PlaceView::Environment(env_name@), Setting::Platform),
                old(self)@,
                final(self)@,
                r,
            ),
    {
        self.rm_value(&Place::Environment(env_name), Setting::Platform)
    }

    /// Sets the `default_container_image` of an environment.
    pub fn set_default_container_image(
        &mut self,
        env_name: &str,
        image: &str,
    ) -> (r: Result<(), ConfigError>)
        ensures
            done(
                old(self)@.set_existing_value(
                    PlaceView::Environment(env_name@),
                    Setting::DefaultContainerImage,
                    image@,
                ),
                old(self)@,
                final(self)@,
                r,
            ),
    {
        self.set_existing_value(
            &Place::Environment(env_name),
            Setting::DefaultContainerImage,
            image,
        )
    }

    /// Takes the `default_container_image` of an environment away.
    pub fn rm_default_container_image(&mut self, env_name: &str) -> (r: Result<(), ConfigError>)
        ensures
            done(
                old(self)@.rm_value(
                    PlaceView::Environment(env_name@),
                    Setting::DefaultContainerImage,
                ),
                old(self)@,
                final(self)@,
                r,
            ),
    {
        self.rm_value(&Place::Environment(env_name), Setting::DefaultContainerImage)
    }

    /// Sets the `connection_type` of an environment.
    pub fn set_environment_connection_type(
        &mut self,
        env_name: &str,
        value: &str,
    ) -> (r: Result<(), ConfigError>)
        ensures
            done(
                checked_connection_type(
                    value@,
                    old(self)@.set_existing_value(
                        PlaceView::Environment(env_name@),
                        Setting::ConnectionType,
                        value@,
                    ),
                ),
                old(self)@,
                final(self)@,
                r,
            ),
    {
        match validate_connection_type(value) {
            Err(e) => Err(e),
            Ok(_) => self.set_existing_value(
                &Place::Environment(env_name),
                Setting::ConnectionType,
                value,
            ),
        }
    }

    /// Takes the `connection_type` of an environment away.
    pub fn rm_environment_connection_type(&mut self, env_name: &str) -> (r: Result<(), ConfigError>)
        ensures
            done(
                old(self)@.rm_value(PlaceView::Environment(env_name@), Setting::ConnectionType),
                old(self)@,
                final(self)@,
                r,
            ),
    {
        self.rm_value(&Place::Environment(env_name), Setting::ConnectionType)
    }

    /// Adds a port mapping to an environment, and returns the notice to show.
    pub fn add_env_portmap(
        &mut self,
        env_name: &str,
        host_port: &str,
        container_port: &str,
    ) -> (r: Result<String, ConfigError>)
        ensures
            done_noted(
                old(self)@.add_entry(
                    PlaceView::Environment(env_name@),
                    EntrySetting::HostPortmappings,
                    host_port@,
                    container_port@,
                ),
                old(self)@,
                final(self)@,
                r,
            ),
    {
        self.add_entry(
            &Place::Environment(env_name),
            EntrySetting::HostPortmappings,
            host_port,
            container_port,
        )
    }

    /// Removes a port mapping from an environment, and returns the notice to show.
    pub fn rm_env_portmap(
        &mut self,
        env_name: &str,
        host_port: &str,
    ) -> (r: Result<String, ConfigError>)
        ensures
            done_noted(
                old(self)@.rm_entry(
                    PlaceView::Environment(env_name@),
                    EntrySetting::HostPortmappings,
                    host_port@,
                ),
                old(self)@,
                final(self)@,
                r,
            ),
    {
        self.rm_entry(&Place::Environment(env_name), EntrySetting::HostPortmappings, host_port)
    }

    /// Adds a variable to an environment, and returns the notice to show.
    pub fn add_env_variable(
        &mut self,
        env_name: &str,
        name: &str,
        value: &str,
    ) -> (r: Result<String, ConfigError>)
        ensures
            done_noted(
                old(self)@.add_entry(
                    PlaceView::Environment(env_name@),
                    EntrySetting::Variables,
                    name@,
                    value@,
                ),
                old(self)@,
                final(self)@,
                r,
            ),
    {
        self.add_entry(&Place::Environment(env_name), EntrySetting::Variables, name, value)
    }

    /// Removes a variable from an environment, and returns the notice to show.
    pub fn rm_env_variable(
        &mut self,
        env_name: &str,
        name: &str,
    ) -> (r: Result<String, ConfigError>)
        ensures
            done_noted(
                old(self)@.rm_entry(
                    PlaceView::Environment(env_name@),
                    EntrySetting::Variables,
                    name@,
                ),
                old(self)@,
                final(self)@,
                r,
            ),
    {
        self.rm_entry(&Place::Environment(env_name), EntrySetting::Variables, name)
    }

    /// Adds a volume to an environment, and returns the notice to show.
    pub fn add_volume(
        &mut self,
        env_name: &str,
        container_dir: &str,
        host_dir: &str,
    ) -> (r: Result<String, ConfigError>)
        ensures
            done_noted(
                old(self)@.add_volume(PlaceView::Environment(env_name@), container_dir@, host_dir@),
                old(self)@,
                final(self)@,
                r,
            ),
    {
        self.add_volume_at(&Place::Environment(env_name), container_dir, host_dir)
    }

    /// Removes a volume from an environment, and returns the notice to show.
    pub fn rm_volume(
        &mut self,
        env_name: &str,
        container_dir: &str,
        host_dir: &str,
    ) -> (r: Result<String, ConfigError>)
        ensures
            done_noted(
                old(self)@.rm_volume(PlaceView::Environment(env_name@), container_dir@, host_dir@),
                old(self)@,
                final(self)@,
                r,
            ),
    {
        self.rm_volume_at(&Place::Environment(env_name), container_dir, host_dir)
    }
}

} // verus!
