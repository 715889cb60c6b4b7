//! Editing services.
use crate::config::connection::validate_connection_type;
use crate::config::edit::{
    checked_connection_type, done, done_noted, EntrySetting, Place, PlaceView, Setting,
};
use crate::config::model::Config;
use crate::config::places::{lemma_same_group, lemma_same_service, missing_default_environment};
use crate::error::ConfigError;
use crate::text::four;
use vstd::prelude::*;

verus! {

impl Config {
    /// Removes a service, and returns the notice to show.
    pub fn rm_service(&mut self, domain_name: &str, group_name: &str, service_name: &str) -> (r:
        Result<String, ConfigError>)
        ensures
            done_noted(
                old(self)@.rm_service(domain_name@, group_name@, service_name@),
                old(self)@,
                final(self)@,
                r,
            ),
    {
        proof {
            if self@.group(domain_name@, group_name@) is Ok {
                lemma_same_group(self@, domain_name@, group_name@);
            }
        }
        match self.group_mut(domain_name, group_name) {
            Err(e) => Err(e),
            Ok(group) => match &mut group.services {
                None => Err(
                    ConfigError::new(
                        four(
                            "No services configured for group '",
                            group_name,
                            "' in domain ",
                            domain_name,
                        ),
                    ),
                ),
                Some(m) => {
                    if !m.contains_key(service_name) {
                        let mut message = four(
                            "service, ",
                            service_name,
                            ", does not exist in group '",
                            group_name,
                        );
                        message.append("' of domain ");
                        message.append(domain_name);
                        return Err(ConfigError::new(message));
                    }
                    m.remove(service_name);
                    let mut notice = four(
                        "Removed service '",
                        service_name,
                        "' from group '",
                        group_name,
                    );
                    notice.append("' in domain '");
                    notice.append(domain_name);
                    notice.append("'");
                    Ok(notice)
                },
            },
        }
    }

    /// Sets the default environment of a service. A group or service that does not
    /// exist is created.
    pub fn set_service_default_environment(
        &mut self,
        domain_name: &str,
        group_name: &str,
        service_name: &str,
        env_name: &str,
    ) -> (r: Result<(), ConfigError>)
        ensures
            done(
                old(self)@.set_service_default_environment(
                    domain_name@,
                    group_name@,
                    service_name@,
                    env_name@,
                ),
                old(self)@,
                final(self)@,
                r,
            ),
    {
        match self.service_or_new_mut(domain_name, group_name, service_name) {
            Err(e) => Err(e),
            Ok(service) => {
                service.default_environment = Some(env_name.to_string());
                Ok(())
            },
        }
    }

    /// Takes the default environment of a service away.
    pub fn rm_service_default_environment(
        &mut self,
        domain_name: &str,
        group_name: &str,
        service_name: &str,
    ) -> (r: Result<(), ConfigError>)
        ensures
            done(
                old(self)@.rm_service_default_environment(
                    domain_name@,
                    group_name@,
                    service_name@,
                ),
                old(self)@,
                final(self)@,
                r,
            ),
    {
        proof {
            if self@.service(domain_name@, group_name@, service_name@) is Ok {
                lemma_same_service(self@, domain_name@, group_name@, service_name@);
            }
        }
        match self.service_mut(domain_name, group_name, service_name) {
            Err(e) => Err(e),
            Ok(service) => {
                if service.default_environment.is_none() {
                    return Err(
                        missing_default_environment(
                            &Place::Service(domain_name, group_name, service_name),
                        ),
                    );
                }
                service.default_environment = None;
                Ok(())
            },
        }
    }

    /// Sets the `serve_command` of a service.
    /// A group or service that does not exist is created.
    pub fn set_service_serve_command(
        &mut self,
        domain_name: &str,
        group_name: &str,
        service_name: &str,
        cmd: &str,
    ) -> (r: Result<(), ConfigError>)
        ensures
            done(
                old(self)@.set_value(
                    PlaceView::Service(domain_name@, group_name@, service_name@),
                    Setting::ServeCommand,
                    cmd@,
                ),
                old(self)@,
                final(self)@,
                r,
            ),
    {
        self.set_value(
            &Place::Service(domain_name, group_name, service_name),
            Setting::ServeCommand,
            cmd,
        )
    }

    /// Takes the `serve_command` of a service away.
    pub fn rm_service_serve_command(
        &mut self,
        domain_name: &str,
        group_name: &str,
        service_name: &str,
    ) -> (r: Result<(), ConfigError>)
        ensures
            done(
                old(self)@.rm_value(
                    PlaceView::Service(domain_name@, group_name@, service_name@),
                    Setting::ServeCommand,
                ),
                old(self)@,
                final(self)@,
                r,
            ),
    {
        self.rm_value(&Place::Service(domain_name, group_name, service_name), Setting::ServeCommand)
    }

    /// Sets the `shell_command` of a service.
    /// A group or service that does not exist is created.
    pub fn set_service_shell_command(
        &mut self,
        domain_name: &str,
        group_name: &str,
        service_name: &str,
        cmd: &str,
    ) -> (r: Result<(), ConfigError>)
        ensures
            done(
                old(self)@.set_value(
                    PlaceView::Service(domain_name@, group_name@, service_name@),
                    Setting::ShellCommand,
                    cmd@,
                ),
                old(self)@,
                final(self)@,
                r,
            ),
    {
        self.set_value(
            &Place::Service(domain_name, group_name, service_name),
            Setting::ShellCommand,
            cmd,
        )
    }

    /// Takes the `shell_command` of a service away.
    pub fn rm_service_shell_command(
        &mut self,
        domain_name: &str,
        group_name: &str,
        service_name: &str,
    ) -> (r: Result<(), ConfigError>)
        ensures
            done(
                old(self)@.rm_value(
                    PlaceView::Service(domain_name@, group_name@, service_name@),
                    Setting::ShellCommand,
                ),
                old(self)@,
                final(self)@,
                r,
            ),
    {
        self.rm_value(&Place::Service(domain_name, group_name, service_name), Setting::ShellCommand)
    }

    /// Sets the `image_repository` of a service.
    /// A group or service that does not exist is created.
    pub fn set_service_image_repository(
        &mut self,
        domain_name: &str,
        group_name: &str,
        service_name: &str,
        repo: &str,
    ) -> (r: Result<(), ConfigError>)
        ensures
            done(
                old(self)@.set_value(
                    PlaceView::Service(domain_name@, group_name@, service_name@),
                    Setting::ImageRepository,
                    repo@,
                ),
                old(self)@,
                final(self)@,
                r,
            ),
    {
        self.set_value(
            &Place::Service(domain_name, group_name, service_name),
            Setting::ImageRepository,
            repo,
        )
    }

    /// Takes the `image_repository` of a service away.
    pub fn rm_service_image_repository(
        &mut self,
        domain_name: &str,
        group_name: &str,
        service_name: &str,
    ) -> (r: Result<(), ConfigError>)
        ensures
            done(
                old(self)@.rm_value(
                    PlaceView::Service(domain_name@, group_name@, service_name@),
                    Setting::ImageRepository,
                ),
                old(self)@,
                final(self)@,
                r,
            ),
    {
        self.rm_value(
            &Place::Service(domain_name, group_name, service_name),
            Setting::ImageRepository,
        )
    }

    /// Sets the `platform` of a service. A group or service that does not exist is created.
    pub fn set_service_platform(
        &mut self,
        domain_name: &str,
        group_name: &str,
        service_name: &str,
        platform: &str,
    ) -> (r: Result<(), ConfigError>)
        ensures
            done(
                old(self)@.set_value(
                    PlaceView::Service(domain_name@, group_name@, service_name@),
                    Setting::Platform,
                    platform@,
                ),
                old(self)@,
                final(self)@,
                r,
            ),
    {
        self.set_value(
            &Place::Service(domain_name, group_name, service_name),
            Setting::Platform,
            platform,
        )
    }

    /// Takes the `platform` of a service away.
    pub fn rm_service_platform(
        &mut self,
        domain_name: &str,
        group_name: &str,
        service_name: &str,
    ) -> (r: Result<(), ConfigError>)
        ensures
            done(
                old(self)@.rm_value(
                    PlaceView::Service(domain_name@, group_name@, service_name@),
                    Setting::Platform,
                ),
                old(self)@,
                final(self)@,
                r,
            ),
    {
        self.rm_value(&Place::Service(domain_name, group_name, service_name), Setting::Platform)
    }

    /// Sets the `default_container_image` of a service.
    /// A group or service that does not exist is created.
    pub fn set_service_default_container_image(
        &mut self,
        domain_name: &str,
        group_name: &str,
        service_name: &str,
        image: &str,
    ) -> (r: Result<(), ConfigError>)
        ensures
            done(
                old(self)@.set_value(
                    PlaceView::Service(domain_name@, group_name@, service_name@),
                    Setting::DefaultContainerImage,
                    image@,
                ),
                old(self)@,
                final(self)@,
                r,
            ),
    {
        self.set_value(
            &Place::Service(domain_name, group_name, service_name),
            Setting::DefaultContainerImage,
            image,
        )
    }

    /// Takes the `default_container_image` of a service away.
    pub fn rm_service_default_container_image(
        &mut self,
        domain_name: &str,
        group_name: &str,
        service_name: &str,
    ) -> (r: Result<(), ConfigError>)
        ensures
            done(
                old(self)@.rm_value(
                    PlaceView::Service(domain_name@, group_name@, service_name@),
                    Setting::DefaultContainerImage,
                ),
                old(self)@,
                final(self)@,
                r,
            ),
    {
        self.rm_value(
            &Place::Service(domain_name, group_name, service_name),
            Setting::DefaultContainerImage,
        )
    }

    /// Sets the `connection_type` of a service.
    /// A group or service that does not exist is created.
    pub fn set_service_connection_type(
        &mut self,
        domain_name: &str,
        group_name: &str,
        service_name: &str,
        value: &str,
    ) -> (r: Result<(), ConfigError>)
        ensures
            done(
                checked_connection_type(
                    value@,
                    old(self)@.set_value(
                        PlaceView::Service(domain_name@, group_name@, service_name@),
                        Setting::ConnectionType,
                        value@,
                    ),
                ),
                old(self)@,
                final(self)@,
                r,
            ),
    {
        match validate_connection_type(value) {
            Err(e) => Err(e),
            Ok(_) => self.set_value(
                &Place::Service(domain_name, group_name, service_name),
                Setting::ConnectionType,
                value,
            ),
        }
    }

    /// Takes the `connection_type` of a service away.
    pub fn rm_service_connection_type(
        &mut self,
        domain_name: &str,
        group_name: &str,
        service_name: &str,
    ) -> (r: Result<(), ConfigError>)
        ensures
            done(
                old(self)@.rm_value(
                    PlaceView::Service(domain_name@, group_name@, service_name@),
                    Setting::ConnectionType,
                ),
                old(self)@,
                final(self)@,
                r,
            ),
    {
        self.rm_value(
            &Place::Service(domain_name, group_name, service_name),
            Setting::ConnectionType,
        )
    }

    /// Adds a port mapping to a service, and returns the notice to show.
    pub fn add_portmap(
        &mut self,
        domain_name: &str,
        group_name: &str,
        service_name: &str,
        host_port: &str,
        container_port: &str,
    ) -> (r: Result<String, ConfigError>)
        ensures
            done_noted(
                old(self)@.add_entry(
                    PlaceView::Service(domain_name@, group_name@, service_name@),
                    EntrySetting::HostPortmappings,
                    host_port@,
                    container_port@,
                ),
                old(self)@,
                final(self)@,
                r,
            ),
    {
        self.add_entry(
            &Place::Service(domain_name, group_name, service_name),
            EntrySetting::HostPortmappings,
            host_port,
            container_port,
        )
    }

    /// Removes a port mapping from a service, and returns the notice to show.
    pub fn rm_portmap(
        &mut self,
        domain_name: &str,
        group_name: &str,
        service_name: &str,
        host_port: &str,
    ) -> (r: Result<String, ConfigError>)
        ensures
            done_noted(
                old(self)@.rm_entry(
                    PlaceView::Service(domain_name@, group_name@, service_name@),
                    EntrySetting::HostPortmappings,
                    host_port@,
                ),
                old(self)@,
                final(self)@,
                r,
            ),
    {
        self.rm_entry(
            &Place::Service(domain_name, group_name, service_name),
            EntrySetting::HostPortmappings,
            host_port,
        )
    }

    /// Adds a variable to a service, and returns the notice to show.
    pub fn add_variable(
        &mut self,
        domain_name: &str,
        group_name: &str,
        service_name: &str,
        name: &str,
        value: &str,
    ) -> (r: Result<String, ConfigError>)
        ensures
            done_noted(
                old(self)@.add_entry(
                    PlaceView::Service(domain_name@, group_name@, service_name@),
                    EntrySetting::Variables,
                    name@,
                    value@,
                ),
                old(self)@,
                final(self)@,
                r,
            ),
    {
        self.add_entry(
            &Place::Service(domain_name, group_name, service_name),
            EntrySetting::Variables,
            name,
            value,
        )
    }

    /// Removes a variable from a service, and returns the notice to show.
    pub fn rm_variable(
        &mut self,
        domain_name: &str,
        group_name: &str,
        service_name: &str,
        name: &str,
    ) -> (r: Result<String, ConfigError>)
        ensures
            done_noted(
                old(self)@.rm_entry(
                    PlaceView::Service(domain_name@, group_name@, service_name@),
                    EntrySetting::Variables,
                    name@,
                ),
                old(self)@,
                final(self)@,
                r,
            ),
    {
        self.rm_entry(
            &Place::Service(domain_name, group_name, service_name),
            EntrySetting::Variables,
            name,
        )
    }

    /// Adds a volume to a service, and returns the notice to show.
    pub fn add_service_volume(
        &mut self,
        domain_name: &str,
        group_name: &str,
        service_name: &str,
        container_dir: &str,
        host_dir: &str,
    ) -> (r: Result<String, ConfigError>)
        ensures
            done_noted(
                old(self)@.add_volume(
                    PlaceView::Service(domain_name@, group_name@, service_name@),
                    container_dir@,
                    host_dir@,
                ),
                old(self)@,
                final(self)@,
                r,
            ),
    {
        self.add_volume_at(
            &Place::Service(domain_name, group_name, service_name),
            container_dir,
            host_dir,
        )
    }

    /// Removes a volume from a service, and returns the notice to show.
    pub fn rm_service_volume(
        &mut self,
        domain_name: &str,
        group_name: &str,
        service_name: &str,
        container_dir: &str,
        host_dir: &str,
    ) -> (r: Result<String, ConfigError>)
        ensures
            done_noted(
                old(self)@.rm_volume(
                    PlaceView::Service(domain_name@, group_name@, service_name@),
                    container_dir@,
                    host_dir@,
                ),
                old(self)@,
                final(self)@,
                r,
            ),
    {
        self.rm_volume_at(
            &Place::Service(domain_name, group_name, service_name),
            container_dir,
            host_dir,
        )
    }
}

} // verus!
