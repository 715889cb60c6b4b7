//! The commands that edit a configuration.
use crate::config::edit::{EntrySetting, Place, PlaceView, Setting};
use vstd::prelude::*;

verus! {

/// Sets something of an environment.
#[derive(Debug, Clone)]
pub enum SetEnvCommand {
    ImageRepository { environment: String, image_repository: String },
    ServeCommand { environment: String, serve_command: String },
    ShellCommand { environment: String, shell_command: String },
    Platform { environment: String, platform: String },
    DefaultContainerImage { environment: String, default_container_image: String },
    ConnectionType { environment: String, connection_type: String },
}

/// Sets something of a service.
#[derive(Debug, Clone)]
pub enum SetSvcCommand {
    DefaultEnvironment {
        domain_name: String,
        group_name: String,
        service_name: String,
        default_environment: String,
        location: Option<String>,
    },
    ImageRepository {
        domain_name: String,
        group_name: String,
        service_name: String,
        image_repository: String,
        location: Option<String>,
    },
    ServeCommand {
        domain_name: String,
        group_name: String,
        service_name: String,
        serve_command: String,
        location: Option<String>,
    },
    ShellCommand {
        domain_name: String,
        group_name: String,
        service_name: String,
        shell_command: String,
        location: Option<String>,
    },
    Platform {
        domain_name: String,
        group_name: String,
        service_name: String,
        platform: String,
        location: Option<String>,
    },
    DefaultContainerImage {
        domain_name: String,
        group_name: String,
        service_name: String,
        default_container_image: String,
        location: Option<String>,
    },
    ConnectionType {
        domain_name: String,
        group_name: String,
        service_name: String,
        connection_type: String,
        location: Option<String>,
    },
}

/// Sets something of a domain.
#[derive(Debug, Clone)]
pub enum SetDomCommand {
    DefaultEnvironment {
        domain_name: String,
        default_environment: String,
        location: Option<String>,
    },
    ImageRepository { domain_name: String, image_repository: String, location: Option<String> },
    ServeCommand { domain_name: String, serve_command: String, location: Option<String> },
    ShellCommand { domain_name: String, shell_command: String, location: Option<String> },
    Platform { domain_name: String, platform: String, location: Option<String> },
    DefaultContainerImage {
        domain_name: String,
        default_container_image: String,
        location: Option<String>,
    },
    ConnectionType { domain_name: String, connection_type: String, location: Option<String> },
}

/// Sets something of a group.
#[derive(Debug, Clone)]
pub enum SetGrpCommand {
    DefaultEnvironment {
        domain_name: String,
        group_name: String,
        default_environment: String,
        location: Option<String>,
    },
    ImageRepository {
        domain_name: String,
        group_name: String,
        image_repository: String,
        location: Option<String>,
    },
    ServeCommand {
        domain_name: String,
        group_name: String,
        serve_command: String,
        location: Option<String>,
    },
    ShellCommand {
        domain_name: String,
        group_name: String,
        shell_command: String,
        location: Option<String>,
    },
    Platform {
        domain_name: String,
        group_name: String,
        platform: String,
        location: Option<String>,
    },
    DefaultContainerImage {
        domain_name: String,
        group_name: String,
        default_container_image: String,
        location: Option<String>,
    },
    ConnectionType {
        domain_name: String,
        group_name: String,
        connection_type: String,
        location: Option<String>,
    },
}

/// Sets something.
#[derive(Debug, Clone)]
pub enum SetCommand {
    PodmanMachine { new_podman_machine: String },
    Engine { engine: String },
    Env { cmd: SetEnvCommand },
    Svc { cmd: SetSvcCommand },
    Dom { cmd: SetDomCommand },
    Grp { cmd: SetGrpCommand },
    UrlsInHosts { value: String },
    Wsl { value: String },
}

/// Adds something to a domain.
#[derive(Debug, Clone)]
pub enum AddDomCommand {
    Portmap {
        domain_name: String,
        host_port: String,
        container_port: String,
        location: Option<String>,
    },
    Variable { domain_name: String, name: String, value: String, location: Option<String> },
    Volume {
        domain_name: String,
        container_dir: String,
        host_dir: String,
        location: Option<String>,
    },
}

/// Adds something to a group.
#[derive(Debug, Clone)]
pub enum AddGrpCommand {
    Portmap {
        domain_name: String,
        group_name: String,
        host_port: String,
        container_port: String,
        location: Option<String>,
    },
    Variable {
        domain_name: String,
        group_name: String,
        name: String,
        value: String,
        location: Option<String>,
    },
    Volume {
        domain_name: String,
        group_name: String,
        container_dir: String,
        host_dir: String,
        location: Option<String>,
    },
}

/// Adds something to an environment.
#[derive(Debug, Clone)]
pub enum AddEnvCommand {
    Portmap { environment: String, host_port: String, container_port: String },
    Variable { environment: String, name: String, value: String },
    Volume { environment: String, container_dir: String, host_dir: String },
}

/// Adds something to a service.
#[derive(Debug, Clone)]
pub enum AddSvcCommand {
    Portmap {
        domain_name: String,
        group_name: String,
        service_name: String,
        host_port: String,
        container_port: String,
        location: Option<String>,
    },
    Variable {
        domain_name: String,
        group_name: String,
        service_name: String,
        name: String,
        value: String,
        location: Option<String>,
    },
    Volume {
        domain_name: String,
        group_name: String,
        service_name: String,
        container_dir: String,
        host_dir: String,
        location: Option<String>,
    },
}

/// Adds something.
#[derive(Debug, Clone)]
pub enum AddCommand {
    PreConfig { location: String, repo_location: Option<String> },
    Dom { cmd: AddDomCommand },
    Grp { cmd: AddGrpCommand },
    Env { cmd: AddEnvCommand },
    Svc { cmd: AddSvcCommand },
}

/// Removes something from a domain.
#[derive(Debug, Clone)]
pub enum RmDomCommand {
    DefaultEnvironment { domain_name: String },
    Portmap { domain_name: String, host_port: String },
    Variable { domain_name: String, name: String },
    Volume { domain_name: String, container_dir: String, host_dir: String },
    ImageRepository { domain_name: String },
    ServeCommand { domain_name: String },
    ShellCommand { domain_name: String },
    Platform { domain_name: String },
    DefaultContainerImage { domain_name: String },
    ConnectionType { domain_name: String },
}

/// Removes something from a group.
#[derive(Debug, Clone)]
pub enum RmGrpCommand {
    DefaultEnvironment { domain_name: String, group_name: String },
    Portmap { domain_name: String, group_name: String, host_port: String },
    Variable { domain_name: String, group_name: String, name: String },
    Volume { domain_name: String, group_name: String, container_dir: String, host_dir: String },
    ImageRepository { domain_name: String, group_name: String },
    ServeCommand { domain_name: String, group_name: String },
    ShellCommand { domain_name: String, group_name: String },
    Platform { domain_name: String, group_name: String },
    DefaultContainerImage { domain_name: String, group_name: String },
    ConnectionType { domain_name: String, group_name: String },
}

/// Removes something from an environment.
#[derive(Debug, Clone)]
pub enum RmEnvCommand {
    Portmap { environment: String, host_port: String },
    Variable { environment: String, name: String },
    Volume { environment: String, container_dir: String, host_dir: String },
    ImageRepository { environment: String },
    ServeCommand { environment: String },
    ShellCommand { environment: String },
    Platform { environment: String },
    DefaultContainerImage { environment: String },
    ConnectionType { environment: String },
}

/// Removes something from a service.
#[derive(Debug, Clone)]
pub enum RmSvcCommand {
    DefaultEnvironment { domain_name: String, group_name: String, service_name: String },
    Portmap { domain_name: String, group_name: String, service_name: String, host_port: String },
    Variable { domain_name: String, group_name: String, service_name: String, name: String },
    Volume {
        domain_name: String,
        group_name: String,
        service_name: String,
        container_dir: String,
        host_dir: String,
    },
    ImageRepository { domain_name: String, group_name: String, service_name: String },
    ServeCommand { domain_name: String, group_name: String, service_name: String },
    ShellCommand { domain_name: String, group_name: String, service_name: String },
    Platform { domain_name: String, group_name: String, service_name: String },
    DefaultContainerImage { domain_name: String, group_name: String, service_name: String },
    ConnectionType { domain_name: String, group_name: String, service_name: String },
}

/// Removes something.
#[derive(Debug, Clone)]
pub enum RmCommand {
    PodmanMachine {},
    PreConfig { location: String },
    Domain { name: String },
    Group { domain_name: String, group_name: String },
    Service { domain_name: String, group_name: String, service_name: String },
    Dom { cmd: RmDomCommand },
    Grp { cmd: RmGrpCommand },
    Env { cmd: RmEnvCommand },
    Svc { cmd: RmSvcCommand },
}

// ---------------------------------------------------------------------------
// What a command asks for
// ---------------------------------------------------------------------------
/// What a command sets at a place.
#[derive(Debug, Clone, Copy)]
pub enum SetRequest<'a> {
    DefaultEnvironment(&'a str),
    Value(Setting, &'a str),
}

/// What is set at a place.
pub enum SetRequestView {
    DefaultEnvironment(Seq<char>),
    Value(Setting, Seq<char>),
}

impl<'a> View for SetRequest<'a> {
    type V = SetRequestView;

    open spec fn view(&self) -> SetRequestView {
        match *self {
            SetRequest::DefaultEnvironment(e) => SetRequestView::DefaultEnvironment(e@),
            SetRequest::Value(setting, v) => SetRequestView::Value(setting, v@),
        }
    }
}

/// What a command adds to a place.
#[derive(Debug, Clone, Copy)]
pub enum AddRequest<'a> {
    Entry(EntrySetting, &'a str, &'a str),
    /// A path in the container, and one on the host.
    Volume(&'a str, &'a str),
}

/// What is added to a place.
pub enum AddRequestView {
    Entry(EntrySetting, Seq<char>, Seq<char>),
    Volume(Seq<char>, Seq<char>),
}

impl<'a> View for AddRequest<'a> {
    type V = AddRequestView;

    open spec fn view(&self) -> AddRequestView {
        match *self {
            AddRequest::Entry(setting, k, v) => AddRequestView::Entry(setting, k@, v@),
            AddRequest::Volume(c, h) => AddRequestView::Volume(c@, h@),
        }
    }
}

/// What a command removes from a place.
#[derive(Debug, Clone, Copy)]
pub enum RmRequest<'a> {
    DefaultEnvironment,
    Value(Setting),
    Entry(EntrySetting, &'a str),
    /// A path in the container, and one on the host.
    Volume(&'a str, &'a str),
}

/// What is removed from a place.
pub enum RmRequestView {
    DefaultEnvironment,
    Value(Setting),
    Entry(EntrySetting, Seq<char>),
    Volume(Seq<char>, Seq<char>),
}

impl<'a> View for RmRequest<'a> {
    type V = RmRequestView;

    open spec fn view(&self) -> RmRequestView {
        match *self {
            RmRequest::DefaultEnvironment => RmRequestView::DefaultEnvironment,
            RmRequest::Value(setting) => RmRequestView::Value(setting),
            RmRequest::Entry(setting, k) => RmRequestView::Entry(setting, k@),
            RmRequest::Volume(c, h) => RmRequestView::Volume(c@, h@),
        }
    }
}

/// A place with the given names.
pub open spec fn group_at(domain_name: String, group_name: String) -> PlaceView {
    PlaceView::Group(domain_name@, group_name@)
}

/// A place with the given names.
pub open spec fn service_at(
    domain_name: String,
    group_name: String,
    service_name: String,
) -> PlaceView {
    PlaceView::Service(domain_name@, group_name@, service_name@)
}

fn group_place<'a>(domain_name: &'a String, group_name: &'a String) -> (r: Place<'a>)
    ensures
        r@ == group_at(*domain_name, *group_name),
{
    Place::Group(domain_name.as_str(), group_name.as_str())
}

fn service_place<'a>(
    domain_name: &'a String,
    group_name: &'a String,
    service_name: &'a String,
) -> (r: Place<'a>)
    ensures
        r@ == service_at(*domain_name, *group_name, *service_name),
{
    Place::Service(domain_name.as_str(), group_name.as_str(), service_name.as_str())
}

pub(crate) fn location_of(location: &Option<String>) -> (r: Option<&str>)
    ensures
        r.deep_view() == location.deep_view(),
{
    match location {
        Some(l) => Some(l.as_str()),
        None => None,
    }
}

impl SetEnvCommand {
    /// The place that the command speaks of.
    pub open spec fn place_view(self) -> PlaceView {
        match self {
            SetEnvCommand::ImageRepository { environment, .. } => {
                PlaceView::Environment(environment@)
            },
            SetEnvCommand::ServeCommand { environment, .. } => PlaceView::Environment(environment@),
            SetEnvCommand::ShellCommand { environment, .. } => PlaceView::Environment(environment@),
            SetEnvCommand::Platform { environment, .. } => PlaceView::Environment(environment@),
            SetEnvCommand::DefaultContainerImage { environment, .. } => {
                PlaceView::Environment(environment@)
            },
            SetEnvCommand::ConnectionType { environment, .. } => {
                PlaceView::Environment(environment@)
            },
        }
    }

    /// The place that the command speaks of.
    pub fn place(&self) -> (r: Place<'_>)
        ensures
            r@ == self.place_view(),
    {
        match self {
            SetEnvCommand::ImageRepository { environment, .. } => {
                Place::Environment(environment.as_str())
            },
            SetEnvCommand::ServeCommand { environment, .. } => {
                Place::Environment(environment.as_str())
            },
            SetEnvCommand::ShellCommand { environment, .. } => {
                Place::Environment(environment.as_str())
            },
            SetEnvCommand::Platform { environment, .. } => Place::Environment(environment.as_str()),
            SetEnvCommand::DefaultContainerImage { environment, .. } => {
                Place::Environment(environment.as_str())
            },
            SetEnvCommand::ConnectionType { environment, .. } => {
                Place::Environment(environment.as_str())
            },
        }
    }

    /// What the command sets.
    pub open spec fn request_view(self) -> SetRequestView {
        match self {
            SetEnvCommand::ImageRepository { image_repository, .. } => {
                SetRequestView::Value(Setting::ImageRepository, image_repository@)
            },
            SetEnvCommand::ServeCommand { serve_command, .. } => {
                SetRequestView::Value(Setting::ServeCommand, serve_command@)
            },
            SetEnvCommand::ShellCommand { shell_command, .. } => {
                SetRequestView::Value(Setting::ShellCommand, shell_command@)
            },
            SetEnvCommand::Platform { platform, .. } => {
                SetRequestView::Value(Setting::Platform, platform@)
            },
            SetEnvCommand::DefaultContainerImage { default_container_image, .. } => {
                SetRequestView::Value(Setting::DefaultContainerImage, default_container_image@)
            },
            SetEnvCommand::ConnectionType { connection_type, .. } => {
                SetRequestView::Value(Setting::ConnectionType, connection_type@)
            },
        }
    }

    /// What the command sets.
    pub fn request(&self) -> (r: SetRequest<'_>)
        ensures
            r@ == self.request_view(),
    {
        match self {
            SetEnvCommand::ImageRepository { image_repository, .. } => {
                SetRequest::Value(Setting::ImageRepository, image_repository.as_str())
            },
            SetEnvCommand::ServeCommand { serve_command, .. } => {
                SetRequest::Value(Setting::ServeCommand, serve_command.as_str())
            },
            SetEnvCommand::ShellCommand { shell_command, .. } => {
                SetRequest::Value(Setting::ShellCommand, shell_command.as_str())
            },
            SetEnvCommand::Platform { platform, .. } => {
                SetRequest::Value(Setting::Platform, platform.as_str())
            },
            SetEnvCommand::DefaultContainerImage { default_container_image, .. } => {
                SetRequest::Value(Setting::DefaultContainerImage, default_container_image.as_str())
            },
            SetEnvCommand::ConnectionType { connection_type, .. } => {
                SetRequest::Value(Setting::ConnectionType, connection_type.as_str())
            },
        }
    }
}

impl SetSvcCommand {
    /// The place that the command speaks of.
    pub open spec fn place_view(self) -> PlaceView {
        match self {
            SetSvcCommand::DefaultEnvironment { domain_name, group_name, service_name, .. } => {
                service_at(domain_name, group_name, service_name)
            },
            SetSvcCommand::ImageRepository { domain_name, group_name, service_name, .. } => {
                service_at(domain_name, group_name, service_name)
            },
            SetSvcCommand::ServeCommand { domain_name, group_name, service_name, .. } => {
                service_at(domain_name, group_name, service_name)
            },
            SetSvcCommand::ShellCommand { domain_name, group_name, service_name, .. } => {
                service_at(domain_name, group_name, service_name)
            },
            SetSvcCommand::Platform { domain_name, group_name, service_name, .. } => {
                service_at(domain_name, group_name, service_name)
            },
            SetSvcCommand::DefaultContainerImage { domain_name, group_name, service_name, .. } => {
                service_at(domain_name, group_name, service_name)
            },
            SetSvcCommand::ConnectionType { domain_name, group_name, service_name, .. } => {
                service_at(domain_name, group_name, service_name)
            },
        }
    }

    /// The place that the command speaks of.
    pub fn place(&self) -> (r: Place<'_>)
        ensures
            r@ == self.place_view(),
    {
        match self {
            SetSvcCommand::DefaultEnvironment { domain_name, group_name, service_name, .. } => {
                service_place(domain_name, group_name, service_name)
            },
            SetSvcCommand::ImageRepository { domain_name, group_name, service_name, .. } => {
                service_place(domain_name, group_name, service_name)
            },
            SetSvcCommand::ServeCommand { domain_name, group_name, service_name, .. } => {
                service_place(domain_name, group_name, service_name)
            },
            SetSvcCommand::ShellCommand { domain_name, group_name, service_name, .. } => {
                service_place(domain_name, group_name, service_name)
            },
            SetSvcCommand::Platform { domain_name, group_name, service_name, .. } => {
                service_place(domain_name, group_name, service_name)
            },
            SetSvcCommand::DefaultContainerImage { domain_name, group_name, service_name, .. } => {
                service_place(domain_name, group_name, service_name)
            },
            SetSvcCommand::ConnectionType { domain_name, group_name, service_name, .. } => {
                service_place(domain_name, group_name, service_name)
            },
        }
    }

    /// What the command sets.
    pub open spec fn request_view(self) -> SetRequestView {
        match self {
            SetSvcCommand::DefaultEnvironment { default_environment, .. } => {
                SetRequestView::DefaultEnvironment(default_environment@)
            },
            SetSvcCommand::ImageRepository { image_repository, .. } => {
                SetRequestView::Value(Setting::ImageRepository, image_repository@)
            },
            SetSvcCommand::ServeCommand { serve_command, .. } => {
                SetRequestView::Value(Setting::ServeCommand, serve_command@)
            },
            SetSvcCommand::ShellCommand { shell_command, .. } => {
                SetRequestView::Value(Setting::ShellCommand, shell_command@)
            },
            SetSvcCommand::Platform { platform, .. } => {
                SetRequestView::Value(Setting::Platform, platform@)
            },
            SetSvcCommand::DefaultContainerImage { default_container_image, .. } => {
                SetRequestView::Value(Setting::DefaultContainerImage, default_container_image@)
            },
            SetSvcCommand::ConnectionType { connection_type, .. } => {
                SetRequestView::Value(Setting::ConnectionType, connection_type@)
            },
        }
    }

    /// What the command sets.
    pub fn request(&self) -> (r: SetRequest<'_>)
        ensures
            r@ == self.request_view(),
    {
        match self {
            SetSvcCommand::DefaultEnvironment { default_environment, .. } => {
                SetRequest::DefaultEnvironment(default_environment.as_str())
            },
            SetSvcCommand::ImageRepository { image_repository, .. } => {
                SetRequest::Value(Setting::ImageRepository, image_repository.as_str())
            },
            SetSvcCommand::ServeCommand { serve_command, .. } => {
                SetRequest::Value(Setting::ServeCommand, serve_command.as_str())
            },
            SetSvcCommand::ShellCommand { shell_command, .. } => {
                SetRequest::Value(Setting::ShellCommand, shell_command.as_str())
            },
            SetSvcCommand::Platform { platform, .. } => {
                SetRequest::Value(Setting::Platform, platform.as_str())
            },
            SetSvcCommand::DefaultContainerImage { default_container_image, .. } => {
                SetRequest::Value(Setting::DefaultContainerImage, default_container_image.as_str())
            },
            SetSvcCommand::ConnectionType { connection_type, .. } => {
                SetRequest::Value(Setting::ConnectionType, connection_type.as_str())
            },
        }
    }

    /// Where the domain is to be created, if it does not exist.
    pub open spec fn location_view(self) -> Option<Seq<char>> {
        match self {
            SetSvcCommand::DefaultEnvironment { location, .. } => location.deep_view(),
            SetSvcCommand::ImageRepository { location, .. } => location.deep_view(),
            SetSvcCommand::ServeCommand { location, .. } => location.deep_view(),
            SetSvcCommand::ShellCommand { location, .. } => location.deep_view(),
            SetSvcCommand::Platform { location, .. } => location.deep_view(),
            SetSvcCommand::DefaultContainerImage { location, .. } => location.deep_view(),
            SetSvcCommand::ConnectionType { location, .. } => location.deep_view(),
        }
    }

    /// Where the domain is to be created, if it does not exist.
    pub fn location(&self) -> (r: Option<&str>)
        ensures
            r.deep_view() == self.location_view(),
    {
        match self {
            SetSvcCommand::DefaultEnvironment { location, .. } => location_of(location),
            SetSvcCommand::ImageRepository { location, .. } => location_of(location),
            SetSvcCommand::ServeCommand { location, .. } => location_of(location),
            SetSvcCommand::ShellCommand { location, .. } => location_of(location),
            SetSvcCommand::Platform { location, .. } => location_of(location),
            SetSvcCommand::DefaultContainerImage { location, .. } => location_of(location),
            SetSvcCommand::ConnectionType { location, .. } => location_of(location),
        }
    }
}

impl SetDomCommand {
    /// The place that the command speaks of.
    pub open spec fn place_view(self) -> PlaceView {
        match self {
            SetDomCommand::DefaultEnvironment { domain_name, .. } => {
                PlaceView::Domain(domain_name@)
            },
            SetDomCommand::ImageRepository { domain_name, .. } => PlaceView::Domain(domain_name@),
            SetDomCommand::ServeCommand { domain_name, .. } => PlaceView::Domain(domain_name@),
            SetDomCommand::ShellCommand { domain_name, .. } => PlaceView::Domain(domain_name@),
            SetDomCommand::Platform { domain_name, .. } => PlaceView::Domain(domain_name@),
            SetDomCommand::DefaultContainerImage { domain_name, .. } => {
                PlaceView::Domain(domain_name@)
            },
            SetDomCommand::ConnectionType { domain_name, .. } => PlaceView::Domain(domain_name@),
        }
    }

    /// The place that the command speaks of.
    pub fn place(&self) -> (r: Place<'_>)
        ensures
            r@ == self.place_view(),
    {
        match self {
            SetDomCommand::DefaultEnvironment { domain_name, .. } => {
                Place::Domain(domain_name.as_str())
            },
            SetDomCommand::ImageRepository { domain_name, .. } => {
                Place::Domain(domain_name.as_str())
            },
            SetDomCommand::ServeCommand { domain_name, .. } => Place::Domain(domain_name.as_str()),
            SetDomCommand::ShellCommand { domain_name, .. } => Place::Domain(domain_name.as_str()),
            SetDomCommand::Platform { domain_name, .. } => Place::Domain(domain_name.as_str()),
            SetDomCommand::DefaultContainerImage { domain_name, .. } => {
                Place::Domain(domain_name.as_str())
            },
            SetDomCommand::ConnectionType { domain_name, .. } => {
                Place::Domain(domain_name.as_str())
            },
        }
    }

    /// What the command sets.
    pub open spec fn request_view(self) -> SetRequestView {
        match self {
            SetDomCommand::DefaultEnvironment { default_environment, .. } => {
                SetRequestView::DefaultEnvironment(default_environment@)
            },
            SetDomCommand::ImageRepository { image_repository, .. } => {
                SetRequestView::Value(Setting::ImageRepository, image_repository@)
            },
            SetDomCommand::ServeCommand { serve_command, .. } => {
                SetRequestView::Value(Setting::ServeCommand, serve_command@)
            },
            SetDomCommand::ShellCommand { shell_command, .. } => {
                SetRequestView::Value(Setting::ShellCommand, shell_command@)
            },
            SetDomCommand::Platform { platform, .. } => {
                SetRequestView::Value(Setting::Platform, platform@)
            },
            SetDomCommand::DefaultContainerImage { default_container_image, .. } => {
                SetRequestView::Value(Setting::DefaultContainerImage, default_container_image@)
            },
            SetDomCommand::ConnectionType { connection_type, .. } => {
                SetRequestView::Value(Setting::ConnectionType, connection_type@)
            },
        }
    }

    /// What the command sets.
    pub fn request(&self) -> (r: SetRequest<'_>)
        ensures
            r@ == self.request_view(),
    {
        match self {
            SetDomCommand::DefaultEnvironment { default_environment, .. } => {
                SetRequest::DefaultEnvironment(default_environment.as_str())
            },
            SetDomCommand::ImageRepository { image_repository, .. } => {
                SetRequest::Value(Setting::ImageRepository, image_repository.as_str())
            },
            SetDomCommand::ServeCommand { serve_command, .. } => {
                SetRequest::Value(Setting::ServeCommand, serve_command.as_str())
            },
            SetDomCommand::ShellCommand { shell_command, .. } => {
                SetRequest::Value(Setting::ShellCommand, shell_command.as_str())
            },
            SetDomCommand::Platform { platform, .. } => {
                SetRequest::Value(Setting::Platform, platform.as_str())
            },
            SetDomCommand::DefaultContainerImage { default_container_image, .. } => {
                SetRequest::Value(Setting::DefaultContainerImage, default_container_image.as_str())
            },
            SetDomCommand::ConnectionType { connection_type, .. } => {
                SetRequest::Value(Setting::ConnectionType, connection_type.as_str())
            },
        }
    }

    /// Where the domain is to be created, if it does not exist.
    pub open spec fn location_view(self) -> Option<Seq<char>> {
        match self {
            SetDomCommand::DefaultEnvironment { location, .. } => location.deep_view(),
            SetDomCommand::ImageRepository { location, .. } => location.deep_view(),
            SetDomCommand::ServeCommand { location, .. } => location.deep_view(),
            SetDomCommand::ShellCommand { location, .. } => location.deep_view(),
            SetDomCommand::Platform { location, .. } => location.deep_view(),
            SetDomCommand::DefaultContainerImage { location, .. } => location.deep_view(),
            SetDomCommand::ConnectionType { location, .. } => location.deep_view(),
        }
    }

    /// Where the domain is to be created, if it does not exist.
    pub fn location(&self) -> (r: Option<&str>)
        ensures
            r.deep_view() == self.location_view(),
    {
        match self {
            SetDomCommand::DefaultEnvironment { location, .. } => location_of(location),
            SetDomCommand::ImageRepository { location, .. } => location_of(location),
            SetDomCommand::ServeCommand { location, .. } => location_of(location),
            SetDomCommand::ShellCommand { location, .. } => location_of(location),
            SetDomCommand::Platform { location, .. } => location_of(location),
            SetDomCommand::DefaultContainerImage { location, .. } => location_of(location),
            SetDomCommand::ConnectionType { location, .. } => location_of(location),
        }
    }
}

impl SetGrpCommand {
    /// The place that the command speaks of.
    pub open spec fn place_view(self) -> PlaceView {
        match self {
            SetGrpCommand::DefaultEnvironment { domain_name, group_name, .. } => {
                group_at(domain_name, group_name)
            },
            SetGrpCommand::ImageRepository { domain_name, group_name, .. } => {
                group_at(domain_name, group_name)
            },
            SetGrpCommand::ServeCommand { domain_name, group_name, .. } => {
                group_at(domain_name, group_name)
            },
            SetGrpCommand::ShellCommand { domain_name, group_name, .. } => {
                group_at(domain_name, group_name)
            },
            SetGrpCommand::Platform { domain_name, group_name, .. } => {
                group_at(domain_name, group_name)
            },
            SetGrpCommand::DefaultContainerImage { domain_name, group_name, .. } => {
                group_at(domain_name, group_name)
            },
            SetGrpCommand::ConnectionType { domain_name, group_name, .. } => {
                group_at(domain_name, group_name)
            },
        }
    }

    /// The place that the command speaks of.
    pub fn place(&self) -> (r: Place<'_>)
        ensures
            r@ == self.place_view(),
    {
        match self {
            SetGrpCommand::DefaultEnvironment { domain_name, group_name, .. } => {
                group_place(domain_name, group_name)
            },
            SetGrpCommand::ImageRepository { domain_name, group_name, .. } => {
                group_place(domain_name, group_name)
            },
            SetGrpCommand::ServeCommand { domain_name, group_name, .. } => {
                group_place(domain_name, group_name)
            },
            SetGrpCommand::ShellCommand { domain_name, group_name, .. } => {
                group_place(domain_name, group_name)
            },
            SetGrpCommand::Platform { domain_name, group_name, .. } => {
                group_place(domain_name, group_name)
            },
            SetGrpCommand::DefaultContainerImage { domain_name, group_name, .. } => {
                group_place(domain_name, group_name)
            },
            SetGrpCommand::ConnectionType { domain_name, group_name, .. } => {
                group_place(domain_name, group_name)
            },
        }
    }

    /// What the command sets.
    pub open spec fn request_view(self) -> SetRequestView {
        match self {
            SetGrpCommand::DefaultEnvironment { default_environment, .. } => {
                SetRequestView::DefaultEnvironment(default_environment@)
            },
            SetGrpCommand::ImageRepository { image_repository, .. } => {
                SetRequestView::Value(Setting::ImageRepository, image_repository@)
            },
            SetGrpCommand::ServeCommand { serve_command, .. } => {
                SetRequestView::Value(Setting::ServeCommand, serve_command@)
            },
            SetGrpCommand::ShellCommand { shell_command, .. } => {
                SetRequestView::Value(Setting::ShellCommand, shell_command@)
            },
            SetGrpCommand::Platform { platform, .. } => {
                SetRequestView::Value(Setting::Platform, platform@)
            },
            SetGrpCommand::DefaultContainerImage { default_container_image, .. } => {
                SetRequestView::Value(Setting::DefaultContainerImage, default_container_image@)
            },
            SetGrpCommand::ConnectionType { connection_type, .. } => {
                SetRequestView::Value(Setting::ConnectionType, connection_type@)
            },
        }
    }

    /// What the command sets.
    pub fn request(&self) -> (r: SetRequest<'_>)
        ensures
            r@ == self.request_view(),
    {
        match self {
            SetGrpCommand::DefaultEnvironment { default_environment, .. } => {
                SetRequest::DefaultEnvironment(default_environment.as_str())
            },
            SetGrpCommand::ImageRepository { image_repository, .. } => {
                SetRequest::Value(Setting::ImageRepository, image_repository.as_str())
            },
            SetGrpCommand::ServeCommand { serve_command, .. } => {
                SetRequest::Value(Setting::ServeCommand, serve_command.as_str())
            },
            SetGrpCommand::ShellCommand { shell_command, .. } => {
                SetRequest::Value(Setting::ShellCommand, shell_command.as_str())
            },
            SetGrpCommand::Platform { platform, .. } => {
                SetRequest::Value(Setting::Platform, platform.as_str())
            },
            SetGrpCommand::DefaultContainerImage { default_container_image, .. } => {
                SetRequest::Value(Setting::DefaultContainerImage, default_container_image.as_str())
            },
            SetGrpCommand::ConnectionType { connection_type, .. } => {
                SetRequest::Value(Setting::ConnectionType, connection_type.as_str())
            },
        }
    }

    /// Where the domain is to be created, if it does not exist.
    pub open spec fn location_view(self) -> Option<Seq<char>> {
        match self {
            SetGrpCommand::DefaultEnvironment { location, .. } => location.deep_view(),
            SetGrpCommand::ImageRepository { location, .. } => location.deep_view(),
            SetGrpCommand::ServeCommand { location, .. } => location.deep_view(),
            SetGrpCommand::ShellCommand { location, .. } => location.deep_view(),
            SetGrpCommand::Platform { location, .. } => location.deep_view(),
            SetGrpCommand::DefaultContainerImage { location, .. } => location.deep_view(),
            SetGrpCommand::ConnectionType { location, .. } => location.deep_view(),
        }
    }

    /// Where the domain is to be created, if it does not exist.
    pub fn location(&self) -> (r: Option<&str>)
        ensures
            r.deep_view() == self.location_view(),
    {
        match self {
            SetGrpCommand::DefaultEnvironment { location, .. } => location_of(location),
            SetGrpCommand::ImageRepository { location, .. } => location_of(location),
            SetGrpCommand::ServeCommand { location, .. } => location_of(location),
            SetGrpCommand::ShellCommand { location, .. } => location_of(location),
            SetGrpCommand::Platform { location, .. } => location_of(location),
            SetGrpCommand::DefaultContainerImage { location, .. } => location_of(location),
            SetGrpCommand::ConnectionType { location, .. } => location_of(location),
        }
    }
}

impl AddEnvCommand {
    /// The place that the command speaks of.
    pub open spec fn place_view(self) -> PlaceView {
        match self {
            AddEnvCommand::Portmap { environment, .. } => PlaceView::Environment(environment@),
            AddEnvCommand::Variable { environment, .. } => PlaceView::Environment(environment@),
            AddEnvCommand::Volume { environment, .. } => PlaceView::Environment(environment@),
        }
    }

    /// The place that the command speaks of.
    pub fn place(&self) -> (r: Place<'_>)
        ensures
            r@ == self.place_view(),
    {
        match self {
            AddEnvCommand::Portmap { environment, .. } => Place::Environment(environment.as_str()),
            AddEnvCommand::Variable { environment, .. } => Place::Environment(environment.as_str()),
            AddEnvCommand::Volume { environment, .. } => Place::Environment(environment.as_str()),
        }
    }

    /// What the command adds.
    pub open spec fn request_view(self) -> AddRequestView {
        match self {
            AddEnvCommand::Portmap { host_port, container_port, .. } => {
                AddRequestView::Entry(EntrySetting::HostPortmappings, host_port@, container_port@)
            },
            AddEnvCommand::Variable { name, value, .. } => {
                AddRequestView::Entry(EntrySetting::Variables, name@, value@)
            },
            AddEnvCommand::Volume { container_dir, host_dir, .. } => {
                AddRequestView::Volume(container_dir@, host_dir@)
            },
        }
    }

    /// What the command adds.
    pub fn request(&self) -> (r: AddRequest<'_>)
        ensures
            r@ == self.request_view(),
    {
        match self {
            AddEnvCommand::Portmap { host_port, container_port, .. } => {
                AddRequest::Entry(
                    EntrySetting::HostPortmappings,
                    host_port.as_str(),
                    container_port.as_str(),
                )
            },
            AddEnvCommand::Variable { name, value, .. } => {
                AddRequest::Entry(EntrySetting::Variables, name.as_str(), value.as_str())
            },
            AddEnvCommand::Volume { container_dir, host_dir, .. } => {
                AddRequest::Volume(container_dir.as_str(), host_dir.as_str())
            },
        }
    }
}

impl AddSvcCommand {
    /// The place that the command speaks of.
    pub open spec fn place_view(self) -> PlaceView {
        match self {
            AddSvcCommand::Portmap { domain_name, group_name, service_name, .. } => {
                service_at(domain_name, group_name, service_name)
            },
            AddSvcCommand::Variable { domain_name, group_name, service_name, .. } => {
                service_at(domain_name, group_name, service_name)
            },
            AddSvcCommand::Volume { domain_name, group_name, service_name, .. } => {
                service_at(domain_name, group_name, service_name)
            },
        }
    }

    /// The place that the command speaks of.
    pub fn place(&self) -> (r: Place<'_>)
        ensures
            r@ == self.place_view(),
    {
        match self {
            AddSvcCommand::Portmap { domain_name, group_name, service_name, .. } => {
                service_place(domain_name, group_name, service_name)
            },
            AddSvcCommand::Variable { domain_name, group_name, service_name, .. } => {
                service_place(domain_name, group_name, service_name)
            },
            AddSvcCommand::Volume { domain_name, group_name, service_name, .. } => {
                service_place(domain_name, group_name, service_name)
            },
        }
    }

    /// What the command adds.
    pub open spec fn request_view(self) -> AddRequestView {
        match self {
            AddSvcCommand::Portmap { host_port, container_port, .. } => {
                AddRequestView::Entry(EntrySetting::HostPortmappings, host_port@, container_port@)
            },
            AddSvcCommand::Variable { name, value, .. } => {
                AddRequestView::Entry(EntrySetting::Variables, name@, value@)
            },
            AddSvcCommand::Volume { container_dir, host_dir, .. } => {
                AddRequestView::Volume(container_dir@, host_dir@)
            },
        }
    }

    /// What the command adds.
    pub fn request(&self) -> (r: AddRequest<'_>)
        ensures
            r@ == self.request_view(),
    {
        match self {
            AddSvcCommand::Portmap { host_port, container_port, .. } => {
                AddRequest::Entry(
                    EntrySetting::HostPortmappings,
                    host_port.as_str(),
                    container_port.as_str(),
                )
            },
            AddSvcCommand::Variable { name, value, .. } => {
                AddRequest::Entry(EntrySetting::Variables, name.as_str(), value.as_str())
            },
            AddSvcCommand::Volume { container_dir, host_dir, .. } => {
                AddRequest::Volume(container_dir.as_str(), host_dir.as_str())
            },
        }
    }

    /// Where the domain is to be created, if it does not exist.
    pub open spec fn location_view(self) -> Option<Seq<char>> {
        match self {
            AddSvcCommand::Portmap { location, .. } => location.deep_view(),
            AddSvcCommand::Variable { location, .. } => location.deep_view(),
            AddSvcCommand::Volume { location, .. } => location.deep_view(),
        }
    }

    /// Where the domain is to be created, if it does not exist.
    pub fn location(&self) -> (r: Option<&str>)
        ensures
            r.deep_view() == self.location_view(),
    {
        match self {
            AddSvcCommand::Portmap { location, .. } => location_of(location),
            AddSvcCommand::Variable { location, .. } => location_of(location),
            AddSvcCommand::Volume { location, .. } => location_of(location),
        }
    }
}

impl AddDomCommand {
    /// The place that the command speaks of.
    pub open spec fn place_view(self) -> PlaceView {
        match self {
            AddDomCommand::Portmap { domain_name, .. } => PlaceView::Domain(domain_name@),
            AddDomCommand::Variable { domain_name, .. } => PlaceView::Domain(domain_name@),
            AddDomCommand::Volume { domain_name, .. } => PlaceView::Domain(domain_name@),
        }
    }

    /// The place that the command speaks of.
    pub fn place(&self) -> (r: Place<'_>)
        ensures
            r@ == self.place_view(),
    {
        match self {
            AddDomCommand::Portmap { domain_name, .. } => Place::Domain(domain_name.as_str()),
            AddDomCommand::Variable { domain_name, .. } => Place::Domain(domain_name.as_str()),
            AddDomCommand::Volume { domain_name, .. } => Place::Domain(domain_name.as_str()),
        }
    }

    /// What the command adds.
    pub open spec fn request_view(self) -> AddRequestView {
        match self {
            AddDomCommand::Portmap { host_port, container_port, .. } => {
                AddRequestView::Entry(EntrySetting::HostPortmappings, host_port@, container_port@)
            },
            AddDomCommand::Variable { name, value, .. } => {
                AddRequestView::Entry(EntrySetting::Variables, name@, value@)
            },
            AddDomCommand::Volume { container_dir, host_dir, .. } => {
                AddRequestView::Volume(container_dir@, host_dir@)
            },
        }
    }

    /// What the command adds.
    pub fn request(&self) -> (r: AddRequest<'_>)
        ensures
            r@ == self.request_view(),
    {
        match self {
            AddDomCommand::Portmap { host_port, container_port, .. } => {
                AddRequest::Entry(
                    EntrySetting::HostPortmappings,
                    host_port.as_str(),
                    container_port.as_str(),
                )
            },
            AddDomCommand::Variable { name, value, .. } => {
                AddRequest::Entry(EntrySetting::Variables, name.as_str(), value.as_str())
            },
            AddDomCommand::Volume { container_dir, host_dir, .. } => {
                AddRequest::Volume(container_dir.as_str(), host_dir.as_str())
            },
        }
    }

    /// Where the domain is to be created, if it does not exist.
    pub open spec fn location_view(self) -> Option<Seq<char>> {
        match self {
            AddDomCommand::Portmap { location, .. } => location.deep_view(),
            AddDomCommand::Variable { location, .. } => location.deep_view(),
            AddDomCommand::Volume { location, .. } => location.deep_view(),
        }
    }

    /// Where the domain is to be created, if it does not exist.
    pub fn location(&self) -> (r: Option<&str>)
        ensures
            r.deep_view() == self.location_view(),
    {
        match self {
            AddDomCommand::Portmap { location, .. } => location_of(location),
            AddDomCommand::Variable { location, .. } => location_of(location),
            AddDomCommand::Volume { location, .. } => location_of(location),
        }
    }
}

impl AddGrpCommand {
    /// The place that the command speaks of.
    pub open spec fn place_view(self) -> PlaceView {
        match self {
            AddGrpCommand::Portmap { domain_name, group_name, .. } => {
                group_at(domain_name, group_name)
            },
            AddGrpCommand::Variable { domain_name, group_name, .. } => {
                group_at(domain_name, group_name)
            },
            AddGrpCommand::Volume { domain_name, group_name, .. } => {
                group_at(domain_name, group_name)
            },
        }
    }

    /// The place that the command speaks of.
    pub fn place(&self) -> (r: Place<'_>)
        ensures
            r@ == self.place_view(),
    {
        match self {
            AddGrpCommand::Portmap { domain_name, group_name, .. } => {
                group_place(domain_name, group_name)
            },
            AddGrpCommand::Variable { domain_name, group_name, .. } => {
                group_place(domain_name, group_name)
            },
            AddGrpCommand::Volume { domain_name, group_name, .. } => {
                group_place(domain_name, group_name)
            },
        }
    }

    /// What the command adds.
    pub open spec fn request_view(self) -> AddRequestView {
        match self {
            AddGrpCommand::Portmap { host_port, container_port, .. } => {
                AddRequestView::Entry(EntrySetting::HostPortmappings, host_port@, container_port@)
            },
            AddGrpCommand::Variable { name, value, .. } => {
                AddRequestView::Entry(EntrySetting::Variables, name@, value@)
            },
            AddGrpCommand::Volume { container_dir, host_dir, .. } => {
                AddRequestView::Volume(container_dir@, host_dir@)
            },
        }
    }

    /// What the command adds.
    pub fn request(&self) -> (r: AddRequest<'_>)
        ensures
            r@ == self.request_view(),
    {
        match self {
            AddGrpCommand::Portmap { host_port, container_port, .. } => {
                AddRequest::Entry(
                    EntrySetting::HostPortmappings,
                    host_port.as_str(),
                    container_port.as_str(),
                )
            },
            AddGrpCommand::Variable { name, value, .. } => {
                AddRequest::Entry(EntrySetting::Variables, name.as_str(), value.as_str())
            },
            AddGrpCommand::Volume { container_dir, host_dir, .. } => {
                AddRequest::Volume(container_dir.as_str(), host_dir.as_str())
            },
        }
    }

    /// Where the domain is to be created, if it does not exist.
    pub open spec fn location_view(self) -> Option<Seq<char>> {
        match self {
            AddGrpCommand::Portmap { location, .. } => location.deep_view(),
            AddGrpCommand::Variable { location, .. } => location.deep_view(),
            AddGrpCommand::Volume { location, .. } => location.deep_view(),
        }
    }

    /// Where the domain is to be created, if it does not exist.
    pub fn location(&self) -> (r: Option<&str>)
        ensures
            r.deep_view() == self.location_view(),
    {
        match self {
            AddGrpCommand::Portmap { location, .. } => location_of(location),
            AddGrpCommand::Variable { location, .. } => location_of(location),
            AddGrpCommand::Volume { location, .. } => location_of(location),
        }
    }
}

impl RmEnvCommand {
    /// The place that the command speaks of.
    pub open spec fn place_view(self) -> PlaceView {
        match self {
            RmEnvCommand::Portmap { environment, .. } => PlaceView::Environment(environment@),
            RmEnvCommand::Variable { environment, .. } => PlaceView::Environment(environment@),
            RmEnvCommand::Volume { environment, .. } => PlaceView::Environment(environment@),
            RmEnvCommand::ImageRepository { environment } => PlaceView::Environment(environment@),
            RmEnvCommand::ServeCommand { environment } => PlaceView::Environment(environment@),
            RmEnvCommand::ShellCommand { environment } => PlaceView::Environment(environment@),
            RmEnvCommand::Platform { environment } => PlaceView::Environment(environment@),
            RmEnvCommand::DefaultContainerImage { environment } => {
                PlaceView::Environment(environment@)
            },
            RmEnvCommand::ConnectionType { environment } => PlaceView::Environment(environment@),
        }
    }

    /// The place that the command speaks of.
    pub fn place(&self) -> (r: Place<'_>)
        ensures
            r@ == self.place_view(),
    {
        match self {
            RmEnvCommand::Portmap { environment, .. } => Place::Environment(environment.as_str()),
            RmEnvCommand::Variable { environment, .. } => Place::Environment(environment.as_str()),
            RmEnvCommand::Volume { environment, .. } => Place::Environment(environment.as_str()),
            RmEnvCommand::ImageRepository { environment } => {
                Place::Environment(environment.as_str())
            },
            RmEnvCommand::ServeCommand { environment } => Place::Environment(environment.as_str()),
            RmEnvCommand::ShellCommand { environment } => Place::Environment(environment.as_str()),
            RmEnvCommand::Platform { environment } => Place::Environment(environment.as_str()),
            RmEnvCommand::DefaultContainerImage { environment } => {
                Place::Environment(environment.as_str())
            },
            RmEnvCommand::ConnectionType { environment } => {
                Place::Environment(environment.as_str())
            },
        }
    }

    /// What the command removes.
    pub open spec fn request_view(self) -> RmRequestView {
        match self {
            RmEnvCommand::Portmap { host_port, .. } => {
                RmRequestView::Entry(EntrySetting::HostPortmappings, host_port@)
            },
            RmEnvCommand::Variable { name, .. } => {
                RmRequestView::Entry(EntrySetting::Variables, name@)
            },
            RmEnvCommand::Volume { container_dir, host_dir, .. } => {
                RmRequestView::Volume(container_dir@, host_dir@)
            },
            RmEnvCommand::ImageRepository { .. } => RmRequestView::Value(Setting::ImageRepository),
            RmEnvCommand::ServeCommand { .. } => RmRequestView::Value(Setting::ServeCommand),
            RmEnvCommand::ShellCommand { .. } => RmRequestView::Value(Setting::ShellCommand),
            RmEnvCommand::Platform { .. } => RmRequestView::Value(Setting::Platform),
            RmEnvCommand::DefaultContainerImage { .. } => {
                RmRequestView::Value(Setting::DefaultContainerImage)
            },
            RmEnvCommand::ConnectionType { .. } => RmRequestView::Value(Setting::ConnectionType),
        }
    }

    /// What the command removes.
    pub fn request(&self) -> (r: RmRequest<'_>)
        ensures
            r@ == self.request_view(),
    {
        match self {
            RmEnvCommand::Portmap { host_port, .. } => {
                RmRequest::Entry(EntrySetting::HostPortmappings, host_port.as_str())
            },
            RmEnvCommand::Variable { name, .. } => {
                RmRequest::Entry(EntrySetting::Variables, name.as_str())
            },
            RmEnvCommand::Volume { container_dir, host_dir, .. } => {
                RmRequest::Volume(container_dir.as_str(), host_dir.as_str())
            },
            RmEnvCommand::ImageRepository { .. } => RmRequest::Value(Setting::ImageRepository),
            RmEnvCommand::ServeCommand { .. } => RmRequest::Value(Setting::ServeCommand),
            RmEnvCommand::ShellCommand { .. } => RmRequest::Value(Setting::ShellCommand),
            RmEnvCommand::Platform { .. } => RmRequest::Value(Setting::Platform),
            RmEnvCommand::DefaultContainerImage { .. } => {
                RmRequest::Value(Setting::DefaultContainerImage)
            },
            RmEnvCommand::ConnectionType { .. } => RmRequest::Value(Setting::ConnectionType),
        }
    }
}

impl RmSvcCommand {
    /// The place that the command speaks of.
    pub open spec fn place_view(self) -> PlaceView {
        match self {
            RmSvcCommand::DefaultEnvironment { domain_name, group_name, service_name } => {
                service_at(domain_name, group_name, service_name)
            },
            RmSvcCommand::Portmap { domain_name, group_name, service_name, .. } => {
                service_at(domain_name, group_name, service_name)
            },
            RmSvcCommand::Variable { domain_name, group_name, service_name, .. } => {
                service_at(domain_name, group_name, service_name)
            },
            RmSvcCommand::Volume { domain_name, group_name, service_name, .. } => {
                service_at(domain_name, group_name, service_name)
            },
            RmSvcCommand::ImageRepository { domain_name, group_name, service_name } => {
                service_at(domain_name, group_name, service_name)
            },
            RmSvcCommand::ServeCommand { domain_name, group_name, service_name } => {
                service_at(domain_name, group_name, service_name)
            },
            RmSvcCommand::ShellCommand { domain_name, group_name, service_name } => {
                service_at(domain_name, group_name, service_name)
            },
            RmSvcCommand::Platform { domain_name, group_name, service_name } => {
                service_at(domain_name, group_name, service_name)
            },
            RmSvcCommand::DefaultContainerImage { domain_name, group_name, service_name } => {
                service_at(domain_name, group_name, service_name)
            },
            RmSvcCommand::ConnectionType { domain_name, group_name, service_name } => {
                service_at(domain_name, group_name, service_name)
            },
        }
    }

    /// The place that the command speaks of.
    pub fn place(&self) -> (r: Place<'_>)
        ensures
            r@ == self.place_view(),
    {
        match self {
            RmSvcCommand::DefaultEnvironment { domain_name, group_name, service_name } => {
                service_place(domain_name, group_name, service_name)
            },
            RmSvcCommand::Portmap { domain_name, group_name, service_name, .. } => {
                service_place(domain_name, group_name, service_name)
            },
            RmSvcCommand::Variable { domain_name, group_name, service_name, .. } => {
                service_place(domain_name, group_name, service_name)
            },
            RmSvcCommand::Volume { domain_name, group_name, service_name, .. } => {
                service_place(domain_name, group_name, service_name)
            },
            RmSvcCommand::ImageRepository { domain_name, group_name, service_name } => {
                service_place(domain_name, group_name, service_name)
            },
            RmSvcCommand::ServeCommand { domain_name, group_name, service_name } => {
                service_place(domain_name, group_name, service_name)
            },
            RmSvcCommand::ShellCommand { domain_name, group_name, service_name } => {
                service_place(domain_name, group_name, service_name)
            },
            RmSvcCommand::Platform { domain_name, group_name, service_name } => {
                service_place(domain_name, group_name, service_name)
            },
            RmSvcCommand::DefaultContainerImage { domain_name, group_name, service_name } => {
                service_place(domain_name, group_name, service_name)
            },
            RmSvcCommand::ConnectionType { domain_name, group_name, service_name } => {
                service_place(domain_name, group_name, service_name)
            },
        }
    }

    /// What the command removes.
    pub open spec fn request_view(self) -> RmRequestView {
        match self {
            RmSvcCommand::DefaultEnvironment { .. } => RmRequestView::DefaultEnvironment,
            RmSvcCommand::Portmap { host_port, .. } => {
                RmRequestView::Entry(EntrySetting::HostPortmappings, host_port@)
            },
            RmSvcCommand::Variable { name, .. } => {
                RmRequestView::Entry(EntrySetting::Variables, name@)
            },
            RmSvcCommand::Volume { container_dir, host_dir, .. } => {
                RmRequestView::Volume(container_dir@, host_dir@)
            },
            RmSvcCommand::ImageRepository { .. } => RmRequestView::Value(Setting::ImageRepository),
            RmSvcCommand::ServeCommand { .. } => RmRequestView::Value(Setting::ServeCommand),
            RmSvcCommand::ShellCommand { .. } => RmRequestView::Value(Setting::ShellCommand),
            RmSvcCommand::Platform { .. } => RmRequestView::Value(Setting::Platform),
            RmSvcCommand::DefaultContainerImage { .. } => {
                RmRequestView::Value(Setting::DefaultContainerImage)
            },
            RmSvcCommand::ConnectionType { .. } => RmRequestView::Value(Setting::ConnectionType),
        }
    }

    /// What the command removes.
    pub fn request(&self) -> (r: RmRequest<'_>)
        ensures
            r@ == self.request_view(),
    {
        match self {
            RmSvcCommand::DefaultEnvironment { .. } => RmRequest::DefaultEnvironment,
            RmSvcCommand::Portmap { host_port, .. } => {
                RmRequest::Entry(EntrySetting::HostPortmappings, host_port.as_str())
            },
            RmSvcCommand::Variable { name, .. } => {
                RmRequest::Entry(EntrySetting::Variables, name.as_str())
            },
            RmSvcCommand::Volume { container_dir, host_dir, .. } => {
                RmRequest::Volume(container_dir.as_str(), host_dir.as_str())
            },
            RmSvcCommand::ImageRepository { .. } => RmRequest::Value(Setting::ImageRepository),
            RmSvcCommand::ServeCommand { .. } => RmRequest::Value(Setting::ServeCommand),
            RmSvcCommand::ShellCommand { .. } => RmRequest::Value(Setting::ShellCommand),
            RmSvcCommand::Platform { .. } => RmRequest::Value(Setting::Platform),
            RmSvcCommand::DefaultContainerImage { .. } => {
                RmRequest::Value(Setting::DefaultContainerImage)
            },
            RmSvcCommand::ConnectionType { .. } => RmRequest::Value(Setting::ConnectionType),
        }
    }
}

impl RmDomCommand {
    /// The place that the command speaks of.
    pub open spec fn place_view(self) -> PlaceView {
        match self {
            RmDomCommand::DefaultEnvironment { domain_name } => PlaceView::Domain(domain_name@),
            RmDomCommand::Portmap { domain_name, .. } => PlaceView::Domain(domain_name@),
            RmDomCommand::Variable { domain_name, .. } => PlaceView::Domain(domain_name@),
            RmDomCommand::Volume { domain_name, .. } => PlaceView::Domain(domain_name@),
            RmDomCommand::ImageRepository { domain_name } => PlaceView::Domain(domain_name@),
            RmDomCommand::ServeCommand { domain_name } => PlaceView::Domain(domain_name@),
            RmDomCommand::ShellCommand { domain_name } => PlaceView::Domain(domain_name@),
            RmDomCommand::Platform { domain_name } => PlaceView::Domain(domain_name@),
            RmDomCommand::DefaultContainerImage { domain_name } => PlaceView::Domain(domain_name@),
            RmDomCommand::ConnectionType { domain_name } => PlaceView::Domain(domain_name@),
        }
    }

    /// The place that the command speaks of.
    pub fn place(&self) -> (r: Place<'_>)
        ensures
            r@ == self.place_view(),
    {
        match self {
            RmDomCommand::DefaultEnvironment { domain_name } => Place::Domain(domain_name.as_str()),
            RmDomCommand::Portmap { domain_name, .. } => Place::Domain(domain_name.as_str()),
            RmDomCommand::Variable { domain_name, .. } => Place::Domain(domain_name.as_str()),
            RmDomCommand::Volume { domain_name, .. } => Place::Domain(domain_name.as_str()),
            RmDomCommand::ImageRepository { domain_name } => Place::Domain(domain_name.as_str()),
            RmDomCommand::ServeCommand { domain_name } => Place::Domain(domain_name.as_str()),
            RmDomCommand::ShellCommand { domain_name } => Place::Domain(domain_name.as_str()),
            RmDomCommand::Platform { domain_name } => Place::Domain(domain_name.as_str()),
            RmDomCommand::DefaultContainerImage { domain_name } => {
                Place::Domain(domain_name.as_str())
            },
            RmDomCommand::ConnectionType { domain_name } => Place::Domain(domain_name.as_str()),
        }
    }

    /// What the command removes.
    pub open spec fn request_view(self) -> RmRequestView {
        match self {
            RmDomCommand::DefaultEnvironment { .. } => RmRequestView::DefaultEnvironment,
            RmDomCommand::Portmap { host_port, .. } => {
                RmRequestView::Entry(EntrySetting::HostPortmappings, host_port@)
            },
            RmDomCommand::Variable { name, .. } => {
                RmRequestView::Entry(EntrySetting::Variables, name@)
            },
            RmDomCommand::Volume { container_dir, host_dir, .. } => {
                RmRequestView::Volume(container_dir@, host_dir@)
            },
            RmDomCommand::ImageRepository { .. } => RmRequestView::Value(Setting::ImageRepository),
            RmDomCommand::ServeCommand { .. } => RmRequestView::Value(Setting::ServeCommand),
            RmDomCommand::ShellCommand { .. } => RmRequestView::Value(Setting::ShellCommand),
            RmDomCommand::Platform { .. } => RmRequestView::Value(Setting::Platform),
            RmDomCommand::DefaultContainerImage { .. } => {
                RmRequestView::Value(Setting::DefaultContainerImage)
            },
            RmDomCommand::ConnectionType { .. } => RmRequestView::Value(Setting::ConnectionType),
        }
    }

    /// What the command removes.
    pub fn request(&self) -> (r: RmRequest<'_>)
        ensures
            r@ == self.request_view(),
    {
        match self {
            RmDomCommand::DefaultEnvironment { .. } => RmRequest::DefaultEnvironment,
            RmDomCommand::Portmap { host_port, .. } => {
                RmRequest::Entry(EntrySetting::HostPortmappings, host_port.as_str())
            },
            RmDomCommand::Variable { name, .. } => {
                RmRequest::Entry(EntrySetting::Variables, name.as_str())
            },
            RmDomCommand::Volume { container_dir, host_dir, .. } => {
                RmRequest::Volume(container_dir.as_str(), host_dir.as_str())
            },
            RmDomCommand::ImageRepository { .. } => RmRequest::Value(Setting::ImageRepository),
            RmDomCommand::ServeCommand { .. } => RmRequest::Value(Setting::ServeCommand),
            RmDomCommand::ShellCommand { .. } => RmRequest::Value(Setting::ShellCommand),
            RmDomCommand::Platform { .. } => RmRequest::Value(Setting::Platform),
            RmDomCommand::DefaultContainerImage { .. } => {
                RmRequest::Value(Setting::DefaultContainerImage)
            },
            RmDomCommand::ConnectionType { .. } => RmRequest::Value(Setting::ConnectionType),
        }
    }
}

impl RmGrpCommand {
    /// The place that the command speaks of.
    pub open spec fn place_view(self) -> PlaceView {
        match self {
            RmGrpCommand::DefaultEnvironment { domain_name, group_name } => {
                group_at(domain_name, group_name)
            },
            RmGrpCommand::Portmap { domain_name, group_name, .. } => {
                group_at(domain_name, group_name)
            },
            RmGrpCommand::Variable { domain_name, group_name, .. } => {
                group_at(domain_name, group_name)
            },
            RmGrpCommand::Volume { domain_name, group_name, .. } => {
                group_at(domain_name, group_name)
            },
            RmGrpCommand::ImageRepository { domain_name, group_name } => {
                group_at(domain_name, group_name)
            },
            RmGrpCommand::ServeCommand { domain_name, group_name } => {
                group_at(domain_name, group_name)
            },
            RmGrpCommand::ShellCommand { domain_name, group_name } => {
                group_at(domain_name, group_name)
            },
            RmGrpCommand::Platform { domain_name, group_name } => group_at(domain_name, group_name),
            RmGrpCommand::DefaultContainerImage { domain_name, group_name } => {
                group_at(domain_name, group_name)
            },
            RmGrpCommand::ConnectionType { domain_name, group_name } => {
                group_at(domain_name, group_name)
            },
        }
    }

    /// The place that the command speaks of.
    pub fn place(&self) -> (r: Place<'_>)
        ensures
            r@ == self.place_view(),
    {
        match self {
            RmGrpCommand::DefaultEnvironment { domain_name, group_name } => {
                group_place(domain_name, group_name)
            },
            RmGrpCommand::Portmap { domain_name, group_name, .. } => {
                group_place(domain_name, group_name)
            },
            RmGrpCommand::Variable { domain_name, group_name, .. } => {
                group_place(domain_name, group_name)
            },
            RmGrpCommand::Volume { domain_name, group_name, .. } => {
                group_place(domain_name, group_name)
            },
            RmGrpCommand::ImageRepository { domain_name, group_name } => {
                group_place(domain_name, group_name)
            },
            RmGrpCommand::ServeCommand { domain_name, group_name } => {
                group_place(domain_name, group_name)
            },
            RmGrpCommand::ShellCommand { domain_name, group_name } => {
                group_place(domain_name, group_name)
            },
            RmGrpCommand::Platform { domain_name, group_name } => {
                group_place(domain_name, group_name)
            },
            RmGrpCommand::DefaultContainerImage { domain_name, group_name } => {
                group_place(domain_name, group_name)
            },
            RmGrpCommand::ConnectionType { domain_name, group_name } => {
                group_place(domain_name, group_name)
            },
        }
    }

    /// What the command removes.
    pub open spec fn request_view(self) -> RmRequestView {
        match self {
            RmGrpCommand::DefaultEnvironment { .. } => RmRequestView::DefaultEnvironment,
            RmGrpCommand::Portmap { host_port, .. } => {
                RmRequestView::Entry(EntrySetting::HostPortmappings, host_port@)
            },
            RmGrpCommand::Variable { name, .. } => {
                RmRequestView::Entry(EntrySetting::Variables, name@)
            },
            RmGrpCommand::Volume { container_dir, host_dir, .. } => {
                RmRequestView::Volume(container_dir@, host_dir@)
            },
            RmGrpCommand::ImageRepository { .. } => RmRequestView::Value(Setting::ImageRepository),
            RmGrpCommand::ServeCommand { .. } => RmRequestView::Value(Setting::ServeCommand),
            RmGrpCommand::ShellCommand { .. } => RmRequestView::Value(Setting::ShellCommand),
            RmGrpCommand::Platform { .. } => RmRequestView::Value(Setting::Platform),
            RmGrpCommand::DefaultContainerImage { .. } => {
                RmRequestView::Value(Setting::DefaultContainerImage)
            },
            RmGrpCommand::ConnectionType { .. } => RmRequestView::Value(Setting::ConnectionType),
        }
    }

    /// What the command removes.
    pub fn request(&self) -> (r: RmRequest<'_>)
        ensures
            r@ == self.request_view(),
    {
        match self {
            RmGrpCommand::DefaultEnvironment { .. } => RmRequest::DefaultEnvironment,
            RmGrpCommand::Portmap { host_port, .. } => {
                RmRequest::Entry(EntrySetting::HostPortmappings, host_port.as_str())
            },
            RmGrpCommand::Variable { name, .. } => {
                RmRequest::Entry(EntrySetting::Variables, name.as_str())
            },
            RmGrpCommand::Volume { container_dir, host_dir, .. } => {
                RmRequest::Volume(container_dir.as_str(), host_dir.as_str())
            },
            RmGrpCommand::ImageRepository { .. } => RmRequest::Value(Setting::ImageRepository),
            RmGrpCommand::ServeCommand { .. } => RmRequest::Value(Setting::ServeCommand),
            RmGrpCommand::ShellCommand { .. } => RmRequest::Value(Setting::ShellCommand),
            RmGrpCommand::Platform { .. } => RmRequest::Value(Setting::Platform),
            RmGrpCommand::DefaultContainerImage { .. } => {
                RmRequest::Value(Setting::DefaultContainerImage)
            },
            RmGrpCommand::ConnectionType { .. } => RmRequest::Value(Setting::ConnectionType),
        }
    }
}

} // verus!
