//! The domain that a command makes sure of.
use crate::commands::cli::{
    AddCommand, AddDomCommand, AddGrpCommand, AddSvcCommand, SetCommand, SetDomCommand,
    SetGrpCommand, SetSvcCommand,
};
use crate::commands::config_cmds::{add_applied, domain_of, set_applied};
use crate::config::edit::{Place, PlaceView};
use crate::config::model::{Config, ConfigView};
use vstd::prelude::*;

verus! {

/// A domain, and the location at which it is to be created where it does not exist.
#[derive(Debug, Clone)]
pub struct Target {
    pub domain_name: String,
    pub location: Option<String>,
}

/// What a target is.
pub struct TargetView {
    pub domain_name: Seq<char>,
    pub location: Option<Seq<char>>,
}

impl DeepView for Target {
    type V = TargetView;

    open spec fn deep_view(&self) -> TargetView {
        TargetView { domain_name: self.domain_name@, location: self.location.deep_view() }
    }
}

/// The domain of a place, with the location. An environment has none.
pub open spec fn target_at(place: PlaceView, location: Option<Seq<char>>) -> Option<TargetView> {
    if place is Environment {
        None
    } else {
        Some(TargetView { domain_name: domain_of(place), location })
    }
}

fn find_target(place: &Place, location: Option<&str>) -> (r: Option<Target>)
    ensures
        r.deep_view() == target_at(place@, location.deep_view()),
{
    let domain = match *place {
        Place::Domain(d) => d,
        Place::Group(d, _g) => d,
        Place::Service(d, _g, _s) => d,
        Place::Environment(_e) => {
            return None;
        },
    };
    Some(
        Target {
            domain_name: domain.to_string(),
            location: match location {
                Some(l) => Some(l.to_string()),
                None => None,
            },
        },
    )
}

impl SetCommand {
    /// The domain that the command makes sure of, if any.
    pub open spec fn target_view(self) -> Option<TargetView> {
        match self {
            SetCommand::Svc { cmd } => target_at(cmd.place_view(), cmd.location_view()),
            SetCommand::Dom { cmd } => target_at(cmd.place_view(), cmd.location_view()),
            SetCommand::Grp { cmd } => target_at(cmd.place_view(), cmd.location_view()),
            _ => None,
        }
    }

    /// The domain that the command makes sure of, if any.
    pub fn target(&self) -> (r: Option<Target>)
        ensures
            r.deep_view() == self.target_view(),
    {
        match self {
            SetCommand::Svc { cmd } => find_target(&cmd.place(), cmd.location()),
            SetCommand::Dom { cmd } => find_target(&cmd.place(), cmd.location()),
            SetCommand::Grp { cmd } => find_target(&cmd.place(), cmd.location()),
            _ => None,
        }
    }
}

impl AddCommand {
    /// The domain that the command makes sure of, if any.
    pub open spec fn target_view(self) -> Option<TargetView> {
        match self {
            AddCommand::Dom { cmd } => target_at(cmd.place_view(), cmd.location_view()),
            AddCommand::Grp { cmd } => target_at(cmd.place_view(), cmd.location_view()),
            AddCommand::Svc { cmd } => target_at(cmd.place_view(), cmd.location_view()),
            _ => None,
        }
    }

    /// The domain that the command makes sure of, if any.
    pub fn target(&self) -> (r: Option<Target>)
        ensures
            r.deep_view() == self.target_view(),
    {
        match self {
            AddCommand::Dom { cmd } => find_target(&cmd.place(), cmd.location()),
            AddCommand::Grp { cmd } => find_target(&cmd.place(), cmd.location()),
            AddCommand::Svc { cmd } => find_target(&cmd.place(), cmd.location()),
            _ => None,
        }
    }
}

/// The parents have no say: the target exists, or its location is given, or there is none.
pub open spec fn parents_have_no_say(c: ConfigView, target: Option<TargetView>) -> bool {
    match target {
        Some(t) => c.domain(t.domain_name) is Ok || t.location is Some,
        None => true,
    }
}

/// Must the parent configurations be read for the target?
pub fn asks_parents(config: &Config, target: &Option<Target>) -> (r: bool)
    ensures
        r == !parents_have_no_say(config@, target.deep_view()),
{
    match target {
        Some(t) => match &t.location {
            Some(_l) => false,
            None => config.needs_parents(t.domain_name.as_str(), None),
        },
        None => false,
    }
}

/// The target is the domain, with the location.
pub open spec fn is_target(
    target: Option<TargetView>,
    domain_name: String,
    location: Option<String>,
) -> bool {
    &&& target is Some
    &&& target->0.domain_name == domain_name@
    &&& target->0.location is Some <==> location is Some
    &&& location is Some ==> target->0.location->0 == location->0@
}

/// Parent configurations have to be read exactly where a command names a domain that does not
/// exist and gives no location for it.
pub proof fn parents_are_asked_for_unknown_domains(c: ConfigView, target: Option<TargetView>)
    ensures
        parents_have_no_say(c, target) <==> !(target is Some && target->0.location is None && !(
        c.domains is Some && c.domains->0.contains_key(target->0.domain_name))),
{
}

/// A command for a domain, a group or a service makes sure of the domain that it names, at the
/// location that it gives. No other command makes sure of a domain.
pub proof fn commands_make_sure_of_the_domain_they_name(set: SetCommand, add: AddCommand)
    ensures
        match set {
            SetCommand::Svc { cmd } => match cmd {
                SetSvcCommand::DefaultEnvironment { domain_name, location, .. } => is_target(
                    set.target_view(),
                    domain_name,
                    location,
                ),
                SetSvcCommand::ImageRepository { domain_name, location, .. } => is_target(
                    set.target_view(),
                    domain_name,
                    location,
                ),
                SetSvcCommand::ServeCommand { domain_name, location, .. } => is_target(
                    set.target_view(),
                    domain_name,
                    location,
                ),
                SetSvcCommand::ShellCommand { domain_name, location, .. } => is_target(
                    set.target_view(),
                    domain_name,
                    location,
                ),
                SetSvcCommand::Platform { domain_name, location, .. } => is_target(
                    set.target_view(),
                    domain_name,
                    location,
                ),
                SetSvcCommand::DefaultContainerImage { domain_name, location, .. } => is_target(
                    set.target_view(),
                    domain_name,
                    location,
                ),
                SetSvcCommand::ConnectionType { domain_name, location, .. } => is_target(
                    set.target_view(),
                    domain_name,
                    location,
                ),
            },
            SetCommand::Dom { cmd } => match cmd {
                SetDomCommand::DefaultEnvironment { domain_name, location, .. } => is_target(
                    set.target_view(),
                    domain_name,
                    location,
                ),
                SetDomCommand::ImageRepository { domain_name, location, .. } => is_target(
                    set.target_view(),
                    domain_name,
                    location,
                ),
                SetDomCommand::ServeCommand { domain_name, location, .. } => is_target(
                    set.target_view(),
                    domain_name,
                    location,
                ),
                SetDomCommand::ShellCommand { domain_name, location, .. } => is_target(
                    set.target_view(),
                    domain_name,
                    location,
                ),
                SetDomCommand::Platform { domain_name, location, .. } => is_target(
                    set.target_view(),
                    domain_name,
                    location,
                ),
                SetDomCommand::DefaultContainerImage { domain_name, location, .. } => is_target(
                    set.target_view(),
                    domain_name,
                    location,
                ),
                SetDomCommand::ConnectionType { domain_name, location, .. } => is_target(
                    set.target_view(),
                    domain_name,
                    location,
                ),
            },
            SetCommand::Grp { cmd } => match cmd {
                SetGrpCommand::DefaultEnvironment { domain_name, location, .. } => is_target(
                    set.target_view(),
                    domain_name,
                    location,
                ),
                SetGrpCommand::ImageRepository { domain_name, location, .. } => is_target(
                    set.target_view(),
                    domain_name,
                    location,
                ),
                SetGrpCommand::ServeCommand { domain_name, location, .. } => is_target(
                    set.target_view(),
                    domain_name,
                    location,
                ),
                SetGrpCommand::ShellCommand { domain_name, location, .. } => is_target(
                    set.target_view(),
                    domain_name,
                    location,
                ),
                SetGrpCommand::Platform { domain_name, location, .. } => is_target(
                    set.target_view(),
                    domain_name,
                    location,
                ),
                SetGrpCommand::DefaultContainerImage { domain_name, location, .. } => is_target(
                    set.target_view(),
                    domain_name,
                    location,
                ),
                SetGrpCommand::ConnectionType { domain_name, location, .. } => is_target(
                    set.target_view(),
                    domain_name,
                    location,
                ),
            },
            _ => set.target_view() is None,
        },
        match add {
            AddCommand::Dom { cmd } => match cmd {
                AddDomCommand::Portmap { domain_name, location, .. } => is_target(
                    add.target_view(),
                    domain_name,
                    location,
                ),
                AddDomCommand::Variable { domain_name, location, .. } => is_target(
                    add.target_view(),
                    domain_name,
                    location,
                ),
                AddDomCommand::Volume { domain_name, location, .. } => is_target(
                    add.target_view(),
                    domain_name,
                    location,
                ),
            },
            AddCommand::Grp { cmd } => match cmd {
                AddGrpCommand::Portmap { domain_name, location, .. } => is_target(
                    add.target_view(),
                    domain_name,
                    location,
                ),
                AddGrpCommand::Variable { domain_name, location, .. } => is_target(
                    add.target_view(),
                    domain_name,
                    location,
                ),
                AddGrpCommand::Volume { domain_name, location, .. } => is_target(
                    add.target_view(),
                    domain_name,
                    location,
                ),
            },
            AddCommand::Svc { cmd } => match cmd {
                AddSvcCommand::Portmap { domain_name, location, .. } => is_target(
                    add.target_view(),
                    domain_name,
                    location,
                ),
                AddSvcCommand::Variable { domain_name, location, .. } => is_target(
                    add.target_view(),
                    domain_name,
                    location,
                ),
                AddSvcCommand::Volume { domain_name, location, .. } => is_target(
                    add.target_view(),
                    domain_name,
                    location,
                ),
            },
            _ => add.target_view() is None,
        },
{
}

/// Parent configurations matter to a command that sets something only where its domain
/// does not exist and no location is given.
pub proof fn parents_matter_to_set_only_where_asked(
    c: ConfigView,
    cmd: SetCommand,
    path: Seq<char>,
    parents: Seq<ConfigView>,
)
    requires
        parents_have_no_say(c, cmd.target_view()),
    ensures
        set_applied(c, cmd, path, parents) == set_applied(c, cmd, path, Seq::empty()),
{
}

/// Parent configurations matter to a command that adds something only where its domain
/// does not exist and no location is given.
pub proof fn parents_matter_to_add_only_where_asked(
    c: ConfigView,
    cmd: AddCommand,
    parents: Seq<ConfigView>,
)
    requires
        parents_have_no_say(c, cmd.target_view()),
    ensures
        add_applied(c, cmd, parents) == add_applied(c, cmd, Seq::empty()),
{
}

} // verus!
