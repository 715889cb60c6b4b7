//! What the commands that edit a configuration do.
use crate::commands::cli::{
    location_of, AddCommand, AddRequest, AddRequestView, RmCommand, RmRequest, RmRequestView,
    SetCommand, SetRequest, SetRequestView,
};
use crate::config::connection::validate_connection_type;
use crate::config::edit::{checked_connection_type, Edit, NotedEdit, Place, PlaceView, Setting};
use crate::config::general::{bad_bool, word_value};
use crate::config::model::{Config, ConfigView};
use crate::error::ConfigError;
use crate::text::{four, lowered, str_eq, str_lowercase, three, trim, two};
use vstd::prelude::*;

verus! {

// ---------------------------------------------------------------------------
// What a command does
// ---------------------------------------------------------------------------
/// How a command ended.
#[derive(Debug)]
pub enum Outcome {
    /// It was carried out. The configuration is to be saved, and then the message shown.
    Done(Option<String>),
    /// It failed.
    Failed(ConfigError),
    /// Its arguments make no sense.
    Refused(String),
}

/// What a command did: the notices to show as it ran, and how it ended.
#[derive(Debug)]
pub struct Applied {
    pub notices: Vec<String>,
    pub outcome: Outcome,
}

/// How a command ends.
pub enum OutcomeView {
    Done(Option<Seq<char>>),
    Failed(Seq<char>),
    Refused(Seq<char>),
}

/// What a command does: the configuration after it, the notices, and how it ends.
pub struct AppliedView {
    pub config: ConfigView,
    pub notices: Seq<Seq<char>>,
    pub outcome: OutcomeView,
}

impl Outcome {
    /// What the outcome is.
    pub open spec fn model(self) -> OutcomeView {
        match self {
            Outcome::Done(message) => OutcomeView::Done(message.deep_view()),
            Outcome::Failed(e) => OutcomeView::Failed(e@),
            Outcome::Refused(text) => OutcomeView::Refused(text@),
        }
    }
}

impl Applied {
    /// What was done, given the configuration after it.
    pub open spec fn model(self, config: ConfigView) -> AppliedView {
        AppliedView { config, notices: self.notices.deep_view(), outcome: self.outcome.model() }
    }
}

/// An edit, with the message for when it is made.
pub open spec fn plain(c: ConfigView, edit: Edit, message: Option<Seq<char>>) -> AppliedView {
    match edit {
        Ok(after) => AppliedView {
            config: after,
            notices: Seq::empty(),
            outcome: OutcomeView::Done(message),
        },
        Err(e) => AppliedView {
            config: c,
            notices: Seq::empty(),
            outcome: OutcomeView::Failed(e),
        },
    }
}

/// An edit that gives a notice of its own.
pub open spec fn noted(c: ConfigView, edit: NotedEdit) -> AppliedView {
    match edit {
        Ok((after, notice)) => AppliedView {
            config: after,
            notices: seq![notice],
            outcome: OutcomeView::Done(None),
        },
        Err(e) => AppliedView {
            config: c,
            notices: Seq::empty(),
            outcome: OutcomeView::Failed(e),
        },
    }
}

/// What is done once the domain was made sure of.
pub open spec fn in_domain(
    c: ConfigView,
    d: Seq<char>,
    location: Option<Seq<char>>,
    parents: Seq<ConfigView>,
    rest: spec_fn(ConfigView) -> AppliedView,
) -> AppliedView {
    match c.ensure_domain(d, location, parents) {
        Err(e) => AppliedView {
            config: c.with_domain_map(),
            notices: Seq::empty(),
            outcome: OutcomeView::Failed(e),
        },
        Ok((after, notice)) => {
            let a = rest(after);
            AppliedView {
                notices: match notice {
                    Some(n) => seq![n] + a.notices,
                    None => a.notices,
                },
                ..a
            }
        },
    }
}

impl ConfigView {
    /// Gives a setting a value. A connection type is checked first.
    pub open spec fn set_checked(
        self,
        place: PlaceView,
        setting: Setting,
        value: Seq<char>,
    ) -> Edit {
        let edit = if place is Environment && setting != Setting::ServeCommand {
            self.set_existing_value(place, setting, value)
        } else {
            self.set_value(place, setting, value)
        };
        if setting == Setting::ConnectionType {
            checked_connection_type(value, edit)
        } else {
            edit
        }
    }

    /// Sets the default environment of a place.
    pub open spec fn set_default_environment(self, place: PlaceView, e: Seq<char>) -> Edit {
        match place {
            PlaceView::Domain(d) => self.set_domain_default_environment(d, e),
            PlaceView::Group(d, g) => self.set_group_default_environment(d, g, e),
            PlaceView::Service(d, g, s) => self.set_service_default_environment(d, g, s, e),
            PlaceView::Environment(_) => Ok(self),
        }
    }

    /// Takes the default environment of a place away.
    pub open spec fn rm_default_environment(self, place: PlaceView) -> Edit {
        match place {
            PlaceView::Domain(d) => self.rm_domain_default_environment(d),
            PlaceView::Group(d, g) => self.rm_group_default_environment(d, g),
            PlaceView::Service(d, g, s) => self.rm_service_default_environment(d, g, s),
            PlaceView::Environment(_) => Ok(self),
        }
    }
}

/// The message for a setting that was set.
pub open spec fn set_message(place: PlaceView, setting: Setting, value: Seq<char>) -> Seq<char> {
    "Set "@ + setting.key() + " for "@ + place.text() + " to:\n  "@ + value
}

/// The message for a default environment that was set.
pub open spec fn default_environment_message(place: PlaceView, e: Seq<char>) -> Seq<char> {
    if place is Domain {
        "Set default_environment for "@ + place.text() + " to environment '"@ + e + "'"@
    } else {
        "Set default_environment for "@ + place.text() + " to '"@ + e + "'"@
    }
}

/// What is set at a place, once the domain of the place was made sure of.
pub open spec fn request_set(
    c: ConfigView,
    place: PlaceView,
    location: Option<Seq<char>>,
    parents: Seq<ConfigView>,
    request: SetRequestView,
) -> AppliedView {
    in_place(
        c,
        place,
        location,
        parents,
        |c: ConfigView|
            match request {
                SetRequestView::DefaultEnvironment(e) => plain(
                    c,
                    c.set_default_environment(place, e),
                    Some(default_environment_message(place, e)),
                ),
                SetRequestView::Value(setting, value) => plain(
                    c,
                    c.set_checked(place, setting, value),
                    Some(set_message(place, setting, value)),
                ),
            },
    )
}

/// What is done once the domain of a place was made sure of. An environment has none.
pub open spec fn in_place(
    c: ConfigView,
    place: PlaceView,
    location: Option<Seq<char>>,
    parents: Seq<ConfigView>,
    rest: spec_fn(ConfigView) -> AppliedView,
) -> AppliedView {
    if place is Environment {
        rest(c)
    } else {
        in_domain(c, domain_of(place), location, parents, rest)
    }
}

/// The domain that a place lies in. An environment lies in none.
pub open spec fn domain_of(place: PlaceView) -> Seq<char> {
    match place {
        PlaceView::Domain(d) => d,
        PlaceView::Group(d, _) => d,
        PlaceView::Service(d, _, _) => d,
        PlaceView::Environment(_) => Seq::empty(),
    }
}

/// What is added to a place, once the domain of the place was made sure of.
pub open spec fn request_added(
    c: ConfigView,
    place: PlaceView,
    location: Option<Seq<char>>,
    parents: Seq<ConfigView>,
    request: AddRequestView,
) -> AppliedView {
    in_place(
        c,
        place,
        location,
        parents,
        |c: ConfigView|
            match request {
                AddRequestView::Entry(setting, key, value) => noted(
                    c,
                    c.add_entry(place, setting, key, value),
                ),
                AddRequestView::Volume(container, host) => noted(
                    c,
                    c.add_volume(place, container, host),
                ),
            },
    )
}

/// The message for a default environment that was taken away.
pub open spec fn default_environment_removed(place: PlaceView) -> Seq<char> {
    "Removed default_environment for "@ + place.text()
}

/// What is removed from a place.
pub open spec fn request_removed(
    c: ConfigView,
    place: PlaceView,
    request: RmRequestView,
) -> AppliedView {
    match request {
        RmRequestView::DefaultEnvironment => plain(
            c,
            c.rm_default_environment(place),
            Some(default_environment_removed(place)),
        ),
        RmRequestView::Value(setting) => plain(c, c.rm_value(place, setting), None),
        RmRequestView::Entry(setting, key) => noted(c, c.rm_entry(place, setting, key)),
        RmRequestView::Volume(container, host) => noted(c, c.rm_volume(place, container, host)),
    }
}

/// The engine is set. Only two are known.
pub open spec fn engine_set(c: ConfigView, word: Seq<char>) -> AppliedView {
    if word == "podman"@ || word == "docker"@ {
        AppliedView {
            config: ConfigView { engine: Some(word), ..c },
            notices: Seq::empty(),
            outcome: OutcomeView::Done(
                Some("Engine set. New Darp invocations will use this container engine."@),
            ),
        }
    } else {
        AppliedView {
            config: c,
            notices: Seq::empty(),
            outcome: OutcomeView::Refused("engine must be 'podman' or 'docker'"@),
        }
    }
}

/// What is said of a switch.
pub open spec fn switch_text(on: bool) -> Seq<char> {
    if on {
        "enabled"@
    } else {
        "disabled"@
    }
}

/// Hostnames are kept in the system's hosts file or not, as the word says. `value` is the
/// text that the word was read from.
pub open spec fn urls_in_hosts_set(
    c: ConfigView,
    value: Seq<char>,
    word: Seq<char>,
    path: Seq<char>,
) -> AppliedView {
    match word_value(word) {
        Some(v) => plain(
            c,
            Ok(ConfigView { urls_in_hosts: Some(v), ..c }),
            Some(
                "urls_in_hosts has been "@ + switch_text(v) + " (stored in "@ + path
                    + "). Next 'darp deploy' will sync /etc/hosts accordingly."@,
            ),
        ),
        None => plain(c, Err(bad_bool(value)), None),
    }
}

/// The mode for the Windows subsystem is on or off, as the word says. `value` is the text
/// that the word was read from.
pub open spec fn wsl_set(
    c: ConfigView,
    value: Seq<char>,
    word: Seq<char>,
    path: Seq<char>,
) -> AppliedView {
    match word_value(word) {
        Some(v) => plain(
            c,
            Ok(ConfigView { wsl: Some(v), ..c }),
            Some(
                "WSL mode has been "@ + switch_text(v) + " (stored in "@ + path
                    + "). When enabled alongside urls_in_hosts, 'darp deploy' will also sync /mnt/c/Windows/System32/drivers/etc/hosts."@,
            ),
        ),
        None => plain(c, Err(bad_bool(value)), None),
    }
}

/// What setting something does.
pub open spec fn set_applied(
    c: ConfigView,
    cmd: SetCommand,
    path: Seq<char>,
    parents: Seq<ConfigView>,
) -> AppliedView {
    match cmd {
        SetCommand::PodmanMachine { new_podman_machine } => plain(
            c,
            Ok(ConfigView { podman_machine: Some(new_podman_machine@), ..c }),
            Some(
                "PODMAN_MACHINE set to '"@ + new_podman_machine@ + "' in config ("@ + path + ")."@,
            ),
        ),
        SetCommand::Engine { engine } => engine_set(c, lowered(engine@)),
        SetCommand::Env { cmd } => request_set(
            c,
            cmd.place_view(),
            None,
            parents,
            cmd.request_view(),
        ),
        SetCommand::Svc { cmd } => request_set(
            c,
            cmd.place_view(),
            cmd.location_view(),
            parents,
            cmd.request_view(),
        ),
        SetCommand::Dom { cmd } => request_set(
            c,
            cmd.place_view(),
            cmd.location_view(),
            parents,
            cmd.request_view(),
        ),
        SetCommand::Grp { cmd } => request_set(
            c,
            cmd.place_view(),
            cmd.location_view(),
            parents,
            cmd.request_view(),
        ),
        SetCommand::UrlsInHosts { value } => urls_in_hosts_set(
            c,
            value@,
            lowered(trim(value@)),
            path,
        ),
        SetCommand::Wsl { value } => wsl_set(c, value@, lowered(trim(value@)), path),
    }
}

/// What adding something does.
pub open spec fn add_applied(
    c: ConfigView,
    cmd: AddCommand,
    parents: Seq<ConfigView>,
) -> AppliedView {
    match cmd {
        AddCommand::PreConfig { location, repo_location } => plain(
            c,
            c.add_pre_config(location@, repo_location.deep_view()),
            Some("Added pre_config '"@ + location@ + "'"@),
        ),
        AddCommand::Dom { cmd } => request_added(
            c,
            cmd.place_view(),
            cmd.location_view(),
            parents,
            cmd.request_view(),
        ),
        AddCommand::Grp { cmd } => request_added(
            c,
            cmd.place_view(),
            cmd.location_view(),
            parents,
            cmd.request_view(),
        ),
        AddCommand::Env { cmd } => request_added(
            c,
            cmd.place_view(),
            None,
            parents,
            cmd.request_view(),
        ),
        AddCommand::Svc { cmd } => request_added(
            c,
            cmd.place_view(),
            cmd.location_view(),
            parents,
            cmd.request_view(),
        ),
    }
}

/// What removing something does.
pub open spec fn rm_applied(c: ConfigView, cmd: RmCommand) -> AppliedView {
    match cmd {
        RmCommand::PodmanMachine {  } => plain(
            c,
            Ok(ConfigView { podman_machine: None, ..c }),
            None,
        ),
        RmCommand::PreConfig { location } => plain(
            c,
            c.rm_pre_config(location@),
            Some("Removed pre_config '"@ + location@ + "'"@),
        ),
        RmCommand::Domain { name } => noted(c, c.rm_domain(name@)),
        RmCommand::Group { domain_name, group_name } => noted(
            c,
            c.rm_group(domain_name@, group_name@),
        ),
        RmCommand::Service { domain_name, group_name, service_name } => noted(
            c,
            c.rm_service(domain_name@, group_name@, service_name@),
        ),
        RmCommand::Dom { cmd } => request_removed(c, cmd.place_view(), cmd.request_view()),
        RmCommand::Grp { cmd } => request_removed(c, cmd.place_view(), cmd.request_view()),
        RmCommand::Env { cmd } => request_removed(c, cmd.place_view(), cmd.request_view()),
        RmCommand::Svc { cmd } => request_removed(c, cmd.place_view(), cmd.request_view()),
    }
}

// ---------------------------------------------------------------------------
// Carrying commands out
// ---------------------------------------------------------------------------
fn end_plain(r: Result<(), ConfigError>, message: Option<String>) -> (a: Applied)
    ensures
        a.notices.deep_view() == Seq::<Seq<char>>::empty(),
        a.outcome.model() == match r {
            Ok(_) => OutcomeView::Done(message.deep_view()),
            Err(e) => OutcomeView::Failed(e@),
        },
{
    let notices: Vec<String> = Vec::new();
    assert(notices.deep_view() =~= Seq::<Seq<char>>::empty());
    match r {
        Ok(_) => Applied { notices, outcome: Outcome::Done(message) },
        Err(e) => Applied { notices, outcome: Outcome::Failed(e) },
    }
}

fn end_noted(r: Result<String, ConfigError>) -> (a: Applied)
    ensures
        match r {
            Ok(notice) => a.notices.deep_view() == seq![notice@] && a.outcome.model()
                == OutcomeView::Done(None),
            Err(e) => a.notices.deep_view() == Seq::<Seq<char>>::empty() && a.outcome.model()
                == OutcomeView::Failed(e@),
        },
{
    let mut notices: Vec<String> = Vec::new();
    assert(notices.deep_view() =~= Seq::<Seq<char>>::empty());
    match r {
        Ok(notice) => {
            let ghost n = notice@;
            notices.push(notice);
            assert(notices.deep_view() =~= seq![n]);
            Applied { notices, outcome: Outcome::Done(None) }
        },
        Err(e) => Applied { notices, outcome: Outcome::Failed(e) },
    }
}

fn with_notice(notice: Option<String>, a: Applied) -> (r: Applied)
    ensures
        r.outcome == a.outcome,
        r.notices.deep_view() == match notice {
            Some(n) => seq![n@] + a.notices.deep_view(),
            None => a.notices.deep_view(),
        },
{
    match notice {
        Some(n) => {
            let mut a = a;
            let ghost before = a.notices.deep_view();
            let ghost first = n@;
            a.notices.insert(0, n);
            assert(a.notices.deep_view() =~= seq![first] + before);
            a
        },
        None => a,
    }
}

/// Makes sure of the domain of a place. An environment has none.
fn ensure_place(
    config: &mut Config,
    place: &Place,
    location: Option<&str>,
    parents: &Vec<Config>,
) -> (r: Result<Option<String>, ConfigError>)
    ensures
        match place@ {
            PlaceView::Environment(_) => final(config)@ == old(config)@ && r is Ok && r->Ok_0
                is None,
            _ => match old(config)@.ensure_domain(
                domain_of(place@),
                location.deep_view(),
                parents.deep_view(),
            ) {
                Ok((after, notice)) => r is Ok && r->Ok_0.deep_view() == notice && final(config)@
                    == after,
                Err(message) => r is Err
                    && r->Err_0@ == message
                    && final(config)@ == old(config)@.with_domain_map(),
            },
        },
{
    match *place {
        Place::Domain(d) => config.ensure_domain_exists(d, location, parents),
        Place::Group(d, _g) => config.ensure_domain_exists(d, location, parents),
        Place::Service(d, _g, _s) => config.ensure_domain_exists(d, location, parents),
        Place::Environment(_e) => Ok(None),
    }
}

fn failed(e: ConfigError) -> (a: Applied)
    ensures
        a.notices.deep_view() == Seq::<Seq<char>>::empty(),
        a.outcome.model() == OutcomeView::Failed(e@),
{
    end_plain(Err(e), None)
}

fn set_value(config: &mut Config, place: &Place, setting: Setting, value: &str) -> (a: Applied)
    ensures
        a.model(final(config)@) == plain(
            old(config)@,
            old(config)@.set_checked(place@, setting, value@),
            Some(set_message(place@, setting, value@)),
        ),
{
    let checked = if setting == Setting::ConnectionType {
        validate_connection_type(value)
    } else {
        Ok(())
    };
    let r = match checked {
        Ok(_) => match *place {
            Place::Environment(_e) => {
                if setting == Setting::ServeCommand {
                    config.set_value(place, setting, value)
                } else {
                    config.set_existing_value(place, setting, value)
                }
            },
            _ => config.set_value(place, setting, value),
        },
        Err(e) => Err(e),
    };
    let mut message = four("Set ", setting.name(), " for ", place.describe().as_str());
    message.append(" to:\n  ");
    message.append(value);
    end_plain(r, Some(message))
}

fn set_default_environment(config: &mut Config, place: &Place, e: &str) -> (a: Applied)
    ensures
        a.model(final(config)@) == plain(
            old(config)@,
            old(config)@.set_default_environment(place@, e@),
            Some(default_environment_message(place@, e@)),
        ),
{
    let mut message = two("Set default_environment for ", place.describe().as_str());
    let r = match *place {
        Place::Domain(d) => {
            message.append(" to environment '");
            config.set_domain_default_environment(d, e)
        },
        Place::Group(d, g) => {
            message.append(" to '");
            config.set_group_default_environment(d, g, e)
        },
        Place::Service(d, g, s) => {
            message.append(" to '");
            config.set_service_default_environment(d, g, s, e)
        },
        Place::Environment(_e) => {
            message.append(" to '");
            Ok(())
        },
    };
    message.append(e);
    message.append("'");
    end_plain(r, Some(message))
}

fn run_set(
    config: &mut Config,
    place: &Place,
    location: Option<&str>,
    parents: &Vec<Config>,
    request: &SetRequest,
) -> (a: Applied)
    ensures
        a.model(final(config)@) == request_set(
            old(config)@,
            place@,
            location.deep_view(),
            parents.deep_view(),
            request@,
        ),
{
    match ensure_place(config, place, location, parents) {
        Ok(notice) => {
            let a = match *request {
                SetRequest::DefaultEnvironment(e) => set_default_environment(config, place, e),
                SetRequest::Value(setting, value) => set_value(config, place, setting, value),
            };
            with_notice(notice, a)
        },
        Err(e) => failed(e),
    }
}

fn run_add(
    config: &mut Config,
    place: &Place,
    location: Option<&str>,
    parents: &Vec<Config>,
    request: &AddRequest,
) -> (a: Applied)
    ensures
        a.model(final(config)@) == request_added(
            old(config)@,
            place@,
            location.deep_view(),
            parents.deep_view(),
            request@,
        ),
{
    match ensure_place(config, place, location, parents) {
        Ok(notice) => {
            let r = match *request {
                AddRequest::Entry(setting, key, value) => {
                    config.add_entry(place, setting, key, value)
                },
                AddRequest::Volume(container, host) => config.add_volume_at(place, container, host),
            };
            with_notice(notice, end_noted(r))
        },
        Err(e) => failed(e),
    }
}

fn rm_default_environment(config: &mut Config, place: &Place) -> (a: Applied)
    ensures
        a.model(final(config)@) == plain(
            old(config)@,
            old(config)@.rm_default_environment(place@),
            Some(default_environment_removed(place@)),
        ),
{
    let r = match *place {
        Place::Domain(d) => config.rm_domain_default_environment(d),
        Place::Group(d, g) => config.rm_group_default_environment(d, g),
        Place::Service(d, g, s) => config.rm_service_default_environment(d, g, s),
        Place::Environment(_e) => Ok(()),
    };
    end_plain(r, Some(two("Removed default_environment for ", place.describe().as_str())))
}

fn run_rm(config: &mut Config, place: &Place, request: &RmRequest) -> (a: Applied)
    ensures
        a.model(final(config)@) == request_removed(old(config)@, place@, request@),
{
    match *request {
        RmRequest::DefaultEnvironment => rm_default_environment(config, place),
        RmRequest::Value(setting) => end_plain(config.rm_value(place, setting), None),
        RmRequest::Entry(setting, key) => end_noted(config.rm_entry(place, setting, key)),
        RmRequest::Volume(container, host) => end_noted(
            config.rm_volume_at(place, container, host),
        ),
    }
}

/// Sets the engine, given its name in lower case.
pub fn set_engine(config: &mut Config, word: &str) -> (a: Applied)
    ensures
        a.model(final(config)@) == engine_set(old(config)@, word@),
{
    if !str_eq(word, "podman") && !str_eq(word, "docker") {
        let notices: Vec<String> = Vec::new();
        assert(notices.deep_view() =~= Seq::<Seq<char>>::empty());
        return Applied {
            notices,
            outcome: Outcome::Refused("engine must be 'podman' or 'docker'".to_string()),
        };
    }
    config.engine = Some(word.to_string());
    end_plain(
        Ok(()),
        Some("Engine set. New Darp invocations will use this container engine.".to_string()),
    )
}

fn describe_switch(on: bool) -> (r: &'static str)
    ensures
        r@ == switch_text(on),
{
    if on {
        "enabled"
    } else {
        "disabled"
    }
}

/// Says whether hostnames are kept in the system's hosts file, given the result of reading
/// the value.
pub fn set_urls_in_hosts(
    config: &mut Config,
    v: Result<bool, ConfigError>,
    path: &str,
) -> (a: Applied)
    ensures
        a.model(final(config)@) == match v {
            Ok(b) => plain(
                old(config)@,
                Ok(ConfigView { urls_in_hosts: Some(b), ..old(config)@ }),
                Some(
                    "urls_in_hosts has been "@ + switch_text(b) + " (stored in "@ + path@
                        + "). Next 'darp deploy' will sync /etc/hosts accordingly."@,
                ),
            ),
            Err(e) => plain(old(config)@, Err(e@), None),
        },
{
    match v {
        Ok(b) => {
            config.urls_in_hosts = Some(b);
            let mut message = four(
                "urls_in_hosts has been ",
                describe_switch(b),
                " (stored in ",
                path,
            );
            message.append("). Next 'darp deploy' will sync /etc/hosts accordingly.");
            end_plain(Ok(()), Some(message))
        },
        Err(e) => failed(e),
    }
}

/// Says whether the mode for the Windows subsystem is on, given the result of reading the
/// value.
pub fn set_wsl(config: &mut Config, v: Result<bool, ConfigError>, path: &str) -> (a: Applied)
    ensures
        a.model(final(config)@) == match v {
            Ok(b) => plain(
                old(config)@,
                Ok(ConfigView { wsl: Some(b), ..old(config)@ }),
                Some(
                    "WSL mode has been "@ + switch_text(b) + " (stored in "@ + path@
                        + "). When enabled alongside urls_in_hosts, 'darp deploy' will also sync /mnt/c/Windows/System32/drivers/etc/hosts."@,
                ),
            ),
            Err(e) => plain(old(config)@, Err(e@), None),
        },
{
    match v {
        Ok(b) => {
            config.wsl = Some(b);
            let mut message = four("WSL mode has been ", describe_switch(b), " (stored in ", path);
            message.append(
                "). When enabled alongside urls_in_hosts, 'darp deploy' will also sync /mnt/c/Windows/System32/drivers/etc/hosts.",
            );
            end_plain(Ok(()), Some(message))
        },
        Err(e) => failed(e),
    }
}

/// Sets something. `config_path` is where the configuration is kept, and `parents` are its
/// parent configurations, of which a domain that is to be created can get its location.
pub fn cmd_set(
    cmd: SetCommand,
    config_path: &str,
    config: &mut Config,
    parents: &Vec<Config>,
) -> (a: Applied)
    ensures
        a.model(final(config)@) == set_applied(
            old(config)@,
            cmd,
            config_path@,
            parents.deep_view(),
        ),
{
    match cmd {
        SetCommand::PodmanMachine { new_podman_machine } => {
            let mut message = four(
                "PODMAN_MACHINE set to '",
                new_podman_machine.as_str(),
                "' in config (",
                config_path,
            );
            message.append(").");
            config.podman_machine = Some(new_podman_machine);
            end_plain(Ok(()), Some(message))
        },
        SetCommand::Engine { engine } => {
            let word = str_lowercase(engine.as_str());
            set_engine(config, word.as_str())
        },
        SetCommand::Env { cmd } => run_set(
            config,
            &cmd.place(),
            None,
            parents,
            &cmd.request(),
        ),
        SetCommand::Svc { cmd } => run_set(
            config,
            &cmd.place(),
            cmd.location(),
            parents,
            &cmd.request(),
        ),
        SetCommand::Dom { cmd } => run_set(
            config,
            &cmd.place(),
            cmd.location(),
            parents,
            &cmd.request(),
        ),
        SetCommand::Grp { cmd } => run_set(
            config,
            &cmd.place(),
            cmd.location(),
            parents,
            &cmd.request(),
        ),
        SetCommand::UrlsInHosts { value } => {
            let v = config.parse_bool(value.as_str());
            set_urls_in_hosts(config, v, config_path)
        },
        SetCommand::Wsl { value } => {
            let v = config.parse_bool(value.as_str());
            set_wsl(config, v, config_path)
        },
    }
}

/// Adds something. `parents` are the parent configurations, of which a domain that is to be
/// created can get its location.
pub fn cmd_add(cmd: AddCommand, config: &mut Config, parents: &Vec<Config>) -> (a: Applied)
    ensures
        a.model(final(config)@) == add_applied(old(config)@, cmd, parents.deep_view()),
{
    match cmd {
        AddCommand::PreConfig { location, repo_location } => {
            let r = config.add_pre_config(location.as_str(), location_of(&repo_location));
            end_plain(r, Some(three("Added pre_config '", location.as_str(), "'")))
        },
        AddCommand::Dom { cmd } => run_add(
            config,
            &cmd.place(),
            cmd.location(),
            parents,
            &cmd.request(),
        ),
        AddCommand::Grp { cmd } => run_add(
            config,
            &cmd.place(),
            cmd.location(),
            parents,
            &cmd.request(),
        ),
        AddCommand::Env { cmd } => run_add(
            config,
            &cmd.place(),
            None,
            parents,
            &cmd.request(),
        ),
        AddCommand::Svc { cmd } => run_add(
            config,
            &cmd.place(),
            cmd.location(),
            parents,
            &cmd.request(),
        ),
    }
}

/// Removes something.
pub fn cmd_rm(cmd: RmCommand, config: &mut Config) -> (a: Applied)
    ensures
        a.model(final(config)@) == rm_applied(old(config)@, cmd),
{
    match cmd {
        RmCommand::PodmanMachine {  } => {
            config.podman_machine = None;
            end_plain(Ok(()), None)
        },
        RmCommand::PreConfig { location } => {
            let r = config.rm_pre_config(location.as_str());
            end_plain(r, Some(three("Removed pre_config '", location.as_str(), "'")))
        },
        RmCommand::Domain { name } => end_noted(config.rm_domain(name.as_str())),
        RmCommand::Group { domain_name, group_name } => end_noted(
            config.rm_group(domain_name.as_str(), group_name.as_str()),
        ),
        RmCommand::Service { domain_name, group_name, service_name } => end_noted(
            config.rm_service(domain_name.as_str(), group_name.as_str(), service_name.as_str()),
        ),
        RmCommand::Dom { cmd } => run_rm(config, &cmd.place(), &cmd.request()),
        RmCommand::Grp { cmd } => run_rm(config, &cmd.place(), &cmd.request()),
        RmCommand::Env { cmd } => run_rm(config, &cmd.place(), &cmd.request()),
        RmCommand::Svc { cmd } => run_rm(config, &cmd.place(), &cmd.request()),
    }
}

// ---------------------------------------------------------------------------
// Laws
// ---------------------------------------------------------------------------
/// A command that removes something and fails leaves the configuration as it was.
pub proof fn failed_removal_changes_nothing(c: ConfigView, cmd: RmCommand)
    ensures
        !(rm_applied(c, cmd).outcome is Done) ==> rm_applied(c, cmd).config == c,
{
}

} // verus!
