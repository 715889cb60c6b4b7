//! The check that no place declares both `field` and `*field`, which would be
//! ambiguous.
use crate::config::edit::PlaceView;
use crate::config::model::{
    Config, ConfigView, Domain, DomainView, Environment, Group, GroupView, Service, ServiceView,
    SettingsView,
};
use crate::error::ConfigError;
use crate::map::{lemma_sorted_keys, sorted_keys, StrMap};
use crate::text::{four, three};
use vstd::prelude::*;

verus! {

/// The first field that is declared both ways.
pub open spec fn double_field(s: SettingsView) -> Option<Seq<char>> {
    if s.serve_command is Some && s.serve_command_override is Some {
        Some("serve_command"@)
    } else if s.shell_command is Some && s.shell_command_override is Some {
        Some("shell_command"@)
    } else if s.image_repository is Some && s.image_repository_override is Some {
        Some("image_repository"@)
    } else if s.platform is Some && s.platform_override is Some {
        Some("platform"@)
    } else if s.default_container_image is Some && s.default_container_image_override is Some {
        Some("default_container_image"@)
    } else if s.connection_type is Some && s.connection_type_override is Some {
        Some("connection_type"@)
    } else if s.host_portmappings is Some && s.host_portmappings_override is Some {
        Some("host_portmappings"@)
    } else if s.variables is Some && s.variables_override is Some {
        Some("variables"@)
    } else if s.volumes is Some && s.volumes_override is Some {
        Some("volumes"@)
    } else {
        None
    }
}

/// The message for a field that is declared both ways.
pub open spec fn double_message(location: Seq<char>, field: Seq<char>) -> Seq<char> {
    "Config error at "@ + location + ": both '"@ + field + "' and '*"@ + field
        + "' are set. Use one or the other, not both."@
}

/// The message for the settings of one place.
pub open spec fn place_fault(location: Seq<char>, s: SettingsView) -> Option<Seq<char>> {
    match double_field(s) {
        Some(field) => Some(double_message(location, field)),
        None => None,
    }
}

/// Where a domain is.
pub open spec fn domain_location(d: Seq<char>) -> Seq<char> {
    "domain '"@ + d + "'"@
}

/// Where a group is.
pub open spec fn group_location(d: Seq<char>, g: Seq<char>) -> Seq<char> {
    "domain '"@ + d + "' group '"@ + g + "'"@
}

/// Where a service is.
pub open spec fn service_location(d: Seq<char>, g: Seq<char>, s: Seq<char>) -> Seq<char> {
    "domain '"@ + d + "' group '"@ + g + "' service '"@ + s + "'"@
}

/// Where an environment is.
pub open spec fn environment_location(e: Seq<char>) -> Seq<char> {
    "environment '"@ + e + "'"@
}

/// The first of two messages.
pub open spec fn first(a: Option<Seq<char>>, b: Option<Seq<char>>) -> Option<Seq<char>> {
    if a is Some {
        a
    } else {
        b
    }
}

/// The message for the first faulty one of the given services.
pub open spec fn services_fault(
    d: Seq<char>,
    g: Seq<char>,
    m: Map<Seq<char>, ServiceView>,
    keys: Seq<Seq<char>>,
) -> Option<Seq<char>>
    decreases keys.len(),
{
    if keys.len() == 0 {
        None
    } else {
        first(
            place_fault(service_location(d, g, keys[0]), m[keys[0]].settings),
            services_fault(d, g, m, keys.drop_first()),
        )
    }
}

/// The message for a group and its services.
pub open spec fn group_fault(d: Seq<char>, g: Seq<char>, group: GroupView) -> Option<Seq<char>> {
    first(
        place_fault(group_location(d, g), group.settings),
        match group.services {
            Some(m) => services_fault(d, g, m, sorted_keys(m)),
            None => None,
        },
    )
}

/// The message for the first faulty one of the given groups.
pub open spec fn groups_fault(
    d: Seq<char>,
    m: Map<Seq<char>, GroupView>,
    keys: Seq<Seq<char>>,
) -> Option<Seq<char>>
    decreases keys.len(),
{
    if keys.len() == 0 {
        None
    } else {
        first(group_fault(d, keys[0], m[keys[0]]), groups_fault(d, m, keys.drop_first()))
    }
}

/// The message for a domain and its groups.
pub open spec fn domain_fault(d: Seq<char>, domain: DomainView) -> Option<Seq<char>> {
    first(
        place_fault(domain_location(d), domain.settings),
        match domain.groups {
            Some(m) => groups_fault(d, m, sorted_keys(m)),
            None => None,
        },
    )
}

/// The message for the first faulty one of the given domains.
pub open spec fn domains_fault(
    m: Map<Seq<char>, DomainView>,
    keys: Seq<Seq<char>>,
) -> Option<Seq<char>>
    decreases keys.len(),
{
    if keys.len() == 0 {
        None
    } else {
        first(domain_fault(keys[0], m[keys[0]]), domains_fault(m, keys.drop_first()))
    }
}

/// The message for the first faulty one of the given environments.
pub open spec fn environments_fault(
    m: Map<Seq<char>, SettingsView>,
    keys: Seq<Seq<char>>,
) -> Option<Seq<char>>
    decreases keys.len(),
{
    if keys.len() == 0 {
        None
    } else {
        first(
            place_fault(environment_location(keys[0]), m[keys[0]]),
            environments_fault(m, keys.drop_first()),
        )
    }
}

/// The message for the first place that declares a field both ways: domains in the
/// order of their names, each followed by its groups and their services, then
/// environments.
pub open spec fn config_fault(c: ConfigView) -> Option<Seq<char>> {
    first(
        match c.domains {
            Some(m) => domains_fault(m, sorted_keys(m)),
            None => None,
        },
        match c.environments {
            Some(m) => environments_fault(m, sorted_keys(m)),
            None => None,
        },
    )
}

/// The reported error is the expected one.
pub open spec fn reports(fault: Option<Seq<char>>, r: Result<(), ConfigError>) -> bool {
    match fault {
        Some(message) => r is Err && r->Err_0@ == message,
        None => r is Ok,
    }
}

fn double_error(location: &str, field: &str) -> (r: ConfigError)
    ensures
        r@ == double_message(location@, field@),
{
    let mut message = four("Config error at ", location, ": both '", field);
    message.append("' and '*");
    message.append(field);
    message.append("' are set. Use one or the other, not both.");
    ConfigError::new(message)
}

impl Domain {
    fn find_double_field(&self) -> (r: Option<&'static str>)
        ensures
            r is Some <==> double_field(self.settings()) is Some,
            r matches Some(field) ==> double_field(self.settings()) == Some(field@),
    {
        if self.serve_command.is_some() && self.serve_command_override.is_some() {
            Some("serve_command")
        } else if self.shell_command.is_some() && self.shell_command_override.is_some() {
            Some("shell_command")
        } else if self.image_repository.is_some() && self.image_repository_override.is_some() {
            Some("image_repository")
        } else if self.platform.is_some() && self.platform_override.is_some() {
            Some("platform")
        } else if self.default_container_image.is_some()
            && self.default_container_image_override.is_some()
        {
            Some("default_container_image")
        } else if self.connection_type.is_some() && self.connection_type_override.is_some() {
            Some("connection_type")
        } else if self.host_portmappings.is_some() && self.host_portmappings_override.is_some() {
            Some("host_portmappings")
        } else if self.variables.is_some() && self.variables_override.is_some() {
            Some("variables")
        } else if self.volumes.is_some() && self.volumes_override.is_some() {
            Some("volumes")
        } else {
            None
        }
    }
}

impl Group {
    fn find_double_field(&self) -> (r: Option<&'static str>)
        ensures
            r is Some <==> double_field(self.settings()) is Some,
            r matches Some(field) ==> double_field(self.settings()) == Some(field@),
    {
        if self.serve_command.is_some() && self.serve_command_override.is_some() {
            Some("serve_command")
        } else if self.shell_command.is_some() && self.shell_command_override.is_some() {
            Some("shell_command")
        } else if self.image_repository.is_some() && self.image_repository_override.is_some() {
            Some("image_repository")
        } else if self.platform.is_some() && self.platform_override.is_some() {
            Some("platform")
        } else if self.default_container_image.is_some()
            && self.default_container_image_override.is_some()
        {
            Some("default_container_image")
        } else if self.connection_type.is_some() && self.connection_type_override.is_some() {
            Some("connection_type")
        } else if self.host_portmappings.is_some() && self.host_portmappings_override.is_some() {
            Some("host_portmappings")
        } else if self.variables.is_some() && self.variables_override.is_some() {
            Some("variables")
        } else if self.volumes.is_some() && self.volumes_override.is_some() {
            Some("volumes")
        } else {
            None
        }
    }
}

impl Service {
    fn find_double_field(&self) -> (r: Option<&'static str>)
        ensures
            r is Some <==> double_field(self.settings()) is Some,
            r matches Some(field) ==> double_field(self.settings()) == Some(field@),
    {
        if self.serve_command.is_some() && self.serve_command_override.is_some() {
            Some("serve_command")
        } else if self.shell_command.is_some() && self.shell_command_override.is_some() {
            Some("shell_command")
        } else if self.image_repository.is_some() && self.image_repository_override.is_some() {
            Some("image_repository")
        } else if self.platform.is_some() && self.platform_override.is_some() {
            Some("platform")
        } else if self.default_container_image.is_some()
            && self.default_container_image_override.is_some()
        {
            Some("default_container_image")
        } else if self.connection_type.is_some() && self.connection_type_override.is_some() {
            Some("connection_type")
        } else if self.host_portmappings.is_some() && self.host_portmappings_override.is_some() {
            Some("host_portmappings")
        } else if self.variables.is_some() && self.variables_override.is_some() {
            Some("variables")
        } else if self.volumes.is_some() && self.volumes_override.is_some() {
            Some("volumes")
        } else {
            None
        }
    }
}

impl Environment {
    fn find_double_field(&self) -> (r: Option<&'static str>)
        ensures
            r is Some <==> double_field(self.settings()) is Some,
            r matches Some(field) ==> double_field(self.settings()) == Some(field@),
    {
        if self.serve_command.is_some() && self.serve_command_override.is_some() {
            Some("serve_command")
        } else if self.shell_command.is_some() && self.shell_command_override.is_some() {
            Some("shell_command")
        } else if self.image_repository.is_some() && self.image_repository_override.is_some() {
            Some("image_repository")
        } else if self.platform.is_some() && self.platform_override.is_some() {
            Some("platform")
        } else if self.default_container_image.is_some()
            && self.default_container_image_override.is_some()
        {
            Some("default_container_image")
        } else if self.connection_type.is_some() && self.connection_type_override.is_some() {
            Some("connection_type")
        } else if self.host_portmappings.is_some() && self.host_portmappings_override.is_some() {
            Some("host_portmappings")
        } else if self.variables.is_some() && self.variables_override.is_some() {
            Some("variables")
        } else if self.volumes.is_some() && self.volumes_override.is_some() {
            Some("volumes")
        } else {
            None
        }
    }
}

fn check_service(d: &str, g: &str, s: &str, service: &Service) -> (r: Result<(), ConfigError>)
    ensures
        reports(place_fault(service_location(d@, g@, s@), service.settings()), r),
{
    let mut location = four("domain '", d, "' group '", g);
    location.append("' service '");
    location.append(s);
    location.append("'");
    match service.find_double_field() {
        Some(field) => Err(double_error(location.as_str(), field)),
        None => Ok(()),
    }
}

fn check_services(d: &str, g: &str, m: &StrMap<Service>) -> (r: Result<(), ConfigError>)
    ensures
        reports(services_fault(d@, g@, m@, sorted_keys(m@)), r),
{
    let n: usize = m.len();
    let ghost keys = sorted_keys(m@);
    let mut i: usize = 0;
    assert(keys.skip(0) =~= keys);
    while i < n
        invariant
            i <= n,
            n == keys.len(),
            keys == sorted_keys(m@),
            services_fault(d@, g@, m@, keys) == services_fault(d@, g@, m@, keys.skip(i as int)),
        decreases n - i,
    {
        assert(keys.skip(i as int)[0] == keys[i as int]);
        assert(keys.skip(i as int).drop_first() =~= keys.skip(i as int + 1));
        let key = m.key_at(i);
        let r = check_service(d, g, key.as_str(), m.value_at(i));
        if r.is_err() {
            return r;
        }
        i += 1;
    }
    Ok(())
}

fn check_group(d: &str, g: &str, group: &Group) -> (r: Result<(), ConfigError>)
    ensures
        reports(group_fault(d@, g@, group.deep_view()), r),
{
    let mut location = four("domain '", d, "' group '", g);
    location.append("'");
    match group.find_double_field() {
        Some(field) => Err(double_error(location.as_str(), field)),
        None => match &group.services {
            Some(m) => check_services(d, g, m),
            None => Ok(()),
        },
    }
}

fn check_groups(d: &str, m: &StrMap<Group>) -> (r: Result<(), ConfigError>)
    ensures
        reports(groups_fault(d@, m@, sorted_keys(m@)), r),
{
    let n: usize = m.len();
    let ghost keys = sorted_keys(m@);
    let mut i: usize = 0;
    assert(keys.skip(0) =~= keys);
    while i < n
        invariant
            i <= n,
            n == keys.len(),
            keys == sorted_keys(m@),
            groups_fault(d@, m@, keys) == groups_fault(d@, m@, keys.skip(i as int)),
        decreases n - i,
    {
        assert(keys.skip(i as int)[0] == keys[i as int]);
        assert(keys.skip(i as int).drop_first() =~= keys.skip(i as int + 1));
        let key = m.key_at(i);
        let r = check_group(d, key.as_str(), m.value_at(i));
        if r.is_err() {
            return r;
        }
        i += 1;
    }
    Ok(())
}

fn check_domain(d: &str, domain: &Domain) -> (r: Result<(), ConfigError>)
    ensures
        reports(domain_fault(d@, domain.deep_view()), r),
{
    let location = three("domain '", d, "'");
    match domain.find_double_field() {
        Some(field) => Err(double_error(location.as_str(), field)),
        None => match &domain.groups {
            Some(m) => check_groups(d, m),
            None => Ok(()),
        },
    }
}

fn check_domains(m: &StrMap<Domain>) -> (r: Result<(), ConfigError>)
    ensures
        reports(domains_fault(m@, sorted_keys(m@)), r),
{
    let n: usize = m.len();
    let ghost keys = sorted_keys(m@);
    let mut i: usize = 0;
    assert(keys.skip(0) =~= keys);
    while i < n
        invariant
            i <= n,
            n == keys.len(),
            keys == sorted_keys(m@),
            domains_fault(m@, keys) == domains_fault(m@, keys.skip(i as int)),
        decreases n - i,
    {
        assert(keys.skip(i as int)[0] == keys[i as int]);
        assert(keys.skip(i as int).drop_first() =~= keys.skip(i as int + 1));
        let key = m.key_at(i);
        let r = check_domain(key.as_str(), m.value_at(i));
        if r.is_err() {
            return r;
        }
        i += 1;
    }
    Ok(())
}

fn check_environment(e: &str, environment: &Environment) -> (r: Result<(), ConfigError>)
    ensures
        reports(place_fault(environment_location(e@), environment.settings()), r),
{
    let location = three("environment '", e, "'");
    match environment.find_double_field() {
        Some(field) => Err(double_error(location.as_str(), field)),
        None => Ok(()),
    }
}

fn check_environments(m: &StrMap<Environment>) -> (r: Result<(), ConfigError>)
    ensures
        reports(environments_fault(m@, sorted_keys(m@)), r),
{
    let n: usize = m.len();
    let ghost keys = sorted_keys(m@);
    let mut i: usize = 0;
    assert(keys.skip(0) =~= keys);
    while i < n
        invariant
            i <= n,
            n == keys.len(),
            keys == sorted_keys(m@),
            environments_fault(m@, keys) == environments_fault(m@, keys.skip(i as int)),
        decreases n - i,
    {
        assert(keys.skip(i as int)[0] == keys[i as int]);
        assert(keys.skip(i as int).drop_first() =~= keys.skip(i as int + 1));
        let key = m.key_at(i);
        let r = check_environment(key.as_str(), m.value_at(i));
        if r.is_err() {
            return r;
        }
        i += 1;
    }
    Ok(())
}

impl Config {
    /// Checks that no place declares both `field` and `*field`.
    pub fn validate_no_double_declarations(config: &Config) -> (r: Result<(), ConfigError>)
        ensures
            reports(config_fault(config@), r),
            config@.is_finite(),
            r is Ok <==> declares_nothing_twice(config@),
    {
        proof {
            config.every_config_is_finite();
            checked_config_declares_nothing_twice(config@);
        }
        match &config.domains {
            Some(m) => {
                let r = check_domains(m);
                if r.is_err() {
                    return r;
                }
            },
            None => {},
        }
        match &config.environments {
            Some(m) => check_environments(m),
            None => Ok(()),
        }
    }
}

// ---------------------------------------------------------------------------
// Laws
// ---------------------------------------------------------------------------
impl ConfigView {
    /// All maps of the configuration are finite, as those of any configuration that
    /// exists are.
    pub open spec fn is_finite(self) -> bool {
        &&& self.domains matches Some(m) ==> {
            &&& m.dom().finite()
            &&& forall|d: Seq<char>| #[trigger] m.contains_key(d) ==> m[d].is_finite()
        }
        &&& self.environments matches Some(m) ==> m.dom().finite()
    }
}

impl DomainView {
    /// All maps of the domain are finite.
    pub open spec fn is_finite(self) -> bool {
        self.groups matches Some(m) ==> {
            &&& m.dom().finite()
            &&& forall|g: Seq<char>| #[trigger] m.contains_key(g) ==> m[g].is_finite()
        }
    }
}

impl GroupView {
    /// All maps of the group are finite.
    pub open spec fn is_finite(self) -> bool {
        self.services matches Some(m) ==> m.dom().finite()
    }
}

impl Group {
    proof fn lemma_finite(self)
        ensures
            self.deep_view().is_finite(),
    {
        if let Some(m) = self.services {
            m.every_map_is_finite();
        }
    }
}

impl Domain {
    proof fn lemma_finite(self)
        ensures
            self.deep_view().is_finite(),
    {
        if let Some(m) = self.groups {
            m.every_map_is_finite();
            assert forall|g: Seq<char>| #[trigger] m@.contains_key(g) implies m@[g].is_finite() by {
                let group = choose|v: Group| #[trigger] v.deep_view() == m@[g];
                group.lemma_finite();
            }
        }
    }
}

impl Config {
    /// All maps of every configuration are finite.
    pub proof fn every_config_is_finite(self)
        ensures
            self@.is_finite(),
    {
        if let Some(m) = self.domains {
            m.every_map_is_finite();
            assert forall|d: Seq<char>| #[trigger] m@.contains_key(d) implies m@[d].is_finite() by {
                let domain = choose|v: Domain| #[trigger] v.deep_view() == m@[d];
                domain.lemma_finite();
            }
        }
        if let Some(m) = self.environments {
            m.every_map_is_finite();
        }
    }
}

/// No place declares a field both ways.
pub open spec fn declares_nothing_twice(c: ConfigView) -> bool {
    forall|place: PlaceView| #[trigger]
        c.settings(place) is Ok ==> double_field(c.settings(place)->Ok_0) is None
}

proof fn lemma_services_fault(
    d: Seq<char>,
    g: Seq<char>,
    m: Map<Seq<char>, ServiceView>,
    keys: Seq<Seq<char>>,
)
    ensures
        services_fault(d, g, m, keys) is None <==> forall|i: int|
            0 <= i < keys.len() ==> double_field(m[#[trigger] keys[i]].settings) is None,
    decreases keys.len(),
{
    if keys.len() > 0 {
        let rest = keys.drop_first();
        lemma_services_fault(d, g, m, rest);
        assert(forall|i: int| 0 <= i < rest.len() ==> #[trigger] rest[i] == keys[i + 1]);
        assert(forall|i: int| 1 <= i < keys.len() ==> #[trigger] keys[i] == rest[i - 1]);
    }
}

proof fn lemma_groups_fault(d: Seq<char>, m: Map<Seq<char>, GroupView>, keys: Seq<Seq<char>>)
    ensures
        groups_fault(d, m, keys) is None <==> forall|i: int|
            0 <= i < keys.len() ==> group_fault(d, #[trigger] keys[i], m[keys[i]]) is None,
    decreases keys.len(),
{
    if keys.len() > 0 {
        let rest = keys.drop_first();
        lemma_groups_fault(d, m, rest);
        assert(forall|i: int| 0 <= i < rest.len() ==> #[trigger] rest[i] == keys[i + 1]);
        assert(forall|i: int| 1 <= i < keys.len() ==> #[trigger] keys[i] == rest[i - 1]);
    }
}

proof fn lemma_domains_fault(m: Map<Seq<char>, DomainView>, keys: Seq<Seq<char>>)
    ensures
        domains_fault(m, keys) is None <==> forall|i: int|
            0 <= i < keys.len() ==> domain_fault(#[trigger] keys[i], m[keys[i]]) is None,
    decreases keys.len(),
{
    if keys.len() > 0 {
        let rest = keys.drop_first();
        lemma_domains_fault(m, rest);
        assert(forall|i: int| 0 <= i < rest.len() ==> #[trigger] rest[i] == keys[i + 1]);
        assert(forall|i: int| 1 <= i < keys.len() ==> #[trigger] keys[i] == rest[i - 1]);
    }
}

proof fn lemma_environments_fault(m: Map<Seq<char>, SettingsView>, keys: Seq<Seq<char>>)
    ensures
        environments_fault(m, keys) is None <==> forall|i: int|
            0 <= i < keys.len() ==> double_field(m[#[trigger] keys[i]]) is None,
    decreases keys.len(),
{
    if keys.len() > 0 {
        let rest = keys.drop_first();
        lemma_environments_fault(m, rest);
        assert(forall|i: int| 0 <= i < rest.len() ==> #[trigger] rest[i] == keys[i + 1]);
        assert(forall|i: int| 1 <= i < keys.len() ==> #[trigger] keys[i] == rest[i - 1]);
    }
}

/// The places of a group and its services are without fault.
proof fn lemma_group_fault(c: ConfigView, d: Seq<char>, g: Seq<char>)
    requires
        c.group(d, g) is Ok,
        c.group(d, g)->Ok_0.is_finite(),
    ensures
        group_fault(d, g, c.group(d, g)->Ok_0) is None <==> {
            &&& double_field(c.group(d, g)->Ok_0.settings) is None
            &&& forall|s: Seq<char>| #[trigger]
                c.service(d, g, s) is Ok ==> double_field(c.service(d, g, s)->Ok_0.settings) is None
        },
{
    let group = c.group(d, g)->Ok_0;
    match group.services {
        Some(m) => {
            let keys = sorted_keys(m);
            lemma_sorted_keys(m);
            lemma_services_fault(d, g, m, keys);
            if services_fault(d, g, m, keys) is None {
                assert forall|s: Seq<char>| #[trigger] c.service(d, g, s) is Ok implies double_field(
                    c.service(d, g, s)->Ok_0.settings,
                ) is None by {
                    assert(keys[keys.index_of(s)] == s);
                }
            } else {
                let i = choose|i: int|
                    0 <= i < keys.len() && double_field(m[#[trigger] keys[i]].settings) is Some;
                assert(c.service(d, g, keys[i]) is Ok);
            }
        },
        None => {},
    }
}

/// The places of a domain, its groups and their services are without fault.
proof fn lemma_domain_fault(c: ConfigView, d: Seq<char>)
    requires
        c.domain(d) is Ok,
        c.domain(d)->Ok_0.is_finite(),
    ensures
        domain_fault(d, c.domain(d)->Ok_0) is None <==> {
            &&& double_field(c.domain(d)->Ok_0.settings) is None
            &&& forall|g: Seq<char>| #[trigger]
                c.group(d, g) is Ok ==> group_fault(d, g, c.group(d, g)->Ok_0) is None
        },
{
    let domain = c.domain(d)->Ok_0;
    match domain.groups {
        Some(m) => {
            let keys = sorted_keys(m);
            lemma_sorted_keys(m);
            lemma_groups_fault(d, m, keys);
            if groups_fault(d, m, keys) is None {
                assert forall|g: Seq<char>| #[trigger] c.group(d, g) is Ok implies group_fault(
                    d,
                    g,
                    c.group(d, g)->Ok_0,
                ) is None by {
                    assert(keys[keys.index_of(g)] == g);
                }
            } else {
                let i = choose|i: int|
                    0 <= i < keys.len() && group_fault(d, #[trigger] keys[i], m[keys[i]]) is Some;
                assert(c.group(d, keys[i]) is Ok);
            }
        },
        None => {},
    }
}

/// A configuration passes the check exactly when no place in it, be it a domain, a
/// group, a service or an environment, declares a field both ways.
pub proof fn checked_config_declares_nothing_twice(c: ConfigView)
    requires
        c.is_finite(),
    ensures
        config_fault(c) is None <==> declares_nothing_twice(c),
{
    match c.domains {
        Some(m) => {
            lemma_sorted_keys(m);
            lemma_domains_fault(m, sorted_keys(m));
        },
        None => {},
    }
    match c.environments {
        Some(m) => {
            lemma_sorted_keys(m);
            lemma_environments_fault(m, sorted_keys(m));
        },
        None => {},
    }
    if config_fault(c) is None {
        assert forall|place: PlaceView| #[trigger] c.settings(place) is Ok implies double_field(
            c.settings(place)->Ok_0,
        ) is None by {
            match place {
                PlaceView::Domain(d) => {
                    lemma_domain_is_clean(c, d);
                },
                PlaceView::Group(d, g) => {
                    lemma_domain_is_clean(c, d);
                    lemma_domain_fault(c, d);
                    assert(c.group(d, g) is Ok);
                },
                PlaceView::Service(d, g, s) => {
                    lemma_domain_is_clean(c, d);
                    lemma_domain_fault(c, d);
                    assert(c.group(d, g) is Ok);
                    lemma_group_fault(c, d, g);
                    assert(c.service(d, g, s) is Ok);
                },
                PlaceView::Environment(e) => {
                    let keys = sorted_keys(c.environments->0);
                    assert(keys[keys.index_of(e)] == e);
                },
            }
        }
    } else if c.domains is Some && domains_fault(c.domains->0, sorted_keys(c.domains->0)) is Some {
        let m = c.domains->0;
        let keys = sorted_keys(m);
        let i = choose|i: int|
            0 <= i < keys.len() && domain_fault(#[trigger] keys[i], m[keys[i]]) is Some;
        let d = keys[i];
        lemma_domain_fault(c, d);
        if double_field(m[d].settings) is Some {
            assert(c.settings(PlaceView::Domain(d)) is Ok);
        } else {
            let g = choose|g: Seq<char>| #[trigger]
                c.group(d, g) is Ok && group_fault(d, g, c.group(d, g)->Ok_0) is Some;
            lemma_group_fault(c, d, g);
            if double_field(c.group(d, g)->Ok_0.settings) is Some {
                assert(c.settings(PlaceView::Group(d, g)) is Ok);
            } else {
                let s = choose|s: Seq<char>| #[trigger]
                    c.service(d, g, s) is Ok && double_field(
                        c.service(d, g, s)->Ok_0.settings,
                    ) is Some;
                assert(c.settings(PlaceView::Service(d, g, s)) is Ok);
            }
        }
    } else {
        let m = c.environments->0;
        let keys = sorted_keys(m);
        let i = choose|i: int| 0 <= i < keys.len() && double_field(m[#[trigger] keys[i]]) is Some;
        assert(c.settings(PlaceView::Environment(keys[i])) is Ok);
    }
}

proof fn lemma_domain_is_clean(c: ConfigView, d: Seq<char>)
    requires
        c.is_finite(),
        config_fault(c) is None,
        c.domain(d) is Ok,
    ensures
        domain_fault(d, c.domain(d)->Ok_0) is None,
        double_field(c.domain(d)->Ok_0.settings) is None,
{
    let m = c.domains->0;
    let keys = sorted_keys(m);
    lemma_sorted_keys(m);
    lemma_domains_fault(m, keys);
    assert(keys[keys.index_of(d)] == d);
}

} // verus!
