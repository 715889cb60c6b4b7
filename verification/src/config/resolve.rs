//! Resolving settings across the levels of a configuration.
use crate::config::model::{Domain, Environment, Group, Service, SettingsView, Volume, VolumeView};
use crate::map::{lists_keys, sorted_keys, Duplicate, StrMap};
use vstd::prelude::*;

verus! {

// ---------------------------------------------------------------------------
// One field on one level
// ---------------------------------------------------------------------------
/// How one level declares one field.
pub enum FieldDecl<T> {
    /// Neither `field` nor `*field` is declared.
    Absent,
    /// Plain `field` with a value.
    Plain(T),
    /// `*field` with a value: what less specific levels say is dropped.
    OverrideWith(T),
    /// `*field` with null: no value, and none from less specific levels.
    OverrideNull,
}

/// How a level declares a field, given its plain form and its override.
pub open spec fn decl<T>(regular: Option<T>, override_: Option<Option<T>>) -> FieldDecl<T> {
    match override_ {
        Some(Some(v)) => FieldDecl::OverrideWith(v),
        Some(None) => FieldDecl::OverrideNull,
        None => match regular {
            Some(v) => FieldDecl::Plain(v),
            None => FieldDecl::Absent,
        },
    }
}

impl<'a> FieldDecl<&'a str> {
    /// The declaration over texts.
    pub open spec fn model(self) -> FieldDecl<Seq<char>> {
        match self {
            FieldDecl::Absent => FieldDecl::Absent,
            FieldDecl::Plain(v) => FieldDecl::Plain(v@),
            FieldDecl::OverrideWith(v) => FieldDecl::OverrideWith(v@),
            FieldDecl::OverrideNull => FieldDecl::OverrideNull,
        }
    }
}

/// The declaration over models.
pub open spec fn decl_model<'a, T: DeepView>(d: FieldDecl<&'a T>) -> FieldDecl<T::V> {
    match d {
        FieldDecl::Absent => FieldDecl::Absent,
        FieldDecl::Plain(v) => FieldDecl::Plain(v.deep_view()),
        FieldDecl::OverrideWith(v) => FieldDecl::OverrideWith(v.deep_view()),
        FieldDecl::OverrideNull => FieldDecl::OverrideNull,
    }
}

fn decl_scalar<'a>(regular: &'a Option<String>, override_: &'a Option<Option<String>>) -> (r:
    FieldDecl<&'a str>)
    ensures
        r.model() == decl(regular.deep_view(), override_.deep_view()),
{
    match override_ {
        Some(Some(v)) => FieldDecl::OverrideWith(v.as_str()),
        Some(None) => FieldDecl::OverrideNull,
        None => match regular {
            Some(v) => FieldDecl::Plain(v.as_str()),
            None => FieldDecl::Absent,
        },
    }
}

fn decl_ref<'a, T: DeepView>(regular: &'a Option<T>, override_: &'a Option<Option<T>>) -> (r:
    FieldDecl<&'a T>)
    ensures
        decl_model(r) == decl(regular.deep_view(), override_.deep_view()),
{
    match override_ {
        Some(Some(v)) => FieldDecl::OverrideWith(v),
        Some(None) => FieldDecl::OverrideNull,
        None => match regular {
            Some(v) => FieldDecl::Plain(v),
            None => FieldDecl::Absent,
        },
    }
}

/// A single value after one more level: the level's own value, if it declares one.
pub open spec fn laid_scalar(acc: Option<Seq<char>>, d: FieldDecl<Seq<char>>) -> Option<Seq<char>> {
    match d {
        FieldDecl::Absent => acc,
        FieldDecl::Plain(v) => Some(v),
        FieldDecl::OverrideWith(v) => Some(v),
        FieldDecl::OverrideNull => None,
    }
}

/// A map after one more level: the level's entries are added, and win.
pub open spec fn laid_map(
    acc: Option<Map<Seq<char>, Seq<char>>>,
    d: FieldDecl<Map<Seq<char>, Seq<char>>>,
) -> Option<Map<Seq<char>, Seq<char>>> {
    match d {
        FieldDecl::Absent => acc,
        FieldDecl::Plain(m) => match acc {
            Some(a) => Some(a.union_prefer_right(m)),
            None => Some(m),
        },
        FieldDecl::OverrideWith(m) => Some(m),
        FieldDecl::OverrideNull => None,
    }
}

/// A list after one more level: the level's items are appended.
pub open spec fn laid_list(
    acc: Option<Seq<VolumeView>>,
    d: FieldDecl<Seq<VolumeView>>,
) -> Option<Seq<VolumeView>> {
    match d {
        FieldDecl::Absent => acc,
        FieldDecl::Plain(v) => match acc {
            Some(a) => Some(a + v),
            None => Some(v),
        },
        FieldDecl::OverrideWith(v) => Some(v),
        FieldDecl::OverrideNull => None,
    }
}

fn merge_scalar(acc: &mut Option<String>, d: &FieldDecl<&str>)
    ensures
        final(acc).deep_view() == laid_scalar(old(acc).deep_view(), d.model()),
{
    match d {
        FieldDecl::Absent => {},
        FieldDecl::Plain(v) => {
            *acc = Some((*v).to_string());
        },
        FieldDecl::OverrideWith(v) => {
            *acc = Some((*v).to_string());
        },
        FieldDecl::OverrideNull => {
            *acc = None;
        },
    }
}

/// Adds every entry of `more`, which win over the entries that are there.
fn add_entries(acc: &mut StrMap<String>, more: &StrMap<String>)
    ensures
        final(acc)@ == old(acc)@.union_prefer_right(more@),
{
    let n: usize = more.len();
    let ghost keys = sorted_keys(more@);
    let ghost before = acc@;
    let mut i: usize = 0;
    assert(before.union_prefer_right(more@.restrict(keys.take(0).to_set())) =~= before);
    while i < n
        invariant
            i <= n,
            n == keys.len(),
            keys == sorted_keys(more@),
            lists_keys(keys, more@),
            before == old(acc)@,
            acc@ == before.union_prefer_right(more@.restrict(keys.take(i as int).to_set())),
        decreases n - i,
    {
        let ghost mid = acc@;
        acc.insert(more.key_at(i).clone(), more.value_at(i).clone());
        assert(acc@ == mid.insert(keys[i as int], more@[keys[i as int]]));
        assert(keys.take(i as int + 1) =~= keys.take(i as int).push(keys[i as int]));
        proof {
            keys.take(i as int).lemma_push_to_set_commute(keys[i as int]);
        }
        i += 1;
        assert(acc@ =~= before.union_prefer_right(
            more@.restrict(keys.take(i as int).to_set()),
        ));
    }
    assert(keys.take(n as int) =~= keys);
    assert(more@.restrict(keys.to_set()) =~= more@);
}

fn merge_map(acc: &mut Option<StrMap<String>>, d: &FieldDecl<&StrMap<String>>)
    ensures
        final(acc).deep_view() == laid_map(old(acc).deep_view(), decl_model(*d)),
{
    match d {
        FieldDecl::Absent => {},
        FieldDecl::Plain(m) => {
            match acc {
                Some(a) => {
                    add_entries(a, m);
                },
                None => {
                    *acc = Some(m.duplicate());
                },
            }
        },
        FieldDecl::OverrideWith(m) => {
            *acc = Some(m.duplicate());
        },
        FieldDecl::OverrideNull => {
            *acc = None;
        },
    }
}

/// Appends a copy of every item.
fn append_copies<T: Duplicate>(acc: &mut Vec<T>, more: &Vec<T>)
    ensures
        final(acc).deep_view() == old(acc).deep_view() + more.deep_view(),
{
    let ghost before = acc.deep_view();
    let mut i: usize = 0;
    assert(before + more.deep_view().take(0) =~= before);
    while i < more.len()
        invariant
            i <= more@.len(),
            before == old(acc).deep_view(),
            acc.deep_view() == before + more.deep_view().take(i as int),
        decreases more@.len() - i,
    {
        let ghost mid = acc.deep_view();
        let copy = more[i].duplicate();
        acc.push(copy);
        assert(acc.deep_view() =~= mid.push(copy.deep_view()));
        i += 1;
        assert(acc.deep_view() =~= before + more.deep_view().take(i as int));
    }
    assert(more.deep_view().take(more@.len() as int) =~= more.deep_view());
}

fn merge_vec(acc: &mut Option<Vec<Volume>>, d: &FieldDecl<&Vec<Volume>>)
    ensures
        final(acc).deep_view() == laid_list(old(acc).deep_view(), decl_model(*d)),
{
    match d {
        FieldDecl::Absent => {},
        FieldDecl::Plain(v) => {
            match acc {
                Some(a) => {
                    append_copies(a, v);
                },
                None => {
                    *acc = Some(v.duplicate());
                },
            }
        },
        FieldDecl::OverrideWith(v) => {
            *acc = Some(v.duplicate());
        },
        FieldDecl::OverrideNull => {
            *acc = None;
        },
    }
}

// ---------------------------------------------------------------------------
// All fields over all levels
// ---------------------------------------------------------------------------
/// The fields that one level declares.
struct CascadeLayer<'a> {
    serve_command: FieldDecl<&'a str>,
    shell_command: FieldDecl<&'a str>,
    image_repository: FieldDecl<&'a str>,
    platform: FieldDecl<&'a str>,
    default_container_image: FieldDecl<&'a str>,
    host_portmappings: FieldDecl<&'a StrMap<String>>,
    variables: FieldDecl<&'a StrMap<String>>,
    volumes: FieldDecl<&'a Vec<Volume>>,
    connection_type: FieldDecl<&'a str>,
}

impl<'a> CascadeLayer<'a> {
    /// The fields are those of the given settings.
    spec fn is_of(self, s: SettingsView) -> bool {
        &&& self.serve_command.model() == decl(s.serve_command, s.serve_command_override)
        &&& self.shell_command.model() == decl(s.shell_command, s.shell_command_override)
        &&& self.image_repository.model() == decl(s.image_repository, s.image_repository_override)
        &&& self.platform.model() == decl(s.platform, s.platform_override)
        &&& self.default_container_image.model() == decl(s.default_container_image, s.default_container_image_override)
        &&& decl_model(self.host_portmappings) == decl(s.host_portmappings, s.host_portmappings_override)
        &&& decl_model(self.variables) == decl(s.variables, s.variables_override)
        &&& decl_model(self.volumes) == decl(s.volumes, s.volumes_override)
        &&& self.connection_type.model() == decl(s.connection_type, s.connection_type_override)
    }

    fn of_domain(d: &'a Domain) -> (r: CascadeLayer<'a>)
        ensures
            r.is_of(d.settings()),
    {
        CascadeLayer {
            serve_command: decl_scalar(&d.serve_command, &d.serve_command_override),
            shell_command: decl_scalar(&d.shell_command, &d.shell_command_override),
            image_repository: decl_scalar(&d.image_repository, &d.image_repository_override),
            platform: decl_scalar(&d.platform, &d.platform_override),
            default_container_image: decl_scalar(
                &d.default_container_image,
                &d.default_container_image_override,
            ),
            host_portmappings: decl_ref(&d.host_portmappings, &d.host_portmappings_override),
            variables: decl_ref(&d.variables, &d.variables_override),
            volumes: decl_ref(&d.volumes, &d.volumes_override),
            connection_type: decl_scalar(&d.connection_type, &d.connection_type_override),
        }
    }

    fn of_group(g: &'a Group) -> (r: CascadeLayer<'a>)
        ensures
            r.is_of(g.settings()),
    {
        CascadeLayer {
            serve_command: decl_scalar(&g.serve_command, &g.serve_command_override),
            shell_command: decl_scalar(&g.shell_command, &g.shell_command_override),
            image_repository: decl_scalar(&g.image_repository, &g.image_repository_override),
            platform: decl_scalar(&g.platform, &g.platform_override),
            default_container_image: decl_scalar(
                &g.default_container_image,
                &g.default_container_image_override,
            ),
            host_portmappings: decl_ref(&g.host_portmappings, &g.host_portmappings_override),
            variables: decl_ref(&g.variables, &g.variables_override),
            volumes: decl_ref(&g.volumes, &g.volumes_override),
            connection_type: decl_scalar(&g.connection_type, &g.connection_type_override),
        }
    }

    fn of_service(s: &'a Service) -> (r: CascadeLayer<'a>)
        ensures
            r.is_of(s.settings()),
    {
        CascadeLayer {
            serve_command: decl_scalar(&s.serve_command, &s.serve_command_override),
            shell_command: decl_scalar(&s.shell_command, &s.shell_command_override),
            image_repository: decl_scalar(&s.image_repository, &s.image_repository_override),
            platform: decl_scalar(&s.platform, &s.platform_override),
            default_container_image: decl_scalar(
                &s.default_container_image,
                &s.default_container_image_override,
            ),
            host_portmappings: decl_ref(&s.host_portmappings, &s.host_portmappings_override),
            variables: decl_ref(&s.variables, &s.variables_override),
            volumes: decl_ref(&s.volumes, &s.volumes_override),
            connection_type: decl_scalar(&s.connection_type, &s.connection_type_override),
        }
    }

    fn of_environment(e: &'a Environment) -> (r: CascadeLayer<'a>)
        ensures
            r.is_of(e.settings()),
    {
        CascadeLayer {
            serve_command: decl_scalar(&e.serve_command, &e.serve_command_override),
            shell_command: decl_scalar(&e.shell_command, &e.shell_command_override),
            image_repository: decl_scalar(&e.image_repository, &e.image_repository_override),
            platform: decl_scalar(&e.platform, &e.platform_override),
            default_container_image: decl_scalar(
                &e.default_container_image,
                &e.default_container_image_override,
            ),
            host_portmappings: decl_ref(&e.host_portmappings, &e.host_portmappings_override),
            variables: decl_ref(&e.variables, &e.variables_override),
            volumes: decl_ref(&e.volumes, &e.volumes_override),
            connection_type: decl_scalar(&e.connection_type, &e.connection_type_override),
        }
    }
}

/// The values that the levels walked so far settle.
struct Settled {
    serve_command: Option<String>,
    shell_command: Option<String>,
    image_repository: Option<String>,
    platform: Option<String>,
    default_container_image: Option<String>,
    host_portmappings: Option<StrMap<String>>,
    variables: Option<StrMap<String>>,
    volumes: Option<Vec<Volume>>,
    connection_type: Option<String>,
}

/// The values that settings resolve to.
pub struct SettledView {
    pub serve_command: Option<Seq<char>>,
    pub shell_command: Option<Seq<char>>,
    pub image_repository: Option<Seq<char>>,
    pub platform: Option<Seq<char>>,
    pub default_container_image: Option<Seq<char>>,
    pub host_portmappings: Option<Map<Seq<char>, Seq<char>>>,
    pub variables: Option<Map<Seq<char>, Seq<char>>>,
    pub volumes: Option<Seq<VolumeView>>,
    pub connection_type: Option<Seq<char>>,
}

impl SettledView {
    /// No value yet.
    pub open spec fn none() -> SettledView {
        SettledView {
            serve_command: None,
            shell_command: None,
            image_repository: None,
            platform: None,
            default_container_image: None,
            host_portmappings: None,
            variables: None,
            volumes: None,
            connection_type: None,
        }
    }

    /// The values after one more level.
    pub open spec fn laid(self, s: SettingsView) -> SettledView {
        SettledView {
            serve_command: laid_scalar(
                self.serve_command,
                decl(s.serve_command, s.serve_command_override),
            ),
            shell_command: laid_scalar(
                self.shell_command,
                decl(s.shell_command, s.shell_command_override),
            ),
            image_repository: laid_scalar(
                self.image_repository,
                decl(s.image_repository, s.image_repository_override),
            ),
            platform: laid_scalar(self.platform, decl(s.platform, s.platform_override)),
            default_container_image: laid_scalar(
                self.default_container_image,
                decl(s.default_container_image, s.default_container_image_override),
            ),
            host_portmappings: laid_map(
                self.host_portmappings,
                decl(s.host_portmappings, s.host_portmappings_override),
            ),
            variables: laid_map(self.variables, decl(s.variables, s.variables_override)),
            volumes: laid_list(self.volumes, decl(s.volumes, s.volumes_override)),
            connection_type: laid_scalar(
                self.connection_type,
                decl(s.connection_type, s.connection_type_override),
            ),
        }
    }

    /// The values after one more level, where there is one.
    pub open spec fn laid_if(self, s: Option<SettingsView>) -> SettledView {
        match s {
            Some(s) => self.laid(s),
            None => self,
        }
    }
}

/// What the levels of a service resolve to, from the least specific level to the
/// most specific one.
pub open spec fn cascade(
    environment: Option<SettingsView>,
    domain: SettingsView,
    group: Option<SettingsView>,
    service: Option<SettingsView>,
) -> SettledView {
    SettledView::none().laid_if(environment).laid(domain).laid_if(group).laid_if(service)
}

impl Settled {
    spec fn model(self) -> SettledView {
        SettledView {
            serve_command: self.serve_command.deep_view(),
            shell_command: self.shell_command.deep_view(),
            image_repository: self.image_repository.deep_view(),
            platform: self.platform.deep_view(),
            default_container_image: self.default_container_image.deep_view(),
            host_portmappings: self.host_portmappings.deep_view(),
            variables: self.variables.deep_view(),
            volumes: self.volumes.deep_view(),
            connection_type: self.connection_type.deep_view(),
        }
    }

    fn new() -> (r: Settled)
        ensures
            r.model() == SettledView::none(),
    {
        Settled {
            serve_command: None,
            shell_command: None,
            image_repository: None,
            platform: None,
            default_container_image: None,
            host_portmappings: None,
            variables: None,
            volumes: None,
            connection_type: None,
        }
    }

    fn lay(&mut self, layer: &CascadeLayer, Ghost(s): Ghost<SettingsView>)
        requires
            layer.is_of(s),
        ensures
            final(self).model() == old(self).model().laid(s),
    {
        merge_scalar(&mut self.serve_command, &layer.serve_command);
        merge_scalar(&mut self.shell_command, &layer.shell_command);
        merge_scalar(&mut self.image_repository, &layer.image_repository);
        merge_scalar(&mut self.platform, &layer.platform);
        merge_scalar(&mut self.default_container_image, &layer.default_container_image);
        merge_map(&mut self.host_portmappings, &layer.host_portmappings);
        merge_map(&mut self.variables, &layer.variables);
        merge_vec(&mut self.volumes, &layer.volumes);
        merge_scalar(&mut self.connection_type, &layer.connection_type);
    }
}

/// The settings of one service, resolved across all levels.
#[derive(Debug)]
pub struct ResolvedSettings {
    pub domain_name: String,
    pub group_name: String,
    pub service_name: String,
    pub environment_name: Option<String>,
    pub serve_command: Option<String>,
    pub shell_command: Option<String>,
    pub image_repository: Option<String>,
    pub platform: Option<String>,
    pub default_container_image: Option<String>,
    pub host_portmappings: Option<StrMap<String>>,
    pub variables: Option<StrMap<String>>,
    pub volumes: Option<Vec<Volume>>,
    pub connection_type: Option<String>,
}

impl ResolvedSettings {
    /// The values that the settings resolved to.
    pub open spec fn settled(&self) -> SettledView {
        SettledView {
            serve_command: self.serve_command.deep_view(),
            shell_command: self.shell_command.deep_view(),
            image_repository: self.image_repository.deep_view(),
            platform: self.platform.deep_view(),
            default_container_image: self.default_container_image.deep_view(),
            host_portmappings: self.host_portmappings.deep_view(),
            variables: self.variables.deep_view(),
            volumes: self.volumes.deep_view(),
            connection_type: self.connection_type.deep_view(),
        }
    }

    /// Resolves settings across `environment`, `domain`, `group` and `service`, from
    /// the least specific level to the most specific one.
    ///
    /// For each field the levels are walked in that order. Lists append, maps merge
    /// (keys of more specific levels win), single values are overwritten. A `*field`
    /// on any level drops what was gathered before that level's value is applied, or
    /// for good where it is null. More specific levels still layer on top of it.
    pub fn resolve(
        domain_name: String,
        group_name: String,
        service_name: String,
        environment_name: Option<String>,
        service: Option<&Service>,
        group: Option<&Group>,
        domain: &Domain,
        environment: Option<&Environment>,
    ) -> (r: ResolvedSettings)
        ensures
            r.domain_name@ == domain_name@,
            r.group_name@ == group_name@,
            r.service_name@ == service_name@,
            r.environment_name.deep_view() == environment_name.deep_view(),
            r.settled() == cascade(
                match environment {
                    Some(e) => Some(e.settings()),
                    None => None,
                },
                domain.settings(),
                match group {
                    Some(g) => Some(g.settings()),
                    None => None,
                },
                match service {
                    Some(s) => Some(s.settings()),
                    None => None,
                },
            ),
    {
        let mut acc = Settled::new();
        match environment {
            Some(e) => {
                acc.lay(&CascadeLayer::of_environment(e), Ghost(e.settings()));
            },
            None => {},
        }
        acc.lay(&CascadeLayer::of_domain(domain), Ghost(domain.settings()));
        match group {
            Some(g) => {
                acc.lay(&CascadeLayer::of_group(g), Ghost(g.settings()));
            },
            None => {},
        }
        match service {
            Some(s) => {
                acc.lay(&CascadeLayer::of_service(s), Ghost(s.settings()));
            },
            None => {},
        }
        ResolvedSettings {
            domain_name,
            group_name,
            service_name,
            environment_name,
            serve_command: acc.serve_command,
            shell_command: acc.shell_command,
            image_repository: acc.image_repository,
            platform: acc.platform,
            default_container_image: acc.default_container_image,
            host_portmappings: acc.host_portmappings,
            variables: acc.variables,
            volumes: acc.volumes,
            connection_type: acc.connection_type,
        }
    }

    /// The name of the image to run: `image_repository:image`, or just the image. An
    /// image from the command line takes precedence over `default_container_image`.
    pub fn resolve_full_image_name(&self, cli_image: Option<&str>) -> (r: Option<String>)
        ensures
            r.deep_view() == full_image_name(
                self.image_repository.deep_view(),
                match cli_image {
                    Some(image) => Some(image@),
                    None => self.default_container_image.deep_view(),
                },
            ),
    {
        let base = match cli_image {
            Some(image) => image.to_string(),
            None => match &self.default_container_image {
                Some(image) => image.clone(),
                None => {
                    return None;
                },
            },
        };
        match &self.image_repository {
            Some(repository) => {
                let mut name = repository.clone();
                name.append(":");
                name.append(base.as_str());
                Some(name)
            },
            None => Some(base),
        }
    }
}

/// The name of an image in a repository, if there is an image.
pub open spec fn full_image_name(
    repository: Option<Seq<char>>,
    image: Option<Seq<char>>,
) -> Option<Seq<char>> {
    match image {
        Some(image) => match repository {
            Some(repository) => Some(repository + ":"@ + image),
            None => Some(image),
        },
        None => None,
    }
}

// ---------------------------------------------------------------------------
// Laws
// ---------------------------------------------------------------------------
/// How an optional level declares a field.
pub open spec fn decl_if<T>(
    level: Option<SettingsView>,
    pick: spec_fn(SettingsView) -> FieldDecl<T>,
) -> FieldDecl<T> {
    match level {
        Some(s) => pick(s),
        None => FieldDecl::Absent,
    }
}

/// The value of the most specific level that declares one, given how the levels
/// declare it from the most specific one on.
pub open spec fn most_specific(
    service: FieldDecl<Seq<char>>,
    group: FieldDecl<Seq<char>>,
    domain: FieldDecl<Seq<char>>,
    environment: FieldDecl<Seq<char>>,
) -> Option<Seq<char>> {
    if !(service is Absent) {
        laid_scalar(None, service)
    } else if !(group is Absent) {
        laid_scalar(None, group)
    } else if !(domain is Absent) {
        laid_scalar(None, domain)
    } else {
        laid_scalar(None, environment)
    }
}

/// A single value comes from the most specific level that declares it: service,
/// then group, then domain, then environment.
pub proof fn most_specific_scalar_wins(
    environment: Option<SettingsView>,
    domain: SettingsView,
    group: Option<SettingsView>,
    service: Option<SettingsView>,
)
    ensures
        ({
            let r = cascade(environment, domain, group, service);
            &&& r.serve_command == most_specific(
                decl_if(service, |s: SettingsView| decl(s.serve_command, s.serve_command_override)),
                decl_if(group, |s: SettingsView| decl(s.serve_command, s.serve_command_override)),
                decl(domain.serve_command, domain.serve_command_override),
                decl_if(
                    environment,
                    |s: SettingsView| decl(s.serve_command, s.serve_command_override),
                ),
            )
            &&& r.shell_command == most_specific(
                decl_if(service, |s: SettingsView| decl(s.shell_command, s.shell_command_override)),
                decl_if(group, |s: SettingsView| decl(s.shell_command, s.shell_command_override)),
                decl(domain.shell_command, domain.shell_command_override),
                decl_if(
                    environment,
                    |s: SettingsView| decl(s.shell_command, s.shell_command_override),
                ),
            )
            &&& r.image_repository == most_specific(
                decl_if(
                    service,
                    |s: SettingsView| decl(s.image_repository, s.image_repository_override),
                ),
                decl_if(
                    group,
                    |s: SettingsView| decl(s.image_repository, s.image_repository_override),
                ),
                decl(domain.image_repository, domain.image_repository_override),
                decl_if(
                    environment,
                    |s: SettingsView| decl(s.image_repository, s.image_repository_override),
                ),
            )
            &&& r.platform == most_specific(
                decl_if(service, |s: SettingsView| decl(s.platform, s.platform_override)),
                decl_if(group, |s: SettingsView| decl(s.platform, s.platform_override)),
                decl(domain.platform, domain.platform_override),
                decl_if(environment, |s: SettingsView| decl(s.platform, s.platform_override)),
            )
            &&& r.default_container_image == most_specific(
                decl_if(
                    service,
                    |s: SettingsView| decl(s.default_container_image, s.default_container_image_override),
                ),
                decl_if(
                    group,
                    |s: SettingsView| decl(s.default_container_image, s.default_container_image_override),
                ),
                decl(domain.default_container_image, domain.default_container_image_override),
                decl_if(
                    environment,
                    |s: SettingsView| decl(s.default_container_image, s.default_container_image_override),
                ),
            )
            &&& r.connection_type == most_specific(
                decl_if(
                    service,
                    |s: SettingsView| decl(s.connection_type, s.connection_type_override),
                ),
                decl_if(
                    group,
                    |s: SettingsView| decl(s.connection_type, s.connection_type_override),
                ),
                decl(domain.connection_type, domain.connection_type_override),
                decl_if(
                    environment,
                    |s: SettingsView| decl(s.connection_type, s.connection_type_override),
                ),
            )
        }),
{
}

/// An override on a level hides what less specific levels say: the result does not
/// depend on them.
pub proof fn override_hides_less_specific_levels(a: SettledView, b: SettledView, s: SettingsView)
    ensures
        s.serve_command_override is Some ==> a.laid(s).serve_command == b.laid(s).serve_command
            && a.laid(s).serve_command == s.serve_command_override->0,
        s.shell_command_override is Some ==> a.laid(s).shell_command == b.laid(s).shell_command
            && a.laid(s).shell_command == s.shell_command_override->0,
        s.image_repository_override is Some ==> a.laid(s).image_repository == b.laid(s).image_repository
            && a.laid(s).image_repository == s.image_repository_override->0,
        s.platform_override is Some ==> a.laid(s).platform == b.laid(s).platform
            && a.laid(s).platform == s.platform_override->0,
        s.default_container_image_override is Some ==> a.laid(s).default_container_image == b.laid(s).default_container_image
            && a.laid(s).default_container_image == s.default_container_image_override->0,
        s.host_portmappings_override is Some ==> a.laid(s).host_portmappings == b.laid(s).host_portmappings
            && a.laid(s).host_portmappings == s.host_portmappings_override->0,
        s.variables_override is Some ==> a.laid(s).variables == b.laid(s).variables
            && a.laid(s).variables == s.variables_override->0,
        s.volumes_override is Some ==> a.laid(s).volumes == b.laid(s).volumes
            && a.laid(s).volumes == s.volumes_override->0,
        s.connection_type_override is Some ==> a.laid(s).connection_type == b.laid(s).connection_type
            && a.laid(s).connection_type == s.connection_type_override->0,
{
}

/// A plain map adds to what less specific levels say: each key has the value of the level
/// where the level has it, and the earlier value anywhere else.
pub proof fn maps_merge_key_by_key(
    acc: Map<Seq<char>, Seq<char>>,
    m: Map<Seq<char>, Seq<char>>,
    k: Seq<char>,
)
    ensures
        laid_map(None, FieldDecl::Plain(m)) == Some(m),
        laid_map(Some(acc), FieldDecl::Plain(m)) is Some,
        ({
            let r = laid_map(Some(acc), FieldDecl::Plain(m))->0;
            &&& r.contains_key(k) <==> m.contains_key(k) || acc.contains_key(k)
            &&& m.contains_key(k) ==> r[k] == m[k]
            &&& !m.contains_key(k) && acc.contains_key(k) ==> r[k] == acc[k]
        }),
{
}

/// A plain list is appended to what less specific levels say.
pub proof fn lists_append(acc: Seq<VolumeView>, v: Seq<VolumeView>)
    ensures
        laid_list(None, FieldDecl::Plain(v)) == Some(v),
        laid_list(Some(acc), FieldDecl::Plain(v)) == Some(acc + v),
{
}

} // verus!
