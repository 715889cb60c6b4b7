//! Resolving settings, the context of a directory, and tokens.
use darp::commands::cmd_show;
use darp::config::context::CurrentDir;
use darp::config::{
    substitute_tokens, Config, Domain, Environment, Group, ResolvedSettings, Service, TokenCtx,
    Volume,
};
use darp::map::StrMap;

fn map(entries: &[(&str, &str)]) -> StrMap<String> {
    let mut map = StrMap::new();
    for (k, v) in entries {
        map.insert(k.to_string(), v.to_string());
    }
    map
}

fn volume(container: &str, host: &str) -> Volume {
    Volume {
        container: container.to_string(),
        host: host.to_string(),
    }
}

fn resolve(
    service: Option<&Service>,
    group: Option<&Group>,
    domain: &Domain,
    environment: Option<&Environment>,
) -> ResolvedSettings {
    ResolvedSettings::resolve(
        "d".to_string(),
        "g".to_string(),
        "s".to_string(),
        Some("e".to_string()),
        service,
        group,
        domain,
        environment,
    )
}

#[test]
fn the_most_specific_value_wins() {
    let mut environment = Environment::default();
    environment.serve_command = Some("env".to_string());
    environment.shell_command = Some("env".to_string());
    environment.platform = Some("env".to_string());
    environment.image_repository = Some("env".to_string());
    let mut domain = Domain::default();
    domain.serve_command = Some("dom".to_string());
    domain.shell_command = Some("dom".to_string());
    domain.platform = Some("dom".to_string());
    let mut group = Group::default();
    group.serve_command = Some("grp".to_string());
    group.shell_command_override = Some(Some("grp".to_string()));
    let mut service = Service::default();
    service.serve_command = Some("svc".to_string());
    service.platform_override = Some(None);

    let r = resolve(Some(&service), Some(&group), &domain, Some(&environment));
    assert_eq!(r.domain_name, "d");
    assert_eq!(r.group_name, "g");
    assert_eq!(r.service_name, "s");
    assert_eq!(r.environment_name.as_deref(), Some("e"));
    assert_eq!(r.serve_command.as_deref(), Some("svc"));
    assert_eq!(r.shell_command.as_deref(), Some("grp"));
    assert_eq!(r.platform, None);
    assert_eq!(r.image_repository.as_deref(), Some("env"));
    assert_eq!(r.default_container_image, None);
    assert_eq!(r.connection_type, None);

    let r = resolve(None, None, &domain, None);
    assert_eq!(r.serve_command.as_deref(), Some("dom"));
    assert_eq!(r.image_repository, None);
}

#[test]
fn collections_add_up_unless_overridden() {
    let mut environment = Environment::default();
    environment.variables = Some(map(&[("A", "env"), ("B", "env")]));
    environment.volumes = Some(vec![volume("/e", "/e")]);
    environment.host_portmappings = Some(map(&[("1", "1")]));
    let mut domain = Domain::default();
    domain.variables = Some(map(&[("B", "dom"), ("C", "dom")]));
    domain.volumes = Some(vec![volume("/d", "/d")]);
    let mut group = Group::default();
    group.volumes_override = Some(Some(vec![volume("/g", "/g")]));
    group.host_portmappings_override = Some(None);
    let mut service = Service::default();
    service.variables = Some(map(&[("C", "svc")]));
    service.volumes = Some(vec![volume("/s", "/s")]);

    let r = resolve(Some(&service), Some(&group), &domain, Some(&environment));
    assert_eq!(
        r.variables,
        Some(map(&[("A", "env"), ("B", "dom"), ("C", "svc")]))
    );
    let paths: Vec<&str> = r
        .volumes
        .as_ref()
        .unwrap()
        .iter()
        .map(|v| v.host.as_str())
        .collect();
    assert_eq!(paths, vec!["/g", "/s"]);
    assert_eq!(r.host_portmappings, None);
}

#[test]
fn the_image_stands_in_its_repository() {
    let mut domain = Domain::default();
    let r = resolve(None, None, &domain, None);
    assert_eq!(r.resolve_full_image_name(None), None);
    assert_eq!(
        r.resolve_full_image_name(Some("x")),
        Some("x".to_string())
    );
    domain.image_repository = Some("repo".to_string());
    domain.default_container_image = Some("1.0".to_string());
    let r = resolve(None, None, &domain, None);
    assert_eq!(
        r.resolve_full_image_name(None),
        Some("repo:1.0".to_string())
    );
    assert_eq!(
        r.resolve_full_image_name(Some("2.0")),
        Some("repo:2.0".to_string())
    );
}

fn config() -> Config {
    let mut config = Config::default();
    config.add_domain("a", "/x").unwrap();
    config.add_domain("b", "/p").unwrap();
    config.set_serve_command("go", "air").unwrap();
    config.set_serve_command("cli", "other").unwrap();
    config.set_domain_default_environment("b", "go").unwrap();
    config
        .set_service_default_environment("b", "web", "shop", "none")
        .unwrap();
    config
        .set_group_shell_command("b", ".", "bash")
        .unwrap();
    config
}

fn dir(parent: &str, parent_name: &str, grandparent: &str, name: &str) -> CurrentDir {
    CurrentDir {
        path: format!("{parent}/{name}"),
        name: Some(name.to_string()),
        parent: Some(parent.to_string()),
        parent_name: Some(parent_name.to_string()),
        grandparent: Some(grandparent.to_string()),
    }
}

#[test]
fn a_folder_in_a_domain_belongs_to_the_root_group() {
    let config = config();
    let locations = map(&[("b", "/p")]);
    let ctx = config
        .service_context_from_cwd(None, &dir("/p", "p", "/", "api"), &locations)
        .unwrap();
    assert_eq!(ctx.current_dir, "/p/api");
    assert_eq!(ctx.current_directory_name, "api");
    assert_eq!(ctx.domain_name, "b");
    assert_eq!(ctx.domain.location, "/p");
    assert_eq!(ctx.group_name, ".");
    assert!(ctx.group.is_some());
    assert!(ctx.service.is_none());
    assert_eq!(ctx.environment_name.as_deref(), Some("go"));
    assert_eq!(
        ctx.environment.unwrap().serve_command.as_deref(),
        Some("air")
    );
    let shown = cmd_show(None, &config, &dir("/p", "p", "/", "api"), &locations).unwrap();
    assert_eq!(shown.serve_command.as_deref(), Some("air"));
    assert_eq!(shown.shell_command.as_deref(), Some("bash"));
    assert_eq!(shown.service_name, "api");
}

#[test]
fn a_folder_two_levels_down_belongs_to_a_named_group() {
    let config = config();
    let locations = map(&[("b", "/p")]);
    let here = dir("/p/web", "web", "/p", "shop");
    let (name, _, group_name, group) = config.find_context_by_cwd(&here, &locations).unwrap();
    assert_eq!(name, "b");
    assert_eq!(group_name, "web");
    assert!(group.is_some());
    let ctx = config
        .service_context_from_cwd(None, &here, &locations)
        .unwrap();
    assert!(ctx.service.is_some());
    assert_eq!(ctx.environment_name.as_deref(), Some("none"));
    assert!(ctx.environment.is_none());
    assert_eq!(
        cmd_show(None, &config, &here, &locations).unwrap_err(),
        "Environment 'none' does not exist."
    );
    let shown = cmd_show(Some("cli".to_string()), &config, &here, &locations).unwrap();
    assert_eq!(shown.serve_command.as_deref(), Some("other"));
    assert_eq!(shown.environment_name.as_deref(), Some("cli"));
}

#[test]
fn other_folders_belong_to_no_domain() {
    let config = config();
    let locations = map(&[("b", "/p")]);
    let here = dir("/q/web", "web", "/q", "shop");
    assert!(config.find_context_by_cwd(&here, &locations).is_none());
    assert_eq!(
        cmd_show(None, &config, &here, &locations).unwrap_err(),
        "Current directory does not exist in any darp domain configuration."
    );
    let mut root = dir("/p", "p", "/", "api");
    root.name = None;
    assert!(config.find_context_by_cwd(&root, &locations).is_none());
    let mut top = dir("/q", "q", "/p", "api");
    top.parent_name = None;
    assert!(config.find_context_by_cwd(&top, &locations).is_none());
}

#[test]
fn the_first_domain_at_a_path_counts() {
    let config = config();
    let locations = map(&[("a", "/p"), ("b", "/p")]);
    let (name, domain) = config.find_domain_by_location("/p", &locations).unwrap();
    assert_eq!(name, "a");
    assert_eq!(domain.location, "/x");
    assert!(config.find_domain_by_location("/x", &locations).is_none());
    assert!(Config::default()
        .find_domain_by_location("/p", &locations)
        .is_none());
}

#[test]
fn known_tokens_are_replaced() {
    let mut ctx = TokenCtx {
        domain: "dom",
        group: "grp",
        service: "svc",
        debug_port: 13001,
        proxy_port: None,
    };
    assert_eq!(
        substitute_tokens("{service}.{group}.{domain}:{debug_port} {proxy_port} {x}", &ctx),
        "svc.grp.dom:13001 {proxy_port} {x}"
    );
    ctx.proxy_port = Some(50100);
    assert_eq!(
        substitute_tokens("{proxy_port}{{debug_port}}", &ctx),
        "50100{13001}"
    );
}
