//! Editing a configuration, and combining configuration documents.
use darp::config::{
    merge_values, strip_nulls, Config, Domain, Group, PreConfig, Service,
};
use darp::json::JsonValue;
use darp::map::StrMap;

/// A configuration with a single domain.
fn config_with_domain(domain_name: &str, location: &str) -> Config {
    let mut config = Config::default();
    config.add_domain(domain_name, location).unwrap();
    config
}

fn domain<'a>(config: &'a Config, name: &str) -> &'a Domain {
    config.domains.as_ref().unwrap().get(name).unwrap()
}

fn group<'a>(config: &'a Config, d: &str, g: &str) -> &'a Group {
    domain(config, d).groups.as_ref().unwrap().get(g).unwrap()
}

fn service<'a>(config: &'a Config, d: &str, g: &str, s: &str) -> &'a Service {
    group(config, d, g).services.as_ref().unwrap().get(s).unwrap()
}

fn text_of(map: &Option<StrMap<String>>, key: &str) -> String {
    map.as_ref().unwrap().get(key).unwrap().clone()
}

fn object(members: Vec<(&str, JsonValue)>) -> JsonValue {
    let mut map = StrMap::new();
    for (key, value) in members {
        map.insert(key.to_string(), value);
    }
    JsonValue::object(map)
}

// ---------------------------------------------------------------
// Groups are created on set
// ---------------------------------------------------------------

#[test]
fn set_group_serve_command_creates_group() {
    let mut config = config_with_domain("d", "/tmp/d");
    config
        .set_group_serve_command("d", "new-grp", "npm start")
        .unwrap();

    let group = group(&config, "d", "new-grp").clone();
    assert_eq!(group.serve_command.unwrap(), "npm start");
}

#[test]
fn set_group_shell_command_creates_group() {
    let mut config = config_with_domain("d", "/tmp/d");
    config.set_group_shell_command("d", "g", "bash").unwrap();

    let group = group(&config, "d", "g");
    assert_eq!(group.shell_command.as_deref(), Some("bash"));
}

#[test]
fn set_group_image_repository_creates_group() {
    let mut config = config_with_domain("d", "/tmp/d");
    config
        .set_group_image_repository("d", "g", "myrepo")
        .unwrap();

    let group = group(&config, "d", "g");
    assert_eq!(group.image_repository.as_deref(), Some("myrepo"));
}

#[test]
fn set_group_platform_creates_group() {
    let mut config = config_with_domain("d", "/tmp/d");
    config.set_group_platform("d", "g", "linux/amd64").unwrap();

    let group = group(&config, "d", "g");
    assert_eq!(group.platform.as_deref(), Some("linux/amd64"));
}

#[test]
fn set_group_default_environment_creates_group() {
    let mut config = config_with_domain("d", "/tmp/d");
    config
        .set_group_default_environment("d", "g", "dev")
        .unwrap();

    let group = group(&config, "d", "g");
    assert_eq!(group.default_environment.as_deref(), Some("dev"));
}

#[test]
fn set_group_default_container_image_creates_group() {
    let mut config = config_with_domain("d", "/tmp/d");
    config
        .set_group_default_container_image("d", "g", "ubuntu:latest")
        .unwrap();

    let group = group(&config, "d", "g");
    assert_eq!(
        group.default_container_image.as_deref(),
        Some("ubuntu:latest")
    );
}

// ---------------------------------------------------------------
// Groups are created on add
// ---------------------------------------------------------------

#[test]
fn add_group_portmap_creates_group() {
    let mut config = config_with_domain("d", "/tmp/d");
    config.add_group_portmap("d", "g", "8080", "80").unwrap();

    let group = group(&config, "d", "g");
    assert_eq!(text_of(&group.host_portmappings, "8080"), "80");
}

#[test]
fn add_group_variable_creates_group() {
    let mut config = config_with_domain("d", "/tmp/d");
    config.add_group_variable("d", "g", "FOO", "bar").unwrap();

    let group = group(&config, "d", "g");
    assert_eq!(text_of(&group.variables, "FOO"), "bar");
}

#[test]
fn add_group_volume_creates_group() {
    let mut config = config_with_domain("d", "/tmp/d");
    config
        .add_group_volume("d", "g", "/app", "/host/app")
        .unwrap();

    let group = group(&config, "d", "g");
    let vols = group.volumes.as_ref().unwrap();
    assert_eq!(vols.len(), 1);
    assert_eq!(vols[0].container, "/app");
    assert_eq!(vols[0].host, "/host/app");
}

// ---------------------------------------------------------------
// Setting or adding on a service creates its group
// ---------------------------------------------------------------

#[test]
fn set_service_serve_command_creates_group_and_service() {
    let mut config = config_with_domain("d", "/tmp/d");
    config
        .set_service_serve_command("d", "g", "svc", "npm run dev")
        .unwrap();

    let svc = service(&config, "d", "g", "svc");
    assert_eq!(svc.serve_command.as_deref(), Some("npm run dev"));
}

#[test]
fn add_service_portmap_creates_group_and_service() {
    let mut config = config_with_domain("d", "/tmp/d");
    config.add_portmap("d", "g", "svc", "3000", "3000").unwrap();

    let svc = service(&config, "d", "g", "svc");
    assert_eq!(text_of(&svc.host_portmappings, "3000"), "3000");
}

#[test]
fn add_service_variable_creates_group_and_service() {
    let mut config = config_with_domain("d", "/tmp/d");
    config.add_variable("d", "g", "svc", "KEY", "val").unwrap();

    let svc = service(&config, "d", "g", "svc");
    assert_eq!(text_of(&svc.variables, "KEY"), "val");
}

#[test]
fn add_service_volume_creates_group_and_service() {
    let mut config = config_with_domain("d", "/tmp/d");
    config
        .add_service_volume("d", "g", "svc", "/app", "/host")
        .unwrap();

    let svc = service(&config, "d", "g", "svc");
    let vols = svc.volumes.as_ref().unwrap();
    assert_eq!(vols.len(), 1);
}

// ---------------------------------------------------------------
// What exists is preserved
// ---------------------------------------------------------------

#[test]
fn set_on_existing_group_preserves_other_fields() {
    let mut config = config_with_domain("d", "/tmp/d");
    config.set_group_serve_command("d", "g", "cmd1").unwrap();
    config.set_group_shell_command("d", "g", "cmd2").unwrap();

    let group = group(&config, "d", "g");
    assert_eq!(group.serve_command.as_deref(), Some("cmd1"));
    assert_eq!(group.shell_command.as_deref(), Some("cmd2"));
}

#[test]
fn add_to_existing_service_preserves_other_fields() {
    let mut config = config_with_domain("d", "/tmp/d");
    config
        .set_service_serve_command("d", "g", "svc", "cmd")
        .unwrap();
    config.add_portmap("d", "g", "svc", "8080", "80").unwrap();

    let svc = service(&config, "d", "g", "svc");
    assert_eq!(svc.serve_command.as_deref(), Some("cmd"));
    assert_eq!(text_of(&svc.host_portmappings, "8080"), "80");
}

// ---------------------------------------------------------------
// Domains are created by ensure_domain_exists
// ---------------------------------------------------------------

#[test]
fn ensure_domain_exists_creates_domain_with_location() {
    let mut config = Config::default();
    config
        .ensure_domain_exists("newdom", Some("/tmp/newdom"), &vec![])
        .unwrap();

    let dom = domain(&config, "newdom");
    assert_eq!(dom.location, "/tmp/newdom");
}

#[test]
fn ensure_domain_exists_errors_without_location() {
    let mut config = Config::default();
    let err = config
        .ensure_domain_exists("nope", None, &vec![])
        .unwrap_err();
    assert!(err.to_string().contains("does not exist"));
    assert!(err.to_string().contains("-l"));
}

#[test]
fn ensure_domain_exists_noop_when_exists() {
    let mut config = config_with_domain("d", "/tmp/d");
    // No error even without a location, since the domain exists already.
    config.ensure_domain_exists("d", None, &vec![]).unwrap();
    assert_eq!(domain(&config, "d").location, "/tmp/d");
}

#[test]
fn ensure_domain_exists_finds_domain_in_pre_config() {
    let parent = config_with_domain("parent-dom", "/projects/parent-dom");

    let mut config = Config::default();
    config.pre_config = Some(vec![PreConfig {
        location: "/somewhere/parent_config.json".to_string(),
        repo_location: None,
    }]);

    // The parent configuration says where the domain is.
    config
        .ensure_domain_exists("parent-dom", None, &vec![parent])
        .unwrap();

    let dom = domain(&config, "parent-dom");
    assert_eq!(dom.location, "/projects/parent-dom");
}

#[test]
fn ensure_domain_exists_pre_config_domain_allows_group_operations() {
    let parent = config_with_domain("parent-dom", "/projects/parent-dom");

    let mut config = Config::default();
    config.pre_config = Some(vec![PreConfig {
        location: "/somewhere/parent_config.json".to_string(),
        repo_location: None,
    }]);

    // The domain comes from the parent; the group is created.
    config
        .ensure_domain_exists("parent-dom", None, &vec![parent])
        .unwrap();
    config
        .set_group_serve_command("parent-dom", "g", "npm start")
        .unwrap();

    let group = group(&config, "parent-dom", "g");
    assert_eq!(group.serve_command.as_deref(), Some("npm start"));
}

// ---------------------------------------------------------------
// Group set/add after a domain was created
// ---------------------------------------------------------------

#[test]
fn set_group_creates_domain_and_group() {
    let mut config = Config::default();
    config
        .ensure_domain_exists("d", Some("/tmp/d"), &vec![])
        .unwrap();
    config.set_group_serve_command("d", "g", "cmd").unwrap();

    let dom = domain(&config, "d");
    assert_eq!(dom.location, "/tmp/d");
    let group = group(&config, "d", "g");
    assert_eq!(group.serve_command.as_deref(), Some("cmd"));
}

#[test]
fn add_group_portmap_creates_domain_and_group() {
    let mut config = Config::default();
    config
        .ensure_domain_exists("d", Some("/tmp/d"), &vec![])
        .unwrap();
    config.add_group_portmap("d", "g", "8080", "80").unwrap();

    assert_eq!(domain(&config, "d").location, "/tmp/d");
    let group = group(&config, "d", "g");
    assert_eq!(text_of(&group.host_portmappings, "8080"), "80");
}

#[test]
fn set_group_on_missing_domain_errors_without_location() {
    let mut config = Config::default();
    let err = config
        .set_group_serve_command("nope", "g", "cmd")
        .unwrap_err();
    assert!(err.to_string().contains("No domains configured"));
}

// ---------------------------------------------------------------
// Service set/add after a domain was created
// ---------------------------------------------------------------

#[test]
fn set_service_creates_domain_group_and_service() {
    let mut config = Config::default();
    config
        .ensure_domain_exists("d", Some("/tmp/d"), &vec![])
        .unwrap();
    config
        .set_service_serve_command("d", "g", "svc", "npm run dev")
        .unwrap();

    let dom = domain(&config, "d");
    assert_eq!(dom.location, "/tmp/d");
    let svc = service(&config, "d", "g", "svc");
    assert_eq!(svc.serve_command.as_deref(), Some("npm run dev"));
}

#[test]
fn add_service_portmap_creates_domain_group_and_service() {
    let mut config = Config::default();
    config
        .ensure_domain_exists("d", Some("/tmp/d"), &vec![])
        .unwrap();
    config.add_portmap("d", "g", "svc", "3000", "3000").unwrap();

    assert_eq!(domain(&config, "d").location, "/tmp/d");
    let svc = service(&config, "d", "g", "svc");
    assert_eq!(text_of(&svc.host_portmappings, "3000"), "3000");
}

#[test]
fn add_service_variable_creates_domain_group_and_service() {
    let mut config = Config::default();
    config
        .ensure_domain_exists("d", Some("/tmp/d"), &vec![])
        .unwrap();
    config.add_variable("d", "g", "svc", "KEY", "val").unwrap();

    let svc = service(&config, "d", "g", "svc");
    assert_eq!(text_of(&svc.variables, "KEY"), "val");
}

#[test]
fn add_service_volume_creates_domain_group_and_service() {
    let mut config = Config::default();
    config
        .ensure_domain_exists("d", Some("/tmp/d"), &vec![])
        .unwrap();
    config
        .add_service_volume("d", "g", "svc", "/app", "/host")
        .unwrap();

    let svc = service(&config, "d", "g", "svc");
    assert_eq!(svc.volumes.as_ref().unwrap().len(), 1);
}

#[test]
fn set_service_on_missing_domain_errors_without_location() {
    let mut config = Config::default();
    let err = config
        .set_service_serve_command("nope", "g", "svc", "cmd")
        .unwrap_err();
    assert!(err.to_string().contains("No domains configured"));
}

// ---------------------------------------------------------------
// Nulls
// ---------------------------------------------------------------

#[test]
fn strip_nulls_removes_nested_nulls() {
    let mut val = object(vec![
        ("a", JsonValue::Null),
        ("b", JsonValue::text("keep")),
        (
            "c",
            object(vec![
                ("d", JsonValue::Null),
                ("e", JsonValue::text("also_keep")),
            ]),
        ),
    ]);
    strip_nulls(&mut val);
    assert_eq!(
        val,
        object(vec![
            ("b", JsonValue::text("keep")),
            ("c", object(vec![("e", JsonValue::text("also_keep"))])),
        ])
    );
}

// ---------------------------------------------------------------
// merge_values: null handling
// ---------------------------------------------------------------

#[test]
fn merge_values_null_does_not_override_base() {
    let base = object(vec![
        ("engine", JsonValue::text("docker")),
        ("name", JsonValue::text("test")),
    ]);
    let overlay = object(vec![
        ("engine", JsonValue::Null),
        ("name", JsonValue::text("test")),
    ]);
    let merged = merge_values(base, overlay);
    assert_eq!(merged.get("engine"), Some(&JsonValue::text("docker")));
}

#[test]
fn merge_values_star_null_removes_key() {
    let base = object(vec![("serve_command", JsonValue::text("old"))]);
    let overlay = object(vec![("*serve_command", JsonValue::Null)]);
    let merged = merge_values(base, overlay);
    assert!(merged.get("serve_command").is_none());
}

#[test]
fn merge_values_star_value_force_replaces() {
    let base = object(vec![("cmd", JsonValue::text("old"))]);
    let overlay = object(vec![("*cmd", JsonValue::text("new"))]);
    let merged = merge_values(base, overlay);
    assert_eq!(merged.get("cmd"), Some(&JsonValue::text("new")));
}
