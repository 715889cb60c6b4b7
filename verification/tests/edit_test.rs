//! Editing a configuration: what is reported, and what undoes what.
use darp::config::{Config, DarpPaths, PreConfig};
use darp::config::general::parse_bool_word;
use darp::config::paths::{expand_home, expand_host_path};
use darp::config::resolve_location;

fn with_domain() -> Config {
    let mut config = Config::default();
    config.add_domain("d", "/d").unwrap();
    config
}

fn same(a: &Config, b: &Config) -> bool {
    format!("{a:?}") == format!("{b:?}")
}

#[test]
fn a_copy_holds_what_the_configuration_holds() {
    let mut config = with_domain();
    config.add_domain("e", "/e").unwrap();
    config.add_portmap("d", "g", "s", "8080", "80").unwrap();
    config.add_variable("d", "g", "s", "A", "1").unwrap();
    config.set_serve_command("dev", "run").unwrap();
    config.add_volume("dev", "/c", "/h").unwrap();
    config.add_pre_config("/p.json", Some("/p")).unwrap();
    config.wsl = Some(true);
    config.debug_port_base = Some(4000);
    let copy = config.clone();
    assert!(same(&copy, &config));
    assert_eq!(copy.domains.as_ref().unwrap().len(), 2);
    config.rm_domain("d").unwrap();
    assert!(!same(&copy, &config));
    assert!(copy.domains.as_ref().unwrap().contains_key("d"));
}

#[test]
fn domains_are_added_and_removed() {
    let mut config = Config::default();
    assert_eq!(
        config.rm_domain("d").unwrap_err().to_string(),
        "no domains configured"
    );
    assert_eq!(config.add_domain("d", "/d").unwrap(), "created 'd' at /d");
    assert_eq!(
        config.add_domain("d", "/e").unwrap_err().to_string(),
        "Domain 'd' already exists."
    );
    assert_eq!(
        config.rm_domain("x").unwrap_err().to_string(),
        "domain x does not exist"
    );
    assert_eq!(config.rm_domain("d").unwrap(), "removed 'd'");
    assert!(config.domains.as_ref().unwrap().is_empty());
    assert_eq!(
        config.ensure_domain_exists("d", None, &vec![]).unwrap_err().to_string(),
        "domain 'd' does not exist. Use -l <path> to create it."
    );
}

#[test]
fn an_unknown_domain_leaves_an_empty_map() {
    let mut config = Config::default();
    assert!(config.ensure_domain_exists("d", None, &vec![]).is_err());
    assert!(config.domains.as_ref().unwrap().is_empty());
    assert_eq!(
        config
            .set_domain_platform("d", "p")
            .unwrap_err()
            .to_string(),
        "domain, d, does not exist"
    );
}

#[test]
fn the_first_parent_with_the_domain_counts() {
    let mut a = Config::default();
    a.add_domain("x", "/a/x").unwrap();
    let mut b = Config::default();
    b.add_domain("d", "/b/d").unwrap();
    let mut c = Config::default();
    c.add_domain("d", "/c/d").unwrap();
    let parents = vec![a, b, c];
    let mut config = Config::default();
    assert!(config.needs_parents("d", None));
    assert!(!config.needs_parents("d", Some("/e")));
    assert_eq!(
        config.ensure_domain_exists("d", None, &parents).unwrap(),
        Some("created 'd' at /b/d".to_string())
    );
    assert!(!config.needs_parents("d", None));
    assert_eq!(config.domain_location("d"), Some("/b/d".to_string()));
    assert_eq!(config.domain_location("x"), None);
    assert_eq!(
        config
            .ensure_domain_exists("d", Some("/z"), &parents)
            .unwrap(),
        None
    );
}

#[test]
fn values_are_set_and_removed_on_every_level() {
    let mut config = with_domain();
    assert_eq!(
        config
            .rm_domain_serve_command("d")
            .unwrap_err()
            .to_string(),
        "Domain 'd' has no custom serve_command."
    );
    let before = config.clone();
    config.set_domain_serve_command("d", "x").unwrap();
    config.rm_domain_serve_command("d").unwrap();
    assert!(same(&before, &config));

    assert_eq!(
        config
            .rm_group_platform("d", "g")
            .unwrap_err()
            .to_string(),
        "No groups configured for domain d"
    );
    config.set_group_platform("d", "g", "x").unwrap();
    assert_eq!(
        config
            .rm_group_platform("d", "h")
            .unwrap_err()
            .to_string(),
        "group, h, does not exist in domain d"
    );
    config.rm_group_platform("d", "g").unwrap();
    assert_eq!(
        config
            .rm_group_platform("d", "g")
            .unwrap_err()
            .to_string(),
        "Group 'g' in domain 'd' has no custom platform."
    );

    assert_eq!(
        config
            .rm_service_default_container_image("d", "g", "s")
            .unwrap_err()
            .to_string(),
        "No services configured for group 'g' in domain d"
    );
    config
        .set_service_default_container_image("d", "g", "s", "x")
        .unwrap();
    assert_eq!(
        config
            .rm_service_default_container_image("d", "g", "t")
            .unwrap_err()
            .to_string(),
        "service, t, does not exist"
    );
    config
        .rm_service_default_container_image("d", "g", "s")
        .unwrap();
    assert_eq!(
        config
            .rm_service_default_container_image("d", "g", "s")
            .unwrap_err()
            .to_string(),
        "Service 'd.s' has no default_container_image."
    );

    assert_eq!(
        config
            .set_shell_command("e", "x")
            .unwrap_err()
            .to_string(),
        "Environment 'e' does not exist."
    );
    config.set_serve_command("e", "x").unwrap();
    config.set_shell_command("e", "y").unwrap();
    config.rm_shell_command("e").unwrap();
    assert_eq!(
        config.rm_shell_command("e").unwrap_err().to_string(),
        "Environment 'e' has no custom shell_command."
    );
    assert_eq!(
        config.rm_image_repository("f").unwrap_err().to_string(),
        "Environment 'f' does not exist."
    );
}

#[test]
fn connection_types_are_checked_first() {
    let mut config = Config::default();
    for r in [
        config.set_domain_connection_type("d", "udp"),
        config.set_group_connection_type("d", "g", "udp"),
        config.set_service_connection_type("d", "g", "s", "udp"),
        config.set_environment_connection_type("e", "udp"),
    ] {
        assert_eq!(
            r.unwrap_err().to_string(),
            "invalid connection_type 'udp' (must be one of: http, websocket, tcp)"
        );
    }
    assert_eq!(
        config
            .set_domain_connection_type("d", "tcp")
            .unwrap_err()
            .to_string(),
        "No domains configured"
    );
    let mut config = with_domain();
    for t in ["http", "websocket", "tcp"] {
        config.set_domain_connection_type("d", t).unwrap();
        config.rm_domain_connection_type("d").unwrap();
    }
    assert_eq!(
        config
            .rm_domain_connection_type("d")
            .unwrap_err()
            .to_string(),
        "Domain 'd' has no custom connection_type."
    );
}

#[test]
fn default_environments_are_set_and_removed() {
    let mut config = with_domain();
    assert_eq!(
        config
            .set_domain_default_environment("d", "e")
            .unwrap_err()
            .to_string(),
        "Environment 'e' does not exist."
    );
    config.set_serve_command("e", "x").unwrap();
    assert_eq!(
        config
            .set_domain_default_environment("x", "e")
            .unwrap_err()
            .to_string(),
        "domain, x, does not exist"
    );
    config.set_domain_default_environment("d", "e").unwrap();
    config.rm_domain_default_environment("d").unwrap();
    assert_eq!(
        config
            .rm_domain_default_environment("d")
            .unwrap_err()
            .to_string(),
        "Domain 'd' has no default_environment."
    );
    // Groups and services name environments that need not exist.
    config
        .set_group_default_environment("d", "g", "nowhere")
        .unwrap();
    config.rm_group_default_environment("d", "g").unwrap();
    assert_eq!(
        config
            .rm_group_default_environment("d", "g")
            .unwrap_err()
            .to_string(),
        "Group 'g' in domain 'd' has no default_environment."
    );
    config
        .set_service_default_environment("d", "g", "s", "nowhere")
        .unwrap();
    config
        .rm_service_default_environment("d", "g", "s")
        .unwrap();
    assert_eq!(
        config
            .rm_service_default_environment("d", "g", "s")
            .unwrap_err()
            .to_string(),
        "Service 'd.s' has no default_environment."
    );
}

#[test]
fn port_mappings_speak_of_their_place() {
    let mut config = with_domain();
    assert_eq!(
        config.rm_domain_portmap("d", "1").unwrap_err().to_string(),
        "No host_portmappings configured for domain 'd'"
    );
    assert_eq!(
        config.add_domain_portmap("d", "1", "2").unwrap(),
        "Created portmapping for domain 'd' (1:2)"
    );
    assert_eq!(
        config
            .add_domain_portmap("d", "1", "3")
            .unwrap_err()
            .to_string(),
        "Portmapping on host side for domain 'd' (1:____) already exists"
    );
    assert_eq!(
        config.rm_domain_portmap("d", "9").unwrap_err().to_string(),
        "Portmapping on host side for domain 'd' (9:____) does not exist"
    );
    assert_eq!(
        config.rm_domain_portmap("d", "1").unwrap(),
        "Removed portmapping for domain 'd' (1:____)"
    );
    assert_eq!(
        config.add_group_portmap("d", "g", "1", "2").unwrap(),
        "Created portmapping for group 'g' in domain 'd' (1:2)"
    );
    assert_eq!(
        config
            .add_group_portmap("d", "g", "1", "2")
            .unwrap_err()
            .to_string(),
        "Portmapping on host side for group 'g' in domain 'd' (1:____) already exists"
    );
    assert_eq!(
        config.rm_group_portmap("d", "g", "1").unwrap(),
        "Removed portmapping for group 'g' in domain 'd' (1:____)"
    );
    assert_eq!(
        config.add_portmap("d", "g", "s", "1", "2").unwrap(),
        "Created portmapping for 'd.s' (1:2)"
    );
    assert_eq!(
        config
            .add_portmap("d", "g", "s", "1", "2")
            .unwrap_err()
            .to_string(),
        "Portmapping on host side 'd.s' (1:____) already exists"
    );
    assert_eq!(
        config.rm_portmap("d", "g", "s", "1").unwrap(),
        "Removed portmapping for 'd.s' (1:____)"
    );
    assert_eq!(
        config
            .rm_variable("d", "g", "s", "1")
            .unwrap_err()
            .to_string(),
        "No variables configured"
    );
    assert_eq!(
        config.rm_env_portmap("e", "1").unwrap_err().to_string(),
        "No environments configured"
    );
    assert_eq!(
        config.add_env_portmap("e", "1", "2").unwrap(),
        "Created portmapping for environment 'e' (1:2)"
    );
    assert_eq!(
        config.rm_env_portmap("f", "1").unwrap_err().to_string(),
        "Environment 'f' does not exist."
    );
    assert_eq!(
        config.rm_env_portmap("e", "3").unwrap_err().to_string(),
        "Portmapping on host side for environment 'e' (3:____) does not exist"
    );
    assert_eq!(
        config.rm_env_portmap("e", "1").unwrap(),
        "Removed portmapping for environment 'e' (1:____)"
    );
}

#[test]
fn variables_speak_of_their_place() {
    let mut config = with_domain();
    assert_eq!(
        config.add_domain_variable("d", "A", "b").unwrap(),
        "Created variable for domain 'd' (A:b)"
    );
    assert_eq!(
        config
            .add_domain_variable("d", "A", "b")
            .unwrap_err()
            .to_string(),
        "Variable for domain 'd' (A:____) already exists"
    );
    assert_eq!(
        config.rm_domain_variable("d", "A").unwrap(),
        "Removed variable for domain 'd' (A:____)"
    );
    config.add_group_variable("d", "g", "A", "b").unwrap();
    assert_eq!(
        config
            .rm_group_variable("d", "g", "B")
            .unwrap_err()
            .to_string(),
        "Variable for group 'g' in domain 'd' (B:____) does not exist"
    );
    config.add_variable("d", "g", "s", "A", "b").unwrap();
    assert_eq!(
        config
            .rm_variable("d", "g", "s", "B")
            .unwrap_err()
            .to_string(),
        "Variable on host side 'd.s' (B:____) does not exist"
    );
    config.add_env_variable("e", "A", "b").unwrap();
    assert_eq!(
        config
            .add_env_variable("e", "A", "b")
            .unwrap_err()
            .to_string(),
        "Variable on host side for environment 'e' (A:____) already exists"
    );
    assert_eq!(
        config
            .rm_env_variable("e", "A")
            .unwrap(),
        "Removed variable for environment 'e' (A:____)"
    );
}

#[test]
fn volumes_speak_of_their_place() {
    let mut config = with_domain();
    assert_eq!(
        config
            .rm_domain_volume("d", "/c", "/h")
            .unwrap_err()
            .to_string(),
        "No volumes configured for domain 'd'"
    );
    assert_eq!(
        config.add_domain_volume("d", "/c", "/h").unwrap(),
        "Added volume to domain 'd': /h -> /c"
    );
    let before = config.clone();
    config.add_domain_volume("d", "/c", "/other").unwrap();
    assert_eq!(
        config
            .add_domain_volume("d", "/c", "/h")
            .unwrap_err()
            .to_string(),
        "Volume mapping already exists for domain 'd': /h -> /c"
    );
    assert_eq!(
        config.rm_domain_volume("d", "/c", "/other").unwrap(),
        "Removed volume from domain 'd': /other -> /c"
    );
    assert!(same(&before, &config));
    config.add_group_volume("d", "g", "/c", "/h").unwrap();
    assert_eq!(
        config
            .rm_group_volume("d", "g", "/h", "/c")
            .unwrap_err()
            .to_string(),
        "No matching volume found in group 'g' in domain 'd' for host '/c' -> container '/h'"
    );
    config
        .add_service_volume("d", "g", "s", "/c", "/h")
        .unwrap();
    assert_eq!(
        config
            .rm_service_volume("d", "g", "s", "/c", "/h")
            .unwrap(),
        "Removed volume from service 'd.s': /h -> /c"
    );
    assert_eq!(
        config.add_volume("e", "/c", "/h").unwrap(),
        "Added volume to environment 'e': /h -> /c"
    );
    assert_eq!(
        config
            .rm_volume("e", "/c", "/x")
            .unwrap_err()
            .to_string(),
        "No matching volume found in environment 'e' for host '/x' -> container '/c'"
    );
}

#[test]
fn groups_and_services_are_removed() {
    let mut config = with_domain();
    assert_eq!(
        config.rm_group("d", "g").unwrap_err().to_string(),
        "No groups configured for domain d"
    );
    config
        .set_service_platform("d", "g", "s", "x")
        .unwrap();
    assert_eq!(
        config.rm_service("d", "g", "t").unwrap_err().to_string(),
        "service, t, does not exist in group 'g' of domain d"
    );
    assert_eq!(
        config.rm_service("d", "g", "s").unwrap(),
        "Removed service 's' from group 'g' in domain 'd'"
    );
    assert_eq!(
        config.rm_group("d", "h").unwrap_err().to_string(),
        "group, h, does not exist in domain d"
    );
    assert_eq!(
        config.rm_group("d", "g").unwrap(),
        "Removed group 'g' from domain 'd'"
    );
}

#[test]
fn parents_are_added_and_removed() {
    let mut config = Config::default();
    assert_eq!(
        config.rm_pre_config("a").unwrap_err().to_string(),
        "No pre_config entries configured"
    );
    config.add_pre_config("a", Some("/repo")).unwrap();
    config.add_pre_config("b", None).unwrap();
    assert_eq!(
        config.add_pre_config("a", None).unwrap_err().to_string(),
        "pre_config with location 'a' already exists"
    );
    assert_eq!(
        config.rm_pre_config("c").unwrap_err().to_string(),
        "pre_config with location 'c' does not exist"
    );
    config.rm_pre_config("a").unwrap();
    let left: &Vec<PreConfig> = config.pre_config.as_ref().unwrap();
    assert_eq!(left.len(), 1);
    assert_eq!(left[0].location, "b");
    assert_eq!(left[0].repo_location, None);
    config.rm_pre_config("b").unwrap();
    assert!(config.pre_config.is_none());
}

#[test]
fn yes_and_no_are_read_in_any_case() {
    let config = Config::default();
    for s in ["true", " TRUE\n", "1", "Yes", "y", "ON"] {
        assert!(config.parse_bool(s).unwrap(), "{s}");
    }
    for s in ["false", "0", "No", "\tN", "oFf"] {
        assert!(!config.parse_bool(s).unwrap(), "{s}");
    }
    assert_eq!(
        config.parse_bool(" maybe").unwrap_err().to_string(),
        "Invalid boolean value:  maybe (expected TRUE/FALSE/yes/no/1/0)"
    );
    assert_eq!(parse_bool_word("TRUE"), None);
    assert_eq!(parse_bool_word("on"), Some(true));
    assert_eq!(parse_bool_word("off"), Some(false));
}

#[test]
fn double_declarations_are_reported_in_order() {
    let mut config = with_domain();
    assert!(Config::validate_no_double_declarations(&config).is_ok());
    config.set_serve_command("e", "x").unwrap();
    let environment = config.environments.as_mut().unwrap().get_mut("e").unwrap();
    environment.serve_command_override = Some(None);
    assert_eq!(
        Config::validate_no_double_declarations(&config)
            .unwrap_err()
            .to_string(),
        "Config error at environment 'e': both 'serve_command' and '*serve_command' are set. Use one or the other, not both."
    );
    config.add_variable("d", "g", "s", "A", "b").unwrap();
    config.set_service_platform("d", "g", "s", "x").unwrap();
    let domain = config.domains.as_mut().unwrap().get_mut("d").unwrap();
    let group = domain.groups.as_mut().unwrap().get_mut("g").unwrap();
    let service = group.services.as_mut().unwrap().get_mut("s").unwrap();
    service.variables_override = Some(None);
    assert_eq!(
        Config::validate_no_double_declarations(&config)
            .unwrap_err()
            .to_string(),
        "Config error at domain 'd' group 'g' service 's': both 'variables' and '*variables' are set. Use one or the other, not both."
    );
    let domain = config.domains.as_mut().unwrap().get_mut("d").unwrap();
    let group = domain.groups.as_mut().unwrap().get_mut("g").unwrap();
    let service = group.services.as_mut().unwrap().get_mut("s").unwrap();
    service.platform_override = Some(Some("y".to_string()));
    assert_eq!(
        Config::validate_no_double_declarations(&config)
            .unwrap_err()
            .to_string(),
        "Config error at domain 'd' group 'g' service 's': both 'platform' and '*platform' are set. Use one or the other, not both."
    );
}

#[test]
fn tokens_of_paths_are_replaced() {
    assert_eq!(expand_home("{home}/a/{home}", "/u"), "/u/a//u");
    assert_eq!(expand_home("/a", "/u"), "/a");
    assert_eq!(
        expand_host_path("{pwd}:{home}:{domain}", "/p", "/u", "/d"),
        "/p:/u:/d"
    );
    // What one token leaves behind is open to the next.
    assert_eq!(expand_host_path("{pwd}", "{home}", "{domain}", "/d"), "/d");
}

#[test]
fn the_home_directory_is_filled_in() {
    let config = Config::default();
    match resolve_location("{home}/x") {
        Ok(path) => {
            assert!(path.ends_with("/x"));
            assert!(!path.contains("{home}"));
            let host = config.resolve_host_path("{home}/x", "/p", "/d").unwrap();
            assert_eq!(host, path);
        }
        Err(e) => assert_eq!(e.to_string(), "Could not determine home directory"),
    }
    if let Ok(path) = resolve_location("/plain") {
        assert_eq!(path, "/plain");
    }
}

#[test]
fn files_lie_under_the_root() {
    let paths = DarpPaths::for_home(Some("/u"), None).unwrap();
    assert_eq!(paths._darp_root, "/u/.darp");
    assert_eq!(paths.config_path, "/u/.darp/config.json");
    assert_eq!(paths.portmap_path, "/u/.darp/portmap.json");
    assert_eq!(paths.dnsmasq_dir, "/u/.darp/dnsmasq.d");
    assert_eq!(paths.vhost_container_conf, "/u/.darp/vhost_container.conf");
    assert_eq!(paths.hosts_container_path, "/u/.darp/hosts_container");
    assert_eq!(paths.nginx_conf_path, "/u/.darp/nginx.conf");
    assert_eq!(paths.container_host_ip_path, "/u/.darp/container_host_ip");
    let paths = DarpPaths::for_home(Some("/u"), Some("/r/")).unwrap();
    assert_eq!(paths.config_path, "/r/config.json");
    assert_eq!(
        DarpPaths::for_home(None, Some("/r")).unwrap_err().to_string(),
        "Could not determine home directory"
    );
    if let Ok(paths) = DarpPaths::from_env(Some("/r")) {
        assert_eq!(paths.portmap_path, "/r/portmap.json");
    }
}
