//! The commands that edit a configuration.
use darp::commands::{
    asks_parents, cmd_add, cmd_rm, cmd_set, AddCommand, AddDomCommand, AddEnvCommand,
    AddGrpCommand, AddSvcCommand, Applied, Outcome, RmCommand, RmDomCommand, RmEnvCommand,
    RmGrpCommand, RmSvcCommand, SetCommand, SetDomCommand, SetEnvCommand, SetGrpCommand,
    SetSvcCommand,
};
use darp::config::Config;

fn s(text: &str) -> String {
    text.to_string()
}

fn message(applied: &Applied) -> Option<String> {
    match &applied.outcome {
        Outcome::Done(message) => message.clone(),
        Outcome::Failed(e) => panic!("{}", e.to_string()),
        Outcome::Refused(text) => panic!("{text}"),
    }
}

fn failure(applied: &Applied) -> String {
    match &applied.outcome {
        Outcome::Failed(e) => e.to_string(),
        _ => panic!("the command was carried out"),
    }
}

fn set(config: &mut Config, cmd: SetCommand) -> Applied {
    cmd_set(cmd, "/c.json", config, &vec![])
}

fn add(config: &mut Config, cmd: AddCommand) -> Applied {
    cmd_add(cmd, config, &vec![])
}

#[test]
fn general_settings_are_set() {
    let mut config = Config::default();
    let r = set(
        &mut config,
        SetCommand::PodmanMachine {
            new_podman_machine: s("m"),
        },
    );
    assert_eq!(
        message(&r).unwrap(),
        "PODMAN_MACHINE set to 'm' in config (/c.json)."
    );
    assert_eq!(config.podman_machine.as_deref(), Some("m"));
    let r = cmd_rm(RmCommand::PodmanMachine {}, &mut config);
    assert_eq!(message(&r), None);
    assert_eq!(config.podman_machine, None);

    let r = set(&mut config, SetCommand::Engine { engine: s("Docker") });
    assert_eq!(
        message(&r).unwrap(),
        "Engine set. New Darp invocations will use this container engine."
    );
    assert_eq!(config.engine.as_deref(), Some("docker"));
    // The Kelvin sign is a capital K.
    set(
        &mut config,
        SetCommand::Engine {
            engine: s("doc\u{212A}er"),
        },
    );
    assert_eq!(config.engine.as_deref(), Some("docker"));
    let r = set(&mut config, SetCommand::Engine { engine: s("lxc") });
    assert!(
        matches!(r.outcome, Outcome::Refused(text) if text == "engine must be 'podman' or 'docker'")
    );
    assert_eq!(config.engine.as_deref(), Some("docker"));

    let r = set(&mut config, SetCommand::UrlsInHosts { value: s("Yes") });
    assert_eq!(
        message(&r).unwrap(),
        "urls_in_hosts has been enabled (stored in /c.json). Next 'darp deploy' will sync /etc/hosts accordingly."
    );
    assert_eq!(config.urls_in_hosts, Some(true));
    let r = set(&mut config, SetCommand::Wsl { value: s("off") });
    assert_eq!(
        message(&r).unwrap(),
        "WSL mode has been disabled (stored in /c.json). When enabled alongside urls_in_hosts, 'darp deploy' will also sync /mnt/c/Windows/System32/drivers/etc/hosts."
    );
    assert_eq!(config.wsl, Some(false));
    let r = set(&mut config, SetCommand::Wsl { value: s("x") });
    assert_eq!(
        failure(&r),
        "Invalid boolean value: x (expected TRUE/FALSE/yes/no/1/0)"
    );
    assert_eq!(config.wsl, Some(false));
}

#[test]
fn a_domain_is_created_on_the_way() {
    let mut config = Config::default();
    let r = set(
        &mut config,
        SetCommand::Svc {
            cmd: SetSvcCommand::ServeCommand {
                domain_name: s("d"),
                group_name: s("g"),
                service_name: s("s"),
                serve_command: s("run"),
                location: Some(s("/d")),
            },
        },
    );
    assert_eq!(r.notices, vec!["created 'd' at /d"]);
    assert_eq!(
        message(&r).unwrap(),
        "Set serve_command for service 'd.s' to:\n  run"
    );
    let r = set(
        &mut config,
        SetCommand::Grp {
            cmd: SetGrpCommand::Platform {
                domain_name: s("d"),
                group_name: s("g"),
                platform: s("p"),
                location: None,
            },
        },
    );
    assert!(r.notices.is_empty());
    assert_eq!(
        message(&r).unwrap(),
        "Set platform for group 'g' in domain 'd' to:\n  p"
    );
    let r = set(
        &mut config,
        SetCommand::Dom {
            cmd: SetDomCommand::ConnectionType {
                domain_name: s("new"),
                connection_type: s("udp"),
                location: Some(s("/new")),
            },
        },
    );
    // The domain was created before the value was rejected.
    assert_eq!(r.notices, vec!["created 'new' at /new"]);
    assert_eq!(
        failure(&r),
        "invalid connection_type 'udp' (must be one of: http, websocket, tcp)"
    );
    assert!(config.domains.as_ref().unwrap().contains_key("new"));
    let r = set(
        &mut config,
        SetCommand::Dom {
            cmd: SetDomCommand::Platform {
                domain_name: s("x"),
                platform: s("p"),
                location: None,
            },
        },
    );
    assert_eq!(
        failure(&r),
        "domain 'x' does not exist. Use -l <path> to create it."
    );
}

#[test]
fn parents_are_asked_only_for_unknown_domains() {
    let mut config = Config::default();
    config.add_domain("d", "/d").unwrap();
    let command = |name: &str, location: Option<String>| AddCommand::Dom {
        cmd: AddDomCommand::Variable {
            domain_name: s(name),
            name: s("A"),
            value: s("b"),
            location,
        },
    };
    assert!(!asks_parents(&config, &command("d", None).target()));
    assert!(!asks_parents(&config, &command("x", Some(s("/x"))).target()));
    assert!(asks_parents(&config, &command("x", None).target()));
    assert!(!asks_parents(
        &config,
        &SetCommand::Wsl { value: s("on") }.target()
    ));
    let mut parent = Config::default();
    parent.add_domain("x", "/parent/x").unwrap();
    let r = cmd_add(command("x", None), &mut config, &vec![parent]);
    assert_eq!(
        r.notices,
        vec![
            "created 'x' at /parent/x",
            "Created variable for domain 'x' (A:b)"
        ]
    );
    assert_eq!(message(&r), None);
}

#[test]
fn environments_are_set() {
    let mut config = Config::default();
    let r = set(
        &mut config,
        SetCommand::Env {
            cmd: SetEnvCommand::Platform {
                environment: s("e"),
                platform: s("p"),
            },
        },
    );
    assert_eq!(failure(&r), "Environment 'e' does not exist.");
    let r = set(
        &mut config,
        SetCommand::Env {
            cmd: SetEnvCommand::ServeCommand {
                environment: s("e"),
                serve_command: s("run"),
            },
        },
    );
    assert_eq!(
        message(&r).unwrap(),
        "Set serve_command for environment 'e' to:\n  run"
    );
    let r = add(
        &mut config,
        AddCommand::Env {
            cmd: AddEnvCommand::Volume {
                environment: s("e"),
                container_dir: s("/c"),
                host_dir: s("/h"),
            },
        },
    );
    assert_eq!(r.notices, vec!["Added volume to environment 'e': /h -> /c"]);
    let r = cmd_rm(
        RmCommand::Env {
            cmd: RmEnvCommand::ServeCommand {
                environment: s("e"),
            },
        },
        &mut config,
    );
    assert_eq!(message(&r), None);
    let r = cmd_rm(
        RmCommand::Env {
            cmd: RmEnvCommand::ServeCommand {
                environment: s("e"),
            },
        },
        &mut config,
    );
    assert_eq!(failure(&r), "Environment 'e' has no custom serve_command.");
}

#[test]
fn default_environments_are_announced() {
    let mut config = Config::default();
    config.add_domain("d", "/d").unwrap();
    config.set_serve_command("e", "x").unwrap();
    let r = set(
        &mut config,
        SetCommand::Dom {
            cmd: SetDomCommand::DefaultEnvironment {
                domain_name: s("d"),
                default_environment: s("e"),
                location: None,
            },
        },
    );
    assert_eq!(
        message(&r).unwrap(),
        "Set default_environment for domain 'd' to environment 'e'"
    );
    let r = set(
        &mut config,
        SetCommand::Grp {
            cmd: SetGrpCommand::DefaultEnvironment {
                domain_name: s("d"),
                group_name: s("g"),
                default_environment: s("e"),
                location: None,
            },
        },
    );
    assert_eq!(
        message(&r).unwrap(),
        "Set default_environment for group 'g' in domain 'd' to 'e'"
    );
    let r = set(
        &mut config,
        SetCommand::Svc {
            cmd: SetSvcCommand::DefaultEnvironment {
                domain_name: s("d"),
                group_name: s("g"),
                service_name: s("s"),
                default_environment: s("e"),
                location: None,
            },
        },
    );
    assert_eq!(
        message(&r).unwrap(),
        "Set default_environment for service 'd.s' to 'e'"
    );
    let r = cmd_rm(
        RmCommand::Dom {
            cmd: RmDomCommand::DefaultEnvironment {
                domain_name: s("d"),
            },
        },
        &mut config,
    );
    assert_eq!(
        message(&r).unwrap(),
        "Removed default_environment for domain 'd'"
    );
    let r = cmd_rm(
        RmCommand::Grp {
            cmd: RmGrpCommand::DefaultEnvironment {
                domain_name: s("d"),
                group_name: s("g"),
            },
        },
        &mut config,
    );
    assert_eq!(
        message(&r).unwrap(),
        "Removed default_environment for group 'g' in domain 'd'"
    );
    let r = cmd_rm(
        RmCommand::Svc {
            cmd: RmSvcCommand::DefaultEnvironment {
                domain_name: s("d"),
                group_name: s("g"),
                service_name: s("s"),
            },
        },
        &mut config,
    );
    assert_eq!(
        message(&r).unwrap(),
        "Removed default_environment for service 'd.s'"
    );
}

#[test]
fn entries_are_added_and_removed() {
    let mut config = Config::default();
    let r = add(
        &mut config,
        AddCommand::PreConfig {
            location: s("/p"),
            repo_location: None,
        },
    );
    assert_eq!(message(&r).unwrap(), "Added pre_config '/p'");
    let r = cmd_rm(RmCommand::PreConfig { location: s("/p") }, &mut config);
    assert_eq!(message(&r).unwrap(), "Removed pre_config '/p'");
    let r = add(
        &mut config,
        AddCommand::Grp {
            cmd: AddGrpCommand::Portmap {
                domain_name: s("d"),
                group_name: s("g"),
                host_port: s("1"),
                container_port: s("2"),
                location: Some(s("/d")),
            },
        },
    );
    assert_eq!(
        r.notices,
        vec![
            "created 'd' at /d",
            "Created portmapping for group 'g' in domain 'd' (1:2)"
        ]
    );
    let r = add(
        &mut config,
        AddCommand::Svc {
            cmd: AddSvcCommand::Volume {
                domain_name: s("d"),
                group_name: s("g"),
                service_name: s("s"),
                container_dir: s("/c"),
                host_dir: s("/h"),
                location: None,
            },
        },
    );
    assert_eq!(r.notices, vec!["Added volume to service 'd.s': /h -> /c"]);
    let r = cmd_rm(
        RmCommand::Grp {
            cmd: RmGrpCommand::Portmap {
                domain_name: s("d"),
                group_name: s("g"),
                host_port: s("1"),
            },
        },
        &mut config,
    );
    assert_eq!(
        r.notices,
        vec!["Removed portmapping for group 'g' in domain 'd' (1:____)"]
    );
    let r = cmd_rm(
        RmCommand::Service {
            domain_name: s("d"),
            group_name: s("g"),
            service_name: s("s"),
        },
        &mut config,
    );
    assert_eq!(
        r.notices,
        vec!["Removed service 's' from group 'g' in domain 'd'"]
    );
    let r = cmd_rm(
        RmCommand::Group {
            domain_name: s("d"),
            group_name: s("g"),
        },
        &mut config,
    );
    assert_eq!(r.notices, vec!["Removed group 'g' from domain 'd'"]);
    let r = cmd_rm(RmCommand::Domain { name: s("d") }, &mut config);
    assert_eq!(r.notices, vec!["removed 'd'"]);
    assert_eq!(message(&r), None);
}
