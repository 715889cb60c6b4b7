//! Deployments: ports, plans, collisions and artifacts.
use darp::commands::{
    build_container_hosts, build_debug_report, build_host_proxy_vhost, build_hosts_lines,
    build_portmap, can_plan_deployment, cmd_deploy, cmd_pull, cmd_urls, detect_hostname_collisions,
    plan_deployment, Folders, Line, PlannedService, PullStep, Span, Style,
};
use darp::config::ports::can_choose_debug_port;
use darp::config::{
    choose_debug_port, portmap_debug_port, portmap_proxy_port, well_known_skip_ports, Config,
    DEBUG_PORT_BASE,
};
use darp::json::{read_document, JsonValue};
use darp::map::StrMap;
use std::collections::HashSet;

fn service(
    domain: &str,
    group: &str,
    name: &str,
    connection_type: &str,
    ports: (u16, u16),
    aliases: &[&str],
) -> PlannedService {
    PlannedService {
        domain: domain.to_string(),
        group: group.to_string(),
        service: name.to_string(),
        connection_type: connection_type.to_string(),
        proxy_port: ports.0,
        debug_port: ports.1,
        canonical_hostname: format!("{name}.{domain}.test"),
        aliases: aliases.iter().map(|s| s.to_string()).collect(),
    }
}

fn strings(items: &[&str]) -> Vec<String> {
    items.iter().map(|s| s.to_string()).collect()
}

fn folders(entries: Vec<(&str, &[&str], Vec<(&str, &[&str])>)>) -> StrMap<Folders> {
    let mut map = StrMap::new();
    for (domain, root, groups) in entries {
        map.insert(
            domain.to_string(),
            Folders {
                root: strings(root),
                groups: groups
                    .into_iter()
                    .map(|(g, f)| (g.to_string(), strings(f)))
                    .collect(),
            },
        );
    }
    map
}

// ---------------------------------------------------------------
// Debug ports
// ---------------------------------------------------------------

#[test]
fn a_persisted_port_is_kept_where_it_is_usable() {
    let skip = well_known_skip_ports();
    let mut reserved: HashSet<u16> = HashSet::new();
    let mut next: u16 = 9000;
    assert_eq!(
        choose_debug_port(Some(9001), 9000, &skip, &mut reserved, &mut next),
        9001
    );
    assert!(reserved.is_empty());
    assert_eq!(next, 9000);
}

#[test]
fn a_new_port_skips_taken_ones() {
    let skip = well_known_skip_ports();
    let mut reserved: HashSet<u16> = [9001u16, 9002].into_iter().collect();
    let mut next: u16 = 10;
    // Below the base: moved into range, past 9000 (skipped), 9001, 9002 (reserved) and
    // 9003 (skipped).
    assert_eq!(
        choose_debug_port(Some(5000), 9000, &skip, &mut reserved, &mut next),
        9004
    );
    assert!(reserved.contains(&9004));
    assert_eq!(next, 9005);
    // A persisted port that is skipped now is replaced.
    assert_eq!(
        choose_debug_port(Some(9090), 9000, &skip, &mut reserved, &mut next),
        9005
    );
}

#[test]
fn ports_run_out() {
    let skip: HashSet<u16> = HashSet::new();
    let reserved: HashSet<u16> = [65534u16].into_iter().collect();
    assert!(can_choose_debug_port(None, 65533, &skip, &reserved, 0));
    assert!(!can_choose_debug_port(None, 65534, &skip, &reserved, 0));
    assert!(!can_choose_debug_port(None, 65535, &skip, &reserved, 0));
    assert!(can_choose_debug_port(Some(65535), 65535, &skip, &reserved, 0));
}

#[test]
fn skipped_ports_are_those_of_well_known_services() {
    let expected: HashSet<u16> = [9000u16, 9003, 9090, 9092, 9200, 9229, 11211]
        .into_iter()
        .collect();
    assert_eq!(well_known_skip_ports(), expected);
    assert_eq!(DEBUG_PORT_BASE, 13000);
}

#[test]
fn ports_are_read_from_a_port_map() {
    let portmap = read_document(
        br#"{"d":{"g":{"new":{"port":50100,"debug_port":13000},"old":50101,"odd":{"port":"x","debug_port":65537}}}}"#,
    );
    assert_eq!(portmap_proxy_port(&portmap, "d", "g", "new"), Some(50100));
    assert_eq!(portmap_debug_port(&portmap, "d", "g", "new"), Some(13000));
    assert_eq!(portmap_proxy_port(&portmap, "d", "g", "old"), Some(50101));
    assert_eq!(portmap_debug_port(&portmap, "d", "g", "old"), None);
    assert_eq!(portmap_proxy_port(&portmap, "d", "g", "odd"), None);
    assert_eq!(portmap_debug_port(&portmap, "d", "g", "odd"), Some(1));
    assert_eq!(portmap_proxy_port(&portmap, "d", "x", "new"), None);
    assert_eq!(portmap_proxy_port(&JsonValue::Null, "d", "g", "new"), None);
}

// ---------------------------------------------------------------
// Plans
// ---------------------------------------------------------------

fn config() -> Config {
    let mut config = Config::default();
    config.add_domain("b", "/b").unwrap();
    config.add_domain("a", "/a").unwrap();
    config
        .set_group_connection_type("b", "web", "websocket")
        .unwrap();
    config
        .set_service_connection_type("b", ".", "queue", "tcp")
        .unwrap();
    config.set_domain_connection_type("b", "http").unwrap();
    config
}

#[test]
fn services_are_listed_domain_by_domain() {
    let config = config();
    let found = folders(vec![
        ("b", &["web", "queue"], vec![("web", &["shop"]), ("other", &["x"])]),
        ("a", &["one", "two"], vec![]),
        ("unknown", &["z"], vec![]),
    ]);
    let plan = plan_deployment(&config, &JsonValue::Null, &found).unwrap();
    let rows: Vec<(String, &str, u16, u16)> = plan
        .iter()
        .map(|s| {
            (
                s.label(),
                s.connection_type.as_str(),
                s.proxy_port,
                s.debug_port,
            )
        })
        .collect();
    assert_eq!(
        rows,
        vec![
            ("a/./one".to_string(), "http", 50100, 13000),
            ("a/./two".to_string(), "http", 50101, 13001),
            ("b/./queue".to_string(), "tcp", 50102, 13002),
            ("b/web/shop".to_string(), "websocket", 50103, 13003),
        ]
    );
    assert_eq!(plan[3].canonical_hostname, "shop.b.test");
}

#[test]
fn a_domain_without_the_root_group_has_no_services_in_its_location() {
    let mut config = Config::default();
    config.add_domain("d", "/d").unwrap();
    config.set_group_platform("d", "g", "x").unwrap();
    let domain = config.domains.as_ref().unwrap().get("d").unwrap();
    assert!(!domain.scans_root());
    assert_eq!(domain.named_groups(), vec!["g"]);
    let found = folders(vec![("d", &["one"], vec![("g", &["two"])])]);
    let plan = plan_deployment(&config, &JsonValue::Null, &found).unwrap();
    assert_eq!(plan.len(), 1);
    assert_eq!(plan[0].label(), "d/g/two");
}

#[test]
fn debug_ports_are_kept_and_avoid_mapped_ports() {
    let mut config = config();
    config.debug_port_base = Some(14000);
    config.add_portmap("a", ".", "one", "14000", "80").unwrap();
    config.add_env_portmap("e", "+14001", "80").unwrap();
    config.add_domain_portmap("a", "{debug_port}", "80").unwrap();
    let old = read_document(
        br#"{"a":{".":{"two":{"debug_port":14002},"gone":{"debug_port":14003},"one":{"debug_port":14000}}}}"#,
    );
    let found = folders(vec![("a", &["one", "two", "three"], vec![])]);
    let plan = plan_deployment(&config, &old, &found).unwrap();
    let ports: Vec<u16> = plan.iter().map(|s| s.debug_port).collect();
    // 14000 and 14001 are mapped, 14002 is kept by another service, 14003 is reserved.
    assert_eq!(ports, vec![14004, 14002, 14005]);
}

#[test]
fn a_second_deployment_keeps_every_port() {
    let config = config();
    let found = folders(vec![
        ("a", &["one", "two"], vec![]),
        ("b", &["queue"], vec![("web", &["shop"])]),
    ]);
    let first = plan_deployment(&config, &JsonValue::Null, &found).unwrap();
    let portmap = JsonValue::object(build_portmap(&first, &strings(&["a", "b"])));
    let second = plan_deployment(&config, &portmap, &found).unwrap();
    assert_eq!(first, second);
    for s in &first {
        assert_eq!(
            portmap_proxy_port(&portmap, &s.domain, &s.group, &s.service),
            Some(s.proxy_port)
        );
        assert_eq!(
            portmap_debug_port(&portmap, &s.domain, &s.group, &s.service),
            Some(s.debug_port)
        );
    }
}

#[test]
fn a_plan_needs_a_domain() {
    let found = folders(vec![]);
    for config in [Config::default(), {
        let mut config = Config::default();
        config.add_domain("d", "/d").unwrap();
        config.rm_domain("d").unwrap();
        config
    }] {
        assert!(can_plan_deployment(&config, &JsonValue::Null, &found));
        assert_eq!(
            plan_deployment(&config, &JsonValue::Null, &found)
                .unwrap_err()
                .to_string(),
            "Please configure a domain."
        );
    }
}

#[test]
fn a_plan_that_runs_out_of_ports_is_told_beforehand() {
    let mut config = Config::default();
    config.add_domain("d", "/d").unwrap();
    config.debug_port_base = Some(65533);
    let two = folders(vec![("d", &["a", "b"], vec![])]);
    let three = folders(vec![("d", &["a", "b", "c"], vec![])]);
    assert!(can_plan_deployment(&config, &JsonValue::Null, &two));
    assert!(!can_plan_deployment(&config, &JsonValue::Null, &three));
}

// ---------------------------------------------------------------
// Collisions
// ---------------------------------------------------------------

#[test]
fn one_hostname_reaches_one_service() {
    let fine = vec![
        service("d", ".", "a", "http", (1, 1), &["x.org"]),
        service("d", ".", "b", "websocket", (2, 2), &["y.org"]),
    ];
    assert!(detect_hostname_collisions(&fine).is_ok());

    let twice = vec![
        service("d", "z", "a", "http", (1, 1), &["X.org."]),
        service("d", ".", "b", "websocket", (2, 2), &["x.org", "a.d.test"]),
        service("d", ".", "a", "http", (3, 3), &[]),
    ];
    assert_eq!(
        detect_hostname_collisions(&twice).unwrap_err().to_string(),
        "Cannot deploy because some HTTP/WebSocket hostnames are assigned to multiple services:\n\n  \
         a.d.test\n    canonical URL for d/./a (http)\n    alias for d/./b (websocket)\n    canonical URL for d/z/a (http)\n\n  \
         x.org\n    alias for d/./b (websocket)\n    alias for d/z/a (http)\n\n\
         Each HTTP/WebSocket hostname must map to exactly one service. Remove or rename the\n\
         conflicting aliases and run `darp deploy` again.\n\nNo deployment artifacts were changed."
    );
}

#[test]
fn a_repeat_within_a_service_is_no_collision() {
    let alone = vec![service("d", ".", "a", "http", (50100, 13000), &["x.org", "x.org"])];
    assert!(detect_hostname_collisions(&alone).is_ok());

    let own_name = vec![
        service("d", ".", "a", "http", (1, 1), &["A.d.test.", "x.org", "X.org"]),
        service("d", ".", "b", "http", (2, 2), &["y.org", "b.d.test", "y.org."]),
    ];
    assert!(detect_hostname_collisions(&own_name).is_ok());

    let shared = vec![
        service("d", ".", "a", "http", (1, 1), &["x.org", "X.org", "a.d.test"]),
        service("d", ".", "b", "http", (2, 2), &["x.org"]),
    ];
    assert_eq!(
        detect_hostname_collisions(&shared).unwrap_err().to_string(),
        "Cannot deploy because some HTTP/WebSocket hostnames are assigned to multiple services:\n\n  \
         x.org\n    alias for d/./a (http)\n    alias for d/./a (http)\n    alias for d/./b (http)\n\n\
         Each HTTP/WebSocket hostname must map to exactly one service. Remove or rename the\n\
         conflicting aliases and run `darp deploy` again.\n\nNo deployment artifacts were changed."
    );
}

#[test]
fn the_order_of_services_and_aliases_has_no_say() {
    let a = || service("d", "g", "a", "http", (1, 1), &["x.org", "y.org", "z.org"]);
    let a_turned = || service("d", "g", "a", "http", (1, 1), &["z.org", "x.org", "y.org"]);
    let b = || service("d", ".", "a", "websocket", (2, 2), &["y.org", "x.org"]);
    let c = || service("e", ".", "c", "http", (3, 3), &["a.d.test"]);
    let report = |s: Vec<PlannedService>| detect_hostname_collisions(&s).unwrap_err().to_string();
    let first = report(vec![a(), b(), c()]);
    assert!(first.contains("  a.d.test\n    canonical URL for d/./a (websocket)\n    canonical URL for d/g/a (http)\n    alias for e/./c (http)\n"));
    assert_eq!(report(vec![c(), a_turned(), b()]), first);
    assert_eq!(report(vec![b(), c(), a()]), first);
    assert!(detect_hostname_collisions(&[c()]).is_ok());
}

#[test]
fn tcp_services_share_hostnames() {
    let services = vec![
        service("d", ".", "a", "tcp", (1, 1), &["x.org"]),
        service("d", "g", "a", "tcp", (2, 2), &["x.org"]),
        service("d", ".", "b", "http", (3, 3), &["x.org"]),
    ];
    assert!(detect_hostname_collisions(&services).is_ok());
}

// ---------------------------------------------------------------
// Artifacts
// ---------------------------------------------------------------

#[test]
fn the_vhost_is_rendered_exactly() {
    assert_eq!(
        build_host_proxy_vhost("a.test", "gw", 80),
        "server {\n    listen 80;\n    server_name a.test;\n    location / {\n        proxy_pass http://gw:80/;\n        proxy_set_header Host $host;\n        proxy_http_version 1.1;\n        proxy_set_header Upgrade $http_upgrade;\n        proxy_set_header Connection $connection_upgrade;\n    }\n}\n"
    );
}

#[test]
fn the_hosts_file_of_containers_is_rendered_exactly() {
    assert_eq!(
        build_container_hosts(
            "10.0.0.1",
            "gw",
            &strings(&["0.0.0.0   a\n", "0.0.0.0   b\n"])
        ),
        "127.0.0.1\tlocalhost\n::1\tlocalhost ip6-localhost ip6-loopback\n10.0.0.1\tgw\n0.0.0.0   a\n0.0.0.0   b\n"
    );
}

#[test]
fn a_hostname_gets_one_line() {
    let services = vec![
        service("d", ".", "a", "http", (1, 1), &["x.org"]),
        service("d", "g", "a", "tcp", (2, 2), &["X.ORG", "y.org"]),
    ];
    assert_eq!(
        build_hosts_lines(&services),
        vec![
            "0.0.0.0   a.d.test\n",
            "0.0.0.0   x.org\n",
            "0.0.0.0   y.org\n"
        ]
    );
}

#[test]
fn debug_ports_are_reported_in_order() {
    assert!(build_debug_report(&[]).is_empty());
    let services = vec![
        service("d", "g", "b", "http", (1, 13005), &[]),
        service("d", ".", "a", "http", (2, 13006), &[]),
    ];
    assert_eq!(
        build_debug_report(&services),
        vec![
            "\nDebug ports (set as \"port\" in each project's .vscode/launch.json):",
            "  a.d → 13006",
            "  b.g.d → 13005",
        ]
    );
}

#[test]
fn a_deployment_is_built_as_a_whole() {
    let mut config = Config::default();
    config.add_domain("d", "/d").unwrap();
    config.add_domain("empty", "/e").unwrap();
    let found = folders(vec![("d", &["a"], vec![])]);
    let plan = plan_deployment(&config, &JsonValue::Null, &found).unwrap();
    let r = cmd_deploy(&config, plan, "gw").unwrap();
    assert_eq!(r.services.len(), 1);
    assert_eq!(r.vhost_conf, build_host_proxy_vhost("a.d.test", "gw", 50100));
    assert_eq!(r.hosts_lines, vec!["0.0.0.0   a.d.test\n"]);
    assert_eq!(
        read_document(&r.portmap),
        read_document(
            br#"{"d":{".":{"a":{"port":50100,"type":"http","debug_port":13000}}},"empty":{}}"#
        )
    );
    assert_eq!(r.debug_report[1], "  a.d → 13000");
}

#[test]
fn a_colliding_deployment_is_rejected() {
    let mut config = Config::default();
    config.add_domain("d", "/d").unwrap();
    config.set_group_platform("d", ".", "x").unwrap();
    config.set_group_platform("d", "g", "x").unwrap();
    let found = folders(vec![("d", &["a"], vec![("g", &["a"])])]);
    let plan = plan_deployment(&config, &JsonValue::Null, &found).unwrap();
    let e = cmd_deploy(&config, plan, "gw").unwrap_err();
    assert!(e.to_string().contains("canonical URL for d/g/a (http)"));
}

// ---------------------------------------------------------------
// Listings
// ---------------------------------------------------------------

fn shown(line: &Line) -> String {
    line.spans
        .iter()
        .map(|s| match s.style {
            Style::Plain => s.text.clone(),
            Style::Green => format!("<g>{}</g>", s.text),
            Style::Cyan => format!("<c>{}</c>", s.text),
            Style::Blue => format!("<b>{}</b>", s.text),
        })
        .collect()
}

#[test]
fn urls_are_listed_with_their_aliases() {
    let portmap = read_document(
        br#"{"d":{"zed":{"s":50101},".":{"q":{"port":5,"type":"tcp","urls":["t.org",7]},"a":{"port":50100,"type":"http","debug_port":13000,"urls":["x.org"]}},"bad":7,"ws":{"c":{"port":9,"type":"websocket","urls":["w.org"]}}},"e":1}"#,
    );
    let lines: Vec<String> = cmd_urls(&portmap).iter().map(shown).collect();
    assert_eq!(
        lines,
        vec![
            "",
            "<g>d</g>",
            "  http://<b>a</b>.<g>d</g>.test (50100)  [debug: 13000]",
            "    http://<b>x.org</b> (50100)",
            "  tcp://<b>q</b>.<g>d</g>.test:5",
            "    tcp://<b>t.org</b>:5",
            "  <c>ws</c>",
            "    ws://<b>c</b>.<g>d</g>.test (9)",
            "      ws://<b>w.org</b> (9)",
            "  <c>zed</c>",
            "    http://<b>s</b>.<g>d</g>.test (50101)",
            "",
            "<g>e</g>",
            "",
        ]
    );
    let nothing: Vec<Line> = cmd_urls(&JsonValue::Null);
    assert_eq!(nothing, vec![Line { spans: Vec::<Span>::new() }]);
}

#[test]
fn parents_are_pulled_in_order() {
    let mut config = Config::default();
    let none = vec![PullStep::Say("No pre_config entries configured.".to_string())];
    assert_eq!(cmd_pull(&config), none);
    config.pre_config = Some(vec![]);
    assert_eq!(cmd_pull(&config), none);
    config.add_pre_config("a", None).unwrap();
    config.add_pre_config("b", Some("{home}/repo")).unwrap();
    assert_eq!(
        cmd_pull(&config),
        vec![
            PullStep::Say("Skipping 'a' (no repo_location)".to_string()),
            PullStep::Pull("{home}/repo".to_string()),
        ]
    );
}
