//! Service URL aliases (`urls`): vhost rendering, merging, hostname validation, and
//! validation of deployment plans.
use darp::alias::{validate_and_normalize_alias, AliasErrorReason};
use darp::commands::{
    build_host_proxy_vhost, build_hosts_lines, build_portmap, build_vhost_container_conf,
    cmd_deploy, plan_deployment, validate_plan_aliases, Folders, PlannedService,
};
use darp::config::{merge_values, Config};
use darp::json::JsonValue;
use darp::map::StrMap;

// ---------------------------------------------------------------------------
// Helpers
// ---------------------------------------------------------------------------

/// A planned HTTP service on port 50100 with the canonical `{svc}.{domain}.test`.
fn planned(domain: &str, group: &str, service: &str, aliases: &[&str]) -> PlannedService {
    planned_full(domain, group, service, "http", 50100, aliases)
}

fn planned_full(
    domain: &str,
    group: &str,
    service: &str,
    connection_type: &str,
    proxy_port: u16,
    aliases: &[&str],
) -> PlannedService {
    PlannedService {
        domain: domain.to_string(),
        group: group.to_string(),
        service: service.to_string(),
        connection_type: connection_type.to_string(),
        proxy_port,
        debug_port: 13000,
        canonical_hostname: format!("{service}.{domain}.test"),
        aliases: aliases.iter().map(|s| s.to_string()).collect(),
    }
}

fn reason_of(input: &str) -> AliasErrorReason {
    validate_and_normalize_alias(input).expect_err(input).reason
}

fn object(members: Vec<(&str, JsonValue)>) -> JsonValue {
    let mut map = StrMap::new();
    for (key, value) in members {
        map.insert(key.to_string(), value);
    }
    JsonValue::object(map)
}

fn texts(items: &[&str]) -> JsonValue {
    JsonValue::array(items.iter().map(|s| JsonValue::text(s)).collect())
}

/// The folders that were found in the location of the domain `comagine`.
fn found(folders: &[&str]) -> StrMap<Folders> {
    let mut map = StrMap::new();
    map.insert(
        "comagine".to_string(),
        Folders {
            root: folders.iter().map(|s| s.to_string()).collect(),
            groups: vec![],
        },
    );
    map
}

/// A configuration with the domain `comagine`, whose root group has a service with an
/// alias, and a TCP service.
fn scratch_config() -> Config {
    let mut config = Config::default();
    config.add_domain("comagine", "/projects").unwrap();
    config
        .set_service_connection_type("comagine", ".", "queue", "tcp")
        .unwrap();
    with_urls(&mut config, "portal-website", &["LOCAL.ZOO.ORG"]);
    config
}

/// Gives a service of the root group of `comagine` its aliases.
fn with_urls(config: &mut Config, service: &str, urls: &[&str]) {
    // Creates the group and the service.
    config
        .set_service_serve_command("comagine", ".", service, "run")
        .unwrap();
    config
        .rm_service_serve_command("comagine", ".", service)
        .unwrap();
    let domain = config
        .domains
        .as_mut()
        .unwrap()
        .get_mut("comagine")
        .unwrap();
    let group = domain.groups.as_mut().unwrap().get_mut(".").unwrap();
    let service = group.services.as_mut().unwrap().get_mut(service).unwrap();
    service.urls = Some(urls.iter().map(|s| s.to_string()).collect());
}

#[test]
fn vhost_substitutes_url_gateway_and_port() {
    let vhost = build_host_proxy_vhost("local.zoo.org", "host.docker.internal", 50123);

    assert!(vhost.contains("server_name local.zoo.org;"));
    assert!(vhost.contains("proxy_pass http://host.docker.internal:50123/;"));

    // No placeholder survives substitution — a leftover token would make nginx
    // refuse to start, taking down every service's vhost with it.
    assert!(!vhost.contains("{url}"));
    assert!(!vhost.contains("{host_gateway}"));
    assert!(!vhost.contains("{port}"));
}

#[test]
fn vhost_forwards_websocket_upgrade() {
    // Vite HMR arrives on the alias hostname over the same port 80 the page used,
    // so every alias vhost has to forward the upgrade handshake.
    let vhost = build_host_proxy_vhost("local.zoo.org", "host.docker.internal", 50123);

    assert!(vhost.contains("proxy_http_version 1.1;"));
    assert!(vhost.contains("proxy_set_header Upgrade $http_upgrade;"));
    assert!(vhost.contains("proxy_set_header Connection $connection_upgrade;"));
}

#[test]
fn vhost_passes_original_host_through() {
    // A multi-tenant app branches on the hostname it was reached by, so the alias
    // name — not the canonical one — has to survive the proxy hop.
    let vhost = build_host_proxy_vhost("local.aianqio.org", "gw", 50100);

    assert!(vhost.contains("proxy_set_header Host $host;"));
}

#[test]
fn canonical_and_alias_share_one_upstream_port() {
    let canonical = build_host_proxy_vhost("portal-website.comagine.test", "gw", 50100);
    let alias = build_host_proxy_vhost("local.zoo.org", "gw", 50100);

    assert!(canonical.contains("server_name portal-website.comagine.test;"));
    assert!(alias.contains("server_name local.zoo.org;"));
    assert!(canonical.contains("proxy_pass http://gw:50100/;"));
    assert!(alias.contains("proxy_pass http://gw:50100/;"));
}

#[test]
fn pre_config_merge_appends_alias_lists() {
    // The team's configuration supplies the shared aliases; an engineer's own can add one.
    // Arrays are concatenated.
    let team = object(vec![("urls", texts(&["local.zoo.org"]))]);
    let personal = object(vec![("urls", texts(&["local.mine.org"]))]);

    let merged = merge_values(team, personal);

    assert_eq!(
        merged.get("urls"),
        Some(&texts(&["local.zoo.org", "local.mine.org"]))
    );
}

#[test]
fn star_urls_override_replaces_alias_list() {
    // There is no `*urls` field on a service, but merging is generic over JSON, so the
    // `*key` convention still works for a personal configuration that wants to drop the
    // team's aliases entirely.
    let team = object(vec![("urls", texts(&["local.zoo.org", "local.care.org"]))]);
    let personal = object(vec![("*urls", texts(&["local.mine.org"]))]);

    let merged = merge_values(team, personal);

    assert_eq!(merged.get("urls"), Some(&texts(&["local.mine.org"])));
}

// ---------------------------------------------------------------------------
// validate_and_normalize_alias — accepted values
// ---------------------------------------------------------------------------

#[test]
fn accepts_multi_label_hostname() {
    assert_eq!(
        validate_and_normalize_alias("local.zoo.org").unwrap(),
        "local.zoo.org"
    );
}

#[test]
fn accepts_single_label_hostname() {
    // Local DNS and hosts files can resolve a bare name, so a single label is legal
    // even though a dotted name is the sane choice.
    assert_eq!(
        validate_and_normalize_alias("intranet").unwrap(),
        "intranet"
    );
}

#[test]
fn accepts_hyphenated_and_numeric_labels() {
    assert_eq!(
        validate_and_normalize_alias("tenant-a2.portal-7.test").unwrap(),
        "tenant-a2.portal-7.test"
    );
    assert_eq!(
        validate_and_normalize_alias("8080.test").unwrap(),
        "8080.test"
    );
}

#[test]
fn accepts_punycode_hostname() {
    // An IDN reaches darp already encoded; the ASCII form is what nginx and the hosts
    // file can carry.
    assert_eq!(
        validate_and_normalize_alias("xn--e1afmkfd.xn--p1ai").unwrap(),
        "xn--e1afmkfd.xn--p1ai"
    );
}

#[test]
fn normalizes_case_to_lowercase() {
    // DNS is case-insensitive, so the artifact spelling has to be canonical or the
    // same name compares unequal to itself between config and portmap.
    assert_eq!(
        validate_and_normalize_alias("LOCAL.ZOO.ORG").unwrap(),
        "local.zoo.org"
    );
}

#[test]
fn strips_one_trailing_dns_dot() {
    assert_eq!(
        validate_and_normalize_alias("local.zoo.org.").unwrap(),
        "local.zoo.org"
    );
}

#[test]
fn trims_surrounding_whitespace() {
    assert_eq!(
        validate_and_normalize_alias("  local.zoo.org \n").unwrap(),
        "local.zoo.org"
    );
}

#[test]
fn accepts_maximum_length_label_and_hostname() {
    let label = "a".repeat(63);
    assert_eq!(validate_and_normalize_alias(&label).unwrap(), label);

    // 3 × 63 + 61 + 3 separators = 253, the RFC 1035 ceiling.
    let max = format!("{label}.{label}.{label}.{}", "b".repeat(61));
    assert_eq!(max.len(), 253);
    assert_eq!(validate_and_normalize_alias(&max).unwrap(), max);
}

// ---------------------------------------------------------------------------
// validate_and_normalize_alias — rejected values
// ---------------------------------------------------------------------------

#[test]
fn rejects_empty_and_whitespace_only_aliases() {
    assert_eq!(reason_of(""), AliasErrorReason::Empty);
    assert_eq!(reason_of("   "), AliasErrorReason::Empty);
    assert_eq!(reason_of("\t\n"), AliasErrorReason::Empty);
    // A lone dot normalizes away to nothing.
    assert_eq!(reason_of("."), AliasErrorReason::Empty);
}

#[test]
fn rejects_url_schemes() {
    assert_eq!(reason_of("http://local.zoo.org"), AliasErrorReason::Scheme);
    assert_eq!(reason_of("https://local.zoo.org"), AliasErrorReason::Scheme);
    // A colon whose tail isn't numeric is a scheme that lost its slashes, not a port.
    assert_eq!(reason_of("mailto:zoo"), AliasErrorReason::Scheme);
}

#[test]
fn rejects_port_path_query_fragment_and_userinfo() {
    assert_eq!(reason_of("local.zoo.org:8080"), AliasErrorReason::Port);
    assert_eq!(reason_of("local.zoo.org/admin"), AliasErrorReason::Path);
    assert_eq!(reason_of("local.zoo.org?a=1"), AliasErrorReason::Query);
    assert_eq!(reason_of("local.zoo.org#top"), AliasErrorReason::Fragment);
    assert_eq!(reason_of("user@local.zoo.org"), AliasErrorReason::UserInfo);
}

#[test]
fn rejects_whitespace_and_control_characters_inside_the_hostname() {
    // These are what would break a hosts-file line or an nginx directive; the label
    // charset rule catches them all.
    for bad in [
        "local zoo.org",
        "local\tzoo.org",
        "local\nzoo.org",
        "local\rzoo.org",
        "local\u{7}zoo.org",
    ] {
        assert_eq!(
            reason_of(bad),
            AliasErrorReason::InvalidCharacter,
            "expected {bad:?} to be rejected"
        );
    }
}

#[test]
fn rejects_nginx_and_hosts_file_delimiters() {
    // A stray `;` or `{` in a server_name would end the directive early and take the
    // whole shared reverse-proxy config down with it.
    for bad in [
        "local.zoo.org;",
        "local.zoo.org{",
        "local.zoo.org}",
        "local.zoo.org\"",
        "local.zoo.org'",
        "local\\zoo.org",
    ] {
        assert_eq!(
            reason_of(bad),
            AliasErrorReason::InvalidCharacter,
            "expected {bad:?} to be rejected"
        );
    }
}

#[test]
fn rejects_wildcard_hostnames() {
    // nginx would happily accept `*.zoo.org` as a server_name, but darp has no
    // wildcard hosts-file or dnsmasq story to match it.
    assert_eq!(reason_of("*.zoo.org"), AliasErrorReason::Wildcard);
    assert_eq!(reason_of("*"), AliasErrorReason::Wildcard);
}

#[test]
fn rejects_ip_address_literals() {
    // The feature names alternate hostnames, not alternate listener addresses.
    assert_eq!(reason_of("127.0.0.1"), AliasErrorReason::IpLiteral);
    assert_eq!(reason_of("192.168.1.10"), AliasErrorReason::IpLiteral);
    assert_eq!(reason_of("127.0.0.1."), AliasErrorReason::IpLiteral);
    assert_eq!(reason_of("::1"), AliasErrorReason::IpLiteral);
    assert_eq!(reason_of("2001:db8::1"), AliasErrorReason::IpLiteral);
    assert_eq!(reason_of("[::1]"), AliasErrorReason::IpLiteral);
    assert_eq!(reason_of("[::1]:8080"), AliasErrorReason::IpLiteral);
}

#[test]
fn rejects_malformed_label_structure() {
    assert_eq!(reason_of("local..zoo.org"), AliasErrorReason::EmptyLabel);
    assert_eq!(reason_of(".local.zoo.org"), AliasErrorReason::EmptyLabel);
    assert_eq!(reason_of("local.zoo.org.."), AliasErrorReason::TrailingDots);
    assert_eq!(reason_of("-zoo.org"), AliasErrorReason::LeadingHyphen);
    assert_eq!(reason_of("zoo-.org"), AliasErrorReason::TrailingHyphen);
}

#[test]
fn rejects_oversized_labels_and_hostnames() {
    let long_label = "a".repeat(64);
    assert_eq!(
        reason_of(&format!("{long_label}.org")),
        AliasErrorReason::LabelTooLong
    );

    let label = "a".repeat(63);
    let too_long = format!("{label}.{label}.{label}.{label}");
    assert!(too_long.len() > 253);
    assert_eq!(reason_of(&too_long), AliasErrorReason::HostnameTooLong);
}

#[test]
fn rejects_raw_non_ascii_hostnames() {
    // Punycode conversion is the engineer's job — darp has no IDNA encoder, and a raw
    // UTF-8 name in a hosts file resolves for nobody.
    assert_eq!(reason_of("münchen.test"), AliasErrorReason::NonAscii);
    assert_eq!(reason_of("зоо.рф"), AliasErrorReason::NonAscii);
}

#[test]
fn error_preserves_the_original_input() {
    let err = validate_and_normalize_alias("  HTTPS://Local.Zoo.Org  ").unwrap_err();
    assert_eq!(err.input, "  HTTPS://Local.Zoo.Org  ");
    assert!(err.to_string().contains("HTTPS://Local.Zoo.Org"));
    assert!(err.to_string().contains("must not include a URL scheme"));
}

// ---------------------------------------------------------------------------
// validate_plan_aliases — normalization in place
// ---------------------------------------------------------------------------

#[test]
fn plan_validation_normalizes_aliases_in_place() {
    let mut services = vec![planned(
        "comagine",
        ".",
        "portal-website",
        &["LOCAL.ZOO.ORG", " local.care.org. "],
    )];

    validate_plan_aliases(&mut services).expect("valid aliases");

    assert_eq!(services[0].aliases, vec!["local.zoo.org", "local.care.org"]);
}

#[test]
fn plan_validation_accepts_a_plan_with_no_aliases() {
    let mut services = vec![planned("comagine", ".", "nevada-hdr", &[])];
    assert!(validate_plan_aliases(&mut services).is_ok());
}

// ---------------------------------------------------------------------------
// validate_plan_aliases — consolidated reporting
// ---------------------------------------------------------------------------

#[test]
fn plan_validation_reports_every_invalid_alias_together() {
    let mut services = vec![
        planned(
            "comagine",
            ".",
            "portal-website",
            &["https://local.zoo.org", "local.zoo.org:8080"],
        ),
        planned("comagine", "admin", "dashboard", &["local zoo.org"]),
    ];

    let err = validate_plan_aliases(&mut services)
        .unwrap_err()
        .to_string();

    assert!(err.contains("Cannot deploy because some URL aliases are not valid hostnames:"));
    assert!(err.contains("comagine/./portal-website"));
    assert!(err.contains(r#""https://local.zoo.org" — aliases must not include a URL scheme"#));
    assert!(err.contains(r#""local.zoo.org:8080" — aliases must not include a port"#));
    assert!(err.contains("comagine/admin/dashboard"));
    assert!(err.contains(
        r#""local zoo.org" — hostname labels may contain only letters, digits, and hyphens"#
    ));
    assert!(err.contains("No deployment artifacts were changed."));
}

#[test]
fn plan_validation_error_ordering_is_deterministic() {
    // Discovery order comes from read_dir and is unstable, so the report sorts by
    // service identity and then by the alias text as configured.
    let mut services = vec![
        planned("comagine", "sites", "zoo", &["b.zoo.org:1", "a.zoo.org:1"]),
        planned("comagine", ".", "portal-website", &["c.care.org:1"]),
    ];

    let err = validate_plan_aliases(&mut services)
        .unwrap_err()
        .to_string();

    let portal = err.find("comagine/./portal-website").unwrap();
    let zoo = err.find("comagine/sites/zoo").unwrap();
    let a = err.find("a.zoo.org:1").unwrap();
    let b = err.find("b.zoo.org:1").unwrap();
    assert!(portal < zoo, "services must be sorted by identity");
    assert!(a < b, "aliases must be sorted within a service");
}

#[test]
fn plan_validation_rejects_invalid_tcp_service_aliases() {
    // A TCP service gets no vhost, but it does get hosts entries — a malformed value
    // is just as damaging there.
    let mut services = vec![planned_full(
        "comagine",
        ".",
        "queue",
        "tcp",
        50100,
        &["local.queue.org:5672"],
    )];

    let err = validate_plan_aliases(&mut services)
        .unwrap_err()
        .to_string();
    assert!(err.contains("comagine/./queue"));
    assert!(err.contains("aliases must not include a port"));
}

#[test]
fn plan_validation_rejects_an_empty_alias_rather_than_dropping_it() {
    // Silently discarding `""` hid a config typo; the engineer should hear about it.
    let mut services = vec![planned("comagine", ".", "portal-website", &["", "  "])];
    assert!(validate_plan_aliases(&mut services).is_err());
}

// ---------------------------------------------------------------------------
// Planning
// ---------------------------------------------------------------------------

#[test]
fn plan_deployment_discovers_folders_with_their_config() {
    let config = scratch_config();

    let mut services = plan_deployment(
        &config,
        &object(vec![]),
        &found(&["portal-website", "queue"]),
    )
    .unwrap();
    services.sort_by(|a, b| a.service.cmp(&b.service));

    assert_eq!(services.len(), 2);
    assert_eq!(services[0].service, "portal-website");
    assert_eq!(
        services[0].canonical_hostname,
        "portal-website.comagine.test"
    );
    assert_eq!(services[0].aliases, vec!["LOCAL.ZOO.ORG"]);
    assert!(services[0].is_host_routed());
    assert_eq!(services[1].service, "queue");
    assert_eq!(services[1].connection_type, "tcp");
    assert!(!services[1].is_host_routed());
}

#[test]
fn plan_deployment_ignores_services_configured_but_absent_on_disk() {
    // Only `queue` exists as a folder; `portal-website` is configured but not cloned.
    let config = scratch_config();

    let services = plan_deployment(&config, &object(vec![]), &found(&["queue"])).unwrap();

    assert_eq!(services.len(), 1);
    assert_eq!(services[0].service, "queue");
}

#[test]
fn invalid_alias_leaves_existing_deployment_artifacts_untouched() {
    let mut config = Config::default();
    config.add_domain("comagine", "/projects").unwrap();
    with_urls(&mut config, "portal-website", &["https://local.zoo.org"]);

    let mut services =
        plan_deployment(&config, &object(vec![]), &found(&["portal-website"])).unwrap();
    let planned = services.clone();
    assert!(validate_plan_aliases(&mut services).is_err());

    // There is nothing to write: a rejected plan yields no artifacts.
    let r = cmd_deploy(&config, planned, "gw");
    assert!(r
        .unwrap_err()
        .to_string()
        .contains("No deployment artifacts were changed."));
}

// ---------------------------------------------------------------------------
// Artifact generation from a validated plan
// ---------------------------------------------------------------------------

#[test]
fn vhost_conf_renders_canonical_plus_aliases_per_service() {
    let services = vec![
        planned_full(
            "comagine",
            ".",
            "portal-website",
            "http",
            50100,
            &["local.zoo.org"],
        ),
        planned_full("comagine", ".", "chat", "websocket", 50101, &["ws.zoo.org"]),
    ];

    let conf = build_vhost_container_conf(&services, "host.docker.internal");

    assert!(conf.contains("server_name portal-website.comagine.test;"));
    assert!(conf.contains("server_name local.zoo.org;"));
    assert!(conf.contains("server_name chat.comagine.test;"));
    assert!(conf.contains("server_name ws.zoo.org;"));
    assert_eq!(conf.matches("server {").count(), 4);
    assert!(conf.contains("proxy_pass http://host.docker.internal:50100/;"));
    assert!(conf.contains("proxy_pass http://host.docker.internal:50101/;"));
}

#[test]
fn vhost_conf_omits_tcp_services() {
    // nginx cannot route plain TCP by hostname; a TCP service is reached on its port.
    let services = vec![planned_full(
        "comagine",
        ".",
        "queue",
        "tcp",
        50100,
        &["local.queue.org"],
    )];

    let conf = build_vhost_container_conf(&services, "gw");

    assert!(conf.is_empty());
}

#[test]
fn hosts_lines_cover_canonical_and_alias_for_every_connection_type() {
    let services = vec![
        planned_full(
            "comagine",
            ".",
            "portal-website",
            "http",
            50100,
            &["local.zoo.org"],
        ),
        planned_full("comagine", ".", "queue", "tcp", 50101, &["local.queue.org"]),
    ];

    let lines = build_hosts_lines(&services);

    assert_eq!(
        lines,
        vec![
            "0.0.0.0   portal-website.comagine.test\n",
            "0.0.0.0   local.zoo.org\n",
            "0.0.0.0   queue.comagine.test\n",
            "0.0.0.0   local.queue.org\n",
        ]
    );
}

#[test]
fn portmap_records_normalized_aliases_alongside_port_and_type() {
    let services = vec![planned_full(
        "comagine",
        ".",
        "portal-website",
        "http",
        50100,
        &["local.zoo.org"],
    )];

    let portmap = build_portmap(&services, &["comagine".to_string()]);
    let entry = portmap
        .get("comagine")
        .unwrap()
        .get(".")
        .unwrap()
        .get("portal-website")
        .unwrap();

    assert_eq!(entry.get("port").unwrap().as_u64(), Some(50100));
    assert_eq!(entry.get("type").unwrap().as_str(), Some("http"));
    assert_eq!(entry.get("debug_port").unwrap().as_u64(), Some(13000));
    assert_eq!(entry.get("urls"), Some(&texts(&["local.zoo.org"])));
}

#[test]
fn portmap_omits_urls_for_services_without_aliases() {
    let services = vec![planned("comagine", ".", "nevada-hdr", &[])];

    let portmap = build_portmap(&services, &[]);

    let entry = portmap
        .get("comagine")
        .unwrap()
        .get(".")
        .unwrap()
        .get("nevada-hdr")
        .unwrap();
    assert!(entry.get("urls").is_none());
}

#[test]
fn portmap_keeps_a_configured_domain_with_no_service_folders() {
    // The listing of URLs has a header per domain; an empty domain still shows.
    let portmap = build_portmap(&[], &["comagine".to_string()]);

    assert_eq!(portmap.get("comagine"), Some(&object(vec![])));
}
