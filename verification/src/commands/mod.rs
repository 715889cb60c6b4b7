//! What the commands of the tool decide and compute.
pub mod aliases;
pub mod artifact_laws;
pub mod artifacts;
pub mod cli;
pub mod collision_laws;
pub mod collisions;
pub mod command_laws;
pub mod config_cmds;
pub mod deploy;
pub mod discover;
pub mod listing_laws;
pub mod plan;
pub mod plan_laws;
pub mod portmap;
pub mod report_laws;
pub mod service;
pub mod show;
pub mod show_laws;
pub mod targets;
pub mod urls;

pub use aliases::validate_plan_aliases;
pub use artifacts::{
    build_container_hosts, build_debug_report, build_host_proxy_vhost, build_hosts_lines,
    build_vhost_container_conf,
};
pub use collisions::{detect_hostname_collisions, HostnameSource};
pub use cli::{
    AddCommand, AddDomCommand, AddEnvCommand, AddGrpCommand, AddSvcCommand, RmCommand,
    RmDomCommand, RmEnvCommand, RmGrpCommand, RmSvcCommand, SetCommand, SetDomCommand,
    SetEnvCommand, SetGrpCommand, SetSvcCommand,
};
pub use config_cmds::{cmd_add, cmd_rm, cmd_set, Applied, Outcome};
pub use deploy::{cmd_deploy, validate_plan, Deployment};
pub use discover::{Folders, FoundService};
pub use plan::{can_plan_deployment, plan_deployment};
pub use portmap::build_portmap;
pub use service::PlannedService;
pub use show::{cmd_pull, cmd_show, PullStep};
pub use targets::{asks_parents, Target};
pub use urls::{cmd_urls, Line, Span, Style};
