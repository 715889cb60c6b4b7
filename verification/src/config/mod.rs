//! The configuration: what it holds, how its layers combine, and how it is edited.
pub mod cascade_laws;
pub mod check;
pub mod check_laws;
pub mod connection;
pub mod context;
pub mod context_laws;
pub mod domains;
pub mod edit;
pub mod edit_laws;
pub mod environments;
pub mod general;
pub mod general_laws;
pub mod groups;
pub mod laws;
pub mod load;
pub mod load_laws;
pub mod merge;
pub mod message_laws;
pub mod migrate;
pub mod migrate_laws;
pub mod model;
pub mod model_laws;
pub mod operations;
pub mod paths;
pub mod places;
pub mod ports;
pub mod resolve;
pub mod services;

pub use connection::validate_connection_type;
pub use merge::{merge_values, strip_nulls};
pub use model::{Config, Domain, Environment, Group, PreConfig, Service, Volume};
pub use paths::{resolve_location, DarpPaths};
pub use ports::{
    choose_debug_port, portmap_debug_port, portmap_proxy_port, substitute_tokens,
    well_known_skip_ports, TokenCtx, DEBUG_PORT_BASE,
};
pub use resolve::ResolvedSettings;
