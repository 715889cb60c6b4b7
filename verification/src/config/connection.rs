//! How a service is reached.
use crate::error::ConfigError;
use crate::text::{str_eq, three};
use vstd::prelude::*;

verus! {

/// The connection types that a service can have. None is treated as `http`.
pub open spec fn is_connection_type(value: Seq<char>) -> bool {
    value == "http"@ || value == "websocket"@ || value == "tcp"@
}

/// The message for any other connection type.
pub open spec fn bad_connection_type(value: Seq<char>) -> Seq<char> {
    "invalid connection_type '"@ + value + "' (must be one of: http, websocket, tcp)"@
}

/// Checks that the value is a connection type.
pub fn validate_connection_type(value: &str) -> (r: Result<(), ConfigError>)
    ensures
        r is Ok <==> is_connection_type(value@),
        r matches Err(e) ==> e@ == bad_connection_type(value@),
{
    if str_eq(value, "http") || str_eq(value, "websocket") || str_eq(value, "tcp") {
        Ok(())
    } else {
        Err(
            ConfigError::new(
                three(
                    "invalid connection_type '",
                    value,
                    "' (must be one of: http, websocket, tcp)",
                ),
            ),
        )
    }
}

} // verus!
