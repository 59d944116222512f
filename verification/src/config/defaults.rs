//! Default configuration values used when no layer sets a field.

use vstd::prelude::*;

verus! {

/// File name of the main database.
pub const DB_PATH: &'static str = "nervemq.db";

/// File name of the sessions database; placed next to the main database
/// file unless configured otherwise.
pub const SESSIONS_DB_FILE: &'static str = "sessions.db";

/// Default per-queue delivery-attempt cap. Counts every receive, including
/// the first delivery: 2 means one initial delivery plus one redelivery
/// before the message parks as failed.
pub const MAX_RETRIES: usize = 2;

/// Default visibility timeout in seconds, applied when neither the receive
/// request nor the queue specifies one.
pub const VISIBILITY_TIMEOUT: u64 = 30;

/// Base URL of the server.
pub const HOST: &'static str = "http://localhost:8080";

/// Socket address the HTTP server binds to: loopback, so that a locally run
/// server is not exposed on the network.
pub const BIND_ADDRESS: &'static str = "127.0.0.1:8080";

/// Email of the root administrator.
pub const ROOT_EMAIL: &'static str = "admin@example.com";

/// Password of the root administrator.
pub const ROOT_PASSWORD: &'static str = "password";

} // verus!
