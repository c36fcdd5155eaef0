//! Error codes on the wire. The set is closed: a client can branch on these
//! without a default arm lying about it.

use vstd::prelude::*;

verus! {

/// Unparseable line, unknown method, bad params, oversized text.
pub const INVALID_REQUEST: &'static str = "invalid_request";

/// The connection exceeded its per-minute request budget.
pub const RATE_LIMITED: &'static str = "rate_limited";

/// `session_id` failed validation (charset `[A-Za-z0-9_-]`, 1..=64).
pub const SESSION_ID_INVALID: &'static str = "session_id_invalid";

/// Sent to connections accepted above the connection cap.
pub const TOO_MANY_CONNECTIONS: &'static str = "too_many_connections";

/// The handler could not do its job. Deliberately vague on the wire.
pub const INTERNAL: &'static str = "internal";

} // verus!
