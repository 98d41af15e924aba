//! Canonical failure codes, kept as strings for wire stability.
use vstd::prelude::*;

verus! {

pub const NO_ADAPTER: &'static str = "NO_ADAPTER";

pub const MISSING_CREDENTIAL: &'static str = "MISSING_CREDENTIAL";

pub const INVALID_CREDENTIAL: &'static str = "INVALID_CREDENTIAL";

pub const AUTH: &'static str = "AUTH";

pub const RATE_LIMIT: &'static str = "RATE_LIMIT";

pub const QUOTA: &'static str = "QUOTA";

pub const SERVER: &'static str = "SERVER";

pub const TIMEOUT: &'static str = "TIMEOUT";

pub const TRANSPORT: &'static str = "TRANSPORT";

pub const ABORTED: &'static str = "ABORTED";

pub const CONTEXT_WINDOW_EXCEEDED: &'static str = "CONTEXT_WINDOW_EXCEEDED";

pub const INVALID_REQUEST: &'static str = "INVALID_REQUEST";

pub const EMPTY_RESPONSE: &'static str = "EMPTY_RESPONSE";

pub const UNSUPPORTED_CONTENT: &'static str = "UNSUPPORTED_CONTENT";

pub const UNSUPPORTED_REASONING_EFFORT: &'static str = "UNSUPPORTED_REASONING_EFFORT";

pub const MALFORMED_RESPONSE: &'static str = "MALFORMED_RESPONSE";

pub const STREAM_CLOSED: &'static str = "STREAM_CLOSED";

pub const STEP_LIMIT: &'static str = "STEP_LIMIT";

pub const SETTINGS: &'static str = "SETTINGS";

pub const UNKNOWN: &'static str = "UNKNOWN";

pub const STORAGE: &'static str = "STORAGE";

} // verus!
