//! A registry of interactive telnet sessions, each bound to a pseudo-terminal,
//! with the decisions around them stated and proved: what to launch, how
//! sessions are addressed, how the output stream turns into events, and which
//! errors callers see.

pub mod bridge;
pub mod deeplink;
pub mod error;
pub mod ident;
pub mod launch;
pub mod registry;

pub use bridge::{
    lemma_single_exit, Bridge, BridgeEvent, EventView, ReadOutcome, READ_CHUNK,
};
pub use deeplink::{
    actions_from_args, parse_telnet_url, request_from_authority, starts_with_telnet_scheme,
    with_telnet_scheme, PendingActions, TelnetAction, TelnetLaunchRequest,
};
pub use error::{IoStage, SessionError};
pub use ident::{new_session_id, SESSION_ID_LEN};
pub use launch::{
    decimal_string, LaunchPlan, DEFAULT_COLS, DEFAULT_PORT, DEFAULT_ROWS, TELNET_PROGRAM,
};
pub use registry::SessionRegistry;
