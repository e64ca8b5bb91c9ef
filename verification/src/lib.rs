//! Core of a client for a continuously broadcast weather-bulletin feed.
//!
//! The library holds the pieces with real invariants: connection
//! configuration, the bulletin decoder with its text-normalization rules, the
//! session-level unit classification, and the retry policy of the supervising
//! stream.  The transport itself (the XMPP handshake and stanza framing) is an
//! external collaborator; an embedding program drives it and feeds this
//! library plain values.

mod config;
mod error;
mod message;
mod session;
mod stream;

pub use config::{Channel, Config, RoomAddress, Server};
pub use error::Error;
pub use message::{Message, OiPayload, RawMessage, Timestamp};
pub use message::{normalize_newlines, parse_u32, split_ldm_sequence};
pub use session::{
    classify_handshake_fault, classify_session_fault, handle_unit, is_self_presence, join_request,
    leave_request, nickname, HandshakeFault, IqKind, MucPresence, RawIq, RawUnit, SessionFault,
    ServiceUnavailableReply, UnitAction, JOIN_HISTORY_SECONDS, SELF_PRESENCE_STATUS,
};
pub use stream::{
    plan_attempt_start, plan_connect_outcome, plan_drain_failure, AttemptPlan, ConnectOutcome,
    ConnectionState, StreamEvent, CHANNEL_CAPACITY, CONNECT_TIMEOUT_SECONDS, LONG_COOLDOWN_SECONDS,
    RETRY_FLOOR_SECONDS, SHORT_COOLDOWN_SECONDS,
};
