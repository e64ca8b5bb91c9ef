use crate::config::{Channel, Config};
use crate::error::Error;
use crate::message::{bulletin_matches, decode_accepts, Message, RawMessage};
use vstd::prelude::*;

verus! {

// ---------------------------------------------------------------------------
// The decisions a live session makes.  A session owns exactly one
// authenticated, room-joined connection; the transport itself is driven
// outside the library, which decides here what each step means.
// ---------------------------------------------------------------------------

/// How much room history a join asks to be replayed, in seconds.
pub const JOIN_HISTORY_SECONDS: u32 = 300;

/// The membership-extension status code that marks a presence unit as the
/// local participant's own — the self-membership confirmation.
pub const SELF_PRESENCE_STATUS: u32 = 110;

/// How the transport handshake failed, as the collaborator library reports
/// it.  Each variant carries the rendered cause.
#[derive(Debug, Clone)]
pub enum HandshakeFault {
    /// The identity or address could not be parsed.
    MalformedIdentity(String),
    /// Authentication was refused.
    AuthRefused(String),
    /// Any other transport-level failure.
    Other(String),
}

/// Classify a handshake failure: a malformed identity is a configuration
/// error the operator must fix, refused credentials are a credentials
/// error, and anything else is a network error.
pub fn classify_handshake_fault(fault: HandshakeFault) -> (r: Error)
    ensures
        fault matches HandshakeFault::MalformedIdentity(d) ==> r == Error::Configuration(d),
        fault matches HandshakeFault::AuthRefused(d) ==> r == Error::Credentials(d),
        fault matches HandshakeFault::Other(d) ==> r == Error::Network(d),
{
    match fault {
        HandshakeFault::MalformedIdentity(d) => Error::Configuration(d),
        HandshakeFault::AuthRefused(d) => Error::Credentials(d),
        HandshakeFault::Other(d) => Error::Network(d),
    }
}

/// How an operation of a live session failed: the stream closed without an
/// explicit error, the transport itself failed, or an incoming unit could
/// not be parsed at the session layer.  The latter two carry the rendered
/// cause.
#[derive(Debug, Clone)]
pub enum SessionFault {
    /// The underlying stream closed.
    Closed,
    /// A transport-level failure.
    Transport(String),
    /// A unit that failed stanza parsing — distinct from a decoder
    /// rejection, which is routine and never an error.
    Malformed(String),
}

/// Classify a mid-session failure: a closed stream ended the stream, a
/// transport fault is a network error, and a unit the session layer cannot
/// parse is a parse error.
pub fn classify_session_fault(fault: SessionFault) -> (r: Error)
    ensures
        fault is Closed ==> r == Error::StreamEnded,
        fault matches SessionFault::Transport(d) ==> r == Error::Network(d),
        fault matches SessionFault::Malformed(d) ==> r == Error::XmppParseError(d),
{
    match fault {
        SessionFault::Closed => Error::StreamEnded,
        SessionFault::Transport(d) => Error::Network(d),
        SessionFault::Malformed(d) => Error::XmppParseError(d),
    }
}

/// The in-room nickname of this client: its username and its resource
/// token, joined by a slash.
pub fn nickname(config: &Config) -> (r: String)
    ensures
        r@ == config.username@ + "/"@ + config.resource@,
{
    let mut out = String::new();
    out.append(config.username.as_str());
    out.append("/");
    out.append(config.resource.as_str());
    proof {
        assert(out@ =~= config.username@ + "/"@ + config.resource@);
    }
    out
}

/// A presence-style room request — a join or its inverse leave — reduced to
/// the fields the protocol encoding needs.
#[derive(Debug, Clone, PartialEq, Eq)]
pub struct MucPresence {
    /// True for a leave ("unavailable") request, false for a join.
    pub unavailable: bool,
    /// The bound identity the request is sent from.
    pub from: String,
    /// The full in-room address — room plus nickname — it is sent to.
    pub to: String,
    /// The history replay bound of a join, in seconds; a leave carries none.
    pub history_seconds: Option<u32>,
}

/// Build the room-join request: from the bound identity, to the selected
/// room under this client's nickname, asking for at most the last
/// `JOIN_HISTORY_SECONDS` of room history.
pub fn join_request(bound_jid: &str, channel: &Channel, nick: &str) -> (r: MucPresence)
    ensures
        !r.unavailable,
        r.from@ == bound_jid@,
        r.to@ == channel.jid_spec(nick@),
        r.history_seconds == Some(JOIN_HISTORY_SECONDS),
{
    MucPresence {
        unavailable: false,
        from: String::from_str(bound_jid),
        to: channel.jid(nick),
        history_seconds: Some(JOIN_HISTORY_SECONDS),
    }
}

/// Build the graceful leave request as the inverse of the join request:
/// the same addressing, marked unavailable, no history extension.
pub fn leave_request(join: &MucPresence) -> (r: MucPresence)
    ensures
        r.unavailable,
        r.from == join.from,
        r.to == join.to,
        r.history_seconds is None,
{
    MucPresence {
        unavailable: true,
        from: join.from.clone(),
        to: join.to.clone(),
        history_seconds: None,
    }
}

/// Whether a presence unit carrying these membership-extension status codes
/// is the self-membership confirmation.
pub fn is_self_presence(status_codes: &Vec<u32>) -> (r: bool)
    ensures
        r == status_codes@.contains(SELF_PRESENCE_STATUS),
{
    let n = status_codes.len();
    let mut i: usize = 0;
    while i < n
        invariant
            n == status_codes@.len(),
            i <= n,
            forall|j: int| 0 <= j < i ==> status_codes@[j] != SELF_PRESENCE_STATUS,
        decreases n - i,
    {
        if status_codes[i] == SELF_PRESENCE_STATUS {
            proof {
                assert(status_codes@.contains(SELF_PRESENCE_STATUS)) by {
                    assert(status_codes@[i as int] == SELF_PRESENCE_STATUS);
                }
            }
            return true;
        }
        i = i + 1;
    }
    false
}

/// A raw get/set/result/error exchange unit, reduced to its addressing.
#[derive(Debug, Clone, PartialEq, Eq)]
pub struct RawIq {
    /// The sender, when the unit names one.
    pub from: Option<String>,
    /// The recipient, when the unit names one.
    pub to: Option<String>,
    /// The exchange identifier the reply must repeat.
    pub id: String,
    /// Which kind of exchange unit this is.
    pub kind: IqKind,
}

/// The kind of an exchange unit.
#[derive(Debug, Clone, Copy, PartialEq, Eq)]
pub enum IqKind {
    /// A request to read something.
    GetRequest,
    /// A request to change something.
    SetRequest,
    /// A reply carrying a result.
    ResultReply,
    /// A reply carrying an error.
    ErrorReply,
}

/// One raw incoming unit, classified by its role.
#[derive(Debug, Clone, PartialEq, Eq)]
pub enum RawUnit {
    /// A message-type unit: a candidate bulletin.
    Message(RawMessage),
    /// An exchange unit.
    Iq(RawIq),
    /// A presence-type unit.
    Presence,
    /// Anything else.
    Other,
}

/// The protocol-compliant reply to a get/set request this client does not
/// understand: an error-typed unit, same exchange identifier, sender and
/// recipient swapped, condition "service unavailable".
#[derive(Debug, Clone, PartialEq, Eq)]
pub struct ServiceUnavailableReply {
    /// The sender of the reply: the original recipient.
    pub from: Option<String>,
    /// The recipient of the reply: the original sender.
    pub to: Option<String>,
    /// The exchange identifier, repeated.
    pub id: String,
}

/// What the session does with one incoming unit.
#[derive(Debug, Clone, PartialEq, Eq)]
pub enum UnitAction {
    /// A broadcast that decoded: hand this bulletin to the caller.
    Deliver(Message),
    /// An unsupported get/set request: send this reply, surface nothing.
    Reply(ServiceUnavailableReply),
    /// Everything else — a failed decode, a presence, an unknown unit — is
    /// skipped without surfacing anything.
    Ignore,
}

/// Decide what one incoming unit means for the session.  This is the single
/// point where the decoder is invoked: a raw undecodable unit is never
/// handed to the caller.
pub fn handle_unit(unit: RawUnit) -> (r: UnitAction)
    ensures
        unit matches RawUnit::Message(m) ==> ((r is Deliver <==> decode_accepts(m)) && (
        r matches UnitAction::Deliver(b) ==> bulletin_matches(m, b))),
        unit matches RawUnit::Message(m) ==> (!decode_accepts(m) ==> r is Ignore),
        unit matches RawUnit::Iq(iq) ==> ((iq.kind is GetRequest || iq.kind is SetRequest) ==> (
        r matches UnitAction::Reply(rep) && rep.from == iq.to && rep.to == iq.from && rep.id
            == iq.id)),
        unit matches RawUnit::Iq(iq) ==> (!(iq.kind is GetRequest || iq.kind is SetRequest)
            ==> r is Ignore),
        unit is Presence ==> r is Ignore,
        unit is Other ==> r is Ignore,
{
    match unit {
        RawUnit::Message(m) => {
            match Message::decode(&m) {
                Some(b) => UnitAction::Deliver(b),
                None => UnitAction::Ignore,
            }
        },
        RawUnit::Iq(iq) => {
            match iq.kind {
                IqKind::GetRequest => UnitAction::Reply(
                    ServiceUnavailableReply { from: iq.to, to: iq.from, id: iq.id },
                ),
                IqKind::SetRequest => UnitAction::Reply(
                    ServiceUnavailableReply { from: iq.to, to: iq.from, id: iq.id },
                ),
                IqKind::ResultReply => UnitAction::Ignore,
                IqKind::ErrorReply => UnitAction::Ignore,
            }
        },
        RawUnit::Presence => UnitAction::Ignore,
        RawUnit::Other => UnitAction::Ignore,
    }
}

} // verus!
