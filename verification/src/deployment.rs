//! Deploying a game server for a room: the request that goes out over the
//! bus, and what its reply means for the room.
//!
//! The request itself is made by the caller. This module says what to send
//! and turns what came back, handed over as plain values, into the session
//! record of the room or into the error that the start of the room ends with.

use vstd::prelude::*;
use vstd::string::*;
use crate::lobby::{opt_text, DeploymentError, LobbyError, SessionInfo, SessionInfoView};
use crate::text::{chars_of, parse_unsigned, parse_unsigned_spec};

verus! {

/// How long a deployment request waits for its reply, in seconds.
pub const DEPLOY_TIMEOUT_SECS: u64 = 60;

/// The subject on which deployments are requested.
pub fn deploy_subject() -> (subject: String)
    ensures
        subject@ == "session.gensession"@,
{
    String::from_str("session.gensession")
}

/// The text of the request that asks for a game server for the room
/// `room_id`, on behalf of a client at `client_ip`.
pub open spec fn deploy_request_text(client_ip: Seq<char>, room_id: Seq<char>) -> Seq<char> {
    "{\"client_ip\":\""@ + client_ip + "\", \"room_id\":\""@ + room_id
        + "\", \"game\":\"lobby-room\"}"@
}

/// Writes the deployment request for a room.
pub fn deploy_request(client_ip: &str, room_id: &str) -> (payload: String)
    ensures
        payload@ == deploy_request_text(client_ip@, room_id@),
{
    let mut payload = String::from_str("{\"client_ip\":\"");
    payload.append(client_ip);
    payload.append("\", \"room_id\":\"");
    payload.append(room_id);
    payload.append("\", \"game\":\"lobby-room\"}");
    payload
}

/// A request for a deployment: what to send, where, and how long to wait
/// for the reply.
#[derive(Clone, Debug, PartialEq, Eq)]
pub struct DeployRequest {
    pub subject: String,
    pub payload: String,
    pub timeout_secs: u64,
}

/// A request as a value of specifications.
pub struct DeployRequestView {
    pub subject: Seq<char>,
    pub payload: Seq<char>,
    pub timeout_secs: u64,
}

impl View for DeployRequest {
    type V = DeployRequestView;

    open spec fn view(&self) -> DeployRequestView {
        DeployRequestView {
            subject: self.subject@,
            payload: self.payload@,
            timeout_secs: self.timeout_secs,
        }
    }
}

/// The request that asks for a game server for the room `room_id`, on
/// behalf of a client at `client_ip`.
pub open spec fn deploy_call_of(client_ip: Seq<char>, room_id: Seq<char>) -> DeployRequestView {
    DeployRequestView {
        subject: "session.gensession"@,
        payload: deploy_request_text(client_ip, room_id),
        timeout_secs: DEPLOY_TIMEOUT_SECS,
    }
}

/// Makes the request that asks for a game server for a room.
pub fn deploy_call(client_ip: &str, room_id: &str) -> (request: DeployRequest)
    ensures
        request@ == deploy_call_of(client_ip@, room_id@),
{
    DeployRequest {
        subject: deploy_subject(),
        payload: deploy_request(client_ip, room_id),
        timeout_secs: DEPLOY_TIMEOUT_SECS,
    }
}

// ---------------------------------------------------------------------------
// What came back
// ---------------------------------------------------------------------------

/// How a request over the bus failed before any reply arrived.
#[derive(Clone, Copy, Debug, PartialEq, Eq)]
pub enum RequestFailure {
    TimedOut,
    NoResponders,
    Other,
}

/// The error that a service reports of itself.
#[derive(Clone, Debug, PartialEq, Eq)]
pub struct ServiceFault {
    pub code: usize,
    pub description: String,
}

/// A reply of the deployment service: the error that it reports, if it
/// reports one, and the body.
#[derive(Clone, Debug, PartialEq, Eq)]
pub struct ServiceReply {
    pub fault: Option<ServiceFault>,
    pub payload: Vec<u8>,
}

/// How a deployment request ended.
#[derive(Clone, Debug, PartialEq, Eq)]
pub enum DeployOutcome {
    Failed(RequestFailure),
    Replied(ServiceReply),
}

/// Why the headers of a reply do not say what the service reports.
#[derive(Clone, Copy, Debug, PartialEq, Eq)]
pub enum MalformedReply {
    /// There is an error code, but no description of the error.
    MissingDescription,
    /// The error code is not a number that fits `usize`.
    InvalidCode,
}

/// What two headers of a reply say: the value of the error-code header and
/// that of the error-description header, each where the reply has it.
///
/// A reply without an error code reports no error. One with an error code
/// reports the error of that code, and has to describe it.
pub open spec fn message_error(code: Option<String>, description: Option<String>) -> Result<
    Option<(usize, Seq<char>)>,
    MalformedReply,
> {
    match code {
        None => Ok(None),
        Some(code) => match description {
            None => Err(MalformedReply::MissingDescription),
            Some(description) => match parse_unsigned_spec(code@, usize::MAX as nat) {
                Some(number) => Ok(Some((number as usize, description@))),
                None => Err(MalformedReply::InvalidCode),
            },
        },
    }
}

/// Reads `text` as a number that fits `usize`.
fn parse_code(text: &str) -> (code: Option<usize>)
    ensures
        match parse_unsigned_spec(text@, usize::MAX as nat) {
            Some(n) => code == Some(n as usize),
            None => code is None,
        },
{
    let chars = chars_of(text);
    assert(chars@.subrange(0, chars.len() as int) == text@);
    match parse_unsigned(&chars, 0, usize::MAX as u64) {
        Some(n) => Some(n as usize),
        None => None,
    }
}

/// The error that a reply of the deployment service reports, if it reports
/// one: the code and the description from its headers.
pub fn maybe_message_error(error_code: &Option<String>, error_description: &Option<String>) -> (error:
    Result<Option<(usize, String)>, MalformedReply>)
    ensures
        match message_error(*error_code, *error_description) {
            Ok(Some((code, description))) => error matches Ok(Some((c, d))) && c == code && d@
                == description,
            Ok(None) => error matches Ok(None),
            Err(malformed) => error == Err::<Option<(usize, String)>, MalformedReply>(malformed),
        },
{
    match error_code {
        None => Ok(None),
        Some(code) => match error_description {
            None => Err(MalformedReply::MissingDescription),
            Some(description) => match parse_code(code.as_str()) {
                Some(number) => Ok(Some((number, description.clone()))),
                None => Err(MalformedReply::InvalidCode),
            },
        },
    }
}

/// The error that a reply reports, as a value of specifications.
pub open spec fn service_error(reply: ServiceReply) -> Option<(usize, Seq<char>)> {
    match reply.fault {
        Some(fault) => Some((fault.code, fault.description@)),
        None => None,
    }
}

impl ServiceReply {
    /// The reply with the given headers and body: see [`message_error`] for
    /// what the headers say.
    pub fn from_message(
        error_code: &Option<String>,
        error_description: &Option<String>,
        payload: Vec<u8>,
    ) -> (read: Result<ServiceReply, MalformedReply>)
        ensures
            match message_error(*error_code, *error_description) {
                Ok(reported) => read matches Ok(reply) && service_error(reply) == reported
                    && reply.payload == payload,
                Err(malformed) => read == Err::<ServiceReply, MalformedReply>(malformed),
            },
    {
        match maybe_message_error(error_code, error_description) {
            Ok(Some((code, description))) => Ok(
                ServiceReply { fault: Some(ServiceFault { code, description }), payload },
            ),
            Ok(None) => Ok(ServiceReply { fault: None, payload }),
            Err(malformed) => Err(malformed),
        }
    }
}

/// What a failed request is called in a room's session record.
pub open spec fn failure_text(failure: RequestFailure) -> Seq<char> {
    match failure {
        RequestFailure::TimedOut => "Deployment request timeout"@,
        RequestFailure::NoResponders => "No deployment service available"@,
        RequestFailure::Other => "Deployment service error"@,
    }
}

/// What a failed request is called in a room's session record.
pub fn describe_failure(failure: RequestFailure) -> (text: String)
    ensures
        text@ == failure_text(failure),
{
    match failure {
        RequestFailure::TimedOut => String::from_str("Deployment request timeout"),
        RequestFailure::NoResponders => String::from_str("No deployment service available"),
        RequestFailure::Other => String::from_str("Deployment service error"),
    }
}

/// A deployment error as a value of specifications.
pub enum DeploymentFault {
    Timeout,
    NoResponders,
    ServiceError { code: usize, message: Seq<char> },
    Other,
}

/// A deployment error as a value of specifications.
pub open spec fn fault_of(error: DeploymentError) -> DeploymentFault {
    match error {
        DeploymentError::Timeout => DeploymentFault::Timeout,
        DeploymentError::NoResponders => DeploymentFault::NoResponders,
        DeploymentError::ServiceError { code, message } => DeploymentFault::ServiceError {
            code,
            message: message@,
        },
        DeploymentError::Other => DeploymentFault::Other,
    }
}

/// The error that a failed deployment ends with.
pub open spec fn deploy_fault(outcome: DeployOutcome) -> Option<DeploymentFault> {
    match outcome {
        DeployOutcome::Failed(RequestFailure::TimedOut) => Some(DeploymentFault::Timeout),
        DeployOutcome::Failed(RequestFailure::NoResponders) => Some(DeploymentFault::NoResponders),
        DeployOutcome::Failed(RequestFailure::Other) => Some(DeploymentFault::Other),
        DeployOutcome::Replied(reply) => match service_error(reply) {
            Some((code, description)) => Some(
                DeploymentFault::ServiceError { code, message: description },
            ),
            None => None,
        },
    }
}

// ---------------------------------------------------------------------------
// The session record
// ---------------------------------------------------------------------------

/// The session record of a room whose deployment failed for `reason`.
pub open spec fn failed_session(reason: Seq<char>) -> SessionInfoView {
    SessionInfoView {
        session_id: None,
        game_server_ip: None,
        game_server_port: None,
        connect_token: None,
        deployment_status: "Failed: "@ + reason,
    }
}

/// The session record of a room whose deployment failed for `reason`.
pub fn record_failure(reason: &str) -> (info: SessionInfo)
    ensures
        info@ == failed_session(reason@),
{
    let mut status = String::from_str("Failed: ");
    status.append(reason);
    SessionInfo {
        session_id: None,
        game_server_ip: None,
        game_server_port: None,
        connect_token: None,
        deployment_status: status,
    }
}

/// What a deployment reply says of the session, each detail where the reply
/// gives it.
#[derive(Clone, Debug, PartialEq, Eq)]
pub struct ReplyFields {
    pub session_id: Option<String>,
    pub gameserver_ip: Option<String>,
    pub gameserver_port: Option<u64>,
    pub connect_token: Option<String>,
}

/// The details of a reply as a value of specifications.
pub struct ReplyFieldsView {
    pub session_id: Option<Seq<char>>,
    pub gameserver_ip: Option<Seq<char>>,
    pub gameserver_port: Option<u64>,
    pub connect_token: Option<Seq<char>>,
}

impl View for ReplyFields {
    type V = ReplyFieldsView;

    open spec fn view(&self) -> ReplyFieldsView {
        ReplyFieldsView {
            session_id: opt_text(self.session_id),
            gameserver_ip: opt_text(self.gameserver_ip),
            gameserver_port: self.gameserver_port,
            connect_token: opt_text(self.connect_token),
        }
    }
}

/// The port that a reply's number stands for: its low sixteen bits.
pub open spec fn port_of(number: u64) -> u16 {
    (number % 0x1_0000) as u16
}

/// The session record of a room whose deployment succeeded. The record is
/// `Ready` where the reply gave every detail; where one is missing, the
/// details are pending.
pub open spec fn ready_session(fields: ReplyFieldsView) -> SessionInfoView {
    SessionInfoView {
        session_id: fields.session_id,
        game_server_ip: fields.gameserver_ip,
        game_server_port: match fields.gameserver_port {
            Some(number) => Some(port_of(number)),
            None => None,
        },
        connect_token: fields.connect_token,
        deployment_status: if fields.session_id is Some && fields.gameserver_ip is Some
            && fields.gameserver_port is Some && fields.connect_token is Some {
            "Ready"@
        } else {
            "Ready (details pending)"@
        },
    }
}

/// The session record of a room whose deployment succeeded.
pub fn session_from_fields(fields: ReplyFields) -> (info: SessionInfo)
    ensures
        info@ == ready_session(fields@),
{
    let complete = fields.session_id.is_some() && fields.gameserver_ip.is_some()
        && fields.gameserver_port.is_some() && fields.connect_token.is_some();
    let status = if complete {
        String::from_str("Ready")
    } else {
        String::from_str("Ready (details pending)")
    };
    let port = match fields.gameserver_port {
        Some(number) => Some((number % 0x1_0000) as u16),
        None => None,
    };
    SessionInfo {
        session_id: fields.session_id,
        game_server_ip: fields.gameserver_ip,
        game_server_port: port,
        connect_token: fields.connect_token,
        deployment_status: status,
    }
}

/// The text that `String::from_utf8_lossy` makes of `bytes`.
pub uninterp spec fn utf8_lossy(bytes: Seq<u8>) -> Seq<char>;

/// A member of a JSON object: its text, where it is a text, and its value,
/// where it is a whole number from 0 to `u64::MAX`.
#[derive(Clone, Debug, PartialEq, Eq)]
pub struct JsonMember {
    pub text: Option<String>,
    pub natural: Option<u64>,
}

/// A member of a JSON object as a value of specifications.
pub struct JsonMemberView {
    pub text: Option<Seq<char>>,
    pub natural: Option<u64>,
}

impl View for JsonMember {
    type V = JsonMemberView;

    open spec fn view(&self) -> JsonMemberView {
        JsonMemberView { text: opt_text(self.text), natural: self.natural }
    }
}

/// The member `key` of the JSON object that `document` holds: what
/// `serde_json::from_str` and `Value::get` find, read with `Value::as_str`
/// and `Value::as_u64`. `None` where `document` is no JSON document, holds
/// no object, or the object has no such member.
pub uninterp spec fn json_member_of(document: Seq<char>, key: Seq<char>) -> Option<JsonMemberView>;

/// Decodes bytes as UTF-8 with `String::from_utf8_lossy`, which puts U+FFFD
/// in the place of what is not UTF-8. The result depends on the bytes alone
/// and is named `utf8_lossy`.
#[verifier::external_body]
fn lossy_text(bytes: &Vec<u8>) -> (text: String)
    ensures
        text@ == utf8_lossy(bytes@),
{
    String::from_utf8_lossy(bytes).into_owned()
}

/// Parses `document` with `serde_json::from_str`, finds the member `key`
/// of its object with `Value::get`, and reads the member with
/// `Value::as_str` and `Value::as_u64`. The result depends on the two texts
/// alone and is named `json_member_of`.
#[verifier::external_body]
fn json_member(document: &str, key: &str) -> (member: Option<JsonMember>)
    ensures
        match json_member_of(document@, key@) {
            Some(found) => member matches Some(m) && m@ == found,
            None => member is None,
        },
{
    let parsed: serde_json::Value = serde_json::from_str(document).ok()?;
    let member = parsed.get(key)?;
    let text = match member.as_str() {
        Some(text) => Some(text.to_string()),
        None => None,
    };
    Some(JsonMember { text, natural: member.as_u64() })
}

/// The text of a member, where there is a member and it is a text.
pub open spec fn member_text(member: Option<JsonMemberView>) -> Option<Seq<char>> {
    match member {
        Some(found) => found.text,
        None => None,
    }
}

/// The number of a member, where there is a member and it is a whole number
/// from 0 to `u64::MAX`.
pub open spec fn member_natural(member: Option<JsonMemberView>) -> Option<u64> {
    match member {
        Some(found) => found.natural,
        None => None,
    }
}

/// What the reply `document` says of the session.
pub open spec fn reply_fields(document: Seq<char>) -> ReplyFieldsView {
    ReplyFieldsView {
        session_id: member_text(json_member_of(document, "session_id"@)),
        gameserver_ip: member_text(json_member_of(document, "gameserver_ip"@)),
        gameserver_port: member_natural(json_member_of(document, "gameserver_port"@)),
        connect_token: member_text(json_member_of(document, "connect_token"@)),
    }
}

/// The text member `key` of a JSON document.
fn read_text(document: &str, key: &str) -> (text: Option<String>)
    ensures
        opt_text(text) == member_text(json_member_of(document@, key@)),
{
    match json_member(document, key) {
        Some(member) => member.text,
        None => None,
    }
}

/// The number member `key` of a JSON document.
fn read_natural(document: &str, key: &str) -> (number: Option<u64>)
    ensures
        number == member_natural(json_member_of(document@, key@)),
{
    match json_member(document, key) {
        Some(member) => member.natural,
        None => None,
    }
}

/// Reads the session details out of a reply.
pub fn read_reply_fields(document: &str) -> (fields: ReplyFields)
    ensures
        fields@ == reply_fields(document@),
{
    ReplyFields {
        session_id: read_text(document, "session_id"),
        gameserver_ip: read_text(document, "gameserver_ip"),
        gameserver_port: read_natural(document, "gameserver_port"),
        connect_token: read_text(document, "connect_token"),
    }
}

/// The session record that the body of a successful reply gives.
pub open spec fn deployed_session(payload: Seq<u8>) -> SessionInfoView {
    ready_session(reply_fields(utf8_lossy(payload)))
}

/// The session record that the body of a successful reply gives.
pub fn session_from_payload(payload: &Vec<u8>) -> (info: SessionInfo)
    ensures
        info@ == deployed_session(payload@),
{
    let document = lossy_text(payload);
    session_from_fields(read_reply_fields(document.as_str()))
}

/// The session record of a room once its deployment has ended: the reason
/// of a failure, or the session that a successful reply describes.
pub open spec fn session_after(outcome: DeployOutcome) -> SessionInfoView {
    match outcome {
        DeployOutcome::Failed(failure) => failed_session(failure_text(failure)),
        DeployOutcome::Replied(reply) => match service_error(reply) {
            Some((code, description)) => failed_session(description),
            None => deployed_session(reply.payload@),
        },
    }
}

/// Reads the outcome of a deployment: the error, where it failed, and the
/// session record that the room gets either way.
pub fn interpret_outcome(outcome: &DeployOutcome) -> (read: (Option<DeploymentError>, SessionInfo))
    ensures
        read.1@ == session_after(*outcome),
        match read.0 {
            Some(error) => deploy_fault(*outcome) == Some(fault_of(error)),
            None => deploy_fault(*outcome) is None,
        },
{
    match outcome {
        DeployOutcome::Failed(failure) => {
            let error = match failure {
                RequestFailure::TimedOut => DeploymentError::Timeout,
                RequestFailure::NoResponders => DeploymentError::NoResponders,
                RequestFailure::Other => DeploymentError::Other,
            };
            let reason = describe_failure(*failure);
            (Some(error), record_failure(reason.as_str()))
        },
        DeployOutcome::Replied(reply) => match &reply.fault {
            Some(fault) => {
                let info = record_failure(fault.description.as_str());
                let message = fault.description.clone();
                (Some(DeploymentError::ServiceError { code: fault.code, message }), info)
            },
            None => (None, session_from_payload(&reply.payload)),
        },
    }
}

// ---------------------------------------------------------------------------
// Errors as HTTP answers
// ---------------------------------------------------------------------------

/// Whether a number is an HTTP status code.
pub open spec fn is_status(code: int) -> bool {
    100 <= code <= 999
}

/// Checks a status code with `http::StatusCode::from_u16`, which accepts the
/// numbers from 100 to 999 and no others, and hands an accepted one back.
#[verifier::external_body]
fn checked_status(code: u16) -> (status: Option<u16>)
    ensures
        status == (if is_status(code as int) {
            Some(code)
        } else {
            None
        }),
{
    match axum::http::StatusCode::from_u16(code) {
        Ok(status) => Some(status.as_u16()),
        Err(_) => None,
    }
}

/// The status with which the error code of a service is answered: the low
/// sixteen bits of the code where they are a status code, else 500.
pub open spec fn service_status(code: usize) -> u16 {
    if is_status(code as int % 0x1_0000) {
        (code as int % 0x1_0000) as u16
    } else {
        500
    }
}

/// The HTTP status that answers a refused operation.
pub open spec fn status_of(error: LobbyError) -> u16 {
    match error {
        LobbyError::CapacityExceeded { .. } => 429,
        LobbyError::NotFound => 404,
        LobbyError::AlreadyStarted => 409,
        LobbyError::Full => 409,
        LobbyError::Deployment(DeploymentError::Timeout) => 408,
        LobbyError::Deployment(DeploymentError::NoResponders) => 503,
        LobbyError::Deployment(DeploymentError::Other) => 500,
        LobbyError::Deployment(DeploymentError::ServiceError { code, .. }) => service_status(code),
    }
}

/// The text that answers a refused operation.
pub open spec fn message_of(error: LobbyError) -> Seq<char> {
    match error {
        LobbyError::CapacityExceeded { max_rooms } => "maximum active rooms reached ("@
            + crate::text::decimal_text(max_rooms as nat) + ")"@,
        LobbyError::NotFound => "room not found"@,
        LobbyError::AlreadyStarted => "room already started"@,
        LobbyError::Full => "room full"@,
        LobbyError::Deployment(DeploymentError::Timeout) => failure_text(RequestFailure::TimedOut),
        LobbyError::Deployment(DeploymentError::NoResponders) => failure_text(
            RequestFailure::NoResponders,
        ),
        LobbyError::Deployment(DeploymentError::Other) => failure_text(RequestFailure::Other),
        LobbyError::Deployment(DeploymentError::ServiceError { message, .. }) =>
            "Failed to deploy game server: "@ + message@,
    }
}

impl LobbyError {
    /// The HTTP status that answers the refusal.
    pub fn status_code(&self) -> (status: u16)
        ensures
            status == status_of(*self),
    {
        match self {
            LobbyError::CapacityExceeded { .. } => 429,
            LobbyError::NotFound => 404,
            LobbyError::AlreadyStarted => 409,
            LobbyError::Full => 409,
            LobbyError::Deployment(DeploymentError::Timeout) => 408,
            LobbyError::Deployment(DeploymentError::NoResponders) => 503,
            LobbyError::Deployment(DeploymentError::Other) => 500,
            LobbyError::Deployment(DeploymentError::ServiceError { code, .. }) => {
                let low: u16 = (*code % 0x1_0000) as u16;
                match checked_status(low) {
                    Some(status) => status,
                    None => 500,
                }
            },
        }
    }

    /// The text that answers the refusal.
    pub fn message(&self) -> (text: String)
        ensures
            text@ == message_of(*self),
    {
        match self {
            LobbyError::CapacityExceeded { max_rooms } => {
                let mut text = String::from_str("maximum active rooms reached (");
                let number = crate::text::format_decimal(*max_rooms as u64);
                text.append(number.as_str());
                text.append(")");
                text
            },
            LobbyError::NotFound => String::from_str("room not found"),
            LobbyError::AlreadyStarted => String::from_str("room already started"),
            LobbyError::Full => String::from_str("room full"),
            LobbyError::Deployment(DeploymentError::Timeout) => describe_failure(
                RequestFailure::TimedOut,
            ),
            LobbyError::Deployment(DeploymentError::NoResponders) => describe_failure(
                RequestFailure::NoResponders,
            ),
            LobbyError::Deployment(DeploymentError::Other) => describe_failure(
                RequestFailure::Other,
            ),
            LobbyError::Deployment(DeploymentError::ServiceError { message, .. }) => {
                let mut text = String::from_str("Failed to deploy game server: ");
                text.append(message.as_str());
                text
            },
        }
    }
}

} // verus!
