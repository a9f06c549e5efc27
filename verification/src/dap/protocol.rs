use vstd::prelude::*;

verus! {

/// `serde_json::Value`, an arbitrary JSON value carried through unchanged.
#[verifier::external_type_specification]
#[verifier::external_body]
pub struct ExJsonValue(serde_json::Value);

/// Type discriminator for incoming requests.
#[derive(Debug, Clone, Copy, PartialEq, Eq)]
pub enum RequestMessageType {
    Request,
}

/// Type discriminator for responses.
#[derive(Debug, Clone, Copy, PartialEq, Eq)]
pub enum ResponseMessageType {
    Response,
}

/// Type discriminator for events.
#[derive(Debug, Clone, Copy, PartialEq, Eq)]
pub enum EventMessageType {
    Event,
}

/// A request sent from a DAP client to the debug adapter.
#[derive(Debug, Clone, PartialEq)]
pub struct Request {
    /// Sequence number assigned by the client.
    pub seq: u64,
    /// Must contain `"request"`.
    pub message_type: RequestMessageType,
    /// Name of the requested operation.
    pub command: String,
    /// Command-specific arguments.
    pub arguments: Option<serde_json::Value>,
}

/// A response sent by the debug adapter.
#[derive(Debug, Clone, PartialEq)]
pub struct Response {
    /// Sequence number assigned by the adapter.
    pub seq: u64,
    /// Must contain `"response"`.
    pub message_type: ResponseMessageType,
    /// Sequence number of the corresponding request.
    pub request_seq: u64,
    /// Whether the request completed successfully.
    pub success: bool,
    /// Name of the request being answered.
    pub command: String,
    /// Human-readable error description.
    pub message: Option<String>,
    /// Command-specific response data.
    pub body: Option<serde_json::Value>,
}

impl Response {
    /// Creates a successful response.
    pub fn success(seq: u64, request: &Request, body: Option<serde_json::Value>) -> (res: Response)
        ensures
            res.seq == seq,
            res.request_seq == request.seq,
            res.success,
            res.command@ == request.command@,
            res.message is None,
            res.body == body,
    {
        Response {
            seq,
            message_type: ResponseMessageType::Response,
            request_seq: request.seq,
            success: true,
            command: request.command.clone(),
            message: None,
            body,
        }
    }

    /// Creates an unsuccessful response.
    pub fn error(seq: u64, request: &Request, message: &str) -> (res: Response)
        ensures
            res.seq == seq,
            res.request_seq == request.seq,
            !res.success,
            res.command@ == request.command@,
            res.message matches Some(m) && m@ == message@,
            res.body is None,
    {
        Response {
            seq,
            message_type: ResponseMessageType::Response,
            request_seq: request.seq,
            success: false,
            command: request.command.clone(),
            message: Some(message.to_owned()),
            body: None,
        }
    }
}

/// An asynchronous event sent by the debug adapter.
#[derive(Debug, Clone, PartialEq)]
pub struct Event {
    /// Sequence number assigned by the adapter.
    pub seq: u64,
    /// Must contain `"event"`.
    pub message_type: EventMessageType,
    /// Name of the event.
    pub event: String,
    /// Event-specific data.
    pub body: Option<serde_json::Value>,
}

impl Event {
    /// Creates an event without a body.
    pub fn new(seq: u64, event: &str) -> (res: Event)
        ensures
            res.seq == seq,
            res.event@ == event@,
            res.body is None,
    {
        Event { seq, message_type: EventMessageType::Event, event: event.to_owned(), body: None }
    }

    /// Creates an event with a JSON body.
    pub fn with_body(seq: u64, event: &str, body: serde_json::Value) -> (res: Event)
        ensures
            res.seq == seq,
            res.event@ == event@,
            res.body == Some(body),
    {
        Event {
            seq,
            message_type: EventMessageType::Event,
            event: event.to_owned(),
            body: Some(body),
        }
    }
}

/// Any message that can be sent by the adapter.
#[derive(Debug, Clone, PartialEq)]
pub enum OutgoingMessage {
    Response(Response),
    Event(Event),
}

} // verus!
