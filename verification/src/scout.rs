//! The scout agent's side of a connection: how it answers requests, and how
//! it follows its connection to the controller.

use std::collections::HashMap;

use vstd::prelude::*;
use vstd::std_specs::iter::IteratorSpec;
use vstd::string::*;

use crate::ids::{hyphenated, parsed_uuid, uuid_result, UuidError};
use crate::time::Duration;
use crate::wire::{
    on_flow, Answer, ApiBoundPayload, Handler, MachineId, MessageView, PingReply, ReplyView,
    RequestView, ScoutBoundPayload, ScoutStreamAgentPingResponse, ScoutStreamApiBoundMessage,
    ScoutStreamScoutBoundMessage,
};

verus! {

broadcast use vstd::std_specs::hash::group_hash_axioms;

/// Why a connection to the controller ended; errors of other layers by their
/// texts.
#[derive(Clone, Debug)]
pub enum ScoutStreamError {
    Grpc(String),
    Transport(String),
    Profile(String),
    ConnectionLost,
    InvalidRequest(String),
    InvalidUri(String),
    ClientError(String),
}

/// An error with its texts as sequences.
pub enum ScoutErrorView {
    Grpc(Seq<char>),
    Transport(Seq<char>),
    Profile(Seq<char>),
    ConnectionLost,
    InvalidRequest(Seq<char>),
    InvalidUri(Seq<char>),
    ClientError(Seq<char>),
}

impl View for ScoutStreamError {
    type V = ScoutErrorView;

    open spec fn view(&self) -> ScoutErrorView {
        match self {
            ScoutStreamError::Grpc(e) => ScoutErrorView::Grpc(e@),
            ScoutStreamError::Transport(e) => ScoutErrorView::Transport(e@),
            ScoutStreamError::Profile(e) => ScoutErrorView::Profile(e@),
            ScoutStreamError::ConnectionLost => ScoutErrorView::ConnectionLost,
            ScoutStreamError::InvalidRequest(e) => ScoutErrorView::InvalidRequest(e@),
            ScoutStreamError::InvalidUri(e) => ScoutErrorView::InvalidUri(e@),
            ScoutStreamError::ClientError(e) => ScoutErrorView::ClientError(e@),
        }
    }
}

/// What an error says.
pub open spec fn scout_error_text(error: ScoutErrorView) -> Seq<char> {
    match error {
        ScoutErrorView::Grpc(e) => "gRPC error: "@ + e,
        ScoutErrorView::Transport(e) => "Transport error: "@ + e,
        ScoutErrorView::Profile(e) => "Profile error: "@ + e,
        ScoutErrorView::ConnectionLost => "Connection lost"@,
        ScoutErrorView::InvalidRequest(e) => "Invalid request: "@ + e,
        ScoutErrorView::InvalidUri(e) => "Invalid URI: "@ + e,
        ScoutErrorView::ClientError(e) => "Client initialization error: "@ + e,
    }
}

impl ScoutStreamError {
    /// What the error says.
    pub fn to_string(&self) -> (r: String)
        ensures
            r@ == scout_error_text(self@),
    {
        match self {
            ScoutStreamError::Grpc(e) => "gRPC error: ".to_owned().concat(e.as_str()),
            ScoutStreamError::Transport(e) => "Transport error: ".to_owned().concat(e.as_str()),
            ScoutStreamError::Profile(e) => "Profile error: ".to_owned().concat(e.as_str()),
            ScoutStreamError::ConnectionLost => "Connection lost".to_owned(),
            ScoutStreamError::InvalidRequest(e) => "Invalid request: ".to_owned().concat(
                e.as_str(),
            ),
            ScoutStreamError::InvalidUri(e) => "Invalid URI: ".to_owned().concat(e.as_str()),
            ScoutStreamError::ClientError(e) => "Client initialization error: ".to_owned().concat(
                e.as_str(),
            ),
        }
    }
}

/// The text that a machine answers a ping with.
pub open spec fn pong(machine_id: Seq<char>) -> Seq<char> {
    "pong from "@ + machine_id
}

/// Answers a ping.
pub fn handle_ping(machine_id: &MachineId) -> (r: ScoutStreamAgentPingResponse)
    ensures
        r.reply matches Some(PingReply::Pong(text)) && text@ == pong(machine_id@),
{
    ScoutStreamAgentPingResponse {
        reply: Some(PingReply::Pong("pong from ".to_owned().concat(machine_id.as_str()))),
    }
}

/// How a request for one response is handled.
pub enum Handling {
    /// The response is here.
    Reply(ScoutStreamApiBoundMessage),
    /// This handler makes the body of the response from the body of the
    /// request.
    Call(Handler, Vec<u8>),
}

/// How a request is handled, with its bytes as sequences.
pub enum HandlingView {
    Reply(MessageView<ReplyView>),
    Call(Handler, Seq<u8>),
}

impl View for Handling {
    type V = HandlingView;

    open spec fn view(&self) -> HandlingView {
        match self {
            Handling::Reply(message) => HandlingView::Reply(message@),
            Handling::Call(handler, body) => HandlingView::Call(*handler, body@),
        }
    }
}

/// Whether a request starts or stops a log stream, and so has no single
/// response.
pub open spec fn controls_log_stream(request: RequestView) -> bool {
    request is StartLogStream || request is StopLogStream
}

/// How a request on a flow is handled.
pub open spec fn handling(flow_uuid: u128, machine_id: Seq<char>, request: RequestView) -> HandlingView {
    match request {
        RequestView::Call(handler, body) => HandlingView::Call(handler, body),
        _ => HandlingView::Reply(on_flow(flow_uuid, ReplyView::Ping(Some(pong(machine_id))))),
    }
}

/// Which handler a request goes to; a ping is answered at once, on the flow
/// that it came on.
pub fn handle_scout_stream_api_bound_message(
    flow_uuid: u128,
    machine_id: &MachineId,
    request: ScoutBoundPayload,
) -> (r: Handling)
    requires
        !controls_log_stream(request@),
    ensures
        r@ == handling(flow_uuid, machine_id@, request@),
{
    match request {
        ScoutBoundPayload::ScoutStreamAgentPingRequest => {
            let response = handle_ping(machine_id);
            Handling::Reply(
                ScoutStreamApiBoundMessage::from_flow(
                    flow_uuid,
                    ApiBoundPayload::ScoutStreamAgentPingResponse(response),
                ),
            )
        },
        ScoutBoundPayload::MlxDeviceProfileSyncRequest(req) => Handling::Call(
            Handler::ProfileSync,
            req,
        ),
        ScoutBoundPayload::MlxDeviceProfileCompareRequest(req) => Handling::Call(
            Handler::ProfileCompare,
            req,
        ),
        ScoutBoundPayload::MlxDeviceLockdownLockRequest(req) => Handling::Call(
            Handler::LockdownLock,
            req,
        ),
        ScoutBoundPayload::MlxDeviceLockdownUnlockRequest(req) => Handling::Call(
            Handler::LockdownUnlock,
            req,
        ),
        ScoutBoundPayload::MlxDeviceLockdownStatusRequest(req) => Handling::Call(
            Handler::LockdownStatus,
            req,
        ),
        ScoutBoundPayload::MlxDeviceInfoDeviceRequest(req) => Handling::Call(
            Handler::InfoDevice,
            req,
        ),
        ScoutBoundPayload::MlxDeviceInfoReportRequest(req) => Handling::Call(
            Handler::InfoReport,
            req,
        ),
        ScoutBoundPayload::MlxDeviceRegistryListRequest(req) => Handling::Call(
            Handler::RegistryList,
            req,
        ),
        ScoutBoundPayload::MlxDeviceRegistryShowRequest(req) => Handling::Call(
            Handler::RegistryShow,
            req,
        ),
        ScoutBoundPayload::MlxDeviceConfigQueryRequest(req) => Handling::Call(
            Handler::ConfigQuery,
            req,
        ),
        ScoutBoundPayload::MlxDeviceConfigSetRequest(req) => Handling::Call(
            Handler::ConfigSet,
            req,
        ),
        ScoutBoundPayload::MlxDeviceConfigSyncRequest(req) => Handling::Call(
            Handler::ConfigSync,
            req,
        ),
        ScoutBoundPayload::MlxDeviceConfigCompareRequest(req) => Handling::Call(
            Handler::ConfigCompare,
            req,
        ),
        ScoutBoundPayload::StartLogStreamRequest | ScoutBoundPayload::StopLogStreamRequest => {
            assert(false);
            Handling::Call(Handler::ProfileSync, Vec::new())
        },
    }
}

/// The answer that a handler's response travels as.
pub open spec fn answer_of(handler: Handler) -> Answer {
    match handler {
        Handler::ProfileSync => Answer::ProfileSync,
        Handler::ProfileCompare => Answer::ProfileCompare,
        Handler::LockdownLock => Answer::Lockdown,
        Handler::LockdownUnlock => Answer::Lockdown,
        Handler::LockdownStatus => Answer::Lockdown,
        Handler::InfoDevice => Answer::InfoDevice,
        Handler::InfoReport => Answer::InfoReport,
        Handler::RegistryList => Answer::RegistryList,
        Handler::RegistryShow => Answer::RegistryShow,
        Handler::ConfigQuery => Answer::ConfigQuery,
        Handler::ConfigSet => Answer::ConfigSet,
        Handler::ConfigSync => Answer::ConfigSync,
        Handler::ConfigCompare => Answer::ConfigCompare,
    }
}

/// Wraps a handler's response for the flow of its request.
pub fn wrap_response(flow_uuid: u128, handler: Handler, response: Vec<u8>) -> (r:
    ScoutStreamApiBoundMessage)
    ensures
        r@ == on_flow(flow_uuid, ReplyView::Answer(answer_of(handler), response@)),
{
    let payload = match handler {
        Handler::ProfileSync => ApiBoundPayload::MlxDeviceProfileSyncResponse(response),
        Handler::ProfileCompare => ApiBoundPayload::MlxDeviceProfileCompareResponse(response),
        Handler::LockdownLock => ApiBoundPayload::MlxDeviceLockdownResponse(response),
        Handler::LockdownUnlock => ApiBoundPayload::MlxDeviceLockdownResponse(response),
        Handler::LockdownStatus => ApiBoundPayload::MlxDeviceLockdownResponse(response),
        Handler::InfoDevice => ApiBoundPayload::MlxDeviceInfoDeviceResponse(response),
        Handler::InfoReport => ApiBoundPayload::MlxDeviceInfoReportResponse(response),
        Handler::RegistryList => ApiBoundPayload::MlxDeviceRegistryListResponse(response),
        Handler::RegistryShow => ApiBoundPayload::MlxDeviceRegistryShowResponse(response),
        Handler::ConfigQuery => ApiBoundPayload::MlxDeviceConfigQueryResponse(response),
        Handler::ConfigSet => ApiBoundPayload::MlxDeviceConfigSetResponse(response),
        Handler::ConfigSync => ApiBoundPayload::MlxDeviceConfigSyncResponse(response),
        Handler::ConfigCompare => ApiBoundPayload::MlxDeviceConfigCompareResponse(response),
    };
    ScoutStreamApiBoundMessage::from_flow(flow_uuid, payload)
}

/// The first message of a connection: it is on no flow and names the
/// machine.
pub open spec fn init_message(machine_id: Seq<char>) -> MessageView<ReplyView> {
    MessageView { flow_uuid: None, payload: Some(ReplyView::Init(machine_id)) }
}

/// What a message from the controller comes to.
pub enum Incoming {
    /// It says nothing and is passed over.
    Nothing,
    /// It cannot be followed, and the connection ends.
    Broken(ScoutErrorView),
    /// It is this request on this flow.
    Request(u128, RequestView),
}

/// The flow that was read from a message, or the error that ends the
/// connection.
pub open spec fn incoming_flow(parsed: Result<u128, (Seq<char>, Seq<char>)>) -> Result<
    u128,
    ScoutErrorView,
> {
    match parsed {
        Ok(id) => Ok(id),
        Err((message, _)) => Err(
            ScoutErrorView::ClientError("failed to convert flow_uuid: "@ + message),
        ),
    }
}

/// What a message from the controller comes to: without a payload nothing;
/// with one it has to name a flow that can be read.
pub open spec fn incoming(message: MessageView<RequestView>) -> Incoming {
    match (message.payload, message.flow_uuid) {
        (None, _) => Incoming::Nothing,
        (Some(_), None) => Incoming::Broken(
            ScoutErrorView::InvalidRequest("cannot determine flow, flow_uuid empty from API"@),
        ),
        (Some(request), Some(value)) => match incoming_flow(parsed_uuid(value)) {
            Ok(id) => Incoming::Request(id, request),
            Err(error) => Incoming::Broken(error),
        },
    }
}

/// The flow that was read from a message, or the error that ends the
/// connection.
pub fn read_incoming_flow(parsed: Result<u128, UuidError>) -> (r: Result<u128, ScoutStreamError>)
    ensures
        match r {
            Ok(id) => incoming_flow(uuid_result(parsed)) == Ok::<u128, ScoutErrorView>(id),
            Err(error) => incoming_flow(uuid_result(parsed)) == Err::<u128, ScoutErrorView>(error@),
        },
{
    match parsed {
        Ok(id) => Ok(id),
        Err(error) => Err(
            ScoutStreamError::ClientError(
                "failed to convert flow_uuid: ".to_owned().concat(error.message.as_str()),
            ),
        ),
    }
}

/// What the agent does next on its connection.
pub enum SessionStep {
    /// Make a client for the controller.
    CreateClient,
    /// Queue the first message.
    SendInit(ScoutStreamApiBoundMessage),
    /// Open the stream.
    Connect,
    /// Wait for a message from the controller.
    Receive,
    /// Start to relay the agent's log on this flow.
    StartRelay(u128),
    /// Let a handler answer a request on this flow.
    Call(u128, Handler, Vec<u8>),
    /// Send a response.
    Send(ScoutStreamApiBoundMessage),
    /// The connection is over.
    Finished(ScoutStreamError),
}

/// What came of a step; `H` is the handle of a relay.
pub enum SessionEvent<H> {
    /// It was done.
    Done,
    /// It failed; the text of the error.
    Failed(String),
    /// This message came.
    Received(ScoutStreamScoutBoundMessage),
    /// The controller closed the stream.
    Ended,
    /// The relay runs.
    RelayStarted(H),
    /// The handler made this body.
    Answered(Vec<u8>),
}

/// A step with its bytes and texts as sequences.
pub enum SessionStepView {
    CreateClient,
    SendInit(MessageView<ReplyView>),
    Connect,
    Receive,
    StartRelay(u128),
    Call(u128, Handler, Seq<u8>),
    Send(MessageView<ReplyView>),
    Finished(ScoutErrorView),
}

impl View for SessionStep {
    type V = SessionStepView;

    open spec fn view(&self) -> SessionStepView {
        match self {
            SessionStep::CreateClient => SessionStepView::CreateClient,
            SessionStep::SendInit(message) => SessionStepView::SendInit(message@),
            SessionStep::Connect => SessionStepView::Connect,
            SessionStep::Receive => SessionStepView::Receive,
            SessionStep::StartRelay(flow) => SessionStepView::StartRelay(*flow),
            SessionStep::Call(flow, handler, body) => SessionStepView::Call(*flow, *handler, body@),
            SessionStep::Send(message) => SessionStepView::Send(message@),
            SessionStep::Finished(error) => SessionStepView::Finished(error@),
        }
    }
}

/// An event with its bytes and texts as sequences.
pub enum SessionEventView<H> {
    Done,
    Failed(Seq<char>),
    Received(MessageView<RequestView>),
    Ended,
    RelayStarted(H),
    Answered(Seq<u8>),
}

impl<H> View for SessionEvent<H> {
    type V = SessionEventView<H>;

    open spec fn view(&self) -> SessionEventView<H> {
        match self {
            SessionEvent::Done => SessionEventView::Done,
            SessionEvent::Failed(reason) => SessionEventView::Failed(reason@),
            SessionEvent::Received(message) => SessionEventView::Received(message@),
            SessionEvent::Ended => SessionEventView::Ended,
            SessionEvent::RelayStarted(handle) => SessionEventView::RelayStarted(*handle),
            SessionEvent::Answered(body) => SessionEventView::Answered(body@),
        }
    }
}

/// A connection: its step, and the log relays that run, by their flows.
pub struct SessionView<H> {
    pub step: SessionStepView,
    pub relays: Map<u128, H>,
}

/// A connection after a request on a flow, and the relay that is to be
/// stopped, if any: a start of a log stream asks for a relay, a stop ends
/// the flow's relay, and any other request is handled for one response.
pub open spec fn after_request<H>(
    machine_id: Seq<char>,
    relays: Map<u128, H>,
    flow_uuid: u128,
    request: RequestView,
) -> (SessionView<H>, Option<H>) {
    match request {
        RequestView::StartLogStream => (
            SessionView { step: SessionStepView::StartRelay(flow_uuid), relays },
            None,
        ),
        RequestView::StopLogStream => (
            SessionView { step: SessionStepView::Receive, relays: relays.remove(flow_uuid) },
            relay_of(relays, flow_uuid),
        ),
        _ => match handling(flow_uuid, machine_id, request) {
            HandlingView::Reply(message) => (
                SessionView { step: SessionStepView::Send(message), relays },
                None,
            ),
            HandlingView::Call(handler, body) => (
                SessionView { step: SessionStepView::Call(flow_uuid, handler, body), relays },
                None,
            ),
        },
    }
}

/// The relay of a flow, if one runs.
pub open spec fn relay_of<H>(relays: Map<u128, H>, flow_uuid: u128) -> Option<H> {
    if relays.contains_key(flow_uuid) {
        Some(relays[flow_uuid])
    } else {
        None
    }
}

/// A connection after an event, and the relay that is to be stopped, if any.
/// An event that does not belong to the step changes nothing; a relay that
/// was not asked for is to be stopped at once.
pub open spec fn session_next<H>(
    machine_id: Seq<char>,
    session: SessionView<H>,
    event: SessionEventView<H>,
) -> (SessionView<H>, Option<H>) {
    let relays = session.relays;
    match (session.step, event) {
        (SessionStepView::CreateClient, SessionEventView::Done) => (
            SessionView { step: SessionStepView::SendInit(init_message(machine_id)), relays },
            None,
        ),
        (SessionStepView::CreateClient, SessionEventView::Failed(reason)) => (
            finished(relays, ScoutErrorView::ClientError(reason)),
            None,
        ),
        (SessionStepView::SendInit(_), SessionEventView::Done) => (
            SessionView { step: SessionStepView::Connect, relays },
            None,
        ),
        (SessionStepView::SendInit(_), SessionEventView::Failed(reason)) => (
            finished(
                relays,
                ScoutErrorView::InvalidRequest(
                    "scout stream failed to send init request: "@ + reason,
                ),
            ),
            None,
        ),
        (SessionStepView::Connect, SessionEventView::Done) => (
            SessionView { step: SessionStepView::Receive, relays },
            None,
        ),
        (SessionStepView::Connect, SessionEventView::Failed(reason)) => (
            finished(relays, ScoutErrorView::Grpc(reason)),
            None,
        ),
        (SessionStepView::Receive, SessionEventView::Ended) => (
            finished(relays, ScoutErrorView::ConnectionLost),
            None,
        ),
        (SessionStepView::Receive, SessionEventView::Failed(reason)) => (
            finished(relays, ScoutErrorView::Grpc(reason)),
            None,
        ),
        (SessionStepView::Receive, SessionEventView::Received(message)) => match incoming(message) {
            Incoming::Nothing => (session, None),
            Incoming::Broken(error) => (finished(relays, error), None),
            Incoming::Request(flow, request) => after_request(machine_id, relays, flow, request),
        },
        (SessionStepView::StartRelay(flow), SessionEventView::RelayStarted(handle)) => (
            SessionView { step: SessionStepView::Receive, relays: relays.insert(flow, handle) },
            relay_of(relays, flow),
        ),
        (SessionStepView::Call(flow, handler, _), SessionEventView::Answered(body)) => (
            SessionView {
                step: SessionStepView::Send(
                    on_flow(flow, ReplyView::Answer(answer_of(handler), body)),
                ),
                relays,
            },
            None,
        ),
        (SessionStepView::Send(_), SessionEventView::Done) => (
            SessionView { step: SessionStepView::Receive, relays },
            None,
        ),
        (SessionStepView::Send(_), SessionEventView::Failed(_)) => (
            finished(relays, ScoutErrorView::ConnectionLost),
            None,
        ),
        (_, SessionEventView::RelayStarted(handle)) => (session, Some(handle)),
        _ => (session, None),
    }
}

/// A connection that is over.
pub open spec fn finished<H>(relays: Map<u128, H>, error: ScoutErrorView) -> SessionView<H> {
    SessionView { step: SessionStepView::Finished(error), relays }
}

/// The agent's connection to the controller, from the making of its client
/// to its end.
pub struct ScoutSession<H> {
    machine_id: MachineId,
    relays: HashMap<u128, H>,
    step: SessionStep,
}

impl<H> View for ScoutSession<H> {
    type V = SessionView<H>;

    closed spec fn view(&self) -> SessionView<H> {
        SessionView { step: self.step@, relays: self.relays@ }
    }
}

impl<H> ScoutSession<H> {
    /// The machine that the agent runs on.
    pub closed spec fn machine(&self) -> Seq<char> {
        self.machine_id@
    }

    /// A connection that is about to be made, without relays.
    pub fn run_scout_stream_loop(machine_id: MachineId) -> (r: Self)
        ensures
            r.machine() == machine_id@,
            r@ == (SessionView::<H> { step: SessionStepView::CreateClient, relays: Map::empty() }),
    {
        ScoutSession { machine_id, relays: HashMap::new(), step: SessionStep::CreateClient }
    }

    /// What to do next.
    pub fn step(&self) -> (r: &SessionStep)
        ensures
            r@ == self@.step,
    {
        &self.step
    }

    /// The connection after an event, and the relay to stop, if any.
    pub fn advance(self, event: SessionEvent<H>) -> (r: (Self, Option<H>))
        ensures
            r.0.machine() == self.machine(),
            (r.0@, r.1) == session_next(self.machine(), self@, event@),
            event matches SessionEvent::Received(message) ==> forall|id: u128|
                #![trigger hyphenated(id)]
                self@.step is Receive && message@.flow_uuid == Some(hyphenated(id))
                    && message@.payload is Some ==> (r.0@, r.1) == after_request(
                    self.machine(),
                    self@.relays,
                    id,
                    message@.payload->0,
                ),
    {
        let machine_id = self.machine_id;
        let mut relays = self.relays;
        match (self.step, event) {
            (SessionStep::CreateClient, SessionEvent::Done) => {
                let init = ScoutStreamApiBoundMessage {
                    flow_uuid: None,
                    payload: Some(ApiBoundPayload::Init(machine_id.clone())),
                };
                (ScoutSession { machine_id, relays, step: SessionStep::SendInit(init) }, None)
            },
            (SessionStep::CreateClient, SessionEvent::Failed(reason)) => {
                let error = ScoutStreamError::ClientError(reason);
                (ScoutSession { machine_id, relays, step: SessionStep::Finished(error) }, None)
            },
            (SessionStep::SendInit(_), SessionEvent::Done) => {
                (ScoutSession { machine_id, relays, step: SessionStep::Connect }, None)
            },
            (SessionStep::SendInit(_), SessionEvent::Failed(reason)) => {
                let error = ScoutStreamError::InvalidRequest(
                    "scout stream failed to send init request: ".to_owned().concat(reason.as_str()),
                );
                (ScoutSession { machine_id, relays, step: SessionStep::Finished(error) }, None)
            },
            (SessionStep::Connect, SessionEvent::Done) => {
                (ScoutSession { machine_id, relays, step: SessionStep::Receive }, None)
            },
            (SessionStep::Connect, SessionEvent::Failed(reason)) => {
                let error = ScoutStreamError::Grpc(reason);
                (ScoutSession { machine_id, relays, step: SessionStep::Finished(error) }, None)
            },
            (SessionStep::Receive, SessionEvent::Ended) => {
                let error = ScoutStreamError::ConnectionLost;
                (ScoutSession { machine_id, relays, step: SessionStep::Finished(error) }, None)
            },
            (SessionStep::Receive, SessionEvent::Failed(reason)) => {
                let error = ScoutStreamError::Grpc(reason);
                (ScoutSession { machine_id, relays, step: SessionStep::Finished(error) }, None)
            },
            (SessionStep::Receive, SessionEvent::Received(message)) => {
                let request = match message.payload {
                    Some(request) => request,
                    None => {
                        return (
                            ScoutSession { machine_id, relays, step: SessionStep::Receive },
                            None,
                        );
                    },
                };
                let flow = match message.flow_uuid {
                    Some(flow_uuid) => read_incoming_flow(flow_uuid.decode()),
                    None => Err(
                        ScoutStreamError::InvalidRequest(
                            "cannot determine flow, flow_uuid empty from API".to_owned(),
                        ),
                    ),
                };
                match flow {
                    Ok(flow_uuid) => {
                        Self { machine_id, relays, step: SessionStep::Receive }.request(
                            flow_uuid,
                            request,
                        )
                    },
                    Err(error) => {
                        (
                            ScoutSession { machine_id, relays, step: SessionStep::Finished(error) },
                            None,
                        )
                    },
                }
            },
            (SessionStep::StartRelay(flow_uuid), SessionEvent::RelayStarted(handle)) => {
                let previous = relays.insert(flow_uuid, handle);
                (ScoutSession { machine_id, relays, step: SessionStep::Receive }, previous)
            },
            (SessionStep::Call(flow_uuid, handler, _), SessionEvent::Answered(body)) => {
                let response = wrap_response(flow_uuid, handler, body);
                (ScoutSession { machine_id, relays, step: SessionStep::Send(response) }, None)
            },
            (SessionStep::Send(_), SessionEvent::Done) => {
                (ScoutSession { machine_id, relays, step: SessionStep::Receive }, None)
            },
            (SessionStep::Send(_), SessionEvent::Failed(_)) => {
                let error = ScoutStreamError::ConnectionLost;
                (ScoutSession { machine_id, relays, step: SessionStep::Finished(error) }, None)
            },
            (step, SessionEvent::RelayStarted(handle)) => {
                (ScoutSession { machine_id, relays, step }, Some(handle))
            },
            (step, _) => (ScoutSession { machine_id, relays, step }, None),
        }
    }

    /// The connection after a request on a flow, and the relay to stop, if
    /// any.
    fn request(self, flow_uuid: u128, request: ScoutBoundPayload) -> (r: (Self, Option<H>))
        ensures
            r.0.machine() == self.machine(),
            (r.0@, r.1) == after_request(self.machine(), self@.relays, flow_uuid, request@),
    {
        let machine_id = self.machine_id;
        let mut relays = self.relays;
        match request {
            ScoutBoundPayload::StartLogStreamRequest => {
                (ScoutSession { machine_id, relays, step: SessionStep::StartRelay(flow_uuid) }, None)
            },
            ScoutBoundPayload::StopLogStreamRequest => {
                let previous = relays.remove(&flow_uuid);
                (ScoutSession { machine_id, relays, step: SessionStep::Receive }, previous)
            },
            request => {
                let handling = handle_scout_stream_api_bound_message(
                    flow_uuid,
                    &machine_id,
                    request,
                );
                let step = match handling {
                    Handling::Reply(message) => SessionStep::Send(message),
                    Handling::Call(handler, body) => SessionStep::Call(flow_uuid, handler, body),
                };
                (ScoutSession { machine_id, relays, step }, None)
            },
        }
    }

    /// The relays that still run, each once and in no particular order; at
    /// the end of the connection every one of them is to be stopped.
    pub fn into_relays(self) -> (r: Vec<H>)
        ensures
            exists|flows: Seq<u128>| #[trigger] lists_relays(self@.relays, flows, r@),
    {
        let mut relays = self.relays;
        let mut flows: Vec<u128> = Vec::new();
        let ghost all = relays@;
        let keys = relays.keys();
        let ghost order = keys.remaining();
        for flow in it: keys
            invariant
                it.seq() == order,
                flows@ == order.take(it.index() as int).unref(),
        {
            flows.push(*flow);
        }
        proof {
            assert(order.take(order.len() as int) =~= order);
            assert(flows@ == order.unref());
        }
        let mut handles: Vec<H> = Vec::new();
        let mut i: usize = 0;
        while i < flows.len()
            invariant
                i <= flows.len(),
                flows@.no_duplicates(),
                flows@.to_set() == all.dom(),
                handles.len() == i,
                forall|k: int| 0 <= k < i ==> #[trigger] handles[k] == all[flows[k]],
                forall|k: int|
                    i <= k < flows.len() ==> relays@.contains_key(#[trigger] flows[k])
                        && relays@[flows[k]] == all[flows[k]],
            decreases flows.len() - i,
        {
            assert(relays@.contains_key(flows[i as int]));
            if let Some(handle) = relays.remove(&flows[i]) {
                handles.push(handle);
            }
            i += 1;
        }
        proof {
            assert(handles@ =~= flows@.map_values(|flow: u128| all[flow]));
            assert(lists_relays(self@.relays, flows@, handles@));
        }
        handles
    }
}

/// Whether a list holds the relay of each flow once, in the order of these
/// flows.
pub open spec fn lists_relays<H>(relays: Map<u128, H>, flows: Seq<u128>, list: Seq<H>) -> bool {
    &&& flows.no_duplicates()
    &&& flows.to_set() == relays.dom()
    &&& list == flows.map_values(|flow: u128| relays[flow])
}

/// A connection after a list of events, and the relays that were to be
/// stopped on the way, in order.
pub open spec fn session_run<H>(
    machine_id: Seq<char>,
    session: SessionView<H>,
    events: Seq<SessionEventView<H>>,
) -> (SessionView<H>, Seq<H>)
    decreases events.len(),
{
    if events.len() == 0 {
        (session, Seq::empty())
    } else {
        let (before, stopped) = session_run(machine_id, session, events.drop_last());
        let (after, stop) = session_next(machine_id, before, events.last());
        (
            after,
            match stop {
                Some(handle) => stopped.push(handle),
                None => stopped,
            },
        )
    }
}

/// No relay is lost: every relay that was started has been stopped, or is
/// among those that run and are stopped when the connection ends.
pub proof fn law_no_relay_is_lost<H>(
    machine_id: Seq<char>,
    session: SessionView<H>,
    events: Seq<SessionEventView<H>>,
    handle: H,
)
    requires
        events.contains(SessionEventView::RelayStarted(handle)),
    ensures
        ({
            let (after, stopped) = session_run(machine_id, session, events);
            stopped.contains(handle) || after.relays.contains_value(handle)
        }),
    decreases events.len(),
{
    let event = SessionEventView::RelayStarted(handle);
    let at = choose|i: int| 0 <= i < events.len() && events[i] == event;
    let (before, stopped) = session_run(machine_id, session, events.drop_last());
    let (after, stop) = session_next(machine_id, before, events.last());
    let all = session_run(machine_id, session, events).1;
    if stop is Some {
        assert(all.last() == stop->0);
    }
    assert forall|h: H| stopped.contains(h) implies all.contains(h) by {
        let k = choose|k: int| 0 <= k < stopped.len() && stopped[k] == h;
        assert(all[k] == h);
    }
    if at == events.len() - 1 {
        if before.step is StartRelay {
            let flow = before.step->StartRelay_0;
            assert(after.relays.contains_key(flow) && after.relays[flow] == handle);
        }
    } else {
        assert(events.drop_last()[at] == event);
        law_no_relay_is_lost(machine_id, session, events.drop_last(), handle);
        if !stopped.contains(handle) {
            let flow = choose|flow: u128|
                #![trigger before.relays[flow]]
                before.relays.contains_key(flow) && before.relays[flow] == handle;
            if after.relays.contains_key(flow) && after.relays[flow] == handle {
            } else {
                assert(stop == Some(handle));
            }
        }
    }
}

/// Only relays that were started run or are stopped.
pub proof fn law_only_started_relays<H>(
    machine_id: Seq<char>,
    events: Seq<SessionEventView<H>>,
    handle: H,
)
    requires
        ({
            let start = SessionView::<H> {
                step: SessionStepView::CreateClient,
                relays: Map::empty(),
            };
            let (after, stopped) = session_run(machine_id, start, events);
            stopped.contains(handle) || after.relays.contains_value(handle)
        }),
    ensures
        events.contains(SessionEventView::RelayStarted(handle)),
    decreases events.len(),
{
    let start = SessionView::<H> { step: SessionStepView::CreateClient, relays: Map::empty() };
    if events.len() > 0 {
        let earlier = events.drop_last();
        let (before, stopped) = session_run(machine_id, start, earlier);
        let (after, stop) = session_next(machine_id, before, events.last());
        let all = session_run(machine_id, start, events).1;
        let event = SessionEventView::RelayStarted(handle);
        if events.last() == event {
            assert(events[events.len() - 1] == event);
        } else {
            if all.contains(handle) {
                let k = choose|k: int| 0 <= k < all.len() && all[k] == handle;
                if k < stopped.len() {
                    assert(stopped[k] == handle);
                } else {
                    assert(stop == Some(handle));
                    assert(exists|flow: u128|
                        #![trigger before.relays[flow]]
                        before.relays.contains_key(flow) && before.relays[flow] == handle);
                }
            } else {
                let flow = choose|flow: u128|
                    #![trigger after.relays[flow]]
                    after.relays.contains_key(flow) && after.relays[flow] == handle;
                assert(before.relays.contains_key(flow) && before.relays[flow] == handle);
            }
            law_only_started_relays(machine_id, earlier, handle);
            let i = choose|i: int| 0 <= i < earlier.len() && earlier[i] == event;
            assert(events[i] == event);
        }
    }
}

/// A connection that is over stays over, with its error and its relays.
pub proof fn law_session_end_is_final<H>(
    machine_id: Seq<char>,
    session: SessionView<H>,
    events: Seq<SessionEventView<H>>,
)
    requires
        session.step is Finished,
    ensures
        session_run(machine_id, session, events).0 == session,
    decreases events.len(),
{
    if events.len() > 0 {
        law_session_end_is_final(machine_id, session, events.drop_last());
    }
}

/// The request for one response that an event brings, if it brings one, with
/// its flow.
pub open spec fn request_taken<H>(session: SessionView<H>, event: SessionEventView<H>) -> Option<
    (u128, RequestView),
> {
    match (session.step, event) {
        (SessionStepView::Receive, SessionEventView::Received(message)) => match incoming(message) {
            Incoming::Request(flow, request) => if controls_log_stream(request) {
                None
            } else {
                Some((flow, request))
            },
            _ => None,
        },
        _ => None,
    }
}

/// The requests for one response that came through a list of events, in
/// order.
pub open spec fn requests_taken<H>(
    machine_id: Seq<char>,
    session: SessionView<H>,
    events: Seq<SessionEventView<H>>,
) -> Seq<(u128, RequestView)>
    decreases events.len(),
{
    if events.len() == 0 {
        Seq::empty()
    } else {
        let earlier = events.drop_last();
        let taken = requests_taken(machine_id, session, earlier);
        match request_taken(session_run(machine_id, session, earlier).0, events.last()) {
            Some(request) => taken.push(request),
            None => taken,
        }
    }
}

/// The reply that is settled with an event, if one is: that to a ping as the
/// ping comes, any other as its handler has made the body.
pub open spec fn reply_made<H>(
    machine_id: Seq<char>,
    session: SessionView<H>,
    event: SessionEventView<H>,
) -> Option<MessageView<ReplyView>> {
    match (session.step, event) {
        (SessionStepView::Call(flow, handler, _), SessionEventView::Answered(body)) => Some(
            on_flow(flow, ReplyView::Answer(answer_of(handler), body)),
        ),
        _ => match request_taken(session, event) {
            Some((flow, RequestView::Ping)) => Some(
                on_flow(flow, ReplyView::Ping(Some(pong(machine_id)))),
            ),
            _ => None,
        },
    }
}

/// The replies that were settled through a list of events, in order.
pub open spec fn replies_made<H>(
    machine_id: Seq<char>,
    session: SessionView<H>,
    events: Seq<SessionEventView<H>>,
) -> Seq<MessageView<ReplyView>>
    decreases events.len(),
{
    if events.len() == 0 {
        Seq::empty()
    } else {
        let earlier = events.drop_last();
        let made = replies_made(machine_id, session, earlier);
        match reply_made(machine_id, session_run(machine_id, session, earlier).0, events.last()) {
            Some(reply) => made.push(reply),
            None => made,
        }
    }
}

/// The replies that were sent through a list of events, in order.
pub open spec fn replies_sent<H>(
    machine_id: Seq<char>,
    session: SessionView<H>,
    events: Seq<SessionEventView<H>>,
) -> Seq<MessageView<ReplyView>>
    decreases events.len(),
{
    if events.len() == 0 {
        Seq::empty()
    } else {
        let earlier = events.drop_last();
        let sent = replies_sent(machine_id, session, earlier);
        match (session_run(machine_id, session, earlier).0.step, events.last()) {
            (SessionStepView::Send(reply), SessionEventView::Done) => sent.push(reply),
            _ => sent,
        }
    }
}

/// Whether a reply answers a request: it is on the flow of the request, and
/// it is the machine's pong to a ping or the answer of the handler that the
/// request is for.
pub open spec fn answers(
    machine_id: Seq<char>,
    request: (u128, RequestView),
    reply: MessageView<ReplyView>,
) -> bool {
    match request.1 {
        RequestView::Ping => reply == on_flow(request.0, ReplyView::Ping(Some(pong(machine_id)))),
        RequestView::Call(handler, _) => reply.flow_uuid == Some(hyphenated(request.0)) && (
        reply.payload matches Some(ReplyView::Answer(answer, _)) && answer == answer_of(handler)),
        _ => false,
    }
}

/// The reply in hand, if there is one.
pub open spec fn reply_in_hand(step: SessionStepView) -> Seq<MessageView<ReplyView>> {
    match step {
        SessionStepView::Send(reply) => seq![reply],
        _ => Seq::empty(),
    }
}

/// Every request for one response gets exactly one reply, on its flow and in
/// the order of the requests. The one request that may still be without is
/// the one whose handler is at work; the one reply that may still be unsent
/// is the one in hand. At the end of a connection at most the last reply was
/// not sent.
pub proof fn law_one_reply_for_each_request<H>(
    machine_id: Seq<char>,
    events: Seq<SessionEventView<H>>,
)
    ensures
        ({
            let start = SessionView::<H> {
                step: SessionStepView::CreateClient,
                relays: Map::empty(),
            };
            let step = session_run(machine_id, start, events).0.step;
            let requests = requests_taken(machine_id, start, events);
            let made = replies_made(machine_id, start, events);
            let sent = replies_sent(machine_id, start, events);
            &&& forall|i: int|
                0 <= i < made.len() ==> answers(machine_id, requests[i], #[trigger] made[i])
            &&& requests.len() == made.len() + (if step is Call {
                1int
            } else {
                0
            })
            &&& step matches SessionStepView::Call(flow, handler, body) ==> requests.last() == (
                flow,
                RequestView::Call(handler, body),
            )
            &&& !(step is Finished) ==> sent + reply_in_hand(step) == made
            &&& step is Finished ==> sent.is_prefix_of(made) && made.len() <= sent.len() + 1
        }),
    decreases events.len(),
{
    let start = SessionView::<H> { step: SessionStepView::CreateClient, relays: Map::empty() };
    let none = Seq::<MessageView<ReplyView>>::empty();
    if events.len() == 0 {
        assert(none + none =~= none);
    } else {
        let earlier = events.drop_last();
        law_one_reply_for_each_request(machine_id, earlier);
        let before = session_run(machine_id, start, earlier).0;
        let step = session_run(machine_id, start, events).0.step;
        let requests0 = requests_taken(machine_id, start, earlier);
        let requests = requests_taken(machine_id, start, events);
        let made0 = replies_made(machine_id, start, earlier);
        let made = replies_made(machine_id, start, events);
        let sent0 = replies_sent(machine_id, start, earlier);
        let sent = replies_sent(machine_id, start, events);
        assert forall|i: int| 0 <= i < made.len() implies answers(
            machine_id,
            requests[i],
            #[trigger] made[i],
        ) by {
            if i < made0.len() {
                assert(made[i] == made0[i]);
                assert(requests[i] == requests0[i]);
            }
        }
        assert(sent0 + none =~= sent0);
        assert(sent + none =~= sent);
        match (before.step, events.last()) {
            (SessionStepView::Send(reply), SessionEventView::Done) => {
                assert(sent0 + seq![reply] =~= sent0.push(reply));
            },
            (SessionStepView::Send(reply), SessionEventView::Failed(_)) => {
                assert(sent.is_prefix_of(sent0 + seq![reply]));
            },
            (SessionStepView::Call(_, _, _), SessionEventView::Answered(_)) => {
                assert(sent + seq![made.last()] =~= made);
            },
            (SessionStepView::Receive, SessionEventView::Received(_)) => {
                if step is Send {
                    assert(sent + seq![made.last()] =~= made);
                }
            },
            _ => {},
        }
    }
}

/// A request for a handler is answered once, on the flow it came on, with
/// the body that the handler made, and the agent is back to receive.
pub proof fn law_call_is_answered_on_its_flow<H>(
    machine_id: Seq<char>,
    relays: Map<u128, H>,
    flow_uuid: u128,
    handler: Handler,
    body: Seq<u8>,
    response: Seq<u8>,
)
    ensures
        ({
            let (asked, s0) = after_request(
                machine_id,
                relays,
                flow_uuid,
                RequestView::Call(handler, body),
            );
            let (answered, s1) = session_next(machine_id, asked, SessionEventView::Answered(response));
            let (sent, s2) = session_next(machine_id, answered, SessionEventView::Done);
            &&& asked.step == SessionStepView::Call(flow_uuid, handler, body)
            &&& answered.step == SessionStepView::Send(
                on_flow(flow_uuid, ReplyView::Answer(answer_of(handler), response)),
            )
            &&& sent == (SessionView { step: SessionStepView::Receive, relays })
            &&& s0 is None && s1 is None && s2 is None
        }),
{
}

/// A ping is answered on the flow it came on with a pong that names the
/// machine.
pub proof fn law_ping_is_answered_on_its_flow<H>(
    machine_id: Seq<char>,
    relays: Map<u128, H>,
    flow_uuid: u128,
)
    ensures
        after_request(machine_id, relays, flow_uuid, RequestView::Ping).0.step
            == SessionStepView::Send(on_flow(flow_uuid, ReplyView::Ping(Some(pong(machine_id))))),
{
}

/// A second start on a flow stops the flow's first relay and keeps the
/// second; a stop ends the relay that runs; relays of other flows are left
/// alone.
pub proof fn law_one_relay_for_a_flow<H>(
    machine_id: Seq<char>,
    relays: Map<u128, H>,
    flow_uuid: u128,
    first: H,
    second: H,
)
    ensures
        ({
            let running = relays.insert(flow_uuid, first);
            let (asked, s0) = after_request(
                machine_id,
                running,
                flow_uuid,
                RequestView::StartLogStream,
            );
            let (started, s1) = session_next(
                machine_id,
                asked,
                SessionEventView::RelayStarted(second),
            );
            let (stopped, s2) = after_request(
                machine_id,
                started.relays,
                flow_uuid,
                RequestView::StopLogStream,
            );
            &&& s0 is None
            &&& started.relays == relays.insert(flow_uuid, second)
            &&& s1 == Some(first)
            &&& stopped.relays == relays.remove(flow_uuid)
            &&& s2 == Some(second)
        }),
{
    assert(relays.insert(flow_uuid, first).insert(flow_uuid, second) =~= relays.insert(
        flow_uuid,
        second,
    ));
    assert(relays.insert(flow_uuid, second).remove(flow_uuid) =~= relays.remove(flow_uuid));
}

/// What keeps the agent connected does next.
pub enum StreamPhase {
    /// Run one connection to its end.
    Run,
    /// Wait so long before the next.
    Wait(Duration),
}

/// The connection of an agent to the controller at an address, as it is kept
/// up for as long as the agent lives.
pub struct ScoutStream {
    pub api: String,
    pub machine_id: MachineId,
}

/// Where a connection runs, as the reports about it say.
pub open spec fn stream_place(api: Seq<char>, machine_id: Seq<char>) -> Seq<char> {
    "(api:"@ + api + ", machine_id:"@ + machine_id + ")"@
}

/// Whether a phase follows another: a wait of ten seconds follows a
/// connection, and a connection follows a wait.
pub open spec fn is_next_phase(phase: StreamPhase, next: StreamPhase) -> bool {
    match phase {
        StreamPhase::Run => next matches StreamPhase::Wait(delay) && delay.secs() == 10
            && delay.nanos() == 0,
        StreamPhase::Wait(_) => next is Run,
    }
}

impl ScoutStream {
    /// The first phase: connect at once.
    pub fn start_scout_stream(&self) -> (r: StreamPhase)
        ensures
            r is Run,
    {
        StreamPhase::Run
    }

    /// The phase after a phase that is over: however a connection ended, the
    /// next follows after ten seconds.
    pub fn next_phase(&self, phase: StreamPhase) -> (r: StreamPhase)
        ensures
            phase is Run ==> r is Wait && r->Wait_0.secs() == 10 && r->Wait_0.nanos() == 0,
            phase is Wait ==> r is Run,
            is_next_phase(phase, r),
    {
        match phase {
            StreamPhase::Run => StreamPhase::Wait(Duration::from_secs(10)),
            StreamPhase::Wait(_) => StreamPhase::Run,
        }
    }

    /// Where the connection runs, as the reports about it say.
    fn place(&self) -> (r: String)
        ensures
            r@ == stream_place(self.api@, self.machine_id@),
    {
        "(api:".to_owned().concat(self.api.as_str()).concat(", machine_id:").concat(
            self.machine_id.as_str(),
        ).concat(")")
    }

    /// The report that a connection is about to be made.
    pub fn starting_report(&self) -> (r: String)
        ensures
            r@ == "scout stream starting "@ + stream_place(self.api@, self.machine_id@),
    {
        let place = self.place();
        "scout stream starting ".to_owned().concat(place.as_str())
    }

    /// The report that a connection ended, with the error if it ended in
    /// one.
    pub fn ended_report(&self, result: &Result<(), ScoutStreamError>) -> (r: String)
        ensures
            r@ == match result {
                Ok(_) => "scout stream closed "@ + stream_place(self.api@, self.machine_id@),
                Err(error) => "scout stream error "@ + stream_place(self.api@, self.machine_id@)
                    + ": "@ + scout_error_text(error@),
            },
    {
        let place = self.place();
        match result {
            Ok(_) => "scout stream closed ".to_owned().concat(place.as_str()),
            Err(error) => {
                let reason = error.to_string();
                "scout stream error ".to_owned().concat(place.as_str()).concat(": ").concat(
                    reason.as_str(),
                )
            },
        }
    }

    /// The report that the next connection is waited for.
    pub fn reconnecting_report(&self) -> (r: String)
        ensures
            r@ == "scout stream reconnecting "@ + stream_place(self.api@, self.machine_id@)
                + ": 10s delay"@,
    {
        let place = self.place();
        "scout stream reconnecting ".to_owned().concat(place.as_str()).concat(": 10s delay")
    }
}

/// A connection is made in three steps, each after the one before was done:
/// a client, the first message, which is on no flow and names the machine,
/// and the stream; after that the agent receives. No relay runs yet.
pub proof fn law_session_begins_with_its_machine<H>(machine_id: Seq<char>)
    ensures
        ({
            let none = Map::<u128, H>::empty();
            let start = SessionView::<H> { step: SessionStepView::CreateClient, relays: none };
            let (first, s1) = session_next(machine_id, start, SessionEventView::Done);
            let (second, s2) = session_next(machine_id, first, SessionEventView::Done);
            let (third, s3) = session_next(machine_id, second, SessionEventView::Done);
            &&& first == (SessionView::<H> {
                step: SessionStepView::SendInit(
                    MessageView { flow_uuid: None, payload: Some(ReplyView::Init(machine_id)) },
                ),
                relays: none,
            })
            &&& second == (SessionView::<H> { step: SessionStepView::Connect, relays: none })
            &&& third == (SessionView::<H> { step: SessionStepView::Receive, relays: none })
            &&& s1 is None && s2 is None && s3 is None
        }),
{
}

/// What ends a connection is told by where it happened and why; the relays
/// that run are kept, to be stopped at the end.
pub proof fn law_session_ends_with_its_reason<H>(
    machine_id: Seq<char>,
    session: SessionView<H>,
    reason: Seq<char>,
)
    ensures
        ({
            let (failed, stop) = session_next(
                machine_id,
                session,
                SessionEventView::Failed(reason),
            );
            let error = match session.step {
                SessionStepView::CreateClient => Some(ScoutErrorView::ClientError(reason)),
                SessionStepView::SendInit(_) => Some(
                    ScoutErrorView::InvalidRequest(
                        "scout stream failed to send init request: "@ + reason,
                    ),
                ),
                SessionStepView::Connect => Some(ScoutErrorView::Grpc(reason)),
                SessionStepView::Receive => Some(ScoutErrorView::Grpc(reason)),
                SessionStepView::Send(_) => Some(ScoutErrorView::ConnectionLost),
                _ => None,
            };
            &&& stop is None
            &&& error matches Some(e) ==> failed == (SessionView {
                step: SessionStepView::Finished(e),
                relays: session.relays,
            })
            &&& error is None ==> failed == session
            &&& session.step is Receive ==> session_next(
                machine_id,
                session,
                SessionEventView::<H>::Ended,
            ) == (
                SessionView {
                    step: SessionStepView::Finished(ScoutErrorView::ConnectionLost),
                    relays: session.relays,
                },
                None::<H>,
            )
        }),
{
}

/// What an agent makes of a message: one without a payload is passed over;
/// one with a payload but without a flow, or with a flow that cannot be
/// read, ends the connection; a ping is answered at once on its flow by the
/// machine's name; a request for a handler goes to that handler with its
/// body; a start asks for a relay on its flow; a stop ends the relay of its
/// flow and of no other.
pub proof fn law_what_a_message_asks_for<H>(
    machine_id: Seq<char>,
    session: SessionView<H>,
    message: MessageView<RequestView>,
)
    requires
        session.step is Receive,
    ensures
        ({
            let relays = session.relays;
            let (after, stop) = session_next(
                machine_id,
                session,
                SessionEventView::Received(message),
            );
            match (message.payload, message.flow_uuid) {
                (None, _) => after == session && stop is None,
                (Some(_), None) => after == (SessionView {
                    step: SessionStepView::Finished(
                        ScoutErrorView::InvalidRequest(
                            "cannot determine flow, flow_uuid empty from API"@,
                        ),
                    ),
                    relays,
                }) && stop is None,
                (Some(request), Some(value)) => match parsed_uuid(value) {
                    Err((text, _)) => after == (SessionView {
                        step: SessionStepView::Finished(
                            ScoutErrorView::ClientError("failed to convert flow_uuid: "@ + text),
                        ),
                        relays,
                    }) && stop is None,
                    Ok(flow) => match request {
                        RequestView::Ping => after == (SessionView {
                            step: SessionStepView::Send(
                                MessageView {
                                    flow_uuid: Some(hyphenated(flow)),
                                    payload: Some(
                                        ReplyView::Ping(Some("pong from "@ + machine_id)),
                                    ),
                                },
                            ),
                            relays,
                        }) && stop is None,
                        RequestView::Call(handler, body) => after == (SessionView {
                            step: SessionStepView::Call(flow, handler, body),
                            relays,
                        }) && stop is None,
                        RequestView::StartLogStream => after == (SessionView {
                            step: SessionStepView::StartRelay(flow),
                            relays,
                        }) && stop is None,
                        RequestView::StopLogStream => {
                            &&& after == (SessionView {
                                step: SessionStepView::Receive,
                                relays: relays.remove(flow),
                            })
                            &&& relays.contains_key(flow) ==> stop == Some(relays[flow])
                            &&& !relays.contains_key(flow) ==> stop is None
                        },
                    },
                },
            }
        }),
{
}

/// What a handler made is sent on the flow of its request, as the answer of
/// that handler and with the very body; once it was sent, the agent receives
/// again.
pub proof fn law_handler_answer_is_sent<H>(
    machine_id: Seq<char>,
    relays: Map<u128, H>,
    flow: u128,
    handler: Handler,
    asked: Seq<u8>,
    body: Seq<u8>,
    reply: MessageView<ReplyView>,
)
    ensures
        ({
            let (after, stop) = session_next(
                machine_id,
                SessionView { step: SessionStepView::Call(flow, handler, asked), relays },
                SessionEventView::Answered(body),
            );
            let answer = match handler {
                Handler::ProfileSync => Answer::ProfileSync,
                Handler::ProfileCompare => Answer::ProfileCompare,
                Handler::LockdownLock => Answer::Lockdown,
                Handler::LockdownUnlock => Answer::Lockdown,
                Handler::LockdownStatus => Answer::Lockdown,
                Handler::InfoDevice => Answer::InfoDevice,
                Handler::InfoReport => Answer::InfoReport,
                Handler::RegistryList => Answer::RegistryList,
                Handler::RegistryShow => Answer::RegistryShow,
                Handler::ConfigQuery => Answer::ConfigQuery,
                Handler::ConfigSet => Answer::ConfigSet,
                Handler::ConfigSync => Answer::ConfigSync,
                Handler::ConfigCompare => Answer::ConfigCompare,
            };
            &&& after == (SessionView {
                step: SessionStepView::Send(
                    MessageView {
                        flow_uuid: Some(hyphenated(flow)),
                        payload: Some(ReplyView::Answer(answer, body)),
                    },
                ),
                relays,
            })
            &&& stop is None
            &&& session_next(
                machine_id,
                SessionView { step: SessionStepView::Send(reply), relays },
                SessionEventView::<H>::Done,
            ) == (SessionView { step: SessionStepView::Receive, relays }, None::<H>)
        }),
{
}

/// A relay that was asked for runs on the flow it was asked for, and one
/// that ran there before is to be stopped; the relays of other flows are
/// left alone. One that was not asked for is to be stopped at once.
pub proof fn law_relay_runs_on_its_flow<H>(
    machine_id: Seq<char>,
    session: SessionView<H>,
    handle: H,
)
    ensures
        ({
            let (after, stop) = session_next(
                machine_id,
                session,
                SessionEventView::RelayStarted(handle),
            );
            match session.step {
                SessionStepView::StartRelay(flow) => {
                    &&& after == (SessionView {
                        step: SessionStepView::Receive,
                        relays: session.relays.insert(flow, handle),
                    })
                    &&& session.relays.contains_key(flow) ==> stop == Some(session.relays[flow])
                    &&& !session.relays.contains_key(flow) ==> stop is None
                },
                _ => after == session && stop == Some(handle),
            }
        }),
{
}

/// A connection moves only with an event that its step calls for.
pub proof fn law_session_moves_with_its_events<H>(
    machine_id: Seq<char>,
    session: SessionView<H>,
    event: SessionEventView<H>,
)
    ensures
        session_next(machine_id, session, event).0 != session ==> match session.step {
            SessionStepView::CreateClient => event is Done || event is Failed,
            SessionStepView::SendInit(_) => event is Done || event is Failed,
            SessionStepView::Connect => event is Done || event is Failed,
            SessionStepView::Receive => event is Received || event is Ended || event is Failed,
            SessionStepView::StartRelay(_) => event is RelayStarted,
            SessionStepView::Call(_, _, _) => event is Answered,
            SessionStepView::Send(_) => event is Done || event is Failed,
            SessionStepView::Finished(_) => false,
        },
{
}

/// A request that is handled for one response goes to its own handler with
/// its body, and a ping is answered by the machine's name on its flow.
pub proof fn law_handling_of_a_request(
    flow_uuid: u128,
    machine_id: Seq<char>,
    handler: Handler,
    body: Seq<u8>,
)
    ensures
        handling(flow_uuid, machine_id, RequestView::Call(handler, body)) == HandlingView::Call(
            handler,
            body,
        ),
        handling(flow_uuid, machine_id, RequestView::Ping) == HandlingView::Reply(
            MessageView {
                flow_uuid: Some(hyphenated(flow_uuid)),
                payload: Some(ReplyView::Ping(Some("pong from "@ + machine_id))),
            },
        ),
        controls_log_stream(RequestView::StartLogStream),
        controls_log_stream(RequestView::StopLogStream),
        !controls_log_stream(RequestView::Ping),
        !controls_log_stream(RequestView::Call(handler, body)),
{
}

/// What each error says, with its reason.
pub proof fn law_scout_error_texts(reason: Seq<char>, api: Seq<char>, machine_id: Seq<char>)
    ensures
        scout_error_text(ScoutErrorView::Grpc(reason)) == "gRPC error: "@ + reason,
        scout_error_text(ScoutErrorView::Transport(reason)) == "Transport error: "@ + reason,
        scout_error_text(ScoutErrorView::Profile(reason)) == "Profile error: "@ + reason,
        scout_error_text(ScoutErrorView::ConnectionLost) == "Connection lost"@,
        scout_error_text(ScoutErrorView::InvalidRequest(reason)) == "Invalid request: "@ + reason,
        scout_error_text(ScoutErrorView::InvalidUri(reason)) == "Invalid URI: "@ + reason,
        scout_error_text(ScoutErrorView::ClientError(reason)) == "Client initialization error: "@
            + reason,
        stream_place(api, machine_id) == "(api:"@ + api + ", machine_id:"@ + machine_id + ")"@,
{
}

/// Errors, steps and events of a connection are seen as they are.
pub proof fn law_session_views<H>(
    text: String,
    message: ScoutStreamScoutBoundMessage,
    reply: ScoutStreamApiBoundMessage,
    error: ScoutStreamError,
    flow: u128,
    handler: Handler,
    body: Vec<u8>,
    handle: H,
)
    ensures
        ScoutStreamError::Grpc(text)@ == ScoutErrorView::Grpc(text@),
        ScoutStreamError::Transport(text)@ == ScoutErrorView::Transport(text@),
        ScoutStreamError::Profile(text)@ == ScoutErrorView::Profile(text@),
        ScoutStreamError::ConnectionLost@ is ConnectionLost,
        ScoutStreamError::InvalidRequest(text)@ == ScoutErrorView::InvalidRequest(text@),
        ScoutStreamError::InvalidUri(text)@ == ScoutErrorView::InvalidUri(text@),
        ScoutStreamError::ClientError(text)@ == ScoutErrorView::ClientError(text@),
        SessionStep::SendInit(reply)@ == SessionStepView::SendInit(reply@),
        SessionStep::StartRelay(flow)@ == SessionStepView::StartRelay(flow),
        SessionStep::Call(flow, handler, body)@ == SessionStepView::Call(flow, handler, body@),
        SessionStep::Send(reply)@ == SessionStepView::Send(reply@),
        SessionStep::Finished(error)@ == SessionStepView::Finished(error@),
        SessionEvent::<H>::Failed(text)@ == SessionEventView::<H>::Failed(text@),
        SessionEvent::<H>::Received(message)@ == SessionEventView::<H>::Received(message@),
        SessionEvent::RelayStarted(handle)@ == SessionEventView::RelayStarted(handle),
        SessionEvent::<H>::Answered(body)@ == SessionEventView::<H>::Answered(body@),
        Handling::Reply(reply)@ == HandlingView::Reply(reply@),
        Handling::Call(handler, body)@ == HandlingView::Call(handler, body@),
{
}

/// A list of relays has the relay of every flow and no other, each as often
/// as a flow has it.
pub proof fn law_every_relay_is_listed<H>(
    relays: Map<u128, H>,
    flows: Seq<u128>,
    list: Seq<H>,
    flow: u128,
    i: int,
)
    requires
        lists_relays(relays, flows, list),
    ensures
        list.len() == flows.len(),
        relays.contains_key(flow) ==> list.contains(relays[flow]),
        0 <= i < list.len() ==> relays.contains_key(flows[i]) && list[i] == relays[flows[i]],
        flows.no_duplicates(),
{
    if relays.contains_key(flow) {
        assert(flows.to_set().contains(flow));
        let k = choose|k: int| 0 <= k < flows.len() && flows[k] == flow;
        assert(list[k] == relays[flow]);
    }
    if 0 <= i < list.len() {
        assert(flows.contains(flows[i]));
        assert(flows.to_set().contains(flows[i]));
    }
}

/// However often the phases alternate, each connection is followed by a wait
/// of ten seconds and each wait by a connection.
pub proof fn law_agent_reconnects_after_ten_seconds(
    phase: StreamPhase,
    next: StreamPhase,
    after: StreamPhase,
)
    requires
        is_next_phase(phase, next),
        is_next_phase(next, after),
    ensures
        phase is Run ==> (next matches StreamPhase::Wait(delay) && delay.total_nanos()
            == 10_000_000_000) && after is Run,
        phase is Wait ==> next is Run && (after matches StreamPhase::Wait(delay)
            && delay.total_nanos() == 10_000_000_000),
{
}

} // verus!
