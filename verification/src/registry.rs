//! The connections of scout agents, and the request flows over each of them.

use std::collections::HashMap;

use vstd::prelude::*;
use vstd::string::*;

use crate::connections::{ConnectionView, Connections};
use crate::flow_tables::{
    flows_of, fresh_table, held, in_use, let_go, retired, unrouted, with_flows, FlowTables,
    TableView,
};
use crate::ids::{hyphenated, parsed_uuid, uuid_result, uuid_text, UuidError};
use crate::text::quoted;
use crate::time::SystemTime;
use crate::wire::{
    wire_debug, MachineId, MessageView, ReplyView, RequestView, ScoutStreamApiBoundMessage,
    ScoutStreamScoutBoundMessage, WireUuid,
};

verus! {

broadcast use vstd::std_specs::hash::group_hash_axioms;

/// How many messages a stream flow holds before lines are dropped for a
/// reader that has fallen behind.
pub const STREAM_FLOW_CAPACITY: usize = 1024;

/// Why a request to a scout agent was not answered.
#[derive(Debug)]
pub enum CarbideError {
    /// What was asked for is not there.
    NotFoundError { kind: String, id: String },
    /// Something went wrong inside.
    Internal { message: String },
}

/// An error with its texts as sequences.
pub enum CarbideErrorView {
    NotFoundError { kind: Seq<char>, id: Seq<char> },
    Internal { message: Seq<char> },
}

impl View for CarbideError {
    type V = CarbideErrorView;

    open spec fn view(&self) -> CarbideErrorView {
        match self {
            CarbideError::NotFoundError { kind, id } => CarbideErrorView::NotFoundError {
                kind: kind@,
                id: id@,
            },
            CarbideError::Internal { message } => CarbideErrorView::Internal { message: message@ },
        }
    }
}

/// The error of a machine that no agent is connected for.
pub open spec fn not_connected(machine_id: Seq<char>) -> CarbideErrorView {
    CarbideErrorView::NotFoundError { kind: "scout stream connection"@, id: machine_id }
}

/// The error of a request without a flow.
pub open spec fn flow_missing(machine_id: Seq<char>) -> CarbideErrorView {
    CarbideErrorView::Internal {
        message: "flow_uuid empty for flow with "@ + machine_id + ", unable to build flow"@,
    }
}

/// The error of a request whose flow cannot be read.
pub open spec fn flow_unreadable(
    machine_id: Seq<char>,
    value: Seq<char>,
    debug: Seq<char>,
) -> CarbideErrorView {
    CarbideErrorView::Internal {
        message: "failed to decode flow_uuid (machine_id="@ + machine_id + "): "@ + wire_debug(value)
            + ": "@ + debug,
    }
}

/// The flow that a request to a machine travels on, or the error of a
/// request that has none or one that cannot be read.
pub open spec fn request_flow(
    machine_id: Seq<char>,
    request: MessageView<RequestView>,
) -> Result<u128, CarbideErrorView> {
    match request.flow_uuid {
        None => Err(flow_missing(machine_id)),
        Some(value) => readable_flow(machine_id, value, parsed_uuid(value)),
    }
}

/// The flow that was read from a text, or the error of one that was not.
pub open spec fn readable_flow(
    machine_id: Seq<char>,
    value: Seq<char>,
    parsed: Result<u128, (Seq<char>, Seq<char>)>,
) -> Result<u128, CarbideErrorView> {
    match parsed {
        Ok(id) => Ok(id),
        Err((_, debug)) => Err(flow_unreadable(machine_id, value, debug)),
    }
}

/// A result with its error seen through its view.
pub open spec fn carbide_result<T>(r: Result<T, CarbideError>) -> Result<T, CarbideErrorView> {
    match r {
        Ok(value) => Ok(value),
        Err(error) => Err(error@),
    }
}

/// The flow that was read from a request's identifier, or the error of one
/// that was not.
pub fn read_request_flow(
    machine_id: &MachineId,
    flow_uuid: &WireUuid,
    parsed: Result<u128, UuidError>,
) -> (r: Result<u128, CarbideError>)
    ensures
        carbide_result(r) == readable_flow(machine_id@, flow_uuid.value@, uuid_result(parsed)),
{
    match parsed {
        Ok(id) => Ok(id),
        Err(error) => {
            let wire = flow_uuid.debug_text();
            Err(
                CarbideError::Internal {
                    message: "failed to decode flow_uuid (machine_id=".to_owned().concat(
                        machine_id.as_str(),
                    ).concat("): ").concat(wire.as_str()).concat(": ").concat(error.debug.as_str()),
                },
            )
        },
    }
}

/// The flow that a request to a machine travels on; every request needs one.
pub fn decode_request_flow_uuid(
    request: &ScoutStreamScoutBoundMessage,
    machine_id: &MachineId,
) -> (r: Result<u128, CarbideError>)
    ensures
        carbide_result(r) == request_flow(machine_id@, request@),
        forall|id: u128|
            request@.flow_uuid == Some(#[trigger] hyphenated(id)) ==> (r is Ok && r->Ok_0 == id),
{
    match &request.flow_uuid {
        None => Err(
            CarbideError::Internal {
                message: "flow_uuid empty for flow with ".to_owned().concat(
                    machine_id.as_str(),
                ).concat(", unable to build flow"),
            },
        ),
        Some(flow_uuid) => {
            let parsed = flow_uuid.decode();
            read_request_flow(machine_id, flow_uuid, parsed)
        },
    }
}

/// The flow of a message from an agent, if it names one that can be read.
pub open spec fn message_flow(message: MessageView<ReplyView>) -> Option<u128> {
    match message.flow_uuid {
        None => None,
        Some(value) => match parsed_uuid(value) {
            Ok(id) => Some(id),
            Err(_) => None,
        },
    }
}

/// The flow of a message from an agent; nothing where the message names none
/// or one that cannot be read, and is to be dropped.
pub fn extract_flow_uuid(response: &ScoutStreamApiBoundMessage) -> (r: Option<u128>)
    ensures
        r == message_flow(response@),
        forall|id: u128|
            response@.flow_uuid == Some(#[trigger] hyphenated(id)) ==> r == Some(id),
{
    match &response.flow_uuid {
        None => None,
        Some(flow_uuid) => match flow_uuid.decode() {
            Ok(id) => Some(id),
            Err(_) => None,
        },
    }
}

/// A request flow over a connection, with the sender that its responses go
/// to.
pub enum Flow<O, S> {
    /// One request, one response: the flow goes with its response.
    Oneshot(O),
    /// Many responses: the flow stays until it is closed or its reader is
    /// gone.
    Stream(S),
}

/// What becomes of one message from an agent.
pub enum Delivery<O> {
    /// It is the response of this flow, which is over; hand it to the sender.
    Oneshot(u128, O),
    /// It belongs to this stream; hand it to the stream's sender.
    Stream(u128),
    /// No flow of this identifier is registered: drop it.
    Unknown(u128),
    /// It names no flow that can be read: drop it.
    Unreadable,
}

/// How handing a message to a stream's sender went.
#[derive(Clone, Copy, Debug, PartialEq, Eq, Structural)]
pub enum Handover {
    /// The reader will get it.
    Sent,
    /// The reader has fallen behind: the message is dropped.
    Full,
    /// The reader is gone.
    Closed,
}

/// The request flows over one connection, by their identifiers.
pub struct FlowTable<O, S> {
    flows: HashMap<u128, Flow<O, S>>,
}

impl<O, S> View for FlowTable<O, S> {
    type V = Map<u128, Flow<O, S>>;

    closed spec fn view(&self) -> Map<u128, Flow<O, S>> {
        self.flows@
    }
}

/// What becomes of a message, given the flows that are registered and the
/// flow that the message names.
pub open spec fn delivery<O, S>(flows: Map<u128, Flow<O, S>>, flow: Option<u128>) -> Delivery<O> {
    match flow {
        None => Delivery::Unreadable,
        Some(id) => if flows.contains_key(id) {
            match flows[id] {
                Flow::Oneshot(sender) => Delivery::Oneshot(id, sender),
                Flow::Stream(_) => Delivery::Stream(id),
            }
        } else {
            Delivery::Unknown(id)
        },
    }
}

/// The flows that are left once what becomes of a message is settled.
pub open spec fn flows_after<O, S>(flows: Map<u128, Flow<O, S>>, flow: Option<u128>) -> Map<
    u128,
    Flow<O, S>,
> {
    match delivery(flows, flow) {
        Delivery::Oneshot(id, _) => flows.remove(id),
        _ => flows,
    }
}

/// The flows that are left once a message was handed to a stream's sender.
pub open spec fn flows_after_handover<O, S>(
    flows: Map<u128, Flow<O, S>>,
    flow_uuid: u128,
    handover: Handover,
) -> Map<u128, Flow<O, S>> {
    match handover {
        Handover::Closed => flows.remove(flow_uuid),
        _ => flows,
    }
}

impl<O, S> FlowTable<O, S> {
    /// A connection without flows.
    pub fn new() -> (r: Self)
        ensures
            r@ == Map::<u128, Flow<O, S>>::empty(),
    {
        FlowTable { flows: HashMap::new() }
    }

    /// Registers a flow for one response. A flow that had the identifier
    /// before is gone.
    pub fn register_oneshot(&mut self, flow_uuid: u128, sender: O)
        ensures
            final(self)@ == old(self)@.insert(flow_uuid, Flow::Oneshot(sender)),
    {
        self.flows.insert(flow_uuid, Flow::Oneshot(sender));
    }

    /// Registers a flow for many responses. A flow that had the identifier
    /// before is gone.
    pub fn register_stream(&mut self, flow_uuid: u128, sender: S)
        ensures
            final(self)@ == old(self)@.insert(flow_uuid, Flow::Stream(sender)),
    {
        self.flows.insert(flow_uuid, Flow::Stream(sender));
    }

    /// Removes a flow, if it is there.
    pub fn remove(&mut self, flow_uuid: u128)
        ensures
            final(self)@ == old(self)@.remove(flow_uuid),
    {
        self.flows.remove(&flow_uuid);
    }

    /// Settles what becomes of a message from the agent. The flow of a
    /// single response is removed as the response is handed on; a stream
    /// stays.
    pub fn route(&mut self, response: &ScoutStreamApiBoundMessage) -> (r: Delivery<O>)
        ensures
            r == delivery(old(self)@, message_flow(response@)),
            final(self)@ == flows_after(old(self)@, message_flow(response@)),
            forall|id: u128|
                response@.flow_uuid == Some(#[trigger] hyphenated(id)) ==> r == delivery(
                    old(self)@,
                    Some(id),
                ) && final(self)@ == flows_after(old(self)@, Some(id)),
    {
        let flow_uuid: u128 = match extract_flow_uuid(response) {
            Some(id) => id,
            None => {
                return Delivery::Unreadable;
            },
        };
        self.route_flow(flow_uuid)
    }

    /// Settles what becomes of a message on a flow.
    pub fn route_flow(&mut self, flow_uuid: u128) -> (r: Delivery<O>)
        ensures
            r == delivery(old(self)@, Some(flow_uuid)),
            final(self)@ == flows_after(old(self)@, Some(flow_uuid)),
    {
        let oneshot = match self.flows.get(&flow_uuid) {
            Some(Flow::Oneshot(_)) => true,
            Some(Flow::Stream(_)) => {
                return Delivery::Stream(flow_uuid);
            },
            None => false,
        };
        if oneshot {
            match self.flows.remove(&flow_uuid) {
                Some(Flow::Oneshot(sender)) => Delivery::Oneshot(flow_uuid, sender),
                _ => Delivery::Unknown(flow_uuid),
            }
        } else {
            Delivery::Unknown(flow_uuid)
        }
    }

    /// The sender of a stream, if the flow is one.
    pub fn stream_sender(&self, flow_uuid: u128) -> (r: Option<&S>)
        ensures
            match r {
                Some(sender) => self@.contains_key(flow_uuid) && self@[flow_uuid] == Flow::<
                    O,
                    S,
                >::Stream(*sender),
                None => !(self@.contains_key(flow_uuid) && self@[flow_uuid] is Stream),
            },
    {
        match self.flows.get(&flow_uuid) {
            Some(Flow::Stream(sender)) => Some(sender),
            _ => None,
        }
    }

    /// Takes note of how handing a message to a stream's sender went: a
    /// stream whose reader is gone goes too, one whose reader has fallen
    /// behind stays.
    pub fn handed_over(&mut self, flow_uuid: u128, handover: Handover)
        ensures
            final(self)@ == flows_after_handover(old(self)@, flow_uuid, handover),
    {
        match handover {
            Handover::Closed => {
                self.flows.remove(&flow_uuid);
            },
            Handover::Sent => {},
            Handover::Full => {},
        }
    }
}

/// A flow that a request to a machine was let through on, and the connection
/// it runs over.
pub struct OpenFlow {
    pub machine_id: MachineId,
    pub flow_uuid: u128,
    pub connection: u64,
}

/// A flow as contracts speak of it.
pub struct OpenFlowView {
    pub machine_id: Seq<char>,
    pub flow_uuid: u128,
    pub connection: u64,
}

impl View for OpenFlow {
    type V = OpenFlowView;

    open spec fn view(&self) -> OpenFlowView {
        OpenFlowView {
            machine_id: self.machine_id@,
            flow_uuid: self.flow_uuid,
            connection: self.connection,
        }
    }
}

/// Where a flow runs, as the errors about it say.
pub open spec fn flow_place(machine_id: Seq<char>, flow_uuid: u128) -> Seq<char> {
    "(machine_id="@ + machine_id + ", flow_uuid="@ + hyphenated(flow_uuid) + "): "@
}

/// An error about a flow.
pub open spec fn flow_error(
    what: Seq<char>,
    machine_id: Seq<char>,
    flow_uuid: u128,
    reason: Seq<char>,
) -> CarbideErrorView {
    CarbideErrorView::Internal { message: what + flow_place(machine_id, flow_uuid) + reason }
}

impl OpenFlow {
    /// Where the flow runs, as the errors about it say.
    fn place(&self) -> (r: String)
        ensures
            r@ == flow_place(self.machine_id@, self.flow_uuid),
    {
        let flow = uuid_text(self.flow_uuid);
        "(machine_id=".to_owned().concat(self.machine_id.as_str()).concat(", flow_uuid=").concat(
            flow.as_str(),
        ).concat("): ")
    }

    /// An error about the flow.
    fn error(&self, what: &str, reason: &str) -> (r: CarbideError)
        ensures
            r@ == flow_error(what@, self.machine_id@, self.flow_uuid, reason@),
    {
        let place = self.place();
        CarbideError::Internal {
            message: what.to_owned().concat(place.as_str()).concat(reason),
        }
    }
}

/// What a request for one response calls for next. Its flow is registered
/// before the first of these.
pub enum RequestStep {
    /// Send this request over the flow's connection.
    Send(OpenFlow, ScoutStreamScoutBoundMessage),
    /// Wait for what the flow's sender is handed.
    Wait(OpenFlow),
    /// Nothing: this is what the request came to.
    Done(Result<ScoutStreamApiBoundMessage, CarbideError>),
}

/// A step as contracts speak of it.
pub enum RequestStepView {
    Send(OpenFlowView, ScoutStreamScoutBoundMessage),
    Wait(OpenFlowView),
    Done(Result<ScoutStreamApiBoundMessage, CarbideErrorView>),
}

impl View for RequestStep {
    type V = RequestStepView;

    open spec fn view(&self) -> RequestStepView {
        match self {
            RequestStep::Send(flow, request) => RequestStepView::Send(flow@, *request),
            RequestStep::Wait(flow) => RequestStepView::Wait(flow@),
            RequestStep::Done(outcome) => RequestStepView::Done(carbide_result(*outcome)),
        }
    }
}

/// What came of a request.
pub enum RequestEvent {
    /// It was sent.
    Sent,
    /// It could not be sent; the text of the error.
    SendFailed(String),
    /// It was sent, and its response will not come; the text of the error.
    ResponseFailed(String),
    /// It was answered.
    Response(ScoutStreamApiBoundMessage),
}

/// What follows a step of a request. An event that the step does not call
/// for changes nothing.
pub open spec fn request_next(step: RequestStepView, event: RequestEvent) -> RequestStepView {
    match (step, event) {
        (RequestStepView::Send(flow, _), RequestEvent::Sent) => RequestStepView::Wait(flow),
        (RequestStepView::Send(flow, _), RequestEvent::SendFailed(reason)) => RequestStepView::Done(
            Err(
                flow_error(
                    "failed to send request to scout agent "@,
                    flow.machine_id,
                    flow.flow_uuid,
                    reason@,
                ),
            ),
        ),
        (RequestStepView::Wait(_), RequestEvent::Response(message)) => RequestStepView::Done(
            Ok(message),
        ),
        (
            RequestStepView::Wait(flow),
            RequestEvent::ResponseFailed(reason),
        ) => RequestStepView::Done(
            Err(
                flow_error(
                    "response channel error "@,
                    flow.machine_id,
                    flow.flow_uuid,
                    reason@,
                ),
            ),
        ),
        _ => step,
    }
}

impl RequestStep {
    /// What follows this step. The flow of a request that could not be sent
    /// stays registered.
    pub fn advance(self, event: RequestEvent) -> (r: RequestStep)
        ensures
            r@ == request_next(self@, event),
    {
        match (self, event) {
            (RequestStep::Send(flow, _), RequestEvent::Sent) => RequestStep::Wait(flow),
            (RequestStep::Send(flow, _), RequestEvent::SendFailed(reason)) => RequestStep::Done(
                Err(flow.error("failed to send request to scout agent ", reason.as_str())),
            ),
            (RequestStep::Wait(_), RequestEvent::Response(message)) => RequestStep::Done(
                Ok(message),
            ),
            (RequestStep::Wait(flow), RequestEvent::ResponseFailed(reason)) => RequestStep::Done(
                Err(flow.error("response channel error ", reason.as_str())),
            ),
            (step, _) => step,
        }
    }
}

/// What opening a stream calls for next. Its flow is registered before the
/// first of these.
pub enum StreamStep {
    /// Send this request over the flow's connection.
    Send(OpenFlow, ScoutStreamScoutBoundMessage),
    /// Nothing: the stream of this identifier is open.
    Opened(u128),
    /// Nothing: the stream could not be opened.
    Failed(CarbideError),
}

/// A step as contracts speak of it.
pub enum StreamStepView {
    Send(OpenFlowView, ScoutStreamScoutBoundMessage),
    Opened(u128),
    Failed(CarbideErrorView),
}

impl View for StreamStep {
    type V = StreamStepView;

    open spec fn view(&self) -> StreamStepView {
        match self {
            StreamStep::Send(flow, request) => StreamStepView::Send(flow@, *request),
            StreamStep::Opened(flow_uuid) => StreamStepView::Opened(*flow_uuid),
            StreamStep::Failed(error) => StreamStepView::Failed(error@),
        }
    }
}

/// What follows a step of opening a stream, once its request was sent or
/// could not be.
pub open spec fn stream_next(step: StreamStepView, sent: Result<(), String>) -> StreamStepView {
    match (step, sent) {
        (StreamStepView::Send(flow, _), Ok(_)) => StreamStepView::Opened(flow.flow_uuid),
        (StreamStepView::Send(flow, _), Err(reason)) => StreamStepView::Failed(
            flow_error(
                "failed to send stream request to scout agent "@,
                flow.machine_id,
                flow.flow_uuid,
                reason@,
            ),
        ),
        _ => step,
    }
}

/// The tables after that: a stream whose request could not be sent is not
/// registered any more.
pub open spec fn tables_next<O, S>(
    tables: Map<u64, TableView<O, S>>,
    step: StreamStepView,
    sent: Result<(), String>,
) -> Map<u64, TableView<O, S>> {
    match (step, sent) {
        (StreamStepView::Send(flow, _), Err(_)) => with_flows(
            tables,
            flow.connection,
            flows_of(tables, flow.connection).remove(flow.flow_uuid),
        ),
        _ => tables,
    }
}

/// What reaches an agent: the sender of its requests, and the number of the
/// connection, which its flow table goes by.
pub struct AgentChannel<T> {
    pub tx: T,
    pub connection: u64,
}

/// The connections of the scout agents, one for each machine, with the flows
/// of each.
pub struct ConnectionRegistry<T, O, S> {
    connections: Connections<AgentChannel<T>>,
    tables: FlowTables<O, S>,
    made: u64,
}

/// A registry as contracts speak of it.
pub struct RegistryView<T, O, S> {
    /// The connections by their machines.
    pub connections: Map<Seq<char>, ConnectionView<AgentChannel<T>>>,
    /// The flow tables by the numbers of their connections.
    pub tables: Map<u64, TableView<O, S>>,
    /// How many connections were made, and the number of the next one.
    pub made: u64,
}

impl<T, O, S> View for ConnectionRegistry<T, O, S> {
    type V = RegistryView<T, O, S>;

    closed spec fn view(&self) -> RegistryView<T, O, S> {
        RegistryView { connections: self.connections@, tables: self.tables@, made: self.made }
    }
}

/// What holds of every registry: each connection has a flow table of its
/// own, which no other machine's connection has; every table is in use; and
/// a table counts as registered exactly where a machine's connection has it.
pub open spec fn sound<T, O, S>(registry: RegistryView<T, O, S>) -> bool {
    &&& forall|connection: u64| #[trigger]
        registry.tables.contains_key(connection) ==> connection < registry.made && in_use(
            registry.tables[connection],
        )
    &&& forall|id: Seq<char>| #[trigger]
        registry.connections.contains_key(id) ==> registry.tables.contains_key(
            registry.connections[id].channel.connection,
        ) && registry.tables[registry.connections[id].channel.connection].registered
    &&& forall|id: Seq<char>, other: Seq<char>|
        #![trigger registry.connections.contains_key(id), registry.connections.contains_key(other)]
        registry.connections.contains_key(id) && registry.connections.contains_key(other) && id
            != other ==> registry.connections[id].channel.connection
            != registry.connections[other].channel.connection
    &&& forall|connection: u64| #[trigger]
        registry.tables.contains_key(connection) && registry.tables[connection].registered
            ==> exists|id: Seq<char>| #[trigger]
            registry.connections.contains_key(id) && registry.connections[id].channel.connection
                == connection
}

/// The flows of the connection that a machine is registered with.
pub open spec fn machine_flows<T, O, S>(
    registry: RegistryView<T, O, S>,
    machine_id: Seq<char>,
) -> Map<u128, Flow<O, S>> {
    flows_of(registry.tables, registry.connections[machine_id].channel.connection)
}

/// The registry once a machine's agent has connected: the machine's
/// connection is this one, without flows, and one that it had before is
/// retired.
pub open spec fn registered<T, O, S>(
    registry: RegistryView<T, O, S>,
    machine_id: Seq<char>,
    connected_at: SystemTime,
    tx: T,
) -> RegistryView<T, O, S> {
    let channel = AgentChannel { tx, connection: registry.made };
    RegistryView {
        connections: registry.connections.insert(
            machine_id,
            ConnectionView { connected_at, channel },
        ),
        tables: (if registry.connections.contains_key(machine_id) {
            retired(registry.tables, registry.connections[machine_id].channel.connection)
        } else {
            registry.tables
        }).insert(registry.made, fresh_table()),
        made: (registry.made + 1) as u64,
    }
}

/// The registry once a machine's connection was removed.
pub open spec fn unregistered<T, O, S>(
    registry: RegistryView<T, O, S>,
    machine_id: Seq<char>,
) -> RegistryView<T, O, S> {
    if registry.connections.contains_key(machine_id) {
        RegistryView {
            connections: registry.connections.remove(machine_id),
            tables: retired(
                registry.tables,
                registry.connections[machine_id].channel.connection,
            ),
            ..registry
        }
    } else {
        registry
    }
}

/// The registry once a flow was registered for a request over a connection,
/// which is under way from here on.
pub open spec fn flow_opened<T, O, S>(
    registry: RegistryView<T, O, S>,
    connection: u64,
    flow_uuid: u128,
    flow: Flow<O, S>,
) -> RegistryView<T, O, S> {
    RegistryView {
        tables: held(
            with_flows(
                registry.tables,
                connection,
                flows_of(registry.tables, connection).insert(flow_uuid, flow),
            ),
            connection,
        ),
        ..registry
    }
}

/// Which connection a request to a machine goes over and on which flow, or
/// why it goes nowhere: first the request has to name a flow, and only
/// after that its machine has to be connected.
pub open spec fn admitted<C>(
    connections: Map<Seq<char>, ConnectionView<C>>,
    machine_id: Seq<char>,
    request: MessageView<RequestView>,
) -> Result<(u128, C), CarbideErrorView> {
    match request_flow(machine_id, request) {
        Err(error) => Err(error),
        Ok(flow_uuid) => if connections.contains_key(machine_id) {
            Ok((flow_uuid, connections[machine_id].channel))
        } else {
            Err(not_connected(machine_id))
        },
    }
}

/// What a request to a machine calls for first: it is sent on the flow it
/// names, or it is over at once.
pub open spec fn request_started<T, O, S>(
    registry: RegistryView<T, O, S>,
    machine_id: Seq<char>,
    request: ScoutStreamScoutBoundMessage,
) -> RequestStepView {
    match admitted(registry.connections, machine_id, request@) {
        Err(error) => RequestStepView::Done(Err(error)),
        Ok((flow_uuid, channel)) => RequestStepView::Send(
            OpenFlowView { machine_id, flow_uuid, connection: channel.connection },
            request,
        ),
    }
}

/// What opening a stream to a machine calls for first: its request is sent
/// on the flow it names, or it is over at once.
pub open spec fn stream_started<T, O, S>(
    registry: RegistryView<T, O, S>,
    machine_id: Seq<char>,
    request: ScoutStreamScoutBoundMessage,
) -> StreamStepView {
    match admitted(registry.connections, machine_id, request@) {
        Err(error) => StreamStepView::Failed(error),
        Ok((flow_uuid, channel)) => StreamStepView::Send(
            OpenFlowView { machine_id, flow_uuid, connection: channel.connection },
            request,
        ),
    }
}

/// The registry once a request to a machine was started: where it goes
/// anywhere, its flow is registered with the machine's connection.
pub open spec fn flow_started<T, O, S>(
    registry: RegistryView<T, O, S>,
    machine_id: Seq<char>,
    request: MessageView<RequestView>,
    flow: Flow<O, S>,
) -> RegistryView<T, O, S> {
    match admitted(registry.connections, machine_id, request) {
        Err(_) => registry,
        Ok((flow_uuid, channel)) => flow_opened(registry, channel.connection, flow_uuid, flow),
    }
}

/// A registry stays sound when the tables of connections change in their
/// flows or in what is under way over them.
proof fn lemma_tables_changed<T, O, S>(
    before: RegistryView<T, O, S>,
    tables: Map<u64, TableView<O, S>>,
)
    requires
        sound(before),
        forall|connection: u64| #[trigger]
            tables.contains_key(connection) ==> before.tables.contains_key(connection) && in_use(
                tables[connection],
            ) && tables[connection].registered == before.tables[connection].registered,
        forall|connection: u64| #[trigger]
            before.tables.contains_key(connection) && before.tables[connection].registered
                ==> tables.contains_key(connection),
    ensures
        sound(RegistryView { tables, ..before }),
{
    let after = RegistryView { tables, ..before };
    assert forall|connection: u64| #[trigger]
        after.tables.contains_key(connection) && after.tables[connection].registered implies exists|
        id: Seq<char>,
    | #[trigger]
        after.connections.contains_key(id) && after.connections[id].channel.connection
            == connection by {
        assert(before.tables.contains_key(connection));
        let id = choose|id: Seq<char>| #[trigger]
            before.connections.contains_key(id) && before.connections[id].channel.connection
                == connection;
        assert(after.connections.contains_key(id));
    }
}

/// A registry stays sound when a connection is removed.
proof fn lemma_unregistered<T, O, S>(before: RegistryView<T, O, S>, machine_id: Seq<char>)
    requires
        sound(before),
    ensures
        sound(unregistered(before, machine_id)),
{
    let after = unregistered(before, machine_id);
    if before.connections.contains_key(machine_id) {
        let gone = before.connections[machine_id].channel.connection;
        assert forall|id: Seq<char>| #[trigger]
            after.connections.contains_key(id) implies after.tables.contains_key(
            after.connections[id].channel.connection,
        ) && after.tables[after.connections[id].channel.connection].registered by {
            assert(before.connections.contains_key(id));
        }
        assert forall|id: Seq<char>, other: Seq<char>|
            #![trigger after.connections.contains_key(id), after.connections.contains_key(other)]
            after.connections.contains_key(id) && after.connections.contains_key(other) && id
                != other implies after.connections[id].channel.connection
            != after.connections[other].channel.connection by {
            assert(before.connections.contains_key(id) && before.connections.contains_key(other));
        }
        assert forall|connection: u64| #[trigger]
            after.tables.contains_key(connection)
                && after.tables[connection].registered implies exists|id: Seq<char>| #[trigger]
            after.connections.contains_key(id) && after.connections[id].channel.connection
                == connection by {
            assert(before.tables.contains_key(connection) && connection != gone);
            let id = choose|id: Seq<char>| #[trigger]
                before.connections.contains_key(id) && before.connections[id].channel.connection
                    == connection;
            assert(after.connections.contains_key(id));
        }
    }
}

/// A registry stays sound when a machine's agent connects.
proof fn lemma_registered<T, O, S>(
    before: RegistryView<T, O, S>,
    machine_id: Seq<char>,
    connected_at: SystemTime,
    tx: T,
)
    requires
        sound(before),
        before.made < u64::MAX,
    ensures
        sound(registered(before, machine_id, connected_at, tx)),
{
    let after = registered(before, machine_id, connected_at, tx);
    assert(after.connections.contains_key(machine_id));
    assert(!before.tables.contains_key(before.made));
    assert forall|id: Seq<char>| #[trigger]
        after.connections.contains_key(id) implies after.tables.contains_key(
        after.connections[id].channel.connection,
    ) && after.tables[after.connections[id].channel.connection].registered by {
        if id != machine_id {
            assert(before.connections.contains_key(id));
        }
    }
    assert forall|id: Seq<char>, other: Seq<char>|
        #![trigger after.connections.contains_key(id), after.connections.contains_key(other)]
        after.connections.contains_key(id) && after.connections.contains_key(other) && id
            != other implies after.connections[id].channel.connection
        != after.connections[other].channel.connection by {
        if id != machine_id {
            assert(before.connections.contains_key(id));
        }
        if other != machine_id {
            assert(before.connections.contains_key(other));
        }
    }
    assert forall|connection: u64| #[trigger]
        after.tables.contains_key(connection) && after.tables[connection].registered implies exists|
        id: Seq<char>,
    | #[trigger]
        after.connections.contains_key(id) && after.connections[id].channel.connection
            == connection by {
        if connection == before.made {
            assert(after.connections[machine_id].channel.connection == connection);
        } else {
            assert(before.tables.contains_key(connection));
            let id = choose|id: Seq<char>| #[trigger]
                before.connections.contains_key(id) && before.connections[id].channel.connection
                    == connection;
            assert(after.connections.contains_key(id));
        }
    }
}

impl<T, O, S> ConnectionRegistry<T, O, S> {
    #[verifier::type_invariant]
    spec fn wf(self) -> bool {
        sound(self@)
    }

    /// A registry without connections.
    pub fn new() -> (r: Self)
        ensures
            r@ == (RegistryView::<T, O, S> {
                connections: Map::empty(),
                tables: Map::empty(),
                made: 0,
            }),
    {
        ConnectionRegistry { connections: Connections::new(), tables: FlowTables::new(), made: 0 }
    }

    /// Takes everything out, to be put back with `*self = ..`.
    fn take(&mut self) -> (r: Self)
        ensures
            r@ == old(self)@,
            r == *old(self),
    {
        let mut taken = ConnectionRegistry {
            connections: Connections::new(),
            tables: FlowTables::new(),
            made: 0,
        };
        proof {
            use_type_invariant(&*self);
        }
        std::mem::swap(self, &mut taken);
        taken
    }

    /// Whether there is a number left for another connection.
    pub fn can_register(&self) -> (r: bool)
        ensures
            r == (self@.made < u64::MAX),
    {
        self.made < u64::MAX
    }

    /// Registers the connection of a machine's agent, which starts without
    /// flows, and gives its number. A connection that the machine had before
    /// is replaced.
    pub fn register(&mut self, machine_id: MachineId, connected_at: SystemTime, tx: T) -> (r: u64)
        requires
            old(self)@.made < u64::MAX,
        ensures
            r == old(self)@.made,
            final(self)@ == registered(old(self)@, machine_id@, connected_at, tx),
    {
        proof {
            use_type_invariant(&*self);
            lemma_registered(self@, machine_id@, connected_at, tx);
        }
        let ConnectionRegistry { mut connections, mut tables, made } = self.take();
        let replaced = match connections.channel(&machine_id) {
            Some(channel) => Some(channel.connection),
            None => None,
        };
        if let Some(connection) = replaced {
            tables.retire(connection);
        }
        tables.start(made);
        connections.store(machine_id, connected_at, AgentChannel { tx, connection: made });
        *self = ConnectionRegistry { connections, tables, made: made + 1 };
        made
    }

    /// Removes the connection of a machine's agent, and says whether there
    /// was one.
    pub fn unregister(&mut self, machine_id: &MachineId) -> (r: bool)
        ensures
            r == old(self)@.connections.contains_key(machine_id@),
            final(self)@ == unregistered(old(self)@, machine_id@),
    {
        proof {
            use_type_invariant(&*self);
            lemma_unregistered(self@, machine_id@);
        }
        let ConnectionRegistry { mut connections, mut tables, made } = self.take();
        let found = match connections.channel(machine_id) {
            Some(channel) => Some(channel.connection),
            None => None,
        };
        let r = match found {
            Some(connection) => {
                tables.retire(connection);
                connections.remove(machine_id)
            },
            None => false,
        };
        *self = ConnectionRegistry { connections, tables, made };
        r
    }

    /// The flow that a request names and the connection of its machine.
    fn find_flow(&self, machine_id: &MachineId, request: &ScoutStreamScoutBoundMessage) -> (r: Result<
        OpenFlow,
        CarbideError,
    >)
        ensures
            match admitted(self@.connections, machine_id@, request@) {
                Err(error) => r is Err && r->Err_0@ == error,
                Ok((flow_uuid, channel)) => r is Ok && r->Ok_0@ == (OpenFlowView {
                    machine_id: machine_id@,
                    flow_uuid,
                    connection: channel.connection,
                }),
            },
            forall|id: u128|
                request@.flow_uuid == Some(#[trigger] hyphenated(id)) ==> request_flow(
                    machine_id@,
                    request@,
                ) == Ok::<u128, CarbideErrorView>(id),
    {
        let flow_uuid: u128 = match decode_request_flow_uuid(request, machine_id) {
            Ok(id) => id,
            Err(error) => {
                return Err(error);
            },
        };
        match self.connections.channel(machine_id) {
            Some(channel) => Ok(
                OpenFlow {
                    machine_id: machine_id.clone(),
                    flow_uuid,
                    connection: channel.connection,
                },
            ),
            None => Err(
                CarbideError::NotFoundError {
                    kind: "scout stream connection".to_owned(),
                    id: machine_id.to_string(),
                },
            ),
        }
    }

    /// Starts a request that wants one response: its flow is registered with
    /// the machine's connection, its response to be handed to this sender,
    /// and only after that the request is to be sent.
    pub fn send_request(
        &mut self,
        machine_id: &MachineId,
        request: ScoutStreamScoutBoundMessage,
        sender: O,
    ) -> (r: RequestStep)
        ensures
            r@ == request_started(old(self)@, machine_id@, request),
            final(self)@ == flow_started(
                old(self)@,
                machine_id@,
                request@,
                Flow::Oneshot(sender),
            ),
            forall|id: u128|
                request@.flow_uuid == Some(#[trigger] hyphenated(id)) ==> request_flow(
                    machine_id@,
                    request@,
                ) == Ok::<u128, CarbideErrorView>(id),
    {
        let flow = match self.find_flow(machine_id, &request) {
            Ok(flow) => flow,
            Err(error) => {
                return RequestStep::Done(Err(error));
            },
        };
        proof {
            use_type_invariant(&*self);
            lemma_tables_changed(
                self@,
                flow_opened(
                    self@,
                    flow.connection,
                    flow.flow_uuid,
                    Flow::Oneshot(sender),
                ).tables,
            );
        }
        let ConnectionRegistry { connections, mut tables, made } = self.take();
        tables.register_oneshot(flow.connection, flow.flow_uuid, sender);
        tables.hold(flow.connection);
        *self = ConnectionRegistry { connections, tables, made };
        RequestStep::Send(flow, request)
    }

    /// Starts a request that opens a stream: its flow is registered with the
    /// machine's connection, its responses to be handed to this sender, and
    /// only after that the request is to be sent.
    pub fn open_stream_flow(
        &mut self,
        machine_id: &MachineId,
        request: ScoutStreamScoutBoundMessage,
        sender: S,
    ) -> (r: StreamStep)
        ensures
            r@ == stream_started(old(self)@, machine_id@, request),
            final(self)@ == flow_started(old(self)@, machine_id@, request@, Flow::Stream(sender)),
            forall|id: u128|
                request@.flow_uuid == Some(#[trigger] hyphenated(id)) ==> request_flow(
                    machine_id@,
                    request@,
                ) == Ok::<u128, CarbideErrorView>(id),
    {
        let flow = match self.find_flow(machine_id, &request) {
            Ok(flow) => flow,
            Err(error) => {
                return StreamStep::Failed(error);
            },
        };
        proof {
            use_type_invariant(&*self);
            lemma_tables_changed(
                self@,
                flow_opened(
                    self@,
                    flow.connection,
                    flow.flow_uuid,
                    Flow::Stream(sender),
                ).tables,
            );
        }
        let ConnectionRegistry { connections, mut tables, made } = self.take();
        tables.register_stream(flow.connection, flow.flow_uuid, sender);
        tables.hold(flow.connection);
        *self = ConnectionRegistry { connections, tables, made };
        StreamStep::Send(flow, request)
    }

    /// What follows a step of opening a stream, once its request was sent or
    /// could not be: where it could not, its flow is removed again and the
    /// error says why.
    pub fn stream_sent(&mut self, step: StreamStep, sent: Result<(), String>) -> (r: StreamStep)
        ensures
            r@ == stream_next(step@, sent),
            final(self)@ == (RegistryView {
                tables: tables_next(old(self)@.tables, step@, sent),
                ..old(self)@
            }),
    {
        match (step, sent) {
            (StreamStep::Send(flow, _), Ok(_)) => StreamStep::Opened(flow.flow_uuid),
            (StreamStep::Send(flow, _), Err(reason)) => {
                self.remove_flow(flow.connection, flow.flow_uuid);
                StreamStep::Failed(
                    flow.error("failed to send stream request to scout agent ", reason.as_str()),
                )
            },
            (step, _) => step,
        }
    }

    /// Removes a flow of a connection, if it is there.
    fn remove_flow(&mut self, connection: u64, flow_uuid: u128)
        ensures
            final(self)@ == (RegistryView {
                tables: with_flows(
                    old(self)@.tables,
                    connection,
                    flows_of(old(self)@.tables, connection).remove(flow_uuid),
                ),
                ..old(self)@
            }),
    {
        proof {
            use_type_invariant(&*self);
            lemma_tables_changed(
                self@,
                with_flows(
                    self@.tables,
                    connection,
                    flows_of(self@.tables, connection).remove(flow_uuid),
                ),
            );
        }
        let ConnectionRegistry { connections, mut tables, made } = self.take();
        tables.remove(connection, flow_uuid);
        *self = ConnectionRegistry { connections, tables, made };
    }

    /// Closes a stream of a machine: its flow is removed, and the request
    /// that tells the agent to stop is to be sent once. Nothing is to be
    /// done where the machine is not connected, and the stream gone with its
    /// connection.
    pub fn close_stream_flow(
        &mut self,
        machine_id: &MachineId,
        flow_uuid: u128,
        stop_request: ScoutStreamScoutBoundMessage,
    ) -> (r: Option<ScoutStreamScoutBoundMessage>)
        ensures
            r == if old(self)@.connections.contains_key(machine_id@) {
                Some(stop_request)
            } else {
                None
            },
            final(self)@ == stream_closed(old(self)@, machine_id@, flow_uuid),
    {
        let found = match self.connections.channel(machine_id) {
            Some(channel) => Some(channel.connection),
            None => None,
        };
        match found {
            Some(connection) => {
                self.remove_flow(connection, flow_uuid);
                Some(stop_request)
            },
            None => None,
        }
    }

    /// Notes that a request over a connection is over.
    pub fn release(&mut self, connection: u64)
        ensures
            final(self)@ == (RegistryView {
                tables: let_go(old(self)@.tables, connection),
                ..old(self)@
            }),
            final(self)@ == request_over(old(self)@, connection),
    {
        proof {
            use_type_invariant(&*self);
            lemma_tables_changed(self@, let_go(self@.tables, connection));
        }
        let ConnectionRegistry { connections, mut tables, made } = self.take();
        tables.release(connection);
        *self = ConnectionRegistry { connections, tables, made };
    }

    /// Notes that no more messages come in over a connection.
    pub fn stop_routing(&mut self, connection: u64)
        ensures
            final(self)@ == (RegistryView {
                tables: unrouted(old(self)@.tables, connection),
                ..old(self)@
            }),
            final(self)@ == routing_over(old(self)@, connection),
    {
        proof {
            use_type_invariant(&*self);
            lemma_tables_changed(self@, unrouted(self@.tables, connection));
        }
        let ConnectionRegistry { connections, mut tables, made } = self.take();
        tables.stop_routing(connection);
        *self = ConnectionRegistry { connections, tables, made };
    }

    /// Settles what becomes of a message that came in over a connection.
    pub fn route(&mut self, connection: u64, response: &ScoutStreamApiBoundMessage) -> (r: Delivery<
        O,
    >)
        ensures
            r == delivery(flows_of(old(self)@.tables, connection), message_flow(response@)),
            final(self)@ == (RegistryView {
                tables: with_flows(
                    old(self)@.tables,
                    connection,
                    flows_after(flows_of(old(self)@.tables, connection), message_flow(response@)),
                ),
                ..old(self)@
            }),
            forall|id: u128|
                response@.flow_uuid == Some(#[trigger] hyphenated(id)) ==> message_flow(response@)
                    == Some(id),
            final(self)@ == message_routed(old(self)@, connection, message_flow(response@)),
    {
        proof {
            use_type_invariant(&*self);
            lemma_tables_changed(
                self@,
                with_flows(
                    self@.tables,
                    connection,
                    flows_after(flows_of(self@.tables, connection), message_flow(response@)),
                ),
            );
        }
        let ConnectionRegistry { connections, mut tables, made } = self.take();
        let r = tables.route(connection, response);
        *self = ConnectionRegistry { connections, tables, made };
        r
    }

    /// The sender of a stream of a connection, if the flow is one.
    pub fn stream_sender(&self, connection: u64, flow_uuid: u128) -> (r: Option<&S>)
        ensures
            match r {
                Some(sender) => flows_of(self@.tables, connection).contains_key(flow_uuid)
                    && flows_of(self@.tables, connection)[flow_uuid] == Flow::<O, S>::Stream(*sender),
                None => !(flows_of(self@.tables, connection).contains_key(flow_uuid) && flows_of(
                    self@.tables,
                    connection,
                )[flow_uuid] is Stream),
            },
    {
        self.tables.stream_sender(connection, flow_uuid)
    }

    /// Takes note of how handing a message to the sender of a connection's
    /// stream went.
    pub fn handed_over(&mut self, connection: u64, flow_uuid: u128, handover: Handover)
        ensures
            final(self)@ == (RegistryView {
                tables: with_flows(
                    old(self)@.tables,
                    connection,
                    flows_after_handover(
                        flows_of(old(self)@.tables, connection),
                        flow_uuid,
                        handover,
                    ),
                ),
                ..old(self)@
            }),
            final(self)@ == handover_noted(old(self)@, connection, flow_uuid, handover),
    {
        proof {
            use_type_invariant(&*self);
            lemma_tables_changed(
                self@,
                with_flows(
                    self@.tables,
                    connection,
                    flows_after_handover(flows_of(self@.tables, connection), flow_uuid, handover),
                ),
            );
        }
        let ConnectionRegistry { connections, mut tables, made } = self.take();
        tables.handed_over(connection, flow_uuid, handover);
        *self = ConnectionRegistry { connections, tables, made };
    }

    /// The sender of the requests to a machine, if its agent is connected.
    pub fn sender(&self, machine_id: &MachineId) -> (r: Option<&T>)
        ensures
            match r {
                Some(tx) => self@.connections.contains_key(machine_id@) && *tx
                    == self@.connections[machine_id@].channel.tx,
                None => !self@.connections.contains_key(machine_id@),
            },
            r is Some <==> sender_of(self@, machine_id@) is Some,
            r is Some ==> *r->0 == sender_of(self@, machine_id@)->0,
    {
        match self.connections.channel(machine_id) {
            Some(channel) => Some(&channel.tx),
            None => None,
        }
    }

    /// Whether a machine's agent is connected.
    pub fn is_connected(&self, machine_id: &MachineId) -> (r: bool)
        ensures
            r == self@.connections.contains_key(machine_id@),
    {
        self.connections.is_connected(machine_id)
    }

    /// Every connected machine once, in no particular order, and since when
    /// it is connected.
    pub fn list_connected(&self) -> (r: Vec<(MachineId, SystemTime)>)
        ensures
            forall|i: int|
                0 <= i < r.len() ==> self@.connections.contains_key((#[trigger] r[i]).0@) && r[i].1
                    == self@.connections[r[i].0@].connected_at,
            forall|id: Seq<char>| #[trigger]
                self@.connections.contains_key(id) ==> exists|i: int|
                    0 <= i < r.len() && (#[trigger] r[i]).0@ == id,
            forall|i: int, j: int|
                #![trigger r[i], r[j]]
                0 <= i < j < r.len() ==> r[i].0@ != r[j].0@,
    {
        self.connections.list_connected()
    }
}

/// The registry once a stream of a machine was closed.
pub open spec fn stream_closed<T, O, S>(
    registry: RegistryView<T, O, S>,
    machine_id: Seq<char>,
    flow_uuid: u128,
) -> RegistryView<T, O, S> {
    if registry.connections.contains_key(machine_id) {
        RegistryView {
            tables: with_flows(
                registry.tables,
                registry.connections[machine_id].channel.connection,
                machine_flows(registry, machine_id).remove(flow_uuid),
            ),
            ..registry
        }
    } else {
        registry
    }
}

/// A machine that registers, for the first time or again, is connected by
/// one connection: the new one, made now, whose sender its requests go to.
/// That connection has a table that none had before, and no flow is on it,
/// whatever flows the machine had. The other machines keep their
/// connections and their flows.
pub proof fn law_new_connection_has_no_flows<T, O, S>(
    registry: RegistryView<T, O, S>,
    machine_id: Seq<char>,
    connected_at: SystemTime,
    tx: T,
    flow_uuid: u128,
    other: Seq<char>,
)
    requires
        sound(registry),
        registry.made < u64::MAX,
        other != machine_id,
    ensures
        ({
            let after = registered(registry, machine_id, connected_at, tx);
            &&& sound(after)
            &&& after.connections.contains_key(machine_id)
            &&& after.connections[machine_id].connected_at == connected_at
            &&& after.connections[machine_id].channel.tx == tx
            &&& !registry.tables.contains_key(after.connections[machine_id].channel.connection)
            &&& machine_flows(after, machine_id) == Map::<u128, Flow<O, S>>::empty()
            &&& delivery(machine_flows(after, machine_id), Some(flow_uuid)) == Delivery::<
                O,
            >::Unknown(flow_uuid)
            &&& after.connections.contains_key(other) == registry.connections.contains_key(other)
            &&& registry.connections.contains_key(other) ==> after.connections[other]
                == registry.connections[other] && machine_flows(after, other) == machine_flows(
                registry,
                other,
            )
        }),
{
    lemma_registered(registry, machine_id, connected_at, tx);
    let after = registered(registry, machine_id, connected_at, tx);
    assert(after.connections.contains_key(machine_id));
    if registry.connections.contains_key(other) {
        assert(registry.connections.contains_key(other));
        assert(registry.tables.contains_key(registry.connections[other].channel.connection));
    }
}

/// A connection that is replaced or removed keeps its flows for what still
/// reaches it, messages from its agent and requests under way; where
/// nothing does, they are gone with it.
pub proof fn law_replaced_connection_keeps_its_flows<T, O, S>(
    registry: RegistryView<T, O, S>,
    machine_id: Seq<char>,
    connected_at: SystemTime,
    tx: T,
)
    requires
        sound(registry),
        registry.made < u64::MAX,
        registry.connections.contains_key(machine_id),
    ensures
        ({
            let connection = registry.connections[machine_id].channel.connection;
            let replaced = registered(registry, machine_id, connected_at, tx);
            let removed = unregistered(registry, machine_id);
            let reached = registry.tables[connection].routed || registry.tables[connection].holds
                > 0;
            &&& replaced.tables.contains_key(connection) == reached
            &&& removed.tables.contains_key(connection) == reached
            &&& reached ==> flows_of(replaced.tables, connection) == machine_flows(
                registry,
                machine_id,
            )
            &&& reached ==> flows_of(removed.tables, connection) == machine_flows(
                registry,
                machine_id,
            )
        }),
{
    let connection = registry.connections[machine_id].channel.connection;
    assert(registry.tables.contains_key(connection));
}

/// When a request is to be sent, its flow is already registered with the
/// connection it goes over, for one response where it wants one and for many
/// where it opens a stream; and the message that answers it goes to the
/// sender that it came with. While the request is under way its flow stays,
/// though its connection be replaced or removed, or its agent gone.
pub proof fn law_flow_is_registered_before_its_request_is_sent<T, O, S>(
    registry: RegistryView<T, O, S>,
    machine_id: Seq<char>,
    request: ScoutStreamScoutBoundMessage,
    flow: Flow<O, S>,
)
    requires
        sound(registry),
        admitted(registry.connections, machine_id, request@) is Ok,
    ensures
        ({
            let after = flow_started(registry, machine_id, request@, flow);
            let flow_uuid = request_flow(machine_id, request@)->Ok_0;
            let connection = registry.connections[machine_id].channel.connection;
            let on_the_way = OpenFlowView { machine_id, flow_uuid, connection };
            &&& request_started(registry, machine_id, request) == RequestStepView::Send(
                on_the_way,
                request,
            )
            &&& stream_started(registry, machine_id, request) == StreamStepView::Send(
                on_the_way,
                request,
            )
            &&& machine_flows(after, machine_id) == machine_flows(registry, machine_id).insert(
                flow_uuid,
                flow,
            )
            &&& after.connections == registry.connections
            &&& flows_of(unrouted(retired(after.tables, connection), connection), connection)
                == machine_flows(after, machine_id)
            &&& flow matches Flow::Oneshot(sender) ==> delivery(
                machine_flows(after, machine_id),
                Some(flow_uuid),
            ) == Delivery::Oneshot(flow_uuid, sender)
            &&& flow is Stream ==> delivery(machine_flows(after, machine_id), Some(flow_uuid))
                == Delivery::<O>::Stream(flow_uuid)
        }),
{
    let connection = registry.connections[machine_id].channel.connection;
    assert(registry.connections.contains_key(machine_id));
    assert(registry.tables.contains_key(connection));
}

/// A step of a request after a list of events.
pub open spec fn request_run(
    start: RequestStepView,
    events: Seq<RequestEvent>,
) -> RequestStepView
    decreases events.len(),
{
    if events.len() == 0 {
        start
    } else {
        request_next(request_run(start, events.drop_last()), events.last())
    }
}

/// A request is sent once: whatever comes after the attempt, no step asks to
/// send anything again. And once a request is over, it stays so.
pub proof fn law_request_is_sent_once(start: RequestStepView, events: Seq<RequestEvent>, first: int)
    requires
        0 <= first < events.len(),
        events[first] is Sent || events[first] is SendFailed,
    ensures
        !(request_run(start, events) is Send),
        request_run(start, events.take(first)) is Done ==> request_run(start, events)
            == request_run(start, events.take(first)),
    decreases events.len(),
{
    let before = events.drop_last();
    if first < before.len() {
        assert(before[first] == events[first]);
        assert(before.take(first) =~= events.take(first));
        law_request_is_sent_once(start, before, first);
    } else {
        assert(events.take(first) =~= before);
        assert(events.last() == events[first]);
    }
}

/// What a request comes to: an error where it could not be sent, and, once
/// it was sent, its response or an error where none will come.
pub proof fn law_outcome_of_a_request(
    flow: OpenFlowView,
    request: ScoutStreamScoutBoundMessage,
    event: RequestEvent,
)
    ensures
        ({
            let start = RequestStepView::Send(flow, request);
            &&& event matches RequestEvent::SendFailed(reason) ==> request_next(start, event)
                == RequestStepView::Done(
                Err(
                    flow_error(
                        "failed to send request to scout agent "@,
                        flow.machine_id,
                        flow.flow_uuid,
                        reason@,
                    ),
                ),
            )
            &&& event matches RequestEvent::Response(message) ==> request_next(
                request_next(start, RequestEvent::Sent),
                event,
            ) == RequestStepView::Done(Ok(message))
            &&& event matches RequestEvent::ResponseFailed(reason) ==> request_next(
                request_next(start, RequestEvent::Sent),
                event,
            ) == RequestStepView::Done(
                Err(
                    flow_error(
                        "response channel error "@,
                        flow.machine_id,
                        flow.flow_uuid,
                        reason@,
                    ),
                ),
            )
        }),
{
}

/// A stream whose request cannot be sent leaves no flow behind: where its
/// identifier was not taken, the machine's flows are as they were.
pub proof fn law_unsent_stream_is_not_registered<T, O, S>(
    registry: RegistryView<T, O, S>,
    machine_id: Seq<char>,
    request: ScoutStreamScoutBoundMessage,
    sender: S,
    reason: String,
)
    requires
        sound(registry),
        admitted(registry.connections, machine_id, request@) is Ok,
    ensures
        ({
            let opened = flow_started(registry, machine_id, request@, Flow::Stream(sender));
            let step = stream_started(registry, machine_id, request);
            let after = RegistryView {
                tables: tables_next(opened.tables, step, Err(reason)),
                ..opened
            };
            let flow_uuid = request_flow(machine_id, request@)->Ok_0;
            &&& stream_next(step, Err(reason)) is Failed
            &&& machine_flows(after, machine_id) == machine_flows(registry, machine_id).remove(
                flow_uuid,
            )
            &&& !machine_flows(registry, machine_id).contains_key(flow_uuid) ==> machine_flows(
                after,
                machine_id,
            ) == machine_flows(registry, machine_id)
        }),
{
    let flows = machine_flows(registry, machine_id);
    let flow_uuid = request_flow(machine_id, request@)->Ok_0;
    assert(registry.connections.contains_key(machine_id));
    assert(registry.tables.contains_key(registry.connections[machine_id].channel.connection));
    assert(flows.insert(flow_uuid, Flow::Stream(sender)).remove(flow_uuid) =~= flows.remove(
        flow_uuid,
    ));
    if !flows.contains_key(flow_uuid) {
        assert(flows.remove(flow_uuid) =~= flows);
    }
}

/// A flow that waits for one response gets the next message on it, and is
/// over with it: the message after that is dropped as unknown.
pub proof fn law_one_response_for_a_request<O, S>(
    flows: Map<u128, Flow<O, S>>,
    flow_uuid: u128,
    sender: O,
)
    ensures
        ({
            let waiting = flows.insert(flow_uuid, Flow::Oneshot(sender));
            let after = flows_after(waiting, Some(flow_uuid));
            &&& delivery(waiting, Some(flow_uuid)) == Delivery::Oneshot(flow_uuid, sender)
            &&& after == flows.remove(flow_uuid)
            &&& delivery(after, Some(flow_uuid)) == Delivery::<O>::Unknown(flow_uuid)
        }),
{
    let waiting = flows.insert(flow_uuid, Flow::Oneshot(sender));
    assert(waiting.remove(flow_uuid) =~= flows.remove(flow_uuid));
}

/// A message touches no flow but the one it names.
pub proof fn law_other_flows_untouched<O, S>(
    flows: Map<u128, Flow<O, S>>,
    flow: Option<u128>,
    handover: Handover,
    other: u128,
)
    requires
        flow != Some(other),
    ensures
        routed_one(flows, flow, handover).contains_key(other) == flows.contains_key(other),
        flows.contains_key(other) ==> routed_one(flows, flow, handover)[other] == flows[other],
{
}

/// The flows left after one message, given how its handover goes if it is
/// one of a stream.
pub open spec fn routed_one<O, S>(
    flows: Map<u128, Flow<O, S>>,
    flow: Option<u128>,
    handover: Handover,
) -> Map<u128, Flow<O, S>> {
    match delivery(flows, flow) {
        Delivery::Stream(id) => flows_after_handover(flows_after(flows, flow), id, handover),
        _ => flows_after(flows, flow),
    }
}

/// The flows left after a list of messages, each with the flow it names and
/// how its handover goes if it is one of a stream.
pub open spec fn routed<O, S>(
    flows: Map<u128, Flow<O, S>>,
    messages: Seq<(Option<u128>, Handover)>,
) -> Map<u128, Flow<O, S>>
    decreases messages.len(),
{
    if messages.len() == 0 {
        flows
    } else {
        routed_one(routed(flows, messages.drop_last()), messages.last().0, messages.last().1)
    }
}

/// A stream stays registered with its sender through any messages, dropped
/// ones too, as long as its reader is there: so every message on it is
/// delivered to it.
pub proof fn law_stream_stays_until_closed<O, S>(
    flows: Map<u128, Flow<O, S>>,
    messages: Seq<(Option<u128>, Handover)>,
    flow_uuid: u128,
)
    requires
        flows.contains_key(flow_uuid),
        flows[flow_uuid] is Stream,
        forall|i: int|
            0 <= i < messages.len() ==> !((#[trigger] messages[i]).0 == Some(flow_uuid)
                && messages[i].1 == Handover::Closed),
    ensures
        routed(flows, messages).contains_key(flow_uuid),
        routed(flows, messages)[flow_uuid] == flows[flow_uuid],
        delivery(routed(flows, messages), Some(flow_uuid)) == Delivery::<O>::Stream(flow_uuid),
    decreases messages.len(),
{
    if messages.len() > 0 {
        let before = messages.drop_last();
        assert forall|i: int| 0 <= i < before.len() implies !((#[trigger] before[i]).0 == Some(
            flow_uuid,
        ) && before[i].1 == Handover::Closed) by {
            assert(before[i] == messages[i]);
        }
        law_stream_stays_until_closed(flows, before, flow_uuid);
        assert(messages[messages.len() - 1] == messages.last());
    }
}

/// A flow that waits for one response is registered exactly until the first
/// message on it.
pub proof fn law_request_waits_for_its_response<O, S>(
    flows: Map<u128, Flow<O, S>>,
    messages: Seq<(Option<u128>, Handover)>,
    flow_uuid: u128,
)
    requires
        flows.contains_key(flow_uuid),
        flows[flow_uuid] is Oneshot,
    ensures
        routed(flows, messages).contains_key(flow_uuid) <==> forall|i: int|
            0 <= i < messages.len() ==> (#[trigger] messages[i]).0 != Some(flow_uuid),
        routed(flows, messages).contains_key(flow_uuid) ==> routed(flows, messages)[flow_uuid]
            == flows[flow_uuid],
    decreases messages.len(),
{
    if messages.len() > 0 {
        let before = messages.drop_last();
        law_request_waits_for_its_response(flows, before, flow_uuid);
        assert(messages[messages.len() - 1] == messages.last());
        if routed(flows, before).contains_key(flow_uuid) {
            assert forall|i: int| 0 <= i < messages.len() - 1 implies (#[trigger] messages[i]).0
                != Some(flow_uuid) by {
                assert(before[i] == messages[i]);
            }
        } else {
            let i = choose|i: int|
                0 <= i < before.len() && (#[trigger] before[i]).0 == Some(flow_uuid);
            assert(messages[i] == before[i]);
        }
    }
}

/// Messages register no flow.
pub proof fn law_messages_register_nothing<O, S>(
    flows: Map<u128, Flow<O, S>>,
    messages: Seq<(Option<u128>, Handover)>,
)
    ensures
        routed(flows, messages).submap_of(flows),
    decreases messages.len(),
{
    if messages.len() > 0 {
        law_messages_register_nothing(flows, messages.drop_last());
    }
}

/// A message on a flow that was closed is dropped as unknown and changes
/// nothing, and the other flows are as they were.
pub proof fn law_closed_flow_is_unknown<O, S>(
    flows: Map<u128, Flow<O, S>>,
    flow_uuid: u128,
    handover: Handover,
    other: u128,
)
    requires
        other != flow_uuid,
    ensures
        ({
            let closed = flows.remove(flow_uuid);
            &&& delivery(closed, Some(flow_uuid)) == Delivery::<O>::Unknown(flow_uuid)
            &&& routed_one(closed, Some(flow_uuid), handover) == closed
            &&& closed.contains_key(other) == flows.contains_key(other)
            &&& flows.contains_key(other) ==> closed[other] == flows[other]
            &&& delivery(closed, Some(other)) == delivery(flows, Some(other))
        }),
{
}

/// Closing a flow undoes opening it, and closing it again changes nothing.
pub proof fn law_closing_undoes_opening<O, S>(
    flows: Map<u128, Flow<O, S>>,
    flow_uuid: u128,
    sender: S,
)
    ensures
        flows.insert(flow_uuid, Flow::Stream(sender)).remove(flow_uuid) == flows.remove(flow_uuid),
        flows.remove(flow_uuid).remove(flow_uuid) == flows.remove(flow_uuid),
{
    assert(flows.insert(flow_uuid, Flow::Stream(sender)).remove(flow_uuid) =~= flows.remove(
        flow_uuid,
    ));
    assert(flows.remove(flow_uuid).remove(flow_uuid) =~= flows.remove(flow_uuid));
}

/// Closing a stream of a connected machine takes the flow from that
/// machine's own connection and nothing else: a message on it over that
/// connection is unknown from here on, the machine's other flows are as they
/// were, and so are the flows of every other connection and all the
/// connections themselves. Closing a stream of a machine that is not
/// connected changes nothing.
pub proof fn law_closing_takes_the_flow_of_its_own_machine<T, O, S>(
    registry: RegistryView<T, O, S>,
    machine_id: Seq<char>,
    flow_uuid: u128,
    other_flow: u128,
    connection: u64,
)
    requires
        sound(registry),
        other_flow != flow_uuid,
    ensures
        ({
            let after = stream_closed(registry, machine_id, flow_uuid);
            let own = registry.connections[machine_id].channel.connection;
            &&& !registry.connections.contains_key(machine_id) ==> after == registry
            &&& registry.connections.contains_key(machine_id) ==> {
                &&& after.tables.contains_key(own)
                &&& after.tables[own].flows == registry.tables[own].flows.remove(flow_uuid)
                &&& delivery(after.tables[own].flows, Some(flow_uuid)) == Delivery::<O>::Unknown(
                    flow_uuid,
                )
                &&& delivery(after.tables[own].flows, Some(other_flow)) == delivery(
                    registry.tables[own].flows,
                    Some(other_flow),
                )
                &&& after.tables[own].registered == registry.tables[own].registered
                &&& after.tables[own].routed == registry.tables[own].routed
                &&& after.tables[own].holds == registry.tables[own].holds
            }
            &&& !(registry.connections.contains_key(machine_id) && connection == own) ==> (
            after.tables.contains_key(connection) == registry.tables.contains_key(connection)) && (
            registry.tables.contains_key(connection) ==> after.tables[connection]
                == registry.tables[connection])
            &&& after.connections == registry.connections
            &&& after.made == registry.made
        }),
{
    if registry.connections.contains_key(machine_id) {
        assert(registry.tables.contains_key(registry.connections[machine_id].channel.connection));
    }
}

/// A stream that is opened and closed again leaves the machine's flows
/// without it and otherwise as they were.
pub proof fn law_closing_undoes_opening_a_stream<T, O, S>(
    registry: RegistryView<T, O, S>,
    machine_id: Seq<char>,
    request: ScoutStreamScoutBoundMessage,
    flow_uuid: u128,
    sender: S,
)
    requires
        sound(registry),
        registry.connections.contains_key(machine_id),
        request_flow(machine_id, request@) == Ok::<u128, CarbideErrorView>(flow_uuid),
    ensures
        ({
            let own = registry.connections[machine_id].channel.connection;
            let opened = flow_started(registry, machine_id, request@, Flow::Stream(sender));
            let closed = stream_closed(opened, machine_id, flow_uuid);
            &&& opened.tables[own].flows == registry.tables[own].flows.insert(
                flow_uuid,
                Flow::Stream(sender),
            )
            &&& closed.tables[own].flows == registry.tables[own].flows.remove(flow_uuid)
        }),
{
    let own = registry.connections[machine_id].channel.connection;
    assert(registry.tables.contains_key(own));
    assert(registry.tables[own].flows.insert(flow_uuid, Flow::Stream(sender)).remove(flow_uuid)
        =~= registry.tables[own].flows.remove(flow_uuid));
}

/// A machine that is unregistered is not connected, and the others are as
/// they were, with their connections and flows; unregistering a machine that
/// is not connected changes nothing.
pub proof fn law_unregistering_takes_one_machine<T, O, S>(
    registry: RegistryView<T, O, S>,
    machine_id: Seq<char>,
    other: Seq<char>,
    connection: u64,
)
    requires
        sound(registry),
        other != machine_id,
    ensures
        ({
            let after = unregistered(registry, machine_id);
            let own = registry.connections[machine_id].channel.connection;
            &&& sound(after)
            &&& !after.connections.contains_key(machine_id)
            &&& after.connections.contains_key(other) == registry.connections.contains_key(other)
            &&& registry.connections.contains_key(other) ==> after.connections[other]
                == registry.connections[other] && after.tables.contains_key(
                registry.connections[other].channel.connection,
            ) && after.tables[registry.connections[other].channel.connection]
                == registry.tables[registry.connections[other].channel.connection]
            &&& !registry.connections.contains_key(machine_id) ==> after == registry
            &&& connection != own ==> (after.tables.contains_key(connection)
                == registry.tables.contains_key(connection)) && (registry.tables.contains_key(
                connection,
            ) ==> after.tables[connection] == registry.tables[connection])
            &&& after.made == registry.made
        }),
{
    lemma_unregistered(registry, machine_id);
    if registry.connections.contains_key(other) {
        assert(registry.tables.contains_key(registry.connections[other].channel.connection));
    }
}

/// A new connection is numbered with the count of those made before it, is
/// the machine's registered one, and can be routed; no connection but the
/// one that it replaces is touched.
pub proof fn law_registering_adds_one_connection<T, O, S>(
    registry: RegistryView<T, O, S>,
    machine_id: Seq<char>,
    connected_at: SystemTime,
    tx: T,
    connection: u64,
)
    requires
        sound(registry),
        registry.made < u64::MAX,
    ensures
        ({
            let after = registered(registry, machine_id, connected_at, tx);
            &&& after.connections == registry.connections.insert(
                machine_id,
                ConnectionView {
                    connected_at,
                    channel: AgentChannel { tx, connection: registry.made },
                },
            )
            &&& after.tables.contains_key(registry.made)
            &&& after.tables[registry.made] == (TableView::<O, S> {
                flows: Map::empty(),
                registered: true,
                routed: true,
                holds: 0,
            })
            &&& after.made == registry.made + 1
            &&& connection != registry.made && !(registry.connections.contains_key(machine_id)
                && connection == registry.connections[machine_id].channel.connection) ==> (
            after.tables.contains_key(connection) == registry.tables.contains_key(connection)) && (
            registry.tables.contains_key(connection) ==> after.tables[connection]
                == registry.tables[connection])
        }),
{
    assert(!registry.tables.contains_key(registry.made));
}

/// A request that is let through touches the connection of its own machine
/// alone; one that is not changes nothing.
pub proof fn law_request_touches_its_own_connection<T, O, S>(
    registry: RegistryView<T, O, S>,
    machine_id: Seq<char>,
    request: MessageView<RequestView>,
    flow: Flow<O, S>,
    connection: u64,
)
    requires
        sound(registry),
    ensures
        ({
            let after = flow_started(registry, machine_id, request, flow);
            let own = registry.connections[machine_id].channel.connection;
            &&& after.connections == registry.connections
            &&& after.made == registry.made
            &&& (request_flow(machine_id, request) is Err || !registry.connections.contains_key(
                machine_id,
            )) ==> after == registry
            &&& connection != own ==> (after.tables.contains_key(connection)
                == registry.tables.contains_key(connection)) && (registry.tables.contains_key(
                connection,
            ) ==> after.tables[connection] == registry.tables[connection])
            &&& request_flow(machine_id, request) is Ok && registry.connections.contains_key(
                machine_id,
            ) ==> {
                &&& after.tables[own].flows == registry.tables[own].flows.insert(
                    request_flow(machine_id, request)->Ok_0,
                    flow,
                )
                &&& (after.tables[own].holds == registry.tables[own].holds + 1
                    || registry.tables[own].holds == u64::MAX)
                &&& after.tables[own].registered
                &&& after.tables[own].routed == registry.tables[own].routed
            }
        }),
{
    if registry.connections.contains_key(machine_id) {
        assert(registry.tables.contains_key(registry.connections[machine_id].channel.connection));
    }
}

/// A request without a flow is an error that names its machine; one whose
/// flow cannot be read is an error with the text and the reason; and one to
/// a machine that is not connected is not found under that machine. The
/// flow is looked at first.
pub proof fn law_refused_requests<T, O, S>(
    registry: RegistryView<T, O, S>,
    machine_id: Seq<char>,
    request: ScoutStreamScoutBoundMessage,
)
    ensures
        ({
            let refused = match request@.flow_uuid {
                None => Some(
                    CarbideErrorView::Internal {
                        message: "flow_uuid empty for flow with "@ + machine_id
                            + ", unable to build flow"@,
                    },
                ),
                Some(value) => match parsed_uuid(value) {
                    Err((_, debug)) => Some(
                        CarbideErrorView::Internal {
                            message: "failed to decode flow_uuid (machine_id="@ + machine_id
                                + "): "@ + ("Uuid { value: "@ + quoted(value) + " }"@) + ": "@
                                + debug,
                        },
                    ),
                    Ok(_) => if registry.connections.contains_key(machine_id) {
                        None
                    } else {
                        Some(
                            CarbideErrorView::NotFoundError {
                                kind: "scout stream connection"@,
                                id: machine_id,
                            },
                        )
                    },
                },
            };
            &&& refused matches Some(error) ==> request_started(registry, machine_id, request)
                == RequestStepView::Done(Err(error)) && stream_started(
                registry,
                machine_id,
                request,
            ) == StreamStepView::Failed(error)
            &&& refused is None ==> {
                let flow_uuid = parsed_uuid(request@.flow_uuid->0)->Ok_0;
                let flow = OpenFlowView {
                    machine_id,
                    flow_uuid,
                    connection: registry.connections[machine_id].channel.connection,
                };
                &&& request_started(registry, machine_id, request) == RequestStepView::Send(
                    flow,
                    request,
                )
                &&& stream_started(registry, machine_id, request) == StreamStepView::Send(
                    flow,
                    request,
                )
            }
        }),
{
}

/// A message from an agent goes to the flow that its identifier reads as;
/// one that names no flow, or one that cannot be read, goes to none.
pub proof fn law_flow_of_a_message(message: MessageView<ReplyView>)
    ensures
        message_flow(message) == match message.flow_uuid {
            Some(value) => parsed_uuid(value).ok(),
            None => None::<u128>,
        },
{
}

/// A message on no registered flow, or on none at all, is dropped and
/// changes no flow.
pub proof fn law_dropped_messages_change_nothing<O, S>(
    flows: Map<u128, Flow<O, S>>,
    flow_uuid: u128,
    handover: Handover,
)
    ensures
        delivery(flows, None) == Delivery::<O>::Unreadable,
        flows_after(flows, None) == flows,
        routed_one(flows, None, handover) == flows,
        !flows.contains_key(flow_uuid) ==> delivery(flows, Some(flow_uuid)) == Delivery::<
            O,
        >::Unknown(flow_uuid) && flows_after(flows, Some(flow_uuid)) == flows,
{
}

/// A message is handed to the sender that its own flow was registered with:
/// the one of a request takes the flow away, that of a stream leaves it.
pub proof fn law_message_goes_to_its_own_flow<O, S>(
    flows: Map<u128, Flow<O, S>>,
    flow_uuid: u128,
)
    requires
        flows.contains_key(flow_uuid),
    ensures
        match flows[flow_uuid] {
            Flow::Oneshot(sender) => delivery(flows, Some(flow_uuid)) == Delivery::Oneshot(
                flow_uuid,
                sender,
            ) && flows_after(flows, Some(flow_uuid)) == flows.remove(flow_uuid),
            Flow::Stream(_) => delivery(flows, Some(flow_uuid)) == Delivery::<O>::Stream(flow_uuid)
                && flows_after(flows, Some(flow_uuid)) == flows,
        },
{
}

/// A stream goes when its reader is gone and only then; a reader that has
/// fallen behind keeps its stream.
pub proof fn law_stream_goes_with_its_reader<O, S>(
    flows: Map<u128, Flow<O, S>>,
    flow_uuid: u128,
)
    ensures
        flows_after_handover(flows, flow_uuid, Handover::Closed) == flows.remove(flow_uuid),
        flows_after_handover(flows, flow_uuid, Handover::Full) == flows,
        flows_after_handover(flows, flow_uuid, Handover::Sent) == flows,
        flows.contains_key(flow_uuid) && flows[flow_uuid] is Stream ==> routed_one(
            flows,
            Some(flow_uuid),
            Handover::Closed,
        ) == flows.remove(flow_uuid),
{
}

/// A request that could not be sent or is not answered is an error that
/// tells which of the two it was, where, and why.
pub proof fn law_failed_request_tells_where_and_why(
    flow: OpenFlowView,
    request: ScoutStreamScoutBoundMessage,
    reason: String,
)
    ensures
        ({
            let place = "(machine_id="@ + flow.machine_id + ", flow_uuid="@ + hyphenated(
                flow.flow_uuid,
            ) + "): "@;
            &&& request_next(
                RequestStepView::Send(flow, request),
                RequestEvent::SendFailed(reason),
            ) == RequestStepView::Done(
                Err(
                    CarbideErrorView::Internal {
                        message: "failed to send request to scout agent "@ + place + reason@,
                    },
                ),
            )
            &&& request_next(RequestStepView::Wait(flow), RequestEvent::ResponseFailed(reason))
                == RequestStepView::Done(
                Err(
                    CarbideErrorView::Internal {
                        message: "response channel error "@ + place + reason@,
                    },
                ),
            )
            &&& stream_next(StreamStepView::Send(flow, request), Err(reason))
                == StreamStepView::Failed(
                CarbideErrorView::Internal {
                    message: "failed to send stream request to scout agent "@ + place + reason@,
                },
            )
        }),
{
}

/// A request waits once it was sent, is over with the very message that
/// answers it, and moves only with the event that its step calls for.
pub proof fn law_request_moves_with_its_events(
    flow: OpenFlowView,
    request: ScoutStreamScoutBoundMessage,
    response: ScoutStreamApiBoundMessage,
    step: RequestStepView,
    event: RequestEvent,
)
    ensures
        request_next(RequestStepView::Send(flow, request), RequestEvent::Sent)
            == RequestStepView::Wait(flow),
        request_next(RequestStepView::Wait(flow), RequestEvent::Response(response))
            == RequestStepView::Done(Ok(response)),
        request_next(step, event) != step ==> match step {
            RequestStepView::Send(_, _) => event is Sent || event is SendFailed,
            RequestStepView::Wait(_) => event is Response || event is ResponseFailed,
            RequestStepView::Done(_) => false,
        },
{
}

/// A stream whose request was sent is open on its flow, with every flow as
/// it was; where the request could not be sent, the flow is taken from the
/// connection that it was to run over, and no other connection is touched.
pub proof fn law_stream_opens_on_its_flow<O, S>(
    tables: Map<u64, TableView<O, S>>,
    flow: OpenFlowView,
    request: ScoutStreamScoutBoundMessage,
    reason: String,
    connection: u64,
)
    ensures
        ({
            let step = StreamStepView::Send(flow, request);
            let failed = tables_next(tables, step, Err(reason));
            &&& stream_next(step, Ok(())) == StreamStepView::Opened(flow.flow_uuid)
            &&& tables_next(tables, step, Ok(())) == tables
            &&& tables.contains_key(flow.connection) ==> failed[flow.connection].flows
                == tables[flow.connection].flows.remove(flow.flow_uuid)
            &&& connection != flow.connection ==> (failed.contains_key(connection)
                == tables.contains_key(connection)) && (tables.contains_key(connection)
                ==> failed[connection] == tables[connection])
        }),
{
}

/// Flows, steps and errors are seen as they are.
pub proof fn law_registry_views(
    flow: OpenFlow,
    request: ScoutStreamScoutBoundMessage,
    response: ScoutStreamApiBoundMessage,
    error: CarbideError,
    a: String,
    b: String,
)
    ensures
        flow@.machine_id == flow.machine_id@,
        flow@.flow_uuid == flow.flow_uuid,
        flow@.connection == flow.connection,
        RequestStep::Send(flow, request)@ == RequestStepView::Send(flow@, request),
        RequestStep::Wait(flow)@ == RequestStepView::Wait(flow@),
        RequestStep::Done(Ok(response))@ == RequestStepView::Done(Ok(response)),
        RequestStep::Done(Err(error))@ == RequestStepView::Done(Err(error@)),
        StreamStep::Send(flow, request)@ == StreamStepView::Send(flow@, request),
        StreamStep::Opened(flow.flow_uuid)@ == StreamStepView::Opened(flow.flow_uuid),
        StreamStep::Failed(error)@ == StreamStepView::Failed(error@),
        (CarbideError::NotFoundError { kind: a, id: b })@ == (CarbideErrorView::NotFoundError {
            kind: a@,
            id: b@,
        }),
        (CarbideError::Internal { message: a })@ == (CarbideErrorView::Internal { message: a@ }),
        carbide_result::<u128>(Ok(flow.flow_uuid)) == Ok::<u128, CarbideErrorView>(flow.flow_uuid),
        carbide_result::<u128>(Err(error)) == Err::<u128, CarbideErrorView>(error@),
{
}

/// The registry once a message that came in over a connection was settled.
pub open spec fn message_routed<T, O, S>(
    registry: RegistryView<T, O, S>,
    connection: u64,
    flow: Option<u128>,
) -> RegistryView<T, O, S> {
    RegistryView {
        tables: with_flows(
            registry.tables,
            connection,
            flows_after(flows_of(registry.tables, connection), flow),
        ),
        ..registry
    }
}

/// The registry once a message was handed to the sender of a connection's
/// stream.
pub open spec fn handover_noted<T, O, S>(
    registry: RegistryView<T, O, S>,
    connection: u64,
    flow_uuid: u128,
    handover: Handover,
) -> RegistryView<T, O, S> {
    RegistryView {
        tables: with_flows(
            registry.tables,
            connection,
            flows_after_handover(flows_of(registry.tables, connection), flow_uuid, handover),
        ),
        ..registry
    }
}

/// The registry once a request over a connection is over.
pub open spec fn request_over<T, O, S>(
    registry: RegistryView<T, O, S>,
    connection: u64,
) -> RegistryView<T, O, S> {
    RegistryView { tables: let_go(registry.tables, connection), ..registry }
}

/// The registry once no more messages come in over a connection.
pub open spec fn routing_over<T, O, S>(
    registry: RegistryView<T, O, S>,
    connection: u64,
) -> RegistryView<T, O, S> {
    RegistryView { tables: unrouted(registry.tables, connection), ..registry }
}

/// The sender of the requests to a machine, if its agent is connected.
pub open spec fn sender_of<T, O, S>(
    registry: RegistryView<T, O, S>,
    machine_id: Seq<char>,
) -> Option<T> {
    if registry.connections.contains_key(machine_id) {
        Some(registry.connections[machine_id].channel.tx)
    } else {
        None
    }
}

/// Requests to a machine go to the connection that its agent made last, to
/// none once it is unregistered, and those to other machines where they went
/// before.
pub proof fn law_requests_go_to_the_last_connection<T, O, S>(
    registry: RegistryView<T, O, S>,
    machine_id: Seq<char>,
    connected_at: SystemTime,
    tx: T,
    other: Seq<char>,
    request: MessageView<RequestView>,
    flow: Flow<O, S>,
)
    requires
        other != machine_id,
    ensures
        sender_of(registered(registry, machine_id, connected_at, tx), machine_id) == Some(tx),
        sender_of(unregistered(registry, machine_id), machine_id) is None,
        sender_of(registered(registry, machine_id, connected_at, tx), other) == sender_of(
            registry,
            other,
        ),
        sender_of(unregistered(registry, machine_id), other) == sender_of(registry, other),
        sender_of(flow_started(registry, machine_id, request, flow), other) == sender_of(
            registry,
            other,
        ),
        registry.connections.contains_key(machine_id) ==> sender_of(registry, machine_id) == Some(
            registry.connections[machine_id].channel.tx,
        ),
{
}

/// A message that came in over a connection concerns the flows of that
/// connection alone: the flow of a request that it answers is gone from
/// there, and otherwise nothing changes; no other connection is touched.
pub proof fn law_message_concerns_its_own_connection<T, O, S>(
    registry: RegistryView<T, O, S>,
    connection: u64,
    flow_uuid: u128,
    handover: Handover,
    other: u64,
)
    requires
        registry.tables.contains_key(connection),
        other != connection,
    ensures
        ({
            let flows = registry.tables[connection].flows;
            let routed = message_routed(registry, connection, Some(flow_uuid));
            let handed = handover_noted(registry, connection, flow_uuid, handover);
            let answered = flows.contains_key(flow_uuid) && flows[flow_uuid] is Oneshot;
            &&& answered ==> routed.tables[connection].flows == flows.remove(flow_uuid)
            &&& !answered ==> routed.tables[connection].flows == flows
            &&& message_routed(registry, connection, None).tables[connection].flows == flows
            &&& handover == Handover::Closed ==> handed.tables[connection].flows == flows.remove(
                flow_uuid,
            )
            &&& handover != Handover::Closed ==> handed.tables[connection].flows == flows
            &&& routed.connections == registry.connections && handed.connections
                == registry.connections
            &&& routed.made == registry.made && handed.made == registry.made
            &&& routed.tables.contains_key(other) == registry.tables.contains_key(other)
            &&& handed.tables.contains_key(other) == registry.tables.contains_key(other)
            &&& registry.tables.contains_key(other) ==> routed.tables[other]
                == registry.tables[other] && handed.tables[other] == registry.tables[other]
        }),
{
}

/// The end of a request, and that of the messages over a connection, concern
/// that connection alone, and leave the flows it has for as long as anything
/// else reaches it.
pub proof fn law_end_concerns_its_own_connection<T, O, S>(
    registry: RegistryView<T, O, S>,
    connection: u64,
    other: u64,
)
    requires
        sound(registry),
        registry.tables.contains_key(connection),
        other != connection,
    ensures
        ({
            let table = registry.tables[connection];
            let over = request_over(registry, connection);
            let silent = routing_over(registry, connection);
            &&& over.connections == registry.connections && silent.connections
                == registry.connections
            &&& over.made == registry.made && silent.made == registry.made
            &&& over.tables.contains_key(other) == registry.tables.contains_key(other)
            &&& silent.tables.contains_key(other) == registry.tables.contains_key(other)
            &&& registry.tables.contains_key(other) ==> over.tables[other] == registry.tables[other]
                && silent.tables[other] == registry.tables[other]
            &&& table.registered ==> over.tables.contains_key(connection)
                && over.tables[connection].flows == table.flows
            &&& table.registered ==> silent.tables.contains_key(connection)
                && silent.tables[connection].flows == table.flows
                && !silent.tables[connection].routed
            &&& !table.registered && table.holds == 0 ==> !silent.tables.contains_key(connection)
            &&& !table.registered && !table.routed && table.holds == 1
                ==> !over.tables.contains_key(connection)
        }),
{
}

} // verus!
