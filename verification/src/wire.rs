//! The messages between the controller and the scout agents, and the log
//! lines they carry.

use vstd::prelude::*;
use vstd::string::*;

use crate::ids::{
    hyphenated, is_random_uuid, law_texts_do_not_collide, parse_uuid, parsed_uuid, random_uuid,
    uuid_result, uuid_text, UuidError,
};
use crate::text::{option_text, quote, quoted};

verus! {

/// The identifier of a machine, by its text.
#[derive(Debug)]
pub struct MachineId {
    text: String,
}

impl View for MachineId {
    type V = Seq<char>;

    closed spec fn view(&self) -> Seq<char> {
        self.text@
    }
}

impl MachineId {
    /// The machine with this identifier.
    pub fn new(text: String) -> (r: Self)
        ensures
            r@ == text@,
    {
        MachineId { text }
    }

    /// The text of the identifier.
    pub fn as_str(&self) -> (r: &str)
        ensures
            r@ == self@,
    {
        self.text.as_str()
    }

    /// The text of the identifier.
    pub fn to_string(&self) -> (r: String)
        ensures
            r@ == self@,
    {
        self.text.clone()
    }

    /// Whether two identifiers name the same machine.
    pub fn same(&self, other: &MachineId) -> (r: bool)
        ensures
            r == (self@ == other@),
    {
        self.text == other.text
    }
}

impl Clone for MachineId {
    fn clone(&self) -> (r: Self)
        ensures
            r@ == self@,
    {
        MachineId { text: self.text.clone() }
    }
}

/// A UUID as it travels: its text.
#[derive(Clone, Debug)]
pub struct WireUuid {
    pub value: String,
}

/// A UUID on the wire as `{:?}` prints it.
pub open spec fn wire_debug(value: Seq<char>) -> Seq<char> {
    "Uuid { value: "@ + quoted(value) + " }"@
}

impl WireUuid {
    /// The wire form of a flow's identifier.
    pub fn from_flow(flow_uuid: u128) -> (r: Self)
        ensures
            r.value@ == hyphenated(flow_uuid),
    {
        WireUuid { value: uuid_text(flow_uuid) }
    }

    /// The flow's identifier, or why the text is none.
    pub fn decode(&self) -> (r: Result<u128, UuidError>)
        ensures
            uuid_result(r) == parsed_uuid(self.value@),
            forall|id: u128|
                self.value@ == #[trigger] hyphenated(id) ==> (r is Ok && r->Ok_0 == id),
    {
        parse_uuid(self.value.as_str())
    }

    /// The identifier as `{:?}` prints it.
    pub fn debug_text(&self) -> (r: String)
        ensures
            r@ == wire_debug(self.value@),
    {
        let value = quote(self.value.as_str());
        "Uuid { value: ".to_owned().concat(value.as_str()).concat(" }")
    }
}

/// One line of a log, as it is kept in memory.
#[derive(Clone, Debug)]
pub struct LogLine {
    pub seq: u64,
    pub timestamp: String,
    pub level: String,
    pub target: String,
    pub message: String,
    /// The named values of the line, in order.
    pub fields: Vec<(String, String)>,
    pub location: Option<String>,
    pub span_id: Option<String>,
}

/// One line of a log, as it travels.
#[derive(Clone, Debug)]
pub struct ScoutStreamLogLine {
    pub seq: u64,
    pub timestamp: String,
    pub level: String,
    pub target: String,
    pub message: String,
    pub fields: Vec<(String, String)>,
    pub location: Option<String>,
    pub span_id: Option<String>,
}

/// What a log line says.
pub struct LineView {
    pub seq: u64,
    pub timestamp: Seq<char>,
    pub level: Seq<char>,
    pub target: Seq<char>,
    pub message: Seq<char>,
    pub fields: Seq<(Seq<char>, Seq<char>)>,
    pub location: Option<Seq<char>>,
    pub span_id: Option<Seq<char>>,
}

/// Named values as texts.
pub open spec fn field_texts(fields: Seq<(String, String)>) -> Seq<(Seq<char>, Seq<char>)> {
    fields.map_values(|f: (String, String)| (f.0@, f.1@))
}

impl View for LogLine {
    type V = LineView;

    open spec fn view(&self) -> LineView {
        LineView {
            seq: self.seq,
            timestamp: self.timestamp@,
            level: self.level@,
            target: self.target@,
            message: self.message@,
            fields: field_texts(self.fields@),
            location: option_text(self.location),
            span_id: option_text(self.span_id),
        }
    }
}

impl View for ScoutStreamLogLine {
    type V = LineView;

    open spec fn view(&self) -> LineView {
        LineView {
            seq: self.seq,
            timestamp: self.timestamp@,
            level: self.level@,
            target: self.target@,
            message: self.message@,
            fields: field_texts(self.fields@),
            location: option_text(self.location),
            span_id: option_text(self.span_id),
        }
    }
}

/// The views of a list of lines.
pub open spec fn line_views(lines: Seq<LogLine>) -> Seq<LineView> {
    lines.map_values(|line: LogLine| line@)
}

/// Copies an optional text.
fn copy_option(text: &Option<String>) -> (r: Option<String>)
    ensures
        option_text(r) == option_text(*text),
{
    match text {
        Some(s) => Some(s.clone()),
        None => None,
    }
}

/// Copies named values.
fn copy_fields(fields: &Vec<(String, String)>) -> (r: Vec<(String, String)>)
    ensures
        field_texts(r@) == field_texts(fields@),
{
    let mut copy: Vec<(String, String)> = Vec::new();
    let mut i: usize = 0;
    while i < fields.len()
        invariant
            i <= fields.len(),
            copy.len() == i,
            forall|k: int| 0 <= k < i ==> copy[k] == #[trigger] fields[k],
        decreases fields.len() - i,
    {
        copy.push((fields[i].0.clone(), fields[i].1.clone()));
        i += 1;
    }
    assert(field_texts(copy@) =~= field_texts(fields@));
    copy
}

impl LogLine {
    /// An equal line.
    pub fn copy(&self) -> (r: Self)
        ensures
            r@ == self@,
    {
        LogLine {
            seq: self.seq,
            timestamp: self.timestamp.clone(),
            level: self.level.clone(),
            target: self.target.clone(),
            message: self.message.clone(),
            fields: copy_fields(&self.fields),
            location: copy_option(&self.location),
            span_id: copy_option(&self.span_id),
        }
    }
}

/// The wire form of a log line: every part as it is.
pub fn log_line_to_proto(line: &LogLine) -> (r: ScoutStreamLogLine)
    ensures
        r@ == line@,
{
    ScoutStreamLogLine {
        seq: line.seq,
        timestamp: line.timestamp.clone(),
        level: line.level.clone(),
        target: line.target.clone(),
        message: line.message.clone(),
        fields: copy_fields(&line.fields),
        location: copy_option(&line.location),
        span_id: copy_option(&line.span_id),
    }
}

/// A line with another level.
pub open spec fn relabelled(line: LineView, level: Seq<char>) -> LineView {
    LineView { level, ..line }
}

/// A log line rebuilt from its wire form, with its level replaced by the
/// label that the level stands for.
pub fn log_line_from_proto(line: ScoutStreamLogLine, level: String) -> (r: LogLine)
    ensures
        r@ == (LineView { level: level@, ..line@ }),
        r@ == relabelled(line@, level@),
{
    LogLine {
        seq: line.seq,
        timestamp: line.timestamp,
        level,
        target: line.target,
        message: line.message,
        fields: line.fields,
        location: line.location,
        span_id: line.span_id,
    }
}

/// The answer to a ping.
#[derive(Clone, Debug)]
pub struct ScoutStreamAgentPingResponse {
    pub reply: Option<PingReply>,
}

/// What a ping is answered with.
#[derive(Clone, Debug)]
pub enum PingReply {
    Pong(String),
}

/// What the controller asks of a scout agent; requests that a handler on the
/// agent answers carry their encoded body.
#[derive(Clone, Debug)]
pub enum ScoutBoundPayload {
    ScoutStreamAgentPingRequest,
    MlxDeviceProfileSyncRequest(Vec<u8>),
    MlxDeviceProfileCompareRequest(Vec<u8>),
    MlxDeviceLockdownLockRequest(Vec<u8>),
    MlxDeviceLockdownUnlockRequest(Vec<u8>),
    MlxDeviceLockdownStatusRequest(Vec<u8>),
    MlxDeviceInfoDeviceRequest(Vec<u8>),
    MlxDeviceInfoReportRequest(Vec<u8>),
    MlxDeviceRegistryListRequest(Vec<u8>),
    MlxDeviceRegistryShowRequest(Vec<u8>),
    MlxDeviceConfigQueryRequest(Vec<u8>),
    MlxDeviceConfigSetRequest(Vec<u8>),
    MlxDeviceConfigSyncRequest(Vec<u8>),
    MlxDeviceConfigCompareRequest(Vec<u8>),
    StartLogStreamRequest,
    StopLogStreamRequest,
}

/// What a scout agent tells the controller; answers of a handler carry their
/// encoded body.
#[derive(Clone, Debug)]
pub enum ApiBoundPayload {
    /// The first message of a connection: the machine that the agent runs on.
    Init(MachineId),
    ScoutStreamAgentPingResponse(ScoutStreamAgentPingResponse),
    MlxDeviceProfileSyncResponse(Vec<u8>),
    MlxDeviceProfileCompareResponse(Vec<u8>),
    MlxDeviceLockdownResponse(Vec<u8>),
    MlxDeviceInfoDeviceResponse(Vec<u8>),
    MlxDeviceInfoReportResponse(Vec<u8>),
    MlxDeviceRegistryListResponse(Vec<u8>),
    MlxDeviceRegistryShowResponse(Vec<u8>),
    MlxDeviceConfigQueryResponse(Vec<u8>),
    MlxDeviceConfigSetResponse(Vec<u8>),
    MlxDeviceConfigSyncResponse(Vec<u8>),
    MlxDeviceConfigCompareResponse(Vec<u8>),
    LogLine(ScoutStreamLogLine),
}

/// A request to a scout agent with its bytes as sequences.
pub enum RequestView {
    Ping,
    Call(Handler, Seq<u8>),
    StartLogStream,
    StopLogStream,
}

/// The handler on the agent that answers a request.
#[derive(Clone, Copy, Debug, PartialEq, Eq, Structural)]
pub enum Handler {
    ProfileSync,
    ProfileCompare,
    LockdownLock,
    LockdownUnlock,
    LockdownStatus,
    InfoDevice,
    InfoReport,
    RegistryList,
    RegistryShow,
    ConfigQuery,
    ConfigSet,
    ConfigSync,
    ConfigCompare,
}

impl View for ScoutBoundPayload {
    type V = RequestView;

    open spec fn view(&self) -> RequestView {
        match self {
            ScoutBoundPayload::ScoutStreamAgentPingRequest => RequestView::Ping,
            ScoutBoundPayload::MlxDeviceProfileSyncRequest(b) => RequestView::Call(
                Handler::ProfileSync,
                b@,
            ),
            ScoutBoundPayload::MlxDeviceProfileCompareRequest(b) => RequestView::Call(
                Handler::ProfileCompare,
                b@,
            ),
            ScoutBoundPayload::MlxDeviceLockdownLockRequest(b) => RequestView::Call(
                Handler::LockdownLock,
                b@,
            ),
            ScoutBoundPayload::MlxDeviceLockdownUnlockRequest(b) => RequestView::Call(
                Handler::LockdownUnlock,
                b@,
            ),
            ScoutBoundPayload::MlxDeviceLockdownStatusRequest(b) => RequestView::Call(
                Handler::LockdownStatus,
                b@,
            ),
            ScoutBoundPayload::MlxDeviceInfoDeviceRequest(b) => RequestView::Call(
                Handler::InfoDevice,
                b@,
            ),
            ScoutBoundPayload::MlxDeviceInfoReportRequest(b) => RequestView::Call(
                Handler::InfoReport,
                b@,
            ),
            ScoutBoundPayload::MlxDeviceRegistryListRequest(b) => RequestView::Call(
                Handler::RegistryList,
                b@,
            ),
            ScoutBoundPayload::MlxDeviceRegistryShowRequest(b) => RequestView::Call(
                Handler::RegistryShow,
                b@,
            ),
            ScoutBoundPayload::MlxDeviceConfigQueryRequest(b) => RequestView::Call(
                Handler::ConfigQuery,
                b@,
            ),
            ScoutBoundPayload::MlxDeviceConfigSetRequest(b) => RequestView::Call(
                Handler::ConfigSet,
                b@,
            ),
            ScoutBoundPayload::MlxDeviceConfigSyncRequest(b) => RequestView::Call(
                Handler::ConfigSync,
                b@,
            ),
            ScoutBoundPayload::MlxDeviceConfigCompareRequest(b) => RequestView::Call(
                Handler::ConfigCompare,
                b@,
            ),
            ScoutBoundPayload::StartLogStreamRequest => RequestView::StartLogStream,
            ScoutBoundPayload::StopLogStreamRequest => RequestView::StopLogStream,
        }
    }
}

/// Which answer a message of an agent holds; the three lockdown handlers
/// share one.
pub enum Answer {
    ProfileSync,
    ProfileCompare,
    Lockdown,
    InfoDevice,
    InfoReport,
    RegistryList,
    RegistryShow,
    ConfigQuery,
    ConfigSet,
    ConfigSync,
    ConfigCompare,
}

/// A message of a scout agent with its bytes and texts as sequences.
pub enum ReplyView {
    Init(Seq<char>),
    /// The text of the pong, if there is one.
    Ping(Option<Seq<char>>),
    Answer(Answer, Seq<u8>),
    LogLine(LineView),
}

impl View for ApiBoundPayload {
    type V = ReplyView;

    open spec fn view(&self) -> ReplyView {
        match self {
            ApiBoundPayload::Init(machine_id) => ReplyView::Init(machine_id@),
            ApiBoundPayload::ScoutStreamAgentPingResponse(response) => ReplyView::Ping(
                match response.reply {
                    Some(PingReply::Pong(text)) => Some(text@),
                    None => None,
                },
            ),
            ApiBoundPayload::MlxDeviceProfileSyncResponse(b) => ReplyView::Answer(
                Answer::ProfileSync,
                b@,
            ),
            ApiBoundPayload::MlxDeviceProfileCompareResponse(b) => ReplyView::Answer(
                Answer::ProfileCompare,
                b@,
            ),
            ApiBoundPayload::MlxDeviceLockdownResponse(b) => ReplyView::Answer(
                Answer::Lockdown,
                b@,
            ),
            ApiBoundPayload::MlxDeviceInfoDeviceResponse(b) => ReplyView::Answer(
                Answer::InfoDevice,
                b@,
            ),
            ApiBoundPayload::MlxDeviceInfoReportResponse(b) => ReplyView::Answer(
                Answer::InfoReport,
                b@,
            ),
            ApiBoundPayload::MlxDeviceRegistryListResponse(b) => ReplyView::Answer(
                Answer::RegistryList,
                b@,
            ),
            ApiBoundPayload::MlxDeviceRegistryShowResponse(b) => ReplyView::Answer(
                Answer::RegistryShow,
                b@,
            ),
            ApiBoundPayload::MlxDeviceConfigQueryResponse(b) => ReplyView::Answer(
                Answer::ConfigQuery,
                b@,
            ),
            ApiBoundPayload::MlxDeviceConfigSetResponse(b) => ReplyView::Answer(
                Answer::ConfigSet,
                b@,
            ),
            ApiBoundPayload::MlxDeviceConfigSyncResponse(b) => ReplyView::Answer(
                Answer::ConfigSync,
                b@,
            ),
            ApiBoundPayload::MlxDeviceConfigCompareResponse(b) => ReplyView::Answer(
                Answer::ConfigCompare,
                b@,
            ),
            ApiBoundPayload::LogLine(line) => ReplyView::LogLine(line@),
        }
    }
}

/// A message to a scout agent.
#[derive(Clone, Debug)]
pub struct ScoutStreamScoutBoundMessage {
    pub flow_uuid: Option<WireUuid>,
    pub payload: Option<ScoutBoundPayload>,
}

/// A message to the controller.
#[derive(Clone, Debug)]
pub struct ScoutStreamApiBoundMessage {
    pub flow_uuid: Option<WireUuid>,
    pub payload: Option<ApiBoundPayload>,
}

/// A message: the text of its flow's identifier and what it says, as far as
/// they are there.
pub struct MessageView<P> {
    pub flow_uuid: Option<Seq<char>>,
    pub payload: Option<P>,
}

/// The text of an optional identifier.
pub open spec fn wire_text(flow_uuid: Option<WireUuid>) -> Option<Seq<char>> {
    match flow_uuid {
        Some(id) => Some(id.value@),
        None => None,
    }
}

impl View for ScoutStreamScoutBoundMessage {
    type V = MessageView<RequestView>;

    open spec fn view(&self) -> MessageView<RequestView> {
        MessageView {
            flow_uuid: wire_text(self.flow_uuid),
            payload: match self.payload {
                Some(payload) => Some(payload@),
                None => None,
            },
        }
    }
}

impl View for ScoutStreamApiBoundMessage {
    type V = MessageView<ReplyView>;

    open spec fn view(&self) -> MessageView<ReplyView> {
        MessageView {
            flow_uuid: wire_text(self.flow_uuid),
            payload: match self.payload {
                Some(payload) => Some(payload@),
                None => None,
            },
        }
    }
}

/// A message on a flow.
pub open spec fn on_flow<P>(flow_uuid: u128, payload: P) -> MessageView<P> {
    MessageView { flow_uuid: Some(hyphenated(flow_uuid)), payload: Some(payload) }
}

/// Whether a message is this payload on some flow that was drawn at random.
pub open spec fn is_random_message<P>(message: MessageView<P>, payload: P) -> bool {
    exists|id: u128| #[trigger] is_random_uuid(id) && message == on_flow(id, payload)
}

impl ScoutStreamScoutBoundMessage {
    /// A message to an agent on a flow.
    pub fn from_flow(flow_uuid: u128, payload: ScoutBoundPayload) -> (r: Self)
        ensures
            r@ == on_flow(flow_uuid, payload@),
            r.payload == Some(payload),
    {
        ScoutStreamScoutBoundMessage {
            flow_uuid: Some(WireUuid::from_flow(flow_uuid)),
            payload: Some(payload),
        }
    }

    /// A message to an agent that opens a flow of its own, drawn at random.
    pub fn new_flow(payload: ScoutBoundPayload) -> (r: Self)
        ensures
            is_random_message(r@, payload@),
            r.payload == Some(payload),
    {
        let id: u128 = random_uuid();
        let r = Self::from_flow(id, payload);
        assert(is_random_uuid(id) && r@ == on_flow(id, payload@));
        r
    }
}

impl ScoutStreamApiBoundMessage {
    /// A message to the controller on a flow.
    pub fn from_flow(flow_uuid: u128, payload: ApiBoundPayload) -> (r: Self)
        ensures
            r@ == on_flow(flow_uuid, payload@),
            r.payload == Some(payload),
    {
        ScoutStreamApiBoundMessage {
            flow_uuid: Some(WireUuid::from_flow(flow_uuid)),
            payload: Some(payload),
        }
    }
}

/// A message on a flow names that flow by its text and holds just the
/// payload.
pub proof fn law_message_names_its_flow<P>(flow_uuid: u128, payload: P)
    ensures
        on_flow(flow_uuid, payload).flow_uuid == Some(hyphenated(flow_uuid)),
        on_flow(flow_uuid, payload).payload == Some(payload),
{
}

/// Messages on different flows are different, whatever they say.
pub proof fn law_messages_on_different_flows_differ<P>(a: u128, b: u128, x: P, y: P)
    requires
        a != b,
    ensures
        on_flow(a, x) != on_flow(b, y),
{
    law_texts_do_not_collide(a, b);
}

/// A message that opens a flow of its own is the payload on some flow that
/// was drawn at random.
pub proof fn law_opening_message<P>(message: MessageView<P>, payload: P)
    ensures
        is_random_message(message, payload) <==> message.payload == Some(payload) && exists|id: u128|
            #[trigger] is_random_uuid(id) && message.flow_uuid == Some(hyphenated(id)),
{
    if message.payload == Some(payload) {
        assert forall|id: u128| #[trigger] is_random_uuid(id) && message.flow_uuid == Some(
            hyphenated(id),
        ) implies message == on_flow(id, payload) by {}
    }
}

/// A line says the same in memory and on the way: every part is seen.
pub proof fn law_line_is_seen_in_full(line: LogLine, sent: ScoutStreamLogLine, i: int)
    ensures
        line@.seq == line.seq,
        line@.timestamp == line.timestamp@,
        line@.level == line.level@,
        line@.target == line.target@,
        line@.message == line.message@,
        line@.fields.len() == line.fields.len(),
        0 <= i < line.fields.len() ==> line@.fields[i] == (line.fields[i].0@, line.fields[i].1@),
        line@.location == option_text(line.location),
        line@.span_id == option_text(line.span_id),
        sent@.seq == sent.seq,
        sent@.timestamp == sent.timestamp@,
        sent@.level == sent.level@,
        sent@.target == sent.target@,
        sent@.message == sent.message@,
        sent@.fields.len() == sent.fields.len(),
        0 <= i < sent.fields.len() ==> sent@.fields[i] == (sent.fields[i].0@, sent.fields[i].1@),
        sent@.location == option_text(sent.location),
        sent@.span_id == option_text(sent.span_id),
{
}

/// Lists of lines are seen line by line.
pub proof fn law_lines_are_seen_each(lines: Seq<LogLine>, i: int)
    requires
        0 <= i < lines.len(),
    ensures
        line_views(lines).len() == lines.len(),
        line_views(lines)[i] == lines[i]@,
{
}

/// A message is seen with the text of its flow and with its payload.
pub proof fn law_message_is_seen_in_full(
    request: ScoutStreamScoutBoundMessage,
    response: ScoutStreamApiBoundMessage,
)
    ensures
        request@.flow_uuid is Some <==> request.flow_uuid is Some,
        request.flow_uuid matches Some(id) ==> request@.flow_uuid == Some(id.value@),
        request@.payload is Some <==> request.payload is Some,
        request.payload matches Some(payload) ==> request@.payload == Some(payload@),
        response@.flow_uuid is Some <==> response.flow_uuid is Some,
        response.flow_uuid matches Some(id) ==> response@.flow_uuid == Some(id.value@),
        response@.payload is Some <==> response.payload is Some,
        response.payload matches Some(payload) ==> response@.payload == Some(payload@),
{
}

/// Each request of a device handler is for that handler, with its body; a
/// ping and the two requests about the log are for none.
pub proof fn law_request_is_for_its_handler(body: Vec<u8>)
    ensures
        ScoutBoundPayload::ScoutStreamAgentPingRequest@ is Ping,
        ScoutBoundPayload::StartLogStreamRequest@ is StartLogStream,
        ScoutBoundPayload::StopLogStreamRequest@ is StopLogStream,
        ScoutBoundPayload::MlxDeviceProfileSyncRequest(body)@ == RequestView::Call(
            Handler::ProfileSync,
            body@,
        ),
        ScoutBoundPayload::MlxDeviceProfileCompareRequest(body)@ == RequestView::Call(
            Handler::ProfileCompare,
            body@,
        ),
        ScoutBoundPayload::MlxDeviceLockdownLockRequest(body)@ == RequestView::Call(
            Handler::LockdownLock,
            body@,
        ),
        ScoutBoundPayload::MlxDeviceLockdownUnlockRequest(body)@ == RequestView::Call(
            Handler::LockdownUnlock,
            body@,
        ),
        ScoutBoundPayload::MlxDeviceLockdownStatusRequest(body)@ == RequestView::Call(
            Handler::LockdownStatus,
            body@,
        ),
        ScoutBoundPayload::MlxDeviceInfoDeviceRequest(body)@ == RequestView::Call(
            Handler::InfoDevice,
            body@,
        ),
        ScoutBoundPayload::MlxDeviceInfoReportRequest(body)@ == RequestView::Call(
            Handler::InfoReport,
            body@,
        ),
        ScoutBoundPayload::MlxDeviceRegistryListRequest(body)@ == RequestView::Call(
            Handler::RegistryList,
            body@,
        ),
        ScoutBoundPayload::MlxDeviceRegistryShowRequest(body)@ == RequestView::Call(
            Handler::RegistryShow,
            body@,
        ),
        ScoutBoundPayload::MlxDeviceConfigQueryRequest(body)@ == RequestView::Call(
            Handler::ConfigQuery,
            body@,
        ),
        ScoutBoundPayload::MlxDeviceConfigSetRequest(body)@ == RequestView::Call(
            Handler::ConfigSet,
            body@,
        ),
        ScoutBoundPayload::MlxDeviceConfigSyncRequest(body)@ == RequestView::Call(
            Handler::ConfigSync,
            body@,
        ),
        ScoutBoundPayload::MlxDeviceConfigCompareRequest(body)@ == RequestView::Call(
            Handler::ConfigCompare,
            body@,
        ),
{
}

/// Each answer of a device handler is seen as that answer, with its body.
pub proof fn law_answer_is_seen_as_it_is(
    body: Vec<u8>,
    machine_id: MachineId,
    line: ScoutStreamLogLine,
    text: String,
)
    ensures
        ApiBoundPayload::Init(machine_id)@ == ReplyView::Init(machine_id@),
        ApiBoundPayload::LogLine(line)@ == ReplyView::LogLine(line@),
        ApiBoundPayload::ScoutStreamAgentPingResponse(
            ScoutStreamAgentPingResponse { reply: Some(PingReply::Pong(text)) },
        )@ == ReplyView::Ping(Some(text@)),
        ApiBoundPayload::MlxDeviceProfileSyncResponse(body)@ == ReplyView::Answer(
            Answer::ProfileSync,
            body@,
        ),
        ApiBoundPayload::MlxDeviceProfileCompareResponse(body)@ == ReplyView::Answer(
            Answer::ProfileCompare,
            body@,
        ),
        ApiBoundPayload::MlxDeviceLockdownResponse(body)@ == ReplyView::Answer(
            Answer::Lockdown,
            body@,
        ),
        ApiBoundPayload::MlxDeviceInfoDeviceResponse(body)@ == ReplyView::Answer(
            Answer::InfoDevice,
            body@,
        ),
        ApiBoundPayload::MlxDeviceInfoReportResponse(body)@ == ReplyView::Answer(
            Answer::InfoReport,
            body@,
        ),
        ApiBoundPayload::MlxDeviceRegistryListResponse(body)@ == ReplyView::Answer(
            Answer::RegistryList,
            body@,
        ),
        ApiBoundPayload::MlxDeviceRegistryShowResponse(body)@ == ReplyView::Answer(
            Answer::RegistryShow,
            body@,
        ),
        ApiBoundPayload::MlxDeviceConfigQueryResponse(body)@ == ReplyView::Answer(
            Answer::ConfigQuery,
            body@,
        ),
        ApiBoundPayload::MlxDeviceConfigSetResponse(body)@ == ReplyView::Answer(
            Answer::ConfigSet,
            body@,
        ),
        ApiBoundPayload::MlxDeviceConfigSyncResponse(body)@ == ReplyView::Answer(
            Answer::ConfigSync,
            body@,
        ),
        ApiBoundPayload::MlxDeviceConfigCompareResponse(body)@ == ReplyView::Answer(
            Answer::ConfigCompare,
            body@,
        ),
{
}

/// A line that was received differs from the line that was sent in its level
/// at most, and not at all where the level is its own.
pub proof fn law_received_line_keeps_its_parts(line: LineView, level: Seq<char>)
    ensures
        relabelled(line, level).level == level,
        relabelled(line, level).seq == line.seq,
        relabelled(line, level).timestamp == line.timestamp,
        relabelled(line, level).target == line.target,
        relabelled(line, level).message == line.message,
        relabelled(line, level).fields == line.fields,
        relabelled(line, level).location == line.location,
        relabelled(line, level).span_id == line.span_id,
        relabelled(line, line.level) == line,
{
}

/// An identifier that is printed for debugging shows its text, quoted.
pub proof fn law_printed_identifier(value: Seq<char>)
    ensures
        wire_debug(value) == "Uuid { value: "@ + quoted(value) + " }"@,
{
}

} // verus!
