//! The live log viewer: which log a viewer follows, and what it is sent.

use vstd::prelude::*;
use vstd::string::*;

use crate::http_reply::{HttpReply, HttpView};
use crate::ids::{hyphenated, is_random_uuid};
use crate::log_pages::{latest, newest};
use crate::text::{
    decimal, decimal_text, law_decimal_reads_back, number_of, option_text, quote, quoted, same_text,
};
use crate::wire::{
    is_random_message, line_views, on_flow, ApiBoundPayload, LineView, LogLine, MachineId,
    MessageView, ReplyView, RequestView, ScoutBoundPayload, ScoutStreamApiBoundMessage,
    ScoutStreamLogLine, ScoutStreamScoutBoundMessage,
};

verus! {

/// What a viewer of a live log asks for.
pub struct StreamQuery {
    /// The agent to follow, for the log of an agent.
    pub machine_id: Option<String>,
}

/// What a live log is followed from.
pub enum StreamTarget {
    /// The controller's own log.
    Api,
    /// The log of the agent on this machine.
    Scout(String),
    /// Nothing: this is the answer.
    Reply(HttpReply),
}

/// What a live log is followed from, with its texts as sequences.
pub enum TargetView {
    Api,
    Scout(Seq<char>),
    Reply(HttpView),
}

impl View for StreamTarget {
    type V = TargetView;

    open spec fn view(&self) -> TargetView {
        match self {
            StreamTarget::Api => TargetView::Api,
            StreamTarget::Scout(machine_id) => TargetView::Scout(machine_id@),
            StreamTarget::Reply(reply) => TargetView::Reply(reply@),
        }
    }
}

/// What the log of a source is followed from: `api` is the controller's own,
/// `scout` that of the agent asked for; no agent asked for is a bad request,
/// and there is no other source.
pub open spec fn stream_target(source: Seq<char>, machine_id: Option<Seq<char>>) -> TargetView {
    if source == "api"@ {
        TargetView::Api
    } else if source == "scout"@ {
        match machine_id {
            Some(id) => TargetView::Scout(id),
            None => TargetView::Reply(
                HttpView {
                    status: 400,
                    body: "scout log stream requires a machine_id query parameter"@,
                },
            ),
        }
    } else {
        TargetView::Reply(
            HttpView {
                status: 404,
                body: "log source "@ + quoted(source) + " is not available"@,
            },
        )
    }
}

/// What the live log of a source is followed from.
pub fn stream(source: &str, query: StreamQuery) -> (r: StreamTarget)
    ensures
        r@ == stream_target(source@, option_text(query.machine_id)),
{
    if same_text(source, "api") {
        StreamTarget::Api
    } else if same_text(source, "scout") {
        match query.machine_id {
            Some(machine_id) => StreamTarget::Scout(machine_id),
            None => StreamTarget::Reply(
                HttpReply {
                    status: 400,
                    body: "scout log stream requires a machine_id query parameter".to_owned(),
                },
            ),
        }
    } else {
        let name = quote(source);
        StreamTarget::Reply(
            HttpReply {
                status: 404,
                body: "log source ".to_owned().concat(name.as_str()).concat(" is not available"),
            },
        )
    }
}

/// What happens at the controller's own log.
pub enum LogEvent {
    /// A new line.
    Line(LogLine),
    /// The viewer fell behind and missed so many lines.
    Lagged(u64),
    /// No line will follow.
    Closed,
}

/// An event with its line as a view.
pub enum LogEventView {
    Line(LineView),
    Lagged(u64),
    Closed,
}

impl View for LogEvent {
    type V = LogEventView;

    open spec fn view(&self) -> LogEventView {
        match self {
            LogEvent::Line(line) => LogEventView::Line(line@),
            LogEvent::Lagged(skipped) => LogEventView::Lagged(*skipped),
            LogEvent::Closed => LogEventView::Closed,
        }
    }
}

/// One frame that a viewer of the controller's own log is sent.
pub enum LogFrame {
    /// This line.
    Line(LogLine),
    /// How many lines it missed, as an event of the name `lag`.
    Lag(String),
}

/// A frame with its line and text as views.
pub enum FrameView {
    Line(LineView),
    Lag(Seq<char>),
}

impl View for LogFrame {
    type V = FrameView;

    open spec fn view(&self) -> FrameView {
        match self {
            LogFrame::Line(line) => FrameView::Line(line@),
            LogFrame::Lag(count) => FrameView::Lag(count@),
        }
    }
}

/// What a viewer is sent for an event, and nothing when no line will follow:
/// falling behind is told and does not end the log.
pub open spec fn frame_of(event: LogEventView) -> Option<FrameView> {
    match event {
        LogEventView::Line(line) => Some(FrameView::Line(line)),
        LogEventView::Lagged(skipped) => Some(FrameView::Lag(decimal(skipped as nat))),
        LogEventView::Closed => None,
    }
}

/// The name of the event that tells a viewer how many lines it missed.
pub fn lag_event_name() -> (r: String)
    ensures
        r@ == "lag"@,
{
    "lag".to_owned()
}

/// What is done next for a viewer of the controller's own log.
pub enum ApiTailStep {
    /// Subscribe to the log: every line from here on is a new one.
    Subscribe,
    /// Read the lines that the log has kept.
    ReadKept,
    /// Send this frame.
    Send(LogFrame),
    /// Wait for an event at the log.
    Receive,
    /// The log is over.
    End,
}

/// A step with its frame as a view.
pub enum ApiTailStepView {
    Subscribe,
    ReadKept,
    Send(FrameView),
    Receive,
    End,
}

impl View for ApiTailStep {
    type V = ApiTailStepView;

    open spec fn view(&self) -> ApiTailStepView {
        match self {
            ApiTailStep::Subscribe => ApiTailStepView::Subscribe,
            ApiTailStep::ReadKept => ApiTailStepView::ReadKept,
            ApiTailStep::Send(frame) => ApiTailStepView::Send(frame@),
            ApiTailStep::Receive => ApiTailStepView::Receive,
            ApiTailStep::End => ApiTailStepView::End,
        }
    }
}

/// The view of the controller's own log that one viewer has: its step, the
/// kept lines that are still to be sent, and how many of the kept lines are
/// sent at most.
pub struct ApiTailView {
    pub step: ApiTailStepView,
    pub pending: Seq<LineView>,
    pub page_size: usize,
}

/// A view for which nothing was done yet.
pub open spec fn api_tail_start(page_size: usize) -> ApiTailView {
    ApiTailView { step: ApiTailStepView::Subscribe, pending: Seq::empty(), page_size }
}

/// A view that is free to go on: with the first kept line that is left, or
/// with waiting for an event.
pub open spec fn api_tail_resume(page_size: usize, pending: Seq<LineView>) -> ApiTailView {
    if pending.len() > 0 {
        ApiTailView {
            step: ApiTailStepView::Send(FrameView::Line(pending[0])),
            pending: pending.drop_first(),
            page_size,
        }
    } else {
        ApiTailView { step: ApiTailStepView::Receive, pending, page_size }
    }
}

/// What came of a step, for a viewer of the controller's own log.
pub enum ApiTailEvent {
    /// The viewer is subscribed.
    Subscribed,
    /// These lines are kept, the oldest first.
    Kept(Vec<LogLine>),
    /// The frame was sent.
    Sent,
    /// This happened at the log.
    Log(LogEvent),
}

/// An event with its line as a view.
pub enum ApiTailEventView {
    Subscribed,
    Kept(Seq<LineView>),
    Sent,
    Log(LogEventView),
}

impl View for ApiTailEvent {
    type V = ApiTailEventView;

    open spec fn view(&self) -> ApiTailEventView {
        match self {
            ApiTailEvent::Subscribed => ApiTailEventView::Subscribed,
            ApiTailEvent::Kept(lines) => ApiTailEventView::Kept(line_views(lines@)),
            ApiTailEvent::Sent => ApiTailEventView::Sent,
            ApiTailEvent::Log(event) => ApiTailEventView::Log(event@),
        }
    }
}

/// A view after an event. The kept lines are read once the viewer is
/// subscribed, and no earlier. An event that does not belong to the step
/// changes nothing.
pub open spec fn api_tail_next(tail: ApiTailView, event: ApiTailEventView) -> ApiTailView {
    match (tail.step, event) {
        (ApiTailStepView::Subscribe, ApiTailEventView::Subscribed) => ApiTailView {
            step: ApiTailStepView::ReadKept,
            ..tail
        },
        (ApiTailStepView::ReadKept, ApiTailEventView::Kept(lines)) => api_tail_resume(
            tail.page_size,
            newest(lines, tail.page_size),
        ),
        (ApiTailStepView::Send(_), ApiTailEventView::Sent) => api_tail_resume(
            tail.page_size,
            tail.pending,
        ),
        (ApiTailStepView::Receive, ApiTailEventView::Log(event)) => match frame_of(event) {
            Some(frame) => ApiTailView { step: ApiTailStepView::Send(frame), ..tail },
            None => ApiTailView { step: ApiTailStepView::End, ..tail },
        },
        _ => tail,
    }
}

/// The controller's own log as one viewer is sent it: first the newest of
/// the kept lines, and after them what happens.
pub struct ApiTail {
    page_size: usize,
    backlog: Vec<LogLine>,
    next: usize,
    step: ApiTailStep,
}

impl View for ApiTail {
    type V = ApiTailView;

    closed spec fn view(&self) -> ApiTailView {
        ApiTailView {
            step: self.step@,
            pending: line_views(self.backlog@).skip(self.next as int),
            page_size: self.page_size,
        }
    }
}

impl ApiTail {
    #[verifier::type_invariant]
    spec fn wf(self) -> bool {
        self.next <= self.backlog.len()
    }

    /// The log for a viewer for whom nothing was done yet, and who will be
    /// sent a page of the kept lines first.
    pub fn stream_api(page_size: usize) -> (r: Self)
        ensures
            r@ == api_tail_start(page_size),
    {
        let r = ApiTail { page_size, backlog: Vec::new(), next: 0, step: ApiTailStep::Subscribe };
        assert(r@.pending =~= Seq::empty());
        r
    }

    /// Goes on with the next kept line, or with waiting.
    fn resume(self) -> (r: Self)
        ensures
            r@ == api_tail_resume(self@.page_size, self@.pending),
    {
        proof {
            use_type_invariant(&self);
        }
        let ghost all = line_views(self.backlog@);
        let ApiTail { page_size, backlog, next, step: _ } = self;
        if next < backlog.len() {
            let line = backlog[next].copy();
            proof {
                assert(all.skip(next as int)[0] == backlog@[next as int]@);
                assert(all.skip(next as int).drop_first() =~= all.skip(next + 1));
            }
            let step = ApiTailStep::Send(LogFrame::Line(line));
            ApiTail { page_size, backlog, next: next + 1, step }
        } else {
            ApiTail { page_size, backlog, next, step: ApiTailStep::Receive }
        }
    }

    /// What to do next.
    pub fn step(&self) -> (r: &ApiTailStep)
        ensures
            r@ == self@.step,
    {
        &self.step
    }

    /// The log after an event.
    pub fn advance(self, event: ApiTailEvent) -> (r: Self)
        ensures
            r@ == api_tail_next(self@, event@),
    {
        proof {
            use_type_invariant(&self);
        }
        let ApiTail { page_size, backlog, next, step } = self;
        match (step, event) {
            (ApiTailStep::Subscribe, ApiTailEvent::Subscribed) => {
                ApiTail { page_size, backlog, next, step: ApiTailStep::ReadKept }
            },
            (ApiTailStep::ReadKept, ApiTailEvent::Kept(lines)) => {
                let backlog = latest(&lines, page_size);
                assert(line_views(backlog@).skip(0) =~= line_views(backlog@));
                ApiTail { page_size, backlog, next: 0, step: ApiTailStep::Receive }.resume()
            },
            (ApiTailStep::Send(_), ApiTailEvent::Sent) => {
                ApiTail { page_size, backlog, next, step: ApiTailStep::Receive }.resume()
            },
            (ApiTailStep::Receive, ApiTailEvent::Log(event)) => {
                let step = match live_frame(event) {
                    Some(frame) => ApiTailStep::Send(frame),
                    None => ApiTailStep::End,
                };
                ApiTail { page_size, backlog, next, step }
            },
            (step, _) => ApiTail { page_size, backlog, next, step },
        }
    }
}

/// What a viewer is sent for an event at the log, and nothing when no line
/// will follow.
pub fn live_frame(event: LogEvent) -> (r: Option<LogFrame>)
    ensures
        match r {
            Some(frame) => frame_of(event@) == Some(frame@),
            None => frame_of(event@) is None,
        },
{
    match event {
        LogEvent::Line(line) => Some(LogFrame::Line(line)),
        LogEvent::Lagged(skipped) => Some(LogFrame::Lag(decimal_text(skipped as u128))),
        LogEvent::Closed => None,
    }
}

/// A view after a list of events.
pub open spec fn api_tail_run(tail: ApiTailView, events: Seq<ApiTailEventView>) -> ApiTailView
    decreases events.len(),
{
    if events.len() == 0 {
        tail
    } else {
        api_tail_next(api_tail_run(tail, events.drop_last()), events.last())
    }
}

/// The frames that a viewer was sent through a list of events, in order.
pub open spec fn frames_sent(tail: ApiTailView, events: Seq<ApiTailEventView>) -> Seq<FrameView>
    decreases events.len(),
{
    if events.len() == 0 {
        Seq::empty()
    } else {
        let earlier = events.drop_last();
        match (api_tail_run(tail, earlier).step, events.last()) {
            (ApiTailStepView::Send(frame), ApiTailEventView::Sent) => frames_sent(
                tail,
                earlier,
            ).push(frame),
            _ => frames_sent(tail, earlier),
        }
    }
}

/// The frames of what happened at the log while a viewer waited for it, in
/// order.
pub open spec fn frames_taken(tail: ApiTailView, events: Seq<ApiTailEventView>) -> Seq<FrameView>
    decreases events.len(),
{
    if events.len() == 0 {
        Seq::empty()
    } else {
        let earlier = events.drop_last();
        match (api_tail_run(tail, earlier).step, events.last()) {
            (ApiTailStepView::Receive, ApiTailEventView::Log(event)) => match frame_of(event) {
                Some(frame) => frames_taken(tail, earlier).push(frame),
                None => frames_taken(tail, earlier),
            },
            _ => frames_taken(tail, earlier),
        }
    }
}

/// The frame that a viewer is about to be sent, if there is one.
pub open spec fn frame_in_hand(step: ApiTailStepView) -> Seq<FrameView> {
    match step {
        ApiTailStepView::Send(frame) => seq![frame],
        _ => Seq::empty(),
    }
}

/// The frames of lines.
pub open spec fn line_frames(lines: Seq<LineView>) -> Seq<FrameView> {
    lines.map_values(|line: LineView| FrameView::Line(line))
}

/// A viewer is sent the kept lines and after them all that happens, lags
/// among it, each once and in order: what was sent, the frame in hand and
/// the kept lines still to come make up exactly that; and once the log is
/// over nothing is left to send.
pub proof fn law_viewer_sees_the_log_in_order(
    page_size: usize,
    backlog: Seq<LineView>,
    events: Seq<ApiTailEventView>,
)
    ensures
        ({
            let start = api_tail_resume(page_size, backlog);
            let now = api_tail_run(start, events);
            &&& frames_sent(start, events) + frame_in_hand(now.step) + line_frames(now.pending)
                == line_frames(backlog) + frames_taken(start, events)
            &&& !(now.step is Subscribe || now.step is ReadKept)
            &&& !(now.step is Send) ==> now.pending.len() == 0
            &&& frames_taken(start, events).len() > 0 ==> now.pending.len() == 0
        }),
    decreases events.len(),
{
    let start = api_tail_resume(page_size, backlog);
    let none = Seq::<FrameView>::empty();
    if events.len() == 0 {
        if backlog.len() > 0 {
            assert(none + seq![FrameView::Line(backlog[0])] + line_frames(backlog.drop_first())
                =~= line_frames(backlog) + none);
        } else {
            assert(none + none + line_frames(backlog) =~= line_frames(backlog) + none);
        }
    } else {
        let earlier = events.drop_last();
        law_viewer_sees_the_log_in_order(page_size, backlog, earlier);
        let before = api_tail_run(start, earlier);
        let now = api_tail_run(start, events);
        let sent0 = frames_sent(start, earlier);
        let sent = frames_sent(start, events);
        let taken0 = frames_taken(start, earlier);
        let taken = frames_taken(start, events);
        match (before.step, events.last()) {
            (ApiTailStepView::Send(frame), ApiTailEventView::Sent) => {
                if before.pending.len() > 0 {
                    assert(seq![FrameView::Line(before.pending[0])] + line_frames(
                        before.pending.drop_first(),
                    ) =~= line_frames(before.pending));
                }
                assert(sent + frame_in_hand(now.step) + line_frames(now.pending) =~= sent0 + seq![
                    frame,
                ] + line_frames(before.pending));
            },
            (ApiTailStepView::Receive, ApiTailEventView::Log(event)) => {
                assert(line_frames(before.pending) =~= none);
                assert(sent0 + none + line_frames(before.pending) =~= sent0);
                match frame_of(event) {
                    Some(frame) => {
                        assert(line_frames(backlog) + taken =~= (line_frames(backlog)
                            + taken0).push(frame));
                        assert(sent + frame_in_hand(now.step) + line_frames(now.pending)
                            =~= sent0.push(frame));
                    },
                    None => {
                        assert(sent + frame_in_hand(now.step) + line_frames(now.pending) =~= sent0);
                    },
                }
            },
            _ => {},
        }
    }
}

/// A viewer is sent nothing before it is subscribed and, after that, the
/// kept lines were read; nothing that happens is taken in before that
/// either.
pub proof fn law_viewer_subscribes_before_the_kept_lines_are_read(
    page_size: usize,
    events: Seq<ApiTailEventView>,
)
    ensures
        ({
            let start = api_tail_start(page_size);
            let now = api_tail_run(start, events);
            &&& now.step is Subscribe || now.step is ReadKept ==> frames_sent(start, events).len()
                == 0 && frames_taken(start, events).len() == 0 && now.pending.len() == 0
            &&& !(now.step is Subscribe) ==> exists|i: int|
                0 <= i < events.len() && #[trigger] events[i] is Subscribed
            &&& !(now.step is Subscribe || now.step is ReadKept) ==> exists|i: int, j: int|
                0 <= i < j < events.len() && #[trigger] events[i] is Subscribed
                    && #[trigger] events[j] is Kept
            &&& now.page_size == page_size
        }),
    decreases events.len(),
{
    let start = api_tail_start(page_size);
    if events.len() > 0 {
        let earlier = events.drop_last();
        law_viewer_subscribes_before_the_kept_lines_are_read(page_size, earlier);
        let before = api_tail_run(start, earlier);
        let last = events.len() - 1;
        assert(events[last] == events.last());
        if !(before.step is Subscribe) {
            let i = choose|i: int| 0 <= i < earlier.len() && #[trigger] earlier[i] is Subscribed;
            assert(events[i] == earlier[i]);
        }
        if !(before.step is Subscribe || before.step is ReadKept) {
            let (i, j) = choose|i: int, j: int|
                0 <= i < j < earlier.len() && #[trigger] earlier[i] is Subscribed
                    && #[trigger] earlier[j] is Kept;
            assert(events[i] == earlier[i] && events[j] == earlier[j]);
        }
    }
}

/// Once a viewer is subscribed and the kept lines were read, it is sent the
/// newest page of them and after them what happens, as a viewer is that has
/// those kept lines to be sent.
pub proof fn law_viewer_starts_with_the_newest_page(
    page_size: usize,
    kept: Seq<LineView>,
    events: Seq<ApiTailEventView>,
)
    ensures
        ({
            let start = api_tail_start(page_size);
            let replay = api_tail_resume(page_size, newest(kept, page_size));
            let all = seq![ApiTailEventView::Subscribed, ApiTailEventView::Kept(kept)] + events;
            &&& api_tail_run(start, all) == api_tail_run(replay, events)
            &&& frames_sent(start, all) == frames_sent(replay, events)
            &&& frames_taken(start, all) == frames_taken(replay, events)
        }),
    decreases events.len(),
{
    let first = seq![ApiTailEventView::Subscribed, ApiTailEventView::Kept(kept)];
    let all = first + events;
    if events.len() == 0 {
        assert(all =~= first);
        reveal_with_fuel(api_tail_run, 3);
        reveal_with_fuel(frames_sent, 3);
        reveal_with_fuel(frames_taken, 3);
        assert(first.drop_last() =~= seq![ApiTailEventView::Subscribed]);
        assert(first.drop_last().drop_last() =~= Seq::empty());
    } else {
        law_viewer_starts_with_the_newest_page(page_size, kept, events.drop_last());
        assert(all.drop_last() =~= first + events.drop_last());
        assert(all.last() == events.last());
    }
}

/// What is done next to follow an agent's log.
pub enum TailStep {
    /// Find out whether the machine's agent is connected.
    CheckConnected(MachineId),
    /// Open a stream to the machine's agent with this request.
    Open(MachineId, ScoutStreamScoutBoundMessage),
    /// Follow the stream; the guard closes it in the end.
    Follow(ScoutLogStreamGuard),
    /// Answer and be done.
    Reply(HttpReply),
}

/// What came of a step.
pub enum TailEvent {
    /// Whether the agent is connected.
    Connected(bool),
    /// The stream is open on this flow.
    Opened(u128),
    /// The stream could not be opened; the message of the error.
    OpenFailed(String),
}

/// A step with its texts as sequences.
pub enum TailStepView {
    CheckConnected(Seq<char>),
    Open(Seq<char>, MessageView<RequestView>),
    Follow(Seq<char>, u128),
    Reply(HttpView),
}

impl View for TailStep {
    type V = TailStepView;

    open spec fn view(&self) -> TailStepView {
        match self {
            TailStep::CheckConnected(machine_id) => TailStepView::CheckConnected(machine_id@),
            TailStep::Open(machine_id, request) => TailStepView::Open(machine_id@, request@),
            TailStep::Follow(guard) => TailStepView::Follow(guard.machine_id@, guard.flow_uuid),
            TailStep::Reply(reply) => TailStepView::Reply(reply@),
        }
    }
}

/// The first step to an agent's log, given the text of its machine and the
/// machine that the text names, if any.
pub open spec fn tail_start(text: Seq<char>, parsed: Option<Seq<char>>) -> TailStepView {
    match parsed {
        Some(machine_id) => TailStepView::CheckConnected(machine_id),
        None => TailStepView::Reply(
            HttpView { status: 400, body: "invalid machine_id: "@ + quoted(text) },
        ),
    }
}

/// Whether a step may follow a step and its event. A connected agent is
/// asked to start on a flow of its own; one that is not is not found; a
/// stream that does not open is an internal error. An event that does not
/// belong to the step leaves it.
pub open spec fn tail_follows(before: TailStepView, event: TailEvent, after: TailStepView) -> bool {
    match (before, event) {
        (TailStepView::CheckConnected(machine_id), TailEvent::Connected(true)) =>
            after matches TailStepView::Open(to, request) && to == machine_id && is_random_message(
            request,
            RequestView::StartLogStream,
        ),
        (TailStepView::CheckConnected(machine_id), TailEvent::Connected(false)) => after
            == TailStepView::Reply(
            HttpView {
                status: 404,
                body: "scout agent "@ + machine_id + " is not connected"@,
            },
        ),
        (TailStepView::Open(machine_id, _), TailEvent::Opened(flow_uuid)) => after
            == TailStepView::Follow(machine_id, flow_uuid),
        (TailStepView::Open(_, _), TailEvent::OpenFailed(reason)) => after == TailStepView::Reply(
            HttpView { status: 500, body: "failed to start scout log stream: "@ + reason@ },
        ),
        _ => after == before,
    }
}

/// The first step to an agent's log, given the text of its machine and the
/// machine that the text names, if any.
pub fn stream_scout(machine_id: &str, parsed: Option<MachineId>) -> (r: TailStep)
    ensures
        r@ == tail_start(
            machine_id@,
            match parsed {
                Some(id) => Some(id@),
                None => None,
            },
        ),
{
    match parsed {
        Some(id) => TailStep::CheckConnected(id),
        None => {
            let text = quote(machine_id);
            TailStep::Reply(
                HttpReply {
                    status: 400,
                    body: "invalid machine_id: ".to_owned().concat(text.as_str()),
                },
            )
        },
    }
}

/// The next step to an agent's log.
pub fn stream_scout_step(step: TailStep, event: TailEvent) -> (r: TailStep)
    ensures
        tail_follows(step@, event, r@),
{
    match (step, event) {
        (TailStep::CheckConnected(machine_id), TailEvent::Connected(connected)) => {
            if connected {
                let start = ScoutStreamScoutBoundMessage::new_flow(
                    ScoutBoundPayload::StartLogStreamRequest,
                );
                TailStep::Open(machine_id, start)
            } else {
                TailStep::Reply(
                    HttpReply {
                        status: 404,
                        body: "scout agent ".to_owned().concat(machine_id.as_str()).concat(
                            " is not connected",
                        ),
                    },
                )
            }
        },
        (TailStep::Open(machine_id, _), TailEvent::Opened(flow_uuid)) => TailStep::Follow(
            ScoutLogStreamGuard { machine_id, flow_uuid },
        ),
        (TailStep::Open(_, _), TailEvent::OpenFailed(reason)) => TailStep::Reply(
            HttpReply {
                status: 500,
                body: "failed to start scout log stream: ".to_owned().concat(reason.as_str()),
            },
        ),
        (step, _) => step,
    }
}

/// What has to be closed when nobody follows an agent's log any more.
pub struct ScoutLogStreamGuard {
    pub machine_id: MachineId,
    pub flow_uuid: u128,
}

impl ScoutLogStreamGuard {
    /// The request that tells the agent to stop, on the flow of the stream.
    pub fn stop_request(&self) -> (r: ScoutStreamScoutBoundMessage)
        ensures
            r@ == on_flow(self.flow_uuid, RequestView::StopLogStream),
    {
        ScoutStreamScoutBoundMessage::from_flow(
            self.flow_uuid,
            ScoutBoundPayload::StopLogStreamRequest,
        )
    }
}

/// The log lines among messages of an agent, in order.
pub open spec fn lines_of(messages: Seq<MessageView<ReplyView>>) -> Seq<LineView>
    decreases messages.len(),
{
    if messages.len() == 0 {
        Seq::empty()
    } else {
        match messages.last().payload {
            Some(ReplyView::LogLine(line)) => lines_of(messages.drop_last()).push(line),
            _ => lines_of(messages.drop_last()),
        }
    }
}

/// The log line that a message of an agent holds, if it holds one; any other
/// message on the flow is passed over.
pub fn tailed_line(message: ScoutStreamApiBoundMessage) -> (r: Option<ScoutStreamLogLine>)
    ensures
        match r {
            Some(line) => message@.payload == Some(ReplyView::LogLine(line@)),
            None => !(message@.payload matches Some(ReplyView::LogLine(_))),
        },
        match r {
            Some(line) => lines_of(seq![message@]) == seq![line@],
            None => lines_of(seq![message@]).len() == 0,
        },
{
    proof {
        assert(seq![message@].drop_last() =~= Seq::empty());
        assert(seq![message@].last() == message@);
        reveal_with_fuel(lines_of, 2);
    }
    match message.payload {
        Some(ApiBoundPayload::LogLine(line)) => {
            assert(Seq::<LineView>::empty().push(line@) =~= seq![line@]);
            Some(line)
        },
        _ => None,
    }
}

/// The lines of messages that came one after another are the lines of the
/// first, and after them those of the others: nothing is reordered, and
/// other messages leave no trace.
pub proof fn law_tail_is_in_order(
    first: Seq<MessageView<ReplyView>>,
    second: Seq<MessageView<ReplyView>>,
)
    ensures
        lines_of(first + second) == lines_of(first) + lines_of(second),
    decreases second.len(),
{
    if second.len() == 0 {
        assert(first + second =~= first);
        assert(lines_of(first) + lines_of(second) =~= lines_of(first));
    } else {
        assert((first + second).drop_last() =~= first + second.drop_last());
        assert((first + second).last() == second.last());
        law_tail_is_in_order(first, second.drop_last());
        match second.last().payload {
            Some(ReplyView::LogLine(line)) => {
                assert((lines_of(first) + lines_of(second.drop_last())).push(line) =~= lines_of(
                    first,
                ) + lines_of(second.drop_last()).push(line));
            },
            _ => {},
        }
    }
}

/// Lines that an agent relays on a flow arrive as they were sent.
pub proof fn law_relayed_lines_arrive(flow_uuid: u128, lines: Seq<LineView>)
    ensures
        lines_of(lines.map_values(|line: LineView| on_flow(flow_uuid, ReplyView::LogLine(line))))
            == lines,
    decreases lines.len(),
{
    let messages = lines.map_values(
        |line: LineView| on_flow(flow_uuid, ReplyView::LogLine(line)),
    );
    if lines.len() == 0 {
        assert(lines_of(messages) =~= lines);
    } else {
        law_relayed_lines_arrive(flow_uuid, lines.drop_last());
        assert(messages.drop_last() =~= lines.drop_last().map_values(
            |line: LineView| on_flow(flow_uuid, ReplyView::LogLine(line)),
        ));
        assert(messages.last() == on_flow(flow_uuid, ReplyView::LogLine(lines.last())));
        assert(lines.drop_last().push(lines.last()) =~= lines);
    }
}

/// A viewer is sent a new line unchanged in every part, told of a lag by the
/// number of lines it missed, and sent nothing more when the log is over.
pub proof fn law_live_line_is_sent_unchanged(line: LineView, skipped: u64)
    ensures
        frame_of(LogEventView::Line(line)) == Some(FrameView::Line(line)),
        frame_of(LogEventView::Lagged(skipped)) matches Some(FrameView::Lag(text)) && number_of(
            text,
        ) == skipped && text == decimal(skipped as nat),
        frame_of(LogEventView::Closed) is None,
{
    law_decimal_reads_back(skipped as nat);
}

/// A viewer that waits is sent next what happens at the log: the very line
/// that came, or the count of the lines it missed; the end of the log ends
/// it. Once a frame was sent to a viewer without kept lines to come, it
/// waits again.
pub proof fn law_viewer_is_sent_what_happens(
    page_size: usize,
    line: LineView,
    skipped: u64,
    frame: FrameView,
)
    ensures
        ({
            let none = Seq::<LineView>::empty();
            let waiting = ApiTailView { step: ApiTailStepView::Receive, pending: none, page_size };
            let sending = ApiTailView {
                step: ApiTailStepView::Send(frame),
                pending: none,
                page_size,
            };
            &&& api_tail_next(waiting, ApiTailEventView::Log(LogEventView::Line(line)))
                == (ApiTailView {
                step: ApiTailStepView::Send(FrameView::Line(line)),
                pending: none,
                page_size,
            })
            &&& api_tail_next(waiting, ApiTailEventView::Log(LogEventView::Lagged(skipped)))
                == (ApiTailView {
                step: ApiTailStepView::Send(FrameView::Lag(decimal(skipped as nat))),
                pending: none,
                page_size,
            })
            &&& api_tail_next(waiting, ApiTailEventView::Log(LogEventView::Closed)).step is End
            &&& api_tail_next(sending, ApiTailEventView::Sent) == waiting
        }),
{
}

/// Where only lines come while a viewer waits, the frames of what happened
/// are those lines, each unchanged and in order.
pub proof fn law_live_frames_are_the_lines_that_came(
    tail: ApiTailView,
    events: Seq<ApiTailEventView>,
)
    requires
        forall|i: int|
            0 <= i < events.len() ==> (#[trigger] events[i] matches ApiTailEventView::Log(event)
                ==> event is Line),
    ensures
        forall|k: int|
            0 <= k < frames_taken(tail, events).len() ==> exists|i: int|
                0 <= i < events.len() && (#[trigger] events[i] matches ApiTailEventView::Log(
                    LogEventView::Line(line),
                ) && #[trigger] frames_taken(tail, events)[k] == FrameView::Line(line)),
    decreases events.len(),
{
    if events.len() > 0 {
        let earlier = events.drop_last();
        assert forall|i: int| 0 <= i < earlier.len() implies (
        #[trigger] earlier[i] matches ApiTailEventView::Log(event) ==> event is Line) by {
            assert(earlier[i] == events[i]);
        }
        law_live_frames_are_the_lines_that_came(tail, earlier);
        let taken0 = frames_taken(tail, earlier);
        let taken = frames_taken(tail, events);
        assert(events[events.len() - 1] == events.last());
        assert forall|k: int| 0 <= k < taken.len() implies exists|i: int|
            0 <= i < events.len() && (#[trigger] events[i] matches ApiTailEventView::Log(
                LogEventView::Line(line),
            ) && #[trigger] taken[k] == FrameView::Line(line)) by {
            if k < taken0.len() {
                assert(taken[k] == taken0[k]);
                let i = choose|i: int|
                    0 <= i < earlier.len() && (#[trigger] earlier[i] matches ApiTailEventView::Log(
                        LogEventView::Line(line),
                    ) && taken0[k] == FrameView::Line(line));
                assert(events[i] == earlier[i]);
            }
        }
    }
}

/// Kept lines are sent unchanged, the first of those that are left before
/// the others; a viewer without kept lines left waits.
pub proof fn law_kept_lines_are_sent_unchanged(page_size: usize, pending: Seq<LineView>, i: int)
    ensures
        pending.len() > 0 ==> api_tail_resume(page_size, pending) == (ApiTailView {
            step: ApiTailStepView::Send(FrameView::Line(pending[0])),
            pending: pending.skip(1),
            page_size,
        }),
        pending.len() == 0 ==> api_tail_resume(page_size, pending).step is Receive,
        line_frames(pending).len() == pending.len(),
        0 <= i < pending.len() ==> line_frames(pending)[i] == FrameView::Line(pending[i]),
{
    if pending.len() > 0 {
        assert(pending.drop_first() =~= pending.skip(1));
    }
}

/// A viewer moves only with the event that its step calls for, and one that
/// the log is over for stays where it is.
pub proof fn law_viewer_moves_with_its_events(tail: ApiTailView, event: ApiTailEventView)
    ensures
        api_tail_next(tail, event) != tail ==> match tail.step {
            ApiTailStepView::Subscribe => event is Subscribed,
            ApiTailStepView::ReadKept => event is Kept,
            ApiTailStepView::Send(_) => event is Sent,
            ApiTailStepView::Receive => event is Log,
            ApiTailStepView::End => false,
        },
{
}

/// The source `api` is the controller's own log whatever else is asked for;
/// `scout` is that of the agent asked for, and a bad request where none is;
/// every other source is not found under its name.
pub proof fn law_which_log_is_followed(
    source: Seq<char>,
    machine_id: Option<Seq<char>>,
    agent: Seq<char>,
)
    ensures
        stream_target("api"@, machine_id) == TargetView::Api,
        stream_target("scout"@, Some(agent)) == TargetView::Scout(agent),
        stream_target("scout"@, None) == TargetView::Reply(
            HttpView {
                status: 400,
                body: "scout log stream requires a machine_id query parameter"@,
            },
        ),
        source != "api"@ && source != "scout"@ ==> stream_target(source, machine_id)
            == TargetView::Reply(
            HttpView { status: 404, body: "log source "@ + quoted(source) + " is not available"@ },
        ),
{
    reveal_strlit("api");
    reveal_strlit("scout");
    assert("api"@.len() != "scout"@.len());
}

/// Following an agent's log starts with finding out whether the very agent
/// asked for is connected, and is a bad request that quotes the text where
/// it names none.
pub proof fn law_agent_is_looked_up_first(text: Seq<char>, machine_id: Seq<char>)
    ensures
        tail_start(text, Some(machine_id)) == TailStepView::CheckConnected(machine_id),
        tail_start(text, None) == TailStepView::Reply(
            HttpView { status: 400, body: "invalid machine_id: "@ + quoted(text) },
        ),
{
}

/// An agent that is connected is asked to start on a flow of its own, drawn
/// at random, and is followed on the flow that opened; one that is not is
/// not found under its name; a stream that does not open is an internal
/// error with the reason. The agent stays the same throughout.
pub proof fn law_agent_is_followed(
    machine_id: Seq<char>,
    request: MessageView<RequestView>,
    flow_uuid: u128,
    reason: String,
    after: TailStepView,
)
    ensures
        tail_follows(
            TailStepView::CheckConnected(machine_id),
            TailEvent::Connected(true),
            after,
        ) <==> (after matches TailStepView::Open(to, start) && to == machine_id && start.payload
            == Some(RequestView::StartLogStream) && exists|id: u128| #[trigger]
            is_random_uuid(id) && start.flow_uuid == Some(hyphenated(id))),
        tail_follows(
            TailStepView::CheckConnected(machine_id),
            TailEvent::Connected(false),
            after,
        ) <==> after == TailStepView::Reply(
            HttpView {
                status: 404,
                body: "scout agent "@ + machine_id + " is not connected"@,
            },
        ),
        tail_follows(
            TailStepView::Open(machine_id, request),
            TailEvent::Opened(flow_uuid),
            after,
        ) <==> after == TailStepView::Follow(machine_id, flow_uuid),
        tail_follows(
            TailStepView::Open(machine_id, request),
            TailEvent::OpenFailed(reason),
            after,
        ) <==> after == TailStepView::Reply(
            HttpView { status: 500, body: "failed to start scout log stream: "@ + reason@ },
        ),
{
    if let TailStepView::Open(_, start) = after {
        if start.payload == Some(RequestView::StartLogStream) {
            assert forall|id: u128| #[trigger] is_random_uuid(id) && start.flow_uuid == Some(
                hyphenated(id),
            ) implies start == on_flow(id, RequestView::StartLogStream) by {}
        }
    }
}

/// A step to an agent's log that an event does not belong to stays.
pub proof fn law_agent_tail_moves_with_its_events(
    before: TailStepView,
    event: TailEvent,
    after: TailStepView,
)
    requires
        tail_follows(before, event, after),
        after != before,
    ensures
        before is CheckConnected && event is Connected || before is Open && (event is Opened
            || event is OpenFailed),
{
}

/// Of a message of an agent exactly the log line is shown that it holds,
/// unchanged; any other message shows nothing.
pub proof fn law_shown_line_is_the_one_that_came(message: MessageView<ReplyView>)
    ensures
        message.payload matches Some(ReplyView::LogLine(line)) ==> lines_of(seq![message])
            == seq![line],
        !(message.payload matches Some(ReplyView::LogLine(_))) ==> lines_of(seq![message]).len()
            == 0,
{
    reveal_with_fuel(lines_of, 2);
    assert(seq![message].drop_last() =~= Seq::empty());
    assert(seq![message].last() == message);
    if let Some(ReplyView::LogLine(line)) = message.payload {
        assert(Seq::<LineView>::empty().push(line) =~= seq![line]);
    }
}

/// Events, frames and steps are seen as they are.
pub proof fn law_tail_views(
    line: LogLine,
    skipped: u64,
    text: String,
    frame: LogFrame,
    lines: Vec<LogLine>,
    event: LogEvent,
    machine_id: MachineId,
    request: ScoutStreamScoutBoundMessage,
    guard: ScoutLogStreamGuard,
    reply: HttpReply,
)
    ensures
        LogEvent::Line(line)@ == LogEventView::Line(line@),
        LogEvent::Lagged(skipped)@ == LogEventView::Lagged(skipped),
        LogEvent::Closed@ is Closed,
        LogFrame::Line(line)@ == FrameView::Line(line@),
        LogFrame::Lag(text)@ == FrameView::Lag(text@),
        ApiTailStep::Send(frame)@ == ApiTailStepView::Send(frame@),
        ApiTailEvent::Log(event)@ == ApiTailEventView::Log(event@),
        ApiTailEvent::Kept(lines)@ == ApiTailEventView::Kept(line_views(lines@)),
        StreamTarget::Scout(text)@ == TargetView::Scout(text@),
        StreamTarget::Reply(reply)@ == TargetView::Reply(reply@),
        TailStep::CheckConnected(machine_id)@ == TailStepView::CheckConnected(machine_id@),
        TailStep::Open(machine_id, request)@ == TailStepView::Open(machine_id@, request@),
        TailStep::Follow(guard)@ == TailStepView::Follow(guard.machine_id@, guard.flow_uuid),
        TailStep::Reply(reply)@ == TailStepView::Reply(reply@),
        reply@.status == reply.status,
        reply@.body == reply.body@,
{
}

} // verus!
