//! The relay of a scout agent's own log to the controller: it subscribes to
//! the log, sends the newest of the lines that are kept, and after them each
//! new one.

use vstd::prelude::*;

use crate::ids::hyphenated;
use crate::log_pages::{latest, newest};
use crate::wire::{
    line_views, log_line_to_proto, on_flow, ApiBoundPayload, LineView, LogLine, ReplyView,
    ScoutStreamApiBoundMessage,
};

verus! {

/// What a relay does next.
pub enum RelayStep {
    /// Subscribe to the log: every line from here on is a new one.
    Subscribe,
    /// Read the lines that the log has kept.
    ReadKept,
    /// Send a message with a line.
    Send(ScoutStreamApiBoundMessage),
    /// Wait for a new line.
    Receive,
    /// Stop.
    Stop,
}

/// What came of a step.
pub enum RelayEvent {
    /// The relay is subscribed.
    Subscribed,
    /// These lines are kept, the oldest first.
    Kept(Vec<LogLine>),
    /// The message was sent.
    Sent,
    /// The stream is closed.
    SendFailed,
    /// This line is new.
    Line(LogLine),
    /// The relay fell behind, and lines were skipped.
    Lagged,
    /// No line will follow.
    Closed,
}

/// A step with its line as a view.
pub enum RelayStepView {
    Subscribe,
    ReadKept,
    Send(LineView),
    Receive,
    Stop,
}

/// An event with its line as a view.
pub enum RelayEventView {
    Subscribed,
    Kept(Seq<LineView>),
    Sent,
    SendFailed,
    Line(LineView),
    Lagged,
    Closed,
}

impl View for RelayEvent {
    type V = RelayEventView;

    open spec fn view(&self) -> RelayEventView {
        match self {
            RelayEvent::Subscribed => RelayEventView::Subscribed,
            RelayEvent::Kept(lines) => RelayEventView::Kept(line_views(lines@)),
            RelayEvent::Sent => RelayEventView::Sent,
            RelayEvent::SendFailed => RelayEventView::SendFailed,
            RelayEvent::Line(line) => RelayEventView::Line(line@),
            RelayEvent::Lagged => RelayEventView::Lagged,
            RelayEvent::Closed => RelayEventView::Closed,
        }
    }
}

/// A relay: its step, the kept lines that it has still to send, and how many
/// of the kept lines it sends at most.
pub struct RelayView {
    pub step: RelayStepView,
    pub pending: Seq<LineView>,
    pub replay_lines: usize,
}

/// A relay that has done nothing yet.
pub open spec fn relay_start(replay_lines: usize) -> RelayView {
    RelayView { step: RelayStepView::Subscribe, pending: Seq::empty(), replay_lines }
}

/// A relay that is free to go on: with the first kept line that is left, or
/// with waiting for a new one.
pub open spec fn relay_resume(replay_lines: usize, pending: Seq<LineView>) -> RelayView {
    if pending.len() > 0 {
        RelayView {
            step: RelayStepView::Send(pending[0]),
            pending: pending.drop_first(),
            replay_lines,
        }
    } else {
        RelayView { step: RelayStepView::Receive, pending, replay_lines }
    }
}

/// A relay after an event. The kept lines are read once the relay is
/// subscribed, and no earlier. Falling behind leaves a gap and no more; a closed
/// stream, and the end of the log, stop the relay. An event that does not
/// belong to the step changes nothing.
pub open spec fn relay_next(relay: RelayView, event: RelayEventView) -> RelayView {
    match (relay.step, event) {
        (RelayStepView::Subscribe, RelayEventView::Subscribed) => RelayView {
            step: RelayStepView::ReadKept,
            ..relay
        },
        (RelayStepView::ReadKept, RelayEventView::Kept(lines)) => relay_resume(
            relay.replay_lines,
            newest(lines, relay.replay_lines),
        ),
        (RelayStepView::Send(_), RelayEventView::Sent) => relay_resume(
            relay.replay_lines,
            relay.pending,
        ),
        (RelayStepView::Send(_), RelayEventView::SendFailed) => RelayView {
            step: RelayStepView::Stop,
            ..relay
        },
        (RelayStepView::Receive, RelayEventView::Line(line)) => RelayView {
            step: RelayStepView::Send(line),
            ..relay
        },
        (RelayStepView::Receive, RelayEventView::Closed) => RelayView {
            step: RelayStepView::Stop,
            ..relay
        },
        _ => relay,
    }
}

/// The relay of an agent's log on a flow.
pub struct LogRelay {
    flow_uuid: u128,
    replay_lines: usize,
    backlog: Vec<LogLine>,
    next: usize,
    step: RelayStep,
}

/// A step that sends a line on a flow has the line's message in it.
pub open spec fn step_matches(flow_uuid: u128, step: RelayStep, view: RelayStepView) -> bool {
    match (step, view) {
        (RelayStep::Send(message), RelayStepView::Send(line)) => message@ == on_flow(
            flow_uuid,
            ReplyView::LogLine(line),
        ),
        (RelayStep::Subscribe, RelayStepView::Subscribe) => true,
        (RelayStep::ReadKept, RelayStepView::ReadKept) => true,
        (RelayStep::Receive, RelayStepView::Receive) => true,
        (RelayStep::Stop, RelayStepView::Stop) => true,
        _ => false,
    }
}

/// Wraps one line for the flow.
pub fn send_log_line(flow_uuid: u128, line: &LogLine) -> (r: ScoutStreamApiBoundMessage)
    ensures
        r@ == on_flow(flow_uuid, ReplyView::LogLine(line@)),
{
    ScoutStreamApiBoundMessage::from_flow(
        flow_uuid,
        ApiBoundPayload::LogLine(log_line_to_proto(line)),
    )
}

impl View for LogRelay {
    type V = RelayView;

    closed spec fn view(&self) -> RelayView {
        RelayView {
            step: match self.step {
                RelayStep::Subscribe => RelayStepView::Subscribe,
                RelayStep::ReadKept => RelayStepView::ReadKept,
                RelayStep::Send(message) => RelayStepView::Send(
                    match message@.payload {
                        Some(ReplyView::LogLine(line)) => line,
                        _ => arbitrary(),
                    },
                ),
                RelayStep::Receive => RelayStepView::Receive,
                RelayStep::Stop => RelayStepView::Stop,
            },
            pending: line_views(self.backlog@).skip(self.next as int),
            replay_lines: self.replay_lines,
        }
    }
}

impl LogRelay {
    /// The flow that the relay sends on.
    pub closed spec fn flow(&self) -> u128 {
        self.flow_uuid
    }

    #[verifier::type_invariant]
    spec fn wf(self) -> bool {
        &&& self.next <= self.backlog.len()
        &&& step_matches(self.flow_uuid, self.step, self@.step)
    }

    /// A relay on a flow that has done nothing yet, and will start with this
    /// many of the kept lines at most.
    pub fn spawn_log_relay(flow_uuid: u128, replay_lines: usize) -> (r: Self)
        ensures
            r.flow() == flow_uuid,
            r@ == relay_start(replay_lines),
    {
        let r = LogRelay {
            flow_uuid,
            replay_lines,
            backlog: Vec::new(),
            next: 0,
            step: RelayStep::Subscribe,
        };
        assert(r@.pending =~= Seq::empty());
        r
    }

    /// Goes on with the next kept line, or with waiting.
    fn resume(self) -> (r: Self)
        ensures
            r.flow() == self.flow(),
            r@ == relay_resume(self@.replay_lines, self@.pending),
    {
        proof {
            use_type_invariant(&self);
        }
        let ghost all = line_views(self.backlog@);
        if self.next < self.backlog.len() {
            let message = send_log_line(self.flow_uuid, &self.backlog[self.next]);
            proof {
                assert(all.skip(self.next as int)[0] == self.backlog@[self.next as int]@);
                assert(all.skip(self.next as int).drop_first() =~= all.skip(self.next + 1));
            }
            LogRelay {
                flow_uuid: self.flow_uuid,
                replay_lines: self.replay_lines,
                backlog: self.backlog,
                next: self.next + 1,
                step: RelayStep::Send(message),
            }
        } else {
            LogRelay {
                flow_uuid: self.flow_uuid,
                replay_lines: self.replay_lines,
                backlog: self.backlog,
                next: self.next,
                step: RelayStep::Receive,
            }
        }
    }

    /// What to do next.
    pub fn step(&self) -> (r: &RelayStep)
        ensures
            step_matches(self.flow(), *r, self@.step),
    {
        proof {
            use_type_invariant(self);
        }
        &self.step
    }

    /// The relay after an event.
    pub fn advance(self, event: RelayEvent) -> (r: Self)
        ensures
            r.flow() == self.flow(),
            r@ == relay_next(self@, event@),
    {
        proof {
            use_type_invariant(&self);
        }
        let LogRelay { flow_uuid, replay_lines, backlog, next, step } = self;
        match (step, event) {
            (RelayStep::Subscribe, RelayEvent::Subscribed) => {
                let step = RelayStep::ReadKept;
                LogRelay { flow_uuid, replay_lines, backlog, next, step }
            },
            (RelayStep::ReadKept, RelayEvent::Kept(lines)) => {
                let backlog = latest(&lines, replay_lines);
                assert(line_views(backlog@).skip(0) =~= line_views(backlog@));
                let step = RelayStep::Receive;
                LogRelay { flow_uuid, replay_lines, backlog, next: 0, step }.resume()
            },
            (RelayStep::Send(_), RelayEvent::Sent) => {
                let step = RelayStep::Receive;
                LogRelay { flow_uuid, replay_lines, backlog, next, step }.resume()
            },
            (RelayStep::Send(_), RelayEvent::SendFailed) => {
                let step = RelayStep::Stop;
                LogRelay { flow_uuid, replay_lines, backlog, next, step }
            },
            (RelayStep::Receive, RelayEvent::Line(line)) => {
                let message = send_log_line(flow_uuid, &line);
                let step = RelayStep::Send(message);
                LogRelay { flow_uuid, replay_lines, backlog, next, step }
            },
            (RelayStep::Receive, RelayEvent::Closed) => {
                let step = RelayStep::Stop;
                LogRelay { flow_uuid, replay_lines, backlog, next, step }
            },
            (step, _) => LogRelay { flow_uuid, replay_lines, backlog, next, step },
        }
    }
}

/// A relay after a list of events.
pub open spec fn relay_run(relay: RelayView, events: Seq<RelayEventView>) -> RelayView
    decreases events.len(),
{
    if events.len() == 0 {
        relay
    } else {
        relay_next(relay_run(relay, events.drop_last()), events.last())
    }
}

/// The lines that a relay has sent through a list of events, in order.
pub open spec fn lines_sent(relay: RelayView, events: Seq<RelayEventView>) -> Seq<LineView>
    decreases events.len(),
{
    if events.len() == 0 {
        Seq::empty()
    } else {
        let earlier = events.drop_last();
        match (relay_run(relay, earlier).step, events.last()) {
            (RelayStepView::Send(line), RelayEventView::Sent) => lines_sent(relay, earlier).push(
                line,
            ),
            _ => lines_sent(relay, earlier),
        }
    }
}

/// The new lines that a relay has taken in through a list of events, in
/// order.
pub open spec fn lines_taken(relay: RelayView, events: Seq<RelayEventView>) -> Seq<LineView>
    decreases events.len(),
{
    if events.len() == 0 {
        Seq::empty()
    } else {
        let earlier = events.drop_last();
        match (relay_run(relay, earlier).step, events.last()) {
            (RelayStepView::Receive, RelayEventView::Line(line)) => lines_taken(
                relay,
                earlier,
            ).push(line),
            _ => lines_taken(relay, earlier),
        }
    }
}

/// The line that a relay is about to send, if there is one.
pub open spec fn line_in_hand(step: RelayStepView) -> Seq<LineView> {
    match step {
        RelayStepView::Send(line) => seq![line],
        _ => Seq::empty(),
    }
}

/// A relay sends the kept lines and after them every line it takes in, each
/// once and in order: until it stops, what it has sent, the line in hand and
/// the kept lines still to come make up exactly those; when it has stopped,
/// what it has sent is the beginning of them.
pub proof fn law_relay_keeps_order(
    replay_lines: usize,
    backlog: Seq<LineView>,
    events: Seq<RelayEventView>,
)
    ensures
        ({
            let start = relay_resume(replay_lines, backlog);
            let now = relay_run(start, events);
            let sent = lines_sent(start, events);
            let due = backlog + lines_taken(start, events);
            &&& now.step is Stop ==> sent.is_prefix_of(due)
            &&& !(now.step is Stop) ==> sent + line_in_hand(now.step) + now.pending == due
            &&& !(now.step is Subscribe || now.step is ReadKept)
            &&& now.step is Receive ==> now.pending.len() == 0
            &&& lines_taken(start, events).len() > 0 ==> now.pending.len() == 0 || now.step is Stop
        }),
    decreases events.len(),
{
    let start = relay_resume(replay_lines, backlog);
    if events.len() == 0 {
        if backlog.len() > 0 {
            assert(seq![backlog[0]] + backlog.drop_first() =~= backlog);
            assert(Seq::<LineView>::empty() + seq![backlog[0]] + backlog.drop_first() =~= backlog
                + Seq::<LineView>::empty());
        } else {
            assert(Seq::<LineView>::empty() + Seq::<LineView>::empty() + backlog =~= backlog
                + Seq::<LineView>::empty());
        }
    } else {
        let earlier = events.drop_last();
        law_relay_keeps_order(replay_lines, backlog, earlier);
        let before = relay_run(start, earlier);
        let now = relay_run(start, events);
        let sent0 = lines_sent(start, earlier);
        let sent = lines_sent(start, events);
        let due0 = backlog + lines_taken(start, earlier);
        let due = backlog + lines_taken(start, events);
        match (before.step, events.last()) {
            (RelayStepView::Send(line), RelayEventView::Sent) => {
                assert(sent0 + seq![line] =~= sent0.push(line));
                if before.pending.len() > 0 {
                    assert(seq![before.pending[0]] + before.pending.drop_first() =~= before.pending);
                    assert(sent + line_in_hand(now.step) + now.pending =~= sent + before.pending);
                } else {
                    assert(sent + line_in_hand(now.step) + now.pending =~= sent + before.pending);
                }
                assert(sent0 + seq![line] + before.pending =~= sent + before.pending);
            },
            (RelayStepView::Send(line), RelayEventView::SendFailed) => {
                assert(due == sent0 + seq![line] + before.pending);
                assert(sent0.is_prefix_of(sent0 + seq![line] + before.pending));
            },
            (RelayStepView::Receive, RelayEventView::Line(line)) => {
                assert(before.pending =~= Seq::empty());
                assert(sent0 + line_in_hand(before.step) + before.pending =~= sent0);
                assert(sent0 == due0);
                assert(due =~= due0.push(line));
                assert(sent + line_in_hand(now.step) + now.pending =~= sent0.push(line));
            },
            (RelayStepView::Receive, RelayEventView::Closed) => {
                assert(sent0 + line_in_hand(before.step) + before.pending =~= sent0);
                assert(sent.is_prefix_of(due));
            },
            _ => {},
        }
    }
}

/// A relay sends nothing before it is subscribed and, after that, has read
/// the kept lines; it takes in no line before that either.
pub proof fn law_relay_subscribes_before_it_reads(
    replay_lines: usize,
    events: Seq<RelayEventView>,
)
    ensures
        ({
            let start = relay_start(replay_lines);
            let now = relay_run(start, events);
            &&& now.step is Subscribe || now.step is ReadKept ==> lines_sent(start, events).len()
                == 0 && lines_taken(start, events).len() == 0 && now.pending.len() == 0
            &&& !(now.step is Subscribe) ==> exists|i: int|
                0 <= i < events.len() && #[trigger] events[i] is Subscribed
            &&& !(now.step is Subscribe || now.step is ReadKept) ==> exists|i: int, j: int|
                0 <= i < j < events.len() && #[trigger] events[i] is Subscribed
                    && #[trigger] events[j] is Kept
            &&& now.replay_lines == replay_lines
        }),
    decreases events.len(),
{
    let start = relay_start(replay_lines);
    if events.len() > 0 {
        let earlier = events.drop_last();
        law_relay_subscribes_before_it_reads(replay_lines, earlier);
        let before = relay_run(start, earlier);
        let last = events.len() - 1;
        assert(events[last] == events.last());
        if !(before.step is Subscribe) {
            let i = choose|i: int| 0 <= i < earlier.len() && #[trigger] earlier[i] is Subscribed;
            assert(events[i] == earlier[i]);
        }
        if !(before.step is Subscribe || before.step is ReadKept) {
            let (i, j) = choose|i: int, j: int|
                0 <= i < j < earlier.len() && #[trigger] earlier[i] is Subscribed
                    && #[trigger] earlier[j] is Kept;
            assert(events[i] == earlier[i] && events[j] == earlier[j]);
        }
    }
}

/// Once a relay is subscribed and has read the kept lines, it goes through
/// the newest of them and after them through the new ones, as a relay does
/// that has those kept lines to send.
pub proof fn law_relay_replays_the_newest(
    replay_lines: usize,
    kept: Seq<LineView>,
    events: Seq<RelayEventView>,
)
    ensures
        ({
            let start = relay_start(replay_lines);
            let replay = relay_resume(replay_lines, newest(kept, replay_lines));
            let all = seq![RelayEventView::Subscribed, RelayEventView::Kept(kept)] + events;
            &&& relay_run(start, all) == relay_run(replay, events)
            &&& lines_sent(start, all) == lines_sent(replay, events)
            &&& lines_taken(start, all) == lines_taken(replay, events)
        }),
    decreases events.len(),
{
    let first = seq![RelayEventView::Subscribed, RelayEventView::Kept(kept)];
    let all = first + events;
    if events.len() == 0 {
        assert(all =~= first);
        reveal_with_fuel(relay_run, 3);
        reveal_with_fuel(lines_sent, 3);
        reveal_with_fuel(lines_taken, 3);
        assert(first.drop_last() =~= seq![RelayEventView::Subscribed]);
        assert(first.drop_last().drop_last() =~= Seq::empty());
    } else {
        law_relay_replays_the_newest(replay_lines, kept, events.drop_last());
        assert(all.drop_last() =~= first + events.drop_last());
        assert(all.last() == events.last());
    }
}

/// Falling behind does not stop a relay, nor change what it does next.
pub proof fn law_lag_is_skipped(relay: RelayView)
    ensures
        relay_next(relay, RelayEventView::Lagged) == relay,
{
}

/// A relay that has stopped sends nothing more.
pub proof fn law_stopped_relay_is_silent(relay: RelayView, events: Seq<RelayEventView>)
    requires
        relay.step is Stop,
    ensures
        relay_run(relay, events) == relay,
        lines_sent(relay, events).len() == 0,
    decreases events.len(),
{
    if events.len() > 0 {
        law_stopped_relay_is_silent(relay, events.drop_last());
    }
}

/// A relay sends a line in a message on its own flow that holds the line
/// unchanged.
pub proof fn law_relayed_message_holds_the_line(
    flow_uuid: u128,
    message: ScoutStreamApiBoundMessage,
    line: LineView,
)
    requires
        step_matches(flow_uuid, RelayStep::Send(message), RelayStepView::Send(line)),
    ensures
        message@.flow_uuid == Some(hyphenated(flow_uuid)),
        message@.payload == Some(ReplyView::LogLine(line)),
{
}

/// A new line is sent as it came, the end of the log and a closed stream
/// stop the relay, and a relay moves only with the event that its step calls
/// for.
pub proof fn law_relay_moves_with_its_events(
    relay: RelayView,
    event: RelayEventView,
    line: LineView,
)
    ensures
        relay.step is Receive ==> relay_next(relay, RelayEventView::Line(line)) == (RelayView {
            step: RelayStepView::Send(line),
            pending: relay.pending,
            replay_lines: relay.replay_lines,
        }),
        relay.step is Receive ==> relay_next(relay, RelayEventView::Closed).step is Stop,
        relay.step is Send ==> relay_next(relay, RelayEventView::SendFailed).step is Stop,
        relay.step is Send && relay.pending.len() == 0 ==> relay_next(
            relay,
            RelayEventView::Sent,
        ).step is Receive,
        relay.step is Send && relay.pending.len() > 0 ==> relay_next(relay, RelayEventView::Sent)
            == (RelayView {
            step: RelayStepView::Send(relay.pending[0]),
            pending: relay.pending.skip(1),
            replay_lines: relay.replay_lines,
        }),
        relay_next(relay, event) != relay ==> match relay.step {
            RelayStepView::Subscribe => event is Subscribed,
            RelayStepView::ReadKept => event is Kept,
            RelayStepView::Send(_) => event is Sent || event is SendFailed,
            RelayStepView::Receive => event is Line || event is Closed,
            RelayStepView::Stop => false,
        },
{
    if relay.pending.len() > 0 {
        assert(relay.pending.drop_first() =~= relay.pending.skip(1));
    }
}

/// Events are seen with their lines as they are.
pub proof fn law_relay_event_views(line: LogLine, lines: Vec<LogLine>)
    ensures
        RelayEvent::Line(line)@ == RelayEventView::Line(line@),
        RelayEvent::Kept(lines)@ == RelayEventView::Kept(line_views(lines@)),
{
}

} // verus!
