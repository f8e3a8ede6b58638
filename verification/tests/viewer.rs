use carbide_scout::http_reply::HttpReply;
use carbide_scout::log_connections::{
    scout_connections, sort_connections, ConnectionsReply, ScoutConnection,
};
use carbide_scout::log_pages::{
    history, latest, select_page, HistoryQuery, HistoryReply, MAX_PAGE_SIZE,
};
use carbide_scout::log_tail::{
    lag_event_name, live_frame, stream, stream_scout, stream_scout_step, tailed_line, ApiTail,
    ApiTailEvent, ApiTailStep, LogEvent, LogFrame, ScoutLogStreamGuard, StreamQuery, StreamTarget,
    TailEvent, TailStep,
};
use carbide_scout::registry::{Delivery, FlowTable};
use carbide_scout::relay::{LogRelay, RelayEvent, RelayStep};
use carbide_scout::time::SystemTime;
use carbide_scout::wire::{
    log_line_to_proto, ApiBoundPayload, LogLine, MachineId, ScoutBoundPayload,
    ScoutStreamApiBoundMessage,
};

fn line(seq: u64) -> LogLine {
    LogLine {
        seq,
        timestamp: String::new(),
        level: "INFO".to_string(),
        target: String::new(),
        message: format!("line {seq}"),
        fields: Vec::new(),
        location: None,
        span_id: None,
    }
}

fn lines(seqs: std::ops::Range<u64>) -> Vec<LogLine> {
    seqs.map(line).collect()
}

fn seqs(lines: &[LogLine]) -> Vec<u64> {
    lines.iter().map(|line| line.seq).collect()
}

fn machine(text: &str) -> MachineId {
    MachineId::new(text.to_string())
}

fn check(reply: &HttpReply, status: u16, body: &str) {
    assert_eq!(reply.status, status);
    assert_eq!(reply.body, body);
}

#[test]
fn a_source_leads_to_its_log() {
    let query = |id: Option<&str>| StreamQuery { machine_id: id.map(str::to_string) };
    assert!(matches!(stream("api", query(None)), StreamTarget::Api));
    assert!(matches!(stream("api", query(Some("m1"))), StreamTarget::Api));
    assert!(matches!(stream("scout", query(Some("m1"))), StreamTarget::Scout(id) if id == "m1"));
    match stream("scout", query(None)) {
        StreamTarget::Reply(reply) => check(
            &reply,
            400,
            "scout log stream requires a machine_id query parameter",
        ),
        _ => panic!("a machine is needed"),
    }
    match stream("dpu", query(Some("m1"))) {
        StreamTarget::Reply(reply) => check(&reply, 404, "log source \"dpu\" is not available"),
        _ => panic!("there is no such source"),
    }
}

#[test]
fn a_viewer_that_fell_behind_is_told() {
    assert!(matches!(live_frame(LogEvent::Line(line(3))), Some(LogFrame::Line(l)) if l.seq == 3));
    assert!(matches!(live_frame(LogEvent::Lagged(42)), Some(LogFrame::Lag(n)) if n == "42"));
    assert!(live_frame(LogEvent::Closed).is_none());
    assert_eq!(lag_event_name(), "lag");
}

#[test]
fn a_viewer_sees_the_kept_lines_and_what_follows() {
    let mut shown: Vec<String> = Vec::new();
    let mut events =
        vec![LogEvent::Line(line(5)), LogEvent::Lagged(2), LogEvent::Line(line(8))].into_iter();
    let mut tail = ApiTail::stream_api(2);
    loop {
        let event = match tail.step() {
            ApiTailStep::Subscribe => ApiTailEvent::Subscribed,
            ApiTailStep::ReadKept => ApiTailEvent::Kept(lines(0..5)),
            ApiTailStep::Send(LogFrame::Line(line)) => {
                shown.push(line.seq.to_string());
                ApiTailEvent::Sent
            }
            ApiTailStep::Send(LogFrame::Lag(count)) => {
                shown.push(format!("lag {count}"));
                ApiTailEvent::Sent
            }
            ApiTailStep::Receive => {
                ApiTailEvent::Log(events.next().unwrap_or(LogEvent::Closed))
            }
            ApiTailStep::End => break,
        };
        tail = tail.advance(event);
    }
    assert_eq!(shown, vec!["3", "4", "5", "lag 2", "8"]);
}

#[test]
fn a_viewer_is_subscribed_before_the_kept_lines_are_read() {
    let tail = ApiTail::stream_api(2);
    assert!(matches!(tail.step(), ApiTailStep::Subscribe));
    let tail = tail.advance(ApiTailEvent::Kept(lines(0..5)));
    assert!(matches!(tail.step(), ApiTailStep::Subscribe));
    let tail = tail.advance(ApiTailEvent::Subscribed);
    assert!(matches!(tail.step(), ApiTailStep::ReadKept));
    let tail = tail.advance(ApiTailEvent::Log(LogEvent::Line(line(5))));
    assert!(matches!(tail.step(), ApiTailStep::ReadKept));
    let tail = tail.advance(ApiTailEvent::Kept(lines(0..6)));
    assert!(matches!(tail.step(), ApiTailStep::Send(LogFrame::Line(l)) if l.seq == 4));
}

#[test]
fn a_text_that_is_no_machine_is_a_bad_request() {
    match stream_scout("m\"1", None) {
        TailStep::Reply(reply) => check(&reply, 400, "invalid machine_id: \"m\\\"1\""),
        _ => panic!("the text names no machine"),
    }
}

#[test]
fn an_agent_is_followed_from_start_to_stop() {
    let step = stream_scout("m1", Some(machine("m1")));
    assert!(matches!(&step, TailStep::CheckConnected(id) if id.as_str() == "m1"));
    let step = stream_scout_step(step, TailEvent::Connected(true));
    match &step {
        TailStep::Open(id, request) => {
            assert_eq!(id.as_str(), "m1");
            assert!(request.flow_uuid.as_ref().unwrap().decode().is_ok());
            assert!(matches!(
                request.payload,
                Some(ScoutBoundPayload::StartLogStreamRequest)
            ));
        }
        _ => panic!("a stream is opened"),
    }
    let step = stream_scout_step(step, TailEvent::Opened(5));
    match step {
        TailStep::Follow(guard) => {
            assert_eq!(guard.flow_uuid, 5);
            let stop = guard.stop_request();
            assert!(matches!(stop.flow_uuid.unwrap().decode(), Ok(5)));
            assert!(matches!(stop.payload, Some(ScoutBoundPayload::StopLogStreamRequest)));
        }
        _ => panic!("the stream is followed"),
    }
}

#[test]
fn an_agent_that_is_not_connected_is_not_found() {
    let step = stream_scout_step(
        TailStep::CheckConnected(machine("m1")),
        TailEvent::Connected(false),
    );
    match step {
        TailStep::Reply(reply) => check(&reply, 404, "scout agent m1 is not connected"),
        _ => panic!("the agent is not connected"),
    }
}

#[test]
fn a_stream_that_does_not_open_is_an_internal_error() {
    let step = stream_scout("m1", Some(machine("m1")));
    let step = stream_scout_step(step, TailEvent::Connected(true));
    let step = stream_scout_step(step, TailEvent::OpenFailed("why".to_string()));
    match step {
        TailStep::Reply(reply) => check(&reply, 500, "failed to start scout log stream: why"),
        _ => panic!("the stream did not open"),
    }
    let guard = ScoutLogStreamGuard { machine_id: machine("m1"), flow_uuid: 1 };
    let step = stream_scout_step(TailStep::Follow(guard), TailEvent::Connected(false));
    assert!(matches!(step, TailStep::Follow(_)));
}

#[test]
fn only_lines_are_passed_on() {
    let message = ScoutStreamApiBoundMessage::from_flow(
        1,
        ApiBoundPayload::LogLine(log_line_to_proto(&line(8))),
    );
    assert_eq!(tailed_line(message).unwrap().seq, 8);
    let other = ScoutStreamApiBoundMessage::from_flow(
        1,
        ApiBoundPayload::MlxDeviceConfigSetResponse(vec![1]),
    );
    assert!(tailed_line(other).is_none());
    let empty = ScoutStreamApiBoundMessage { flow_uuid: None, payload: None };
    assert!(tailed_line(empty).is_none());
}

#[test]
fn a_page_is_the_newest_of_what_is_asked_for() {
    let kept = lines(10..20);
    assert_eq!(seqs(&select_page(&kept, None, 3)), vec![17, 18, 19]);
    assert_eq!(seqs(&select_page(&kept, Some(14), 3)), vec![11, 12, 13]);
    assert_eq!(seqs(&select_page(&kept, Some(12), 3)), vec![10, 11]);
    assert_eq!(seqs(&select_page(&kept, Some(10), 3)), Vec::<u64>::new());
    assert_eq!(seqs(&select_page(&kept, None, 0)), Vec::<u64>::new());
    assert_eq!(seqs(&select_page(&kept, None, 50)).len(), 10);
    assert_eq!(select_page(&kept, None, 1)[0].message, "line 19");
    assert_eq!(seqs(&latest(&kept, 2)), vec![18, 19]);
    assert_eq!(seqs(&latest(&Vec::new(), 2)), Vec::<u64>::new());
}

#[test]
fn scrolling_back_shows_every_line_once() {
    let kept = lines(0..23);
    let mut shown: Vec<u64> = Vec::new();
    let mut page = seqs(&select_page(&kept, None, 5));
    while let Some(first) = page.first().copied() {
        page.extend(shown);
        shown = page;
        page = seqs(&select_page(&kept, Some(first), 5));
    }
    assert_eq!(shown, (0..23).collect::<Vec<u64>>());
}

#[test]
fn a_page_is_clamped() {
    let kept = lines(0..5100);
    let page = |limit: Option<usize>, page_size: usize| {
        let query = HistoryQuery { before: None, limit };
        match history("api", &query, page_size, &kept) {
            HistoryReply::Page(found) => found.len(),
            HistoryReply::Reply(_) => panic!("the log is kept"),
        }
    };
    assert_eq!(MAX_PAGE_SIZE, 5000);
    assert_eq!(page(None, 7), 7);
    assert_eq!(page(Some(9), 7), 9);
    assert_eq!(page(Some(5001), 7), 5000);
    assert_eq!(page(None, 6000), 5000);
}

#[test]
fn history_goes_by_its_cursor() {
    let kept = lines(0..10);
    let query = HistoryQuery { before: Some(4), limit: Some(2) };
    match history("api", &query, 100, &kept) {
        HistoryReply::Page(found) => assert_eq!(seqs(&found), vec![2, 3]),
        HistoryReply::Reply(_) => panic!("the log is kept"),
    }
    match history("scout", &query, 100, &kept) {
        HistoryReply::Reply(reply) => {
            check(&reply, 404, "log source \"scout\" is not available yet")
        }
        HistoryReply::Page(_) => panic!("only one log is kept"),
    }
}

#[test]
fn connected_agents_stand_in_order() {
    let agents = vec![
        (machine("m2"), SystemTime::new(1_700_000_000, 0)),
        (machine("m10"), SystemTime::new(1_700_000_090, 500_000_000)),
        (machine("m1"), SystemTime::new(1_700_000_200, 0)),
    ];
    let now = SystemTime::new(1_700_000_100, 0);
    match scout_connections("scout", &agents, now) {
        ConnectionsReply::List(list) => {
            let shown: Vec<(&str, &str, u64)> = list
                .iter()
                .map(|c| (c.machine_id.as_str(), c.connected_at.as_str(), c.uptime_seconds))
                .collect();
            assert_eq!(
                shown,
                vec![
                    ("m1", "2023-11-14T22:16:40+00:00", 0),
                    ("m10", "2023-11-14T22:14:50+00:00", 9),
                    ("m2", "2023-11-14T22:13:20+00:00", 100),
                ]
            );
        }
        ConnectionsReply::Reply(_) => panic!("agents are connected"),
    }
    match scout_connections("api", &agents, now) {
        ConnectionsReply::Reply(reply) => {
            check(&reply, 404, "log source \"api\" has no connections list")
        }
        ConnectionsReply::List(_) => panic!("only agents are connected"),
    }
}

#[test]
fn sorting_keeps_every_agent() {
    let agent = |id: &str, uptime: u64| ScoutConnection {
        machine_id: id.to_string(),
        connected_at: String::new(),
        uptime_seconds: uptime,
    };
    let sorted = sort_connections(vec![agent("b", 1), agent("a", 2), agent("", 3), agent("ab", 4)]);
    let shown: Vec<(&str, u64)> = sorted
        .iter()
        .map(|c| (c.machine_id.as_str(), c.uptime_seconds))
        .collect();
    assert_eq!(shown, vec![("", 3), ("a", 2), ("ab", 4), ("b", 1)]);
}

#[test]
fn relayed_lines_reach_the_viewer() {
    let mut table: FlowTable<(), ()> = FlowTable::new();
    table.register_stream(5, ());
    let mut seen: Vec<u64> = Vec::new();
    let mut relay = LogRelay::spawn_log_relay(5, 3);
    loop {
        let event = match relay.step() {
            RelayStep::Subscribe => RelayEvent::Subscribed,
            RelayStep::ReadKept => RelayEvent::Kept(lines(0..3)),
            RelayStep::Send(message) => {
                assert!(matches!(table.route(message), Delivery::Stream(5)));
                seen.push(tailed_line(message.clone()).unwrap().seq);
                RelayEvent::Sent
            }
            RelayStep::Receive => RelayEvent::Closed,
            RelayStep::Stop => break,
        };
        relay = relay.advance(event);
    }
    assert_eq!(seen, vec![0, 1, 2]);
}

#[test]
fn a_refresh_does_not_shuffle() {
    let agent = |id: &str| (machine(id), SystemTime::new(0, 0));
    let now = SystemTime::new(9, 0);
    let shown = |agents: Vec<(MachineId, SystemTime)>| match scout_connections("scout", &agents, now)
    {
        ConnectionsReply::List(list) => list
            .iter()
            .map(|c| c.machine_id.clone())
            .collect::<Vec<String>>(),
        ConnectionsReply::Reply(_) => panic!("agents are connected"),
    };
    let first = shown(vec![agent("c"), agent("a"), agent("b")]);
    let second = shown(vec![agent("b"), agent("c"), agent("a")]);
    assert_eq!(first, second);
}
