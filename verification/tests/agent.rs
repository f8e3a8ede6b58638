use carbide_scout::ids::UuidError;
use carbide_scout::relay::{send_log_line, LogRelay, RelayEvent, RelayStep};
use carbide_scout::scout::{
    handle_ping, handle_scout_stream_api_bound_message, read_incoming_flow, wrap_response,
    Handling, ScoutSession, ScoutStream, ScoutStreamError, SessionEvent, SessionStep, StreamPhase,
};
use carbide_scout::time::Duration;
use carbide_scout::wire::{
    log_line_from_proto, log_line_to_proto, ApiBoundPayload, Handler, LogLine, MachineId,
    PingReply, ScoutBoundPayload, ScoutStreamApiBoundMessage, ScoutStreamScoutBoundMessage,
    WireUuid,
};

const FLOW: u128 = 0x11111111_2222_3333_4444_555555555555;
const FLOW_TEXT: &str = "11111111-2222-3333-4444-555555555555";

fn machine() -> MachineId {
    MachineId::new("m1".to_string())
}

fn line(seq: u64) -> LogLine {
    LogLine {
        seq,
        timestamp: format!("time {seq}"),
        level: "INFO".to_string(),
        target: "scout".to_string(),
        message: format!("line {seq}"),
        fields: vec![("key".to_string(), "value".to_string())],
        location: Some("main.rs:1".to_string()),
        span_id: None,
    }
}

fn from_api(payload: ScoutBoundPayload) -> ScoutStreamScoutBoundMessage {
    ScoutStreamScoutBoundMessage::from_flow(FLOW, payload)
}

/// A session that waits for its first message; relays are named.
fn receiving() -> ScoutSession<&'static str> {
    let session = ScoutSession::run_scout_stream_loop(machine());
    let (session, _) = session.advance(SessionEvent::Done);
    let (session, _) = session.advance(SessionEvent::Done);
    let (session, _) = session.advance(SessionEvent::Done);
    assert!(matches!(session.step(), SessionStep::Receive));
    session
}

fn finished(session: &ScoutSession<&'static str>) -> String {
    match session.step() {
        SessionStep::Finished(error) => error.to_string(),
        _ => panic!("the session goes on"),
    }
}

#[test]
fn errors_of_the_stream_say_what_happened() {
    let s = || "why".to_string();
    assert_eq!(ScoutStreamError::Grpc(s()).to_string(), "gRPC error: why");
    assert_eq!(ScoutStreamError::Transport(s()).to_string(), "Transport error: why");
    assert_eq!(ScoutStreamError::Profile(s()).to_string(), "Profile error: why");
    assert_eq!(ScoutStreamError::ConnectionLost.to_string(), "Connection lost");
    assert_eq!(ScoutStreamError::InvalidRequest(s()).to_string(), "Invalid request: why");
    assert_eq!(ScoutStreamError::InvalidUri(s()).to_string(), "Invalid URI: why");
    assert_eq!(
        ScoutStreamError::ClientError(s()).to_string(),
        "Client initialization error: why"
    );
}

#[test]
fn a_ping_is_answered_by_name() {
    let PingReply::Pong(text) = handle_ping(&machine()).reply.unwrap();
    assert_eq!(text, "pong from m1");

    let handling = handle_scout_stream_api_bound_message(
        FLOW,
        &machine(),
        ScoutBoundPayload::ScoutStreamAgentPingRequest,
    );
    match handling {
        Handling::Reply(message) => {
            assert_eq!(message.flow_uuid.unwrap().value, FLOW_TEXT);
            assert!(matches!(
                message.payload,
                Some(ApiBoundPayload::ScoutStreamAgentPingResponse(_))
            ));
        }
        Handling::Call(_, _) => panic!("a ping needs no handler"),
    }
}

#[test]
fn every_request_finds_its_handler_and_its_answer() {
    type Make = fn(Vec<u8>) -> ScoutBoundPayload;
    type Is = fn(&ApiBoundPayload) -> bool;
    let cases: Vec<(Make, Handler, Is)> = vec![
        (ScoutBoundPayload::MlxDeviceProfileSyncRequest, Handler::ProfileSync, |p| {
            matches!(p, ApiBoundPayload::MlxDeviceProfileSyncResponse(_))
        }),
        (ScoutBoundPayload::MlxDeviceProfileCompareRequest, Handler::ProfileCompare, |p| {
            matches!(p, ApiBoundPayload::MlxDeviceProfileCompareResponse(_))
        }),
        (ScoutBoundPayload::MlxDeviceLockdownLockRequest, Handler::LockdownLock, |p| {
            matches!(p, ApiBoundPayload::MlxDeviceLockdownResponse(_))
        }),
        (ScoutBoundPayload::MlxDeviceLockdownUnlockRequest, Handler::LockdownUnlock, |p| {
            matches!(p, ApiBoundPayload::MlxDeviceLockdownResponse(_))
        }),
        (ScoutBoundPayload::MlxDeviceLockdownStatusRequest, Handler::LockdownStatus, |p| {
            matches!(p, ApiBoundPayload::MlxDeviceLockdownResponse(_))
        }),
        (ScoutBoundPayload::MlxDeviceInfoDeviceRequest, Handler::InfoDevice, |p| {
            matches!(p, ApiBoundPayload::MlxDeviceInfoDeviceResponse(_))
        }),
        (ScoutBoundPayload::MlxDeviceInfoReportRequest, Handler::InfoReport, |p| {
            matches!(p, ApiBoundPayload::MlxDeviceInfoReportResponse(_))
        }),
        (ScoutBoundPayload::MlxDeviceRegistryListRequest, Handler::RegistryList, |p| {
            matches!(p, ApiBoundPayload::MlxDeviceRegistryListResponse(_))
        }),
        (ScoutBoundPayload::MlxDeviceRegistryShowRequest, Handler::RegistryShow, |p| {
            matches!(p, ApiBoundPayload::MlxDeviceRegistryShowResponse(_))
        }),
        (ScoutBoundPayload::MlxDeviceConfigQueryRequest, Handler::ConfigQuery, |p| {
            matches!(p, ApiBoundPayload::MlxDeviceConfigQueryResponse(_))
        }),
        (ScoutBoundPayload::MlxDeviceConfigSetRequest, Handler::ConfigSet, |p| {
            matches!(p, ApiBoundPayload::MlxDeviceConfigSetResponse(_))
        }),
        (ScoutBoundPayload::MlxDeviceConfigSyncRequest, Handler::ConfigSync, |p| {
            matches!(p, ApiBoundPayload::MlxDeviceConfigSyncResponse(_))
        }),
        (ScoutBoundPayload::MlxDeviceConfigCompareRequest, Handler::ConfigCompare, |p| {
            matches!(p, ApiBoundPayload::MlxDeviceConfigCompareResponse(_))
        }),
    ];
    for (make, expected, is_answer) in cases {
        let handling = handle_scout_stream_api_bound_message(FLOW, &machine(), make(vec![7]));
        match handling {
            Handling::Call(handler, body) => {
                assert_eq!(handler, expected);
                assert_eq!(body, vec![7]);
                let message = wrap_response(FLOW, handler, vec![8]);
                assert_eq!(message.flow_uuid.unwrap().value, FLOW_TEXT);
                assert!(is_answer(&message.payload.unwrap()));
            }
            Handling::Reply(_) => panic!("a handler answers"),
        }
    }
}

#[test]
fn a_session_begins_with_the_machine() {
    let session: ScoutSession<()> = ScoutSession::run_scout_stream_loop(machine());
    assert!(matches!(session.step(), SessionStep::CreateClient));
    let (session, _) = session.advance(SessionEvent::Done);
    match session.step() {
        SessionStep::SendInit(message) => {
            assert!(message.flow_uuid.is_none());
            match message.payload.as_ref().unwrap() {
                ApiBoundPayload::Init(id) => assert_eq!(id.as_str(), "m1"),
                _ => panic!("the first message names the machine"),
            }
        }
        _ => panic!("the first message follows"),
    }
    let (session, _) = session.advance(SessionEvent::Done);
    assert!(matches!(session.step(), SessionStep::Connect));
}

#[test]
fn a_session_that_does_not_begin_says_why() {
    let fail = || SessionEvent::Failed("why".to_string());
    let start = || ScoutSession::<&'static str>::run_scout_stream_loop(machine());
    let (session, _) = start().advance(fail());
    assert_eq!(finished(&session), "Client initialization error: why");
    let (session, _) = start().advance(SessionEvent::Done);
    let (session, _) = session.advance(fail());
    assert_eq!(
        finished(&session),
        "Invalid request: scout stream failed to send init request: why"
    );
    let (session, _) = start().advance(SessionEvent::Done);
    let (session, _) = session.advance(SessionEvent::Done);
    let (session, _) = session.advance(fail());
    assert_eq!(finished(&session), "gRPC error: why");
}

#[test]
fn a_session_ends_with_its_stream() {
    let (session, _) = receiving().advance(SessionEvent::Ended);
    assert_eq!(finished(&session), "Connection lost");
    let (session, _) = receiving().advance(SessionEvent::Failed("why".to_string()));
    assert_eq!(finished(&session), "gRPC error: why");
    let (session, _) = session.advance(SessionEvent::Done);
    assert_eq!(finished(&session), "gRPC error: why");
}

#[test]
fn a_message_without_a_payload_is_passed_over() {
    let empty = ScoutStreamScoutBoundMessage { flow_uuid: None, payload: None };
    let (session, stop) = receiving().advance(SessionEvent::Received(empty));
    assert!(matches!(session.step(), SessionStep::Receive));
    assert_eq!(stop, None);
}

#[test]
fn a_message_without_a_flow_ends_the_session() {
    let message = ScoutStreamScoutBoundMessage {
        flow_uuid: None,
        payload: Some(ScoutBoundPayload::ScoutStreamAgentPingRequest),
    };
    let (session, _) = receiving().advance(SessionEvent::Received(message));
    assert_eq!(
        finished(&session),
        "Invalid request: cannot determine flow, flow_uuid empty from API"
    );
}

#[test]
fn a_message_with_an_unreadable_flow_ends_the_session() {
    let message = ScoutStreamScoutBoundMessage {
        flow_uuid: Some(WireUuid { value: "x".to_string() }),
        payload: Some(ScoutBoundPayload::ScoutStreamAgentPingRequest),
    };
    let (session, _) = receiving().advance(SessionEvent::Received(message));
    let expected = uuid::Uuid::parse_str("x").unwrap_err();
    assert_eq!(
        finished(&session),
        format!("Client initialization error: failed to convert flow_uuid: {expected}")
    );

    let parsed = Err(UuidError { message: "shown".to_string(), debug: "printed".to_string() });
    let error = read_incoming_flow(parsed).err().unwrap();
    assert_eq!(
        error.to_string(),
        "Client initialization error: failed to convert flow_uuid: shown"
    );
    assert!(matches!(read_incoming_flow(Ok(5)), Ok(5)));
}

#[test]
fn a_request_is_answered_on_its_flow() {
    let request = from_api(ScoutBoundPayload::MlxDeviceConfigSetRequest(vec![1, 2]));
    let (session, _) = receiving().advance(SessionEvent::Received(request));
    match session.step() {
        SessionStep::Call(flow, handler, body) => {
            assert_eq!(*flow, FLOW);
            assert_eq!(*handler, Handler::ConfigSet);
            assert_eq!(*body, vec![1, 2]);
        }
        _ => panic!("the handler is called"),
    }
    let (session, _) = session.advance(SessionEvent::Answered(vec![3]));
    match session.step() {
        SessionStep::Send(message) => {
            assert_eq!(message.flow_uuid.as_ref().unwrap().value, FLOW_TEXT);
            match message.payload.as_ref().unwrap() {
                ApiBoundPayload::MlxDeviceConfigSetResponse(body) => assert_eq!(*body, vec![3]),
                _ => panic!("the answer belongs to the request"),
            }
        }
        _ => panic!("the answer is sent"),
    }
    let (session, _) = session.advance(SessionEvent::Done);
    assert!(matches!(session.step(), SessionStep::Receive));
}

#[test]
fn a_response_that_cannot_be_sent_ends_the_session() {
    let ping = from_api(ScoutBoundPayload::ScoutStreamAgentPingRequest);
    let (session, _) = receiving().advance(SessionEvent::Received(ping));
    assert!(matches!(session.step(), SessionStep::Send(_)));
    let (session, _) = session.advance(SessionEvent::Failed("closed".to_string()));
    assert_eq!(finished(&session), "Connection lost");
}

fn start_relay(
    session: ScoutSession<&'static str>,
    flow: u128,
    handle: &'static str,
) -> (ScoutSession<&'static str>, Option<&'static str>) {
    let start =
        ScoutStreamScoutBoundMessage::from_flow(flow, ScoutBoundPayload::StartLogStreamRequest);
    let (session, stop) = session.advance(SessionEvent::Received(start));
    assert!(matches!(session.step(), SessionStep::StartRelay(at) if *at == flow));
    assert_eq!(stop, None);
    session.advance(SessionEvent::RelayStarted(handle))
}

#[test]
fn a_second_start_replaces_the_relay_of_the_flow() {
    let (session, stop) = start_relay(receiving(), FLOW, "first");
    assert_eq!(stop, None);
    let (session, stop) = start_relay(session, 2, "other");
    assert_eq!(stop, None);
    let (session, stop) = start_relay(session, FLOW, "second");
    assert_eq!(stop, Some("first"));
    let end = from_api(ScoutBoundPayload::StopLogStreamRequest);
    let (session, stop) = session.advance(SessionEvent::Received(end));
    assert_eq!(stop, Some("second"));
    let end = from_api(ScoutBoundPayload::StopLogStreamRequest);
    let (session, stop) = session.advance(SessionEvent::Received(end));
    assert_eq!(stop, None);
    assert_eq!(session.into_relays(), vec!["other"]);
}

#[test]
fn no_relay_outlives_its_connection() {
    let mut session = receiving();
    for (flow, handle) in [(1, "a"), (2, "b"), (3, "c")] {
        session = start_relay(session, flow, handle).0;
    }
    let (session, stop) = session.advance(SessionEvent::Ended);
    assert_eq!(stop, None);
    let mut left = session.into_relays();
    left.sort();
    assert_eq!(left, vec!["a", "b", "c"]);
}

#[test]
fn a_relay_that_was_not_asked_for_is_stopped() {
    let (session, stop) = receiving().advance(SessionEvent::RelayStarted("stray"));
    assert_eq!(stop, Some("stray"));
    assert!(session.into_relays().is_empty());
}

#[test]
fn a_lost_connection_is_made_again_after_ten_seconds() {
    let stream = ScoutStream { api: "https://api".to_string(), machine_id: machine() };
    let phase = stream.start_scout_stream();
    assert!(matches!(phase, StreamPhase::Run));
    let phase = stream.next_phase(phase);
    assert!(matches!(phase, StreamPhase::Wait(delay) if delay == Duration::from_secs(10)));
    assert!(matches!(stream.next_phase(phase), StreamPhase::Run));
    assert_eq!(
        stream.starting_report(),
        "scout stream starting (api:https://api, machine_id:m1)"
    );
    assert_eq!(
        stream.ended_report(&Ok(())),
        "scout stream closed (api:https://api, machine_id:m1)"
    );
    assert_eq!(
        stream.ended_report(&Err(ScoutStreamError::ConnectionLost)),
        "scout stream error (api:https://api, machine_id:m1): Connection lost"
    );
    assert_eq!(
        stream.reconnecting_report(),
        "scout stream reconnecting (api:https://api, machine_id:m1): 10s delay"
    );
}

#[test]
fn a_line_survives_its_way() {
    let wire = log_line_to_proto(&line(4));
    assert_eq!(wire.seq, 4);
    assert_eq!(wire.timestamp, "time 4");
    assert_eq!(wire.level, "INFO");
    assert_eq!(wire.target, "scout");
    assert_eq!(wire.message, "line 4");
    assert_eq!(wire.fields, vec![("key".to_string(), "value".to_string())]);
    assert_eq!(wire.location, Some("main.rs:1".to_string()));
    assert_eq!(wire.span_id, None);
    let back = log_line_from_proto(wire, "WARN".to_string());
    assert_eq!(back.seq, 4);
    assert_eq!(back.level, "WARN");
    assert_eq!(back.message, "line 4");
    assert_eq!(back.fields.len(), 1);
}

fn sent_line(message: &ScoutStreamApiBoundMessage) -> u64 {
    assert_eq!(message.flow_uuid.as_ref().unwrap().value, FLOW_TEXT);
    match message.payload.as_ref().unwrap() {
        ApiBoundPayload::LogLine(line) => line.seq,
        _ => panic!("a relay sends lines"),
    }
}

#[test]
fn a_relay_sends_the_kept_lines_and_the_new_ones() {
    let mut sent = Vec::new();
    let mut new = vec![3, 4].into_iter();
    let mut relay = LogRelay::spawn_log_relay(FLOW, 2);
    loop {
        let event = match relay.step() {
            RelayStep::Subscribe => RelayEvent::Subscribed,
            RelayStep::ReadKept => RelayEvent::Kept(vec![line(0), line(1), line(2)]),
            RelayStep::Send(message) => {
                sent.push(sent_line(message));
                RelayEvent::Sent
            }
            RelayStep::Receive => match new.next() {
                Some(3) => {
                    relay = relay.advance(RelayEvent::Lagged);
                    RelayEvent::Line(line(3))
                }
                Some(seq) => RelayEvent::Line(line(seq)),
                None => RelayEvent::Closed,
            },
            RelayStep::Stop => break,
        };
        relay = relay.advance(event);
    }
    assert_eq!(sent, vec![1, 2, 3, 4]);
}

#[test]
fn a_relay_stops_when_the_stream_is_closed() {
    let relay = LogRelay::spawn_log_relay(FLOW, 2)
        .advance(RelayEvent::Subscribed)
        .advance(RelayEvent::Kept(vec![line(1), line(2)]));
    let relay = relay.advance(RelayEvent::SendFailed);
    assert!(matches!(relay.step(), RelayStep::Stop));
    let relay = relay.advance(RelayEvent::Line(line(3)));
    assert!(matches!(relay.step(), RelayStep::Stop));
    let empty = LogRelay::spawn_log_relay(FLOW, 2)
        .advance(RelayEvent::Subscribed)
        .advance(RelayEvent::Kept(Vec::new()));
    assert!(matches!(empty.step(), RelayStep::Receive));
    assert_eq!(sent_line(&send_log_line(FLOW, &line(9))), 9);
}

#[test]
fn a_relay_subscribes_before_it_reads_the_kept_lines() {
    let relay = LogRelay::spawn_log_relay(FLOW, 2);
    assert!(matches!(relay.step(), RelayStep::Subscribe));
    let relay = relay.advance(RelayEvent::Kept(vec![line(1)]));
    assert!(matches!(relay.step(), RelayStep::Subscribe));
    let relay = relay.advance(RelayEvent::Subscribed);
    assert!(matches!(relay.step(), RelayStep::ReadKept));
    let relay = relay.advance(RelayEvent::Line(line(2)));
    assert!(matches!(relay.step(), RelayStep::ReadKept));
    let relay = relay.advance(RelayEvent::Kept(vec![line(1)]));
    assert!(matches!(relay.step(), RelayStep::Send(message) if sent_line(message) == 1));
}

#[test]
fn requests_are_answered_one_by_one_in_their_order() {
    let requests = vec![
        (1, ScoutBoundPayload::ScoutStreamAgentPingRequest),
        (2, ScoutBoundPayload::MlxDeviceConfigQueryRequest(vec![2])),
        (1, ScoutBoundPayload::MlxDeviceInfoReportRequest(vec![3])),
        (4, ScoutBoundPayload::StopLogStreamRequest),
        (5, ScoutBoundPayload::ScoutStreamAgentPingRequest),
    ];
    let mut requests = requests.into_iter();
    let mut replied: Vec<u128> = Vec::new();
    let mut session = receiving();
    loop {
        let event = match session.step() {
            SessionStep::Receive => match requests.next() {
                Some((flow, payload)) => SessionEvent::Received(
                    ScoutStreamScoutBoundMessage::from_flow(flow, payload),
                ),
                None => SessionEvent::Ended,
            },
            SessionStep::Call(_, _, body) => SessionEvent::Answered(body.clone()),
            SessionStep::Send(reply) => {
                replied.push(reply.flow_uuid.as_ref().unwrap().decode().unwrap());
                SessionEvent::Done
            }
            SessionStep::Finished(_) => break,
            _ => unreachable!(),
        };
        session = session.advance(event).0;
    }
    assert_eq!(replied, vec![1, 2, 1, 5]);
}
