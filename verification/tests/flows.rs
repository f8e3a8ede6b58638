use carbide_scout::ids::UuidError;
use carbide_scout::registry::{
    decode_request_flow_uuid, extract_flow_uuid, read_request_flow, CarbideError,
    ConnectionRegistry, Delivery, FlowTable, Handover, RequestEvent, RequestStep, StreamStep,
    STREAM_FLOW_CAPACITY,
};
use carbide_scout::time::SystemTime;
use carbide_scout::wire::{
    ApiBoundPayload, MachineId, ScoutBoundPayload, ScoutStreamApiBoundMessage,
    ScoutStreamScoutBoundMessage, WireUuid,
};

const FLOW: u128 = 0x550e8400_e29b_41d4_a716_446655440000;
const FLOW_TEXT: &str = "550e8400-e29b-41d4-a716-446655440000";

fn machine(text: &str) -> MachineId {
    MachineId::new(text.to_string())
}

fn response(flow: u128) -> ScoutStreamApiBoundMessage {
    ScoutStreamApiBoundMessage::from_flow(
        flow,
        ApiBoundPayload::MlxDeviceConfigSetResponse(vec![1, 2]),
    )
}

fn request(flow: u128) -> ScoutStreamScoutBoundMessage {
    ScoutStreamScoutBoundMessage::from_flow(flow, ScoutBoundPayload::ScoutStreamAgentPingRequest)
}

fn message_of(error: CarbideError) -> String {
    match error {
        CarbideError::Internal { message } => message,
        CarbideError::NotFoundError { kind, id } => format!("{kind}/{id}"),
    }
}

#[test]
fn a_flow_travels_as_its_hyphenated_text() {
    assert_eq!(WireUuid::from_flow(FLOW).value, FLOW_TEXT);
    assert_eq!(WireUuid::from_flow(0).value, "00000000-0000-0000-0000-000000000000");
    assert_eq!(
        WireUuid::from_flow(u128::MAX).value,
        "ffffffff-ffff-ffff-ffff-ffffffffffff"
    );
    assert_eq!(request(FLOW).flow_uuid.unwrap().value, FLOW_TEXT);
    assert_eq!(response(FLOW).flow_uuid.unwrap().value, FLOW_TEXT);
}

#[test]
fn a_flow_reads_back_as_it_was_written() {
    for flow in [0, 1, FLOW, u128::MAX] {
        assert!(matches!(WireUuid::from_flow(flow).decode(), Ok(id) if id == flow));
        assert_eq!(extract_flow_uuid(&response(flow)), Some(flow));
        assert!(matches!(
            decode_request_flow_uuid(&request(flow), &machine("m1")),
            Ok(id) if id == flow
        ));
    }
}

#[test]
fn flows_that_differ_in_one_digit_differ_in_their_texts() {
    for shift in 0..32 {
        let other = FLOW ^ (1 << (4 * shift));
        assert_ne!(WireUuid::from_flow(FLOW).value, WireUuid::from_flow(other).value);
    }
}

#[test]
fn other_forms_of_a_flow_are_read_too() {
    let simple = WireUuid { value: "550E8400E29B41D4A716446655440000".to_string() };
    assert!(matches!(simple.decode(), Ok(FLOW)));
}

#[test]
fn a_new_flow_is_drawn_at_random() {
    let first = ScoutStreamScoutBoundMessage::new_flow(ScoutBoundPayload::StartLogStreamRequest);
    let second = ScoutStreamScoutBoundMessage::new_flow(ScoutBoundPayload::StartLogStreamRequest);
    let first = first.flow_uuid.unwrap();
    let second = second.flow_uuid.unwrap();
    assert_ne!(first.value, second.value);
    assert_eq!(&first.value[14..15], "4");
    assert!("89ab".contains(&first.value[19..20]));
    assert!(first.decode().is_ok());
}

#[test]
fn a_request_without_a_flow_is_refused() {
    let request = ScoutStreamScoutBoundMessage {
        flow_uuid: None,
        payload: Some(ScoutBoundPayload::StopLogStreamRequest),
    };
    let error = decode_request_flow_uuid(&request, &machine("m1")).unwrap_err();
    assert_eq!(
        message_of(error),
        "flow_uuid empty for flow with m1, unable to build flow"
    );
}

#[test]
fn a_request_with_an_unreadable_flow_is_refused() {
    let flow = WireUuid { value: "no\tflow".to_string() };
    let parsed = Err(UuidError {
        message: "shown".to_string(),
        debug: "printed".to_string(),
    });
    let error = read_request_flow(&machine("m1"), &flow, parsed).unwrap_err();
    assert_eq!(
        message_of(error),
        "failed to decode flow_uuid (machine_id=m1): Uuid { value: \"no\\tflow\" }: printed"
    );
    assert!(matches!(
        read_request_flow(&machine("m1"), &flow, Ok(7)),
        Ok(7)
    ));

    let request = ScoutStreamScoutBoundMessage { flow_uuid: Some(flow), payload: None };
    let expected = uuid::Uuid::parse_str("no\tflow").unwrap_err();
    let error = decode_request_flow_uuid(&request, &machine("m1")).unwrap_err();
    assert_eq!(
        message_of(error),
        format!(
            "failed to decode flow_uuid (machine_id=m1): Uuid {{ value: \"no\\tflow\" }}: {expected:?}"
        )
    );
}

#[test]
fn one_response_is_delivered_and_no_second() {
    let mut table: FlowTable<&str, &str> = FlowTable::new();
    table.register_oneshot(FLOW, "asker");
    assert!(matches!(table.route(&response(FLOW)), Delivery::Oneshot(FLOW, "asker")));
    assert!(matches!(table.route(&response(FLOW)), Delivery::Unknown(FLOW)));
}

#[test]
fn a_stream_gets_every_message_until_its_reader_is_gone() {
    let mut table: FlowTable<&str, &str> = FlowTable::new();
    table.register_stream(FLOW, "viewer");
    for handover in [Handover::Sent, Handover::Full, Handover::Sent] {
        assert!(matches!(table.route(&response(FLOW)), Delivery::Stream(FLOW)));
        assert_eq!(table.stream_sender(FLOW), Some(&"viewer"));
        table.handed_over(FLOW, handover);
    }
    assert!(matches!(table.route_flow(FLOW), Delivery::Stream(FLOW)));
    table.handed_over(FLOW, Handover::Closed);
    assert_eq!(table.stream_sender(FLOW), None);
    assert!(matches!(table.route(&response(FLOW)), Delivery::Unknown(FLOW)));
}

#[test]
fn messages_leave_other_flows_alone() {
    let mut table: FlowTable<&str, &str> = FlowTable::new();
    table.register_oneshot(1, "one");
    table.register_oneshot(2, "two");
    table.register_stream(3, "three");
    assert!(matches!(table.route_flow(1), Delivery::Oneshot(1, "one")));
    assert_eq!(table.stream_sender(3), Some(&"three"));
    assert_eq!(table.stream_sender(2), None);
    assert!(matches!(table.route_flow(2), Delivery::Oneshot(2, "two")));
}

#[test]
fn a_message_without_a_readable_flow_is_dropped() {
    let mut table: FlowTable<&str, &str> = FlowTable::new();
    table.register_oneshot(0, "zero");
    let no_flow = ScoutStreamApiBoundMessage { flow_uuid: None, payload: None };
    assert!(matches!(table.route(&no_flow), Delivery::Unreadable));
    let bad_flow = ScoutStreamApiBoundMessage {
        flow_uuid: Some(WireUuid { value: "zero".to_string() }),
        payload: None,
    };
    assert_eq!(extract_flow_uuid(&bad_flow), None);
    assert!(matches!(table.route(&bad_flow), Delivery::Unreadable));
    assert!(matches!(table.route_flow(0), Delivery::Oneshot(0, "zero")));
}

#[test]
fn a_flow_that_is_registered_again_replaces_the_first() {
    let mut table: FlowTable<&str, &str> = FlowTable::new();
    table.register_oneshot(FLOW, "first");
    table.register_oneshot(FLOW, "second");
    assert!(matches!(table.route_flow(FLOW), Delivery::Oneshot(FLOW, "second")));
    table.register_stream(FLOW, "third");
    table.remove(FLOW);
    table.remove(FLOW);
    assert!(matches!(table.route_flow(FLOW), Delivery::Unknown(FLOW)));
    assert_eq!(STREAM_FLOW_CAPACITY, 1024);
}

type Registry = ConnectionRegistry<&'static str, &'static str, &'static str>;

#[test]
fn a_request_goes_over_the_connection_of_its_machine() {
    let mut registry: Registry = ConnectionRegistry::new();
    let first = registry.register(machine("m1"), SystemTime::new(1, 0), "to m1");
    let second = registry.register(machine("m2"), SystemTime::new(2, 0), "to m2");
    let step = registry.send_request(&machine("m2"), request(FLOW), "asker");
    match &step {
        RequestStep::Send(flow, sent) => {
            assert_eq!(flow.flow_uuid, FLOW);
            assert_eq!(flow.machine_id.to_string(), "m2");
            assert_eq!(flow.connection, second);
            assert_eq!(sent.flow_uuid.as_ref().unwrap().value, FLOW_TEXT);
        }
        _ => panic!("m2 is connected"),
    }
    assert_eq!(registry.sender(&machine("m2")), Some(&"to m2"));
    assert!(matches!(registry.route(first, &response(FLOW)), Delivery::Unknown(FLOW)));
    assert!(matches!(
        registry.route(second, &response(FLOW)),
        Delivery::Oneshot(FLOW, "asker")
    ));
    assert!(matches!(registry.route(second, &response(FLOW)), Delivery::Unknown(FLOW)));

    let step = step.advance(RequestEvent::Sent);
    assert!(matches!(step, RequestStep::Wait(_)));
    match step.advance(RequestEvent::Response(response(FLOW))) {
        RequestStep::Done(Ok(message)) => assert_eq!(message.flow_uuid.unwrap().value, FLOW_TEXT),
        _ => panic!("the request was answered"),
    }
}

#[test]
fn a_request_that_fails_says_where() {
    let mut registry: Registry = ConnectionRegistry::new();
    registry.register(machine("m1"), SystemTime::new(1, 0), "to m1");
    let failed = |step: RequestStep| match step {
        RequestStep::Done(Err(error)) => message_of(error),
        _ => panic!("the request failed"),
    };
    let step = registry.send_request(&machine("m1"), request(FLOW), "asker");
    assert_eq!(
        failed(step.advance(RequestEvent::SendFailed("channel closed".to_string()))),
        format!(
            "failed to send request to scout agent (machine_id=m1, flow_uuid={FLOW_TEXT}): channel closed"
        )
    );
    let step = registry.send_request(&machine("m1"), request(FLOW), "asker");
    assert_eq!(
        failed(
            step.advance(RequestEvent::Sent)
                .advance(RequestEvent::ResponseFailed("channel closed".to_string()))
        ),
        format!(
            "response channel error (machine_id=m1, flow_uuid={FLOW_TEXT}): channel closed"
        )
    );
}

#[test]
fn a_request_is_sent_once() {
    let mut registry: Registry = ConnectionRegistry::new();
    registry.register(machine("m1"), SystemTime::new(1, 0), "to m1");
    let step = registry.send_request(&machine("m1"), request(FLOW), "asker");
    let step = step.advance(RequestEvent::Response(response(FLOW)));
    assert!(matches!(step, RequestStep::Send(..)));
    let step = step.advance(RequestEvent::Sent).advance(RequestEvent::Sent);
    assert!(matches!(step, RequestStep::Wait(_)));
    let step = step
        .advance(RequestEvent::Response(response(FLOW)))
        .advance(RequestEvent::SendFailed("late".to_string()))
        .advance(RequestEvent::ResponseFailed("late".to_string()));
    assert!(matches!(step, RequestStep::Done(Ok(_))));
}

#[test]
fn a_request_needs_a_flow_before_a_connection() {
    let mut registry: Registry = ConnectionRegistry::new();
    let no_flow = || ScoutStreamScoutBoundMessage { flow_uuid: None, payload: None };
    assert!(matches!(
        registry.send_request(&machine("m1"), no_flow(), "asker"),
        RequestStep::Done(Err(CarbideError::Internal { .. }))
    ));
    assert!(matches!(
        registry.open_stream_flow(&machine("m1"), no_flow(), "viewer"),
        StreamStep::Failed(CarbideError::Internal { .. })
    ));
    let RequestStep::Done(Err(refused)) =
        registry.send_request(&machine("m1"), request(FLOW), "asker")
    else {
        panic!("m1 is not connected");
    };
    let StreamStep::Failed(refused_too) =
        registry.open_stream_flow(&machine("m1"), request(FLOW), "viewer")
    else {
        panic!("m1 is not connected");
    };
    assert_eq!(message_of(refused), "scout stream connection/m1");
    assert_eq!(message_of(refused_too), "scout stream connection/m1");
}

#[test]
fn a_stream_that_cannot_be_opened_leaves_no_trace() {
    let mut registry: Registry = ConnectionRegistry::new();
    let m1 = registry.register(machine("m1"), SystemTime::new(1, 0), "to m1");
    registry.send_request(&machine("m1"), request(1), "one");

    let step = registry.open_stream_flow(&machine("m1"), request(FLOW), "viewer");
    assert!(matches!(&step, StreamStep::Send(flow, _) if flow.connection == m1));
    assert_eq!(registry.stream_sender(m1, FLOW), Some(&"viewer"));
    assert!(matches!(registry.stream_sent(step, Ok(())), StreamStep::Opened(FLOW)));
    assert_eq!(registry.stream_sender(m1, FLOW), Some(&"viewer"));

    let step = registry.open_stream_flow(&machine("m1"), request(FLOW), "viewer");
    let StreamStep::Failed(error) =
        registry.stream_sent(step, Err("channel closed".to_string()))
    else {
        panic!("the request could not be sent");
    };
    assert_eq!(
        message_of(error),
        format!(
            "failed to send stream request to scout agent (machine_id=m1, flow_uuid={FLOW_TEXT}): channel closed"
        )
    );
    assert_eq!(registry.stream_sender(m1, FLOW), None);
    assert!(matches!(registry.route(m1, &response(1)), Delivery::Oneshot(1, "one")));
}

#[test]
fn a_machine_has_one_connection() {
    let mut registry: Registry = ConnectionRegistry::new();
    assert!(registry.can_register());
    assert!(!registry.is_connected(&machine("m1")));
    registry.register(machine("m1"), SystemTime::new(1, 0), "old");
    registry.register(machine("m2"), SystemTime::new(2, 0), "other");
    registry.register(machine("m1"), SystemTime::new(3, 0), "new");
    assert!(registry.is_connected(&machine("m1")));
    assert_eq!(registry.sender(&machine("m1")), Some(&"new"));
    assert_eq!(registry.sender(&machine("m2")), Some(&"other"));

    let mut list: Vec<(String, SystemTime)> = registry
        .list_connected()
        .iter()
        .map(|(id, at)| (id.to_string(), *at))
        .collect();
    list.sort_by(|a, b| a.0.cmp(&b.0));
    assert_eq!(
        list,
        vec![
            ("m1".to_string(), SystemTime::new(3, 0)),
            ("m2".to_string(), SystemTime::new(2, 0))
        ]
    );

    assert!(registry.unregister(&machine("m1")));
    assert!(!registry.unregister(&machine("m1")));
    assert!(!registry.is_connected(&machine("m1")));
    assert_eq!(registry.sender(&machine("m1")), None);
    assert!(registry.is_connected(&machine("m2")));
    assert!(registry.close_stream_flow(&machine("m1"), FLOW, request(FLOW)).is_none());
}

#[test]
fn a_machine_that_connects_again_starts_without_flows() {
    let mut registry: Registry = ConnectionRegistry::new();
    let old = registry.register(machine("m1"), SystemTime::new(1, 0), "old");
    let other = registry.register(machine("m2"), SystemTime::new(2, 0), "other");
    registry.open_stream_flow(&machine("m1"), request(FLOW), "viewer");
    registry.open_stream_flow(&machine("m2"), request(FLOW), "other viewer");

    let new = registry.register(machine("m1"), SystemTime::new(3, 0), "new");
    assert_ne!(old, new);
    assert_eq!(registry.stream_sender(new, FLOW), None);
    assert!(matches!(registry.route(new, &response(FLOW)), Delivery::Unknown(FLOW)));
    assert_eq!(registry.stream_sender(other, FLOW), Some(&"other viewer"));

    assert!(matches!(registry.route(old, &response(FLOW)), Delivery::Stream(FLOW)));
    assert_eq!(registry.stream_sender(old, FLOW), Some(&"viewer"));
    registry.handed_over(old, FLOW, Handover::Closed);
    assert_eq!(registry.stream_sender(old, FLOW), None);
}

#[test]
fn flows_last_as_long_as_something_reaches_them() {
    let mut registry: Registry = ConnectionRegistry::new();
    let connection = registry.register(machine("m1"), SystemTime::new(1, 0), "to m1");
    registry.send_request(&machine("m1"), request(1), "one");
    registry.open_stream_flow(&machine("m1"), request(2), "two");
    registry.release(connection);
    registry.unregister(&machine("m1"));
    assert_eq!(registry.stream_sender(connection, 2), Some(&"two"));
    registry.stop_routing(connection);
    assert_eq!(registry.stream_sender(connection, 2), Some(&"two"));
    registry.release(connection);
    assert_eq!(registry.stream_sender(connection, 2), None);
    assert!(matches!(registry.route(connection, &response(1)), Delivery::Unknown(1)));
    registry.release(connection);
    registry.stop_routing(connection);
    assert!(!registry.is_connected(&machine("m1")));
}

#[test]
fn closing_a_stream_takes_its_flow_and_no_other() {
    let mut registry: Registry = ConnectionRegistry::new();
    let m1 = registry.register(machine("m1"), SystemTime::new(1, 0), "to m1");
    registry.send_request(&machine("m1"), request(1), "one");
    registry.open_stream_flow(&machine("m1"), request(2), "two");
    registry.open_stream_flow(&machine("m1"), request(FLOW), "viewer");

    let stop = ScoutStreamScoutBoundMessage::from_flow(FLOW, ScoutBoundPayload::StopLogStreamRequest);
    let sent = registry.close_stream_flow(&machine("m1"), FLOW, stop).unwrap();
    assert_eq!(registry.sender(&machine("m1")), Some(&"to m1"));
    assert_eq!(sent.flow_uuid.unwrap().value, FLOW_TEXT);
    assert!(matches!(sent.payload, Some(ScoutBoundPayload::StopLogStreamRequest)));

    assert!(matches!(registry.route(m1, &response(FLOW)), Delivery::Unknown(FLOW)));
    assert_eq!(registry.stream_sender(m1, 2), Some(&"two"));
    assert!(matches!(registry.route(m1, &response(1)), Delivery::Oneshot(1, "one")));
    assert!(registry.is_connected(&machine("m1")));

    let stop = request(FLOW);
    assert!(registry.close_stream_flow(&machine("m2"), FLOW, stop).is_none());
}
