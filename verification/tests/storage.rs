use carbide_scout::db::{Bind, ConfigVersion, DatabaseError, Statement};
use carbide_scout::dpa_interface_state_history::{self as dpa, DpaInterfaceStateHistoryWriter};
use carbide_scout::ib_membership_cleanup_intent::{
    create, list_batch, read_batch, supersede_for_live_presence, superseded,
    IbMembershipCleanupIntent, PartitionKey, LIST_BATCH_SIZE,
};
use carbide_scout::ib_partition_state_history::{self as ib, IBPartitionStateHistory};
use carbide_scout::network_segment_state_history::{
    self as segment, NetworkSegmentStateHistoryWriter,
};

fn version() -> ConfigVersion {
    ConfigVersion { current: "V1-T0".to_string(), next: "V2-T9".to_string() }
}

fn shown(statement: &Statement) -> Vec<String> {
    statement
        .binds
        .iter()
        .map(|bind| match bind {
            Bind::Uuid(id) => format!("uuid {id}"),
            Bind::Text(text) => format!("text {text}"),
            Bind::Json(text) => format!("json {text}"),
            Bind::Integer(n) => format!("integer {n}"),
            Bind::BigInt(n) => format!("bigint {n}"),
            Bind::NullableText(text) => format!("text? {text:?}"),
            Bind::NullableInteger(n) => format!("integer? {n:?}"),
        })
        .collect()
}

fn intent(fabric: &str, pkey: u16, guid: &str) -> IbMembershipCleanupIntent {
    IbMembershipCleanupIntent {
        fabric: fabric.to_string(),
        pkey: PartitionKey::from_u16(pkey).expect("test PKey must be valid"),
        guid: guid.to_string(),
    }
}

#[test]
fn an_interface_is_stored_under_its_version() {
    let statement = DpaInterfaceStateHistoryWriter::persist(3, version(), "{}".to_string());
    assert_eq!(
        statement.query,
        "INSERT INTO dpa_interface_state_history (interface_id, state, state_version)
            VALUES ($1, $2, $3) RETURNING interface_id, state::TEXT, state_version, timestamp"
    );
    assert_eq!(shown(&statement), vec!["uuid 3", "json {}", "text V1-T0"]);
    let direct = dpa::persist(3, "{}".to_string(), "V7-T7".to_string());
    assert_eq!(shown(&direct), vec!["uuid 3", "json {}", "text V7-T7"]);
}

#[test]
fn a_partition_is_stored_under_the_next_version() {
    let statement = IBPartitionStateHistory::persist(4, version(), "{}".to_string());
    assert_eq!(
        statement.query,
        "INSERT INTO ib_partition_state_history (partition_id, state, state_version) VALUES ($1, $2, $3)"
    );
    assert_eq!(shown(&statement), vec!["uuid 4", "json {}", "text V2-T9"]);
    let direct = ib::persist(4, "{}".to_string(), "V7-T7".to_string());
    assert_eq!(shown(&direct), vec!["uuid 4", "json {}", "text V7-T7"]);
}

#[test]
fn a_segment_is_stored_under_its_version_and_read_in_order() {
    let statement = NetworkSegmentStateHistoryWriter::persist(5, version(), "{}".to_string());
    assert_eq!(
        statement.query,
        "INSERT INTO network_segment_state_history (segment_id, state, state_version)
            VALUES ($1, $2, $3)"
    );
    assert_eq!(shown(&statement), vec!["uuid 5", "json {}", "text V1-T0"]);
    let direct = segment::persist(5, "{}".to_string(), "V7-T7".to_string());
    assert_eq!(shown(&direct), vec!["uuid 5", "json {}", "text V7-T7"]);
    let read = segment::for_segment(5);
    assert_eq!(
        read.query,
        "SELECT id, segment_id, state::TEXT, state_version, timestamp
            FROM network_segment_state_history
            WHERE segment_id=$1
            ORDER BY ID asc"
    );
    assert_eq!(shown(&read), vec!["uuid 5"]);
}

#[test]
fn a_refused_statement_names_its_query() {
    let statement = segment::for_segment(5);
    match statement.failed("no such table".to_string()) {
        DatabaseError::Query { query, source } => {
            assert_eq!(query, statement.query);
            assert_eq!(source, "no such table");
        }
        DatabaseError::Internal { .. } => panic!("the database refused"),
    }
}

#[test]
fn a_partition_key_has_fifteen_bits() {
    for (number, valid) in [(0, true), (32767, true), (32768, false), (u16::MAX, false)] {
        let key = PartitionKey::from_u16(number);
        assert_eq!(key.is_some(), valid, "PKey: {number}");
        if let Some(key) = key {
            assert_eq!(key.to_u16(), number);
        }
    }
}

#[test]
fn a_membership_is_bound_by_its_three_values() {
    let values = vec!["text fabric-a", "integer 257", "text guid-a"];
    let statement = create(&intent("fabric-a", 0x101, "guid-a"));
    assert_eq!(
        statement.query,
        "INSERT INTO ib_membership_cleanup_intents (fabric, pkey, guid)
        VALUES ($1, $2, $3)
        ON CONFLICT (fabric, pkey, guid) DO NOTHING"
    );
    assert_eq!(shown(&statement), values);
    let statement = supersede_for_live_presence(&intent("fabric-a", 0x101, "guid-a"));
    assert_eq!(
        statement.query,
        "DELETE FROM ib_membership_cleanup_intents
        WHERE fabric = $1 AND pkey = $2 AND guid = $3"
    );
    assert_eq!(shown(&statement), values);
    assert!(superseded(1));
    assert!(!superseded(0));
    assert!(!superseded(2));
}

#[test]
fn a_batch_begins_after_the_last_membership() {
    assert_eq!(LIST_BATCH_SIZE, 100);
    let first = list_batch(None);
    assert_eq!(
        first.query,
        "SELECT fabric, pkey, guid
        FROM ib_membership_cleanup_intents
        WHERE $1::text IS NULL
           OR (fabric, pkey, guid) > ($1::text, $2::integer, $3::text)
        ORDER BY fabric, pkey, guid
        LIMIT $4"
    );
    assert_eq!(
        shown(&first),
        vec!["text? None", "integer? None", "text? None", "bigint 100"]
    );
    let second = list_batch(Some(&intent("fabric-a", 0x101, "guid-a")));
    assert_eq!(second.query, first.query);
    assert_eq!(
        shown(&second),
        vec![
            "text? Some(\"fabric-a\")",
            "integer? Some(257)",
            "text? Some(\"guid-a\")",
            "bigint 100"
        ]
    );
}

#[test]
fn a_stored_membership_reads_back() {
    let row = |pkey: i32| ("fabric-a".to_string(), pkey, format!("guid-{pkey}"));
    let read = read_batch(vec![row(0x101), row(0), row(32767)]);
    match read {
        Ok(intents) => assert_eq!(
            intents,
            vec![
                intent("fabric-a", 0x101, "guid-257"),
                intent("fabric-a", 0, "guid-0"),
                intent("fabric-a", 32767, "guid-32767"),
            ]
        ),
        Err(_) => panic!("every row is valid"),
    }
}

#[test]
fn a_row_without_a_key_is_an_error() {
    let row = |pkey: i32| ("fabric-a".to_string(), pkey, "guid-a".to_string());
    for (rows, named) in [
        (vec![row(1), row(-1), row(32768)], "-1"),
        (vec![row(32768)], "32768"),
        (vec![row(i32::MAX)], "2147483647"),
        (vec![row(65537)], "65537"),
    ] {
        match read_batch(rows) {
            Err(DatabaseError::Internal { message }) => assert_eq!(
                message,
                format!("ib_membership_cleanup_intents contains invalid pkey {named}")
            ),
            _ => panic!("the row is invalid"),
        }
    }
}

#[test]
fn memberships_that_differ_are_stored_apart() {
    let exact = shown(&create(&intent("fabric-a", 0x101, "guid-a")));
    for other in [
        intent("fabric-b", 0x101, "guid-a"),
        intent("fabric-a", 0x102, "guid-a"),
        intent("fabric-a", 0x101, "guid-b"),
    ] {
        assert_ne!(shown(&supersede_for_live_presence(&other)), exact);
    }
}
