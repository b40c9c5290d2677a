use room_relay::broadcast::broadcast_targets;
use room_relay::broadcast::collect_acks;
use room_relay::broadcast::AckFailure;
use room_relay::broadcast::AckOutcome;
use room_relay::lifecycle::on_connect;
use room_relay::lifecycle::on_disconnect_request;
use room_relay::lifecycle::Connection;
use room_relay::lifecycle::ConnectAction;
use room_relay::lifecycle::DisconnectAction;
use room_relay::payload::extract_room_id;
use room_relay::payload::PayloadValue;
use room_relay::query::query_and_notify;
use room_relay::registry::RoomRegistry;

fn empty_registry() -> RoomRegistry {
    RoomRegistry { rooms: Vec::new() }
}

fn doc_with_room(room: &str) -> PayloadValue {
    PayloadValue::Document(vec![(
        PayloadValue::Text("room_id".to_string()),
        PayloadValue::Text(room.to_string()),
    )])
}

#[test]
fn join_makes_member_and_count_positive() {
    let mut reg = empty_registry();
    let room = "lobby".to_string();
    reg.join(7, &room);
    let members = reg.members_of(&room);
    assert!(members.contains(&7));
    assert!(reg.count(&room) >= 1);
    assert_eq!(reg.count(&room), 1);
}

#[test]
fn join_is_idempotent() {
    let mut reg = empty_registry();
    let room = "lobby".to_string();
    reg.join(7, &room);
    let before = reg.members_of(&room);
    reg.join(7, &room);
    let after = reg.members_of(&room);
    assert_eq!(before.len(), after.len());
    assert_eq!(after.len(), 1);
    assert!(after.contains(&7));
}

#[test]
fn join_leaves_other_rooms_alone() {
    let mut reg = empty_registry();
    let red = "red".to_string();
    let blue = "blue".to_string();
    reg.join(1, &red);
    reg.join(2, &blue);
    assert_eq!(reg.count(&red), 1);
    assert_eq!(reg.count(&blue), 1);
    assert!(reg.members_of(&red).contains(&1));
    assert!(!reg.members_of(&red).contains(&2));
}

#[test]
fn leave_removes_member() {
    let mut reg = empty_registry();
    let room = "lobby".to_string();
    reg.join(7, &room);
    reg.join(8, &room);
    reg.leave(7, &room);
    let members = reg.members_of(&room);
    assert!(!members.contains(&7));
    assert!(members.contains(&8));
    assert_eq!(reg.count(&room), 1);
}

#[test]
fn leave_of_non_member_is_noop() {
    let mut reg = empty_registry();
    let room = "lobby".to_string();
    reg.join(7, &room);
    reg.leave(99, &room);
    assert_eq!(reg.count(&room), 1);
    let ghost_room = "nowhere".to_string();
    reg.leave(7, &ghost_room);
    assert_eq!(reg.count(&room), 1);
    assert_eq!(reg.count(&ghost_room), 0);
}

#[test]
fn left_member_never_broadcast_to() {
    let mut reg = empty_registry();
    let room = "lobby".to_string();
    reg.join(1, &room);
    reg.join(2, &room);
    reg.join(3, &room);
    reg.leave(2, &room);
    let targets = broadcast_targets(&reg, 1, &room);
    assert!(!targets.contains(&2));
    assert!(targets.contains(&3));
    assert_eq!(targets.len(), 1);
}

#[test]
fn remove_all_clears_every_room() {
    let mut reg = empty_registry();
    let red = "red".to_string();
    let blue = "blue".to_string();
    reg.join(5, &red);
    reg.join(5, &blue);
    reg.join(6, &blue);
    reg.remove_all(5);
    assert!(!reg.members_of(&red).contains(&5));
    assert!(!reg.members_of(&blue).contains(&5));
    assert_eq!(reg.count(&red), 0);
    assert_eq!(reg.count(&blue), 1);
    let targets = broadcast_targets(&reg, 6, &blue);
    assert!(targets.is_empty());
}

#[test]
fn broadcast_reaches_exactly_the_others() {
    let mut reg = empty_registry();
    let room = "lobby".to_string();
    reg.join(10, &room);
    reg.join(11, &room);
    reg.join(12, &room);
    let targets = broadcast_targets(&reg, 10, &room);
    assert_eq!(targets.len(), 2);
    assert!(targets.contains(&11));
    assert!(targets.contains(&12));
    assert!(!targets.contains(&10));
}

#[test]
fn broadcast_with_no_other_members_is_empty_success() {
    let mut reg = empty_registry();
    let room = "solo".to_string();
    reg.join(10, &room);
    let targets = broadcast_targets(&reg, 10, &room);
    assert!(targets.is_empty());
    let acks: Vec<(u64, AckOutcome)> = Vec::new();
    let summary = collect_acks(&acks);
    assert_eq!(summary.replies, 0);
    assert_eq!(summary.failures, 0);
}

#[test]
fn broadcast_into_absent_room_is_empty() {
    let reg = empty_registry();
    let room = "nowhere".to_string();
    let targets = broadcast_targets(&reg, 1, &room);
    assert!(targets.is_empty());
}

#[test]
fn ack_collection_accounts_for_every_outcome() {
    let acks: Vec<(u64, AckOutcome)> = vec![
        (11, AckOutcome::Reply("ok".to_string())),
        (12, AckOutcome::Failure(AckFailure::RecipientGone)),
        (13, AckOutcome::Reply("fine".to_string())),
        (14, AckOutcome::Failure(AckFailure::Transport)),
        (15, AckOutcome::Failure(AckFailure::Protocol)),
    ];
    let summary = collect_acks(&acks);
    assert_eq!(summary.replies, 2);
    assert_eq!(summary.failures, 3);
}

#[test]
fn query_counts_three_live_members() {
    let mut reg = empty_registry();
    let room = "busy".to_string();
    reg.join(1, &room);
    reg.join(2, &room);
    reg.join(3, &room);
    let q = query_and_notify(&reg, &room);
    assert_eq!(q.response.room_count, 3);
    assert_eq!(q.response.room_id_val, "busy");
    assert_eq!(q.pushed_count, 3);
    assert_eq!(q.notify.len(), 3);
    assert!(q.notify.contains(&1));
    assert!(q.notify.contains(&2));
    assert!(q.notify.contains(&3));
}

#[test]
fn query_of_empty_room_reports_zero_but_pushes_one() {
    let reg = empty_registry();
    let room = "void".to_string();
    let q = query_and_notify(&reg, &room);
    assert_eq!(q.response.room_count, 0);
    assert_eq!(q.pushed_count, 1);
    assert!(q.notify.is_empty());
}

#[test]
fn connect_with_room_joins_and_notifies_the_others() {
    let mut reg = empty_registry();
    let room = "lobby".to_string();
    reg.join(1, &room);
    reg.join(2, &room);
    let mut conn = Connection::new(3);
    let outcome = on_connect(&mut reg, &mut conn, &doc_with_room("lobby"));
    assert!(outcome.greet);
    match outcome.action {
        ConnectAction::Joined { room: joined, notify } => {
            assert_eq!(joined, "lobby");
            assert_eq!(notify.len(), 2);
            assert!(notify.contains(&1));
            assert!(notify.contains(&2));
            assert!(!notify.contains(&3));
        }
        _ => panic!("expected a join"),
    }
    assert_eq!(reg.count(&room), 3);
    assert!(reg.members_of(&room).contains(&3));
    assert_eq!(conn.rooms, vec!["lobby".to_string()]);
}

#[test]
fn connect_into_empty_room_notifies_nobody() {
    let mut reg = empty_registry();
    let mut conn = Connection::new(1);
    let outcome = on_connect(&mut reg, &mut conn, &doc_with_room("fresh"));
    match outcome.action {
        ConnectAction::Joined { room: joined, notify } => {
            assert_eq!(joined, "fresh");
            assert!(notify.is_empty());
        }
        _ => panic!("expected a join"),
    }
    assert_eq!(reg.count(&"fresh".to_string()), 1);
}

#[test]
fn connect_with_document_without_room_field_joins_nothing() {
    let mut reg = empty_registry();
    let mut conn = Connection::new(1);
    let payload = PayloadValue::Document(vec![(
        PayloadValue::Text("color".to_string()),
        PayloadValue::Text("green".to_string()),
    )]);
    let outcome = on_connect(&mut reg, &mut conn, &payload);
    assert!(outcome.greet);
    assert!(matches!(outcome.action, ConnectAction::NoRoom));
    assert!(conn.rooms.is_empty());
    assert!(reg.rooms.is_empty());
}

#[test]
fn malformed_connect_payload_greets_but_joins_nothing() {
    let mut reg = empty_registry();
    let mut conn = Connection::new(1);
    let payload = PayloadValue::Text("just a string".to_string());
    let outcome = on_connect(&mut reg, &mut conn, &payload);
    assert!(outcome.greet);
    assert!(matches!(outcome.action, ConnectAction::MalformedPayload));
    assert!(conn.rooms.is_empty());
    assert!(reg.rooms.is_empty());
}

#[test]
fn disconnect_request_with_room_removes_only_that_member() {
    let mut reg = empty_registry();
    let room = "lobby".to_string();
    reg.join(1, &room);
    reg.join(2, &room);
    let conn = Connection { id: 1, rooms: vec!["lobby".to_string()] };
    let action = on_disconnect_request(&mut reg, &conn, &doc_with_room("lobby"));
    match action {
        DisconnectAction::ForcedLeave { room: left } => assert_eq!(left, "lobby"),
        _ => panic!("expected a forced leave"),
    }
    assert!(!reg.members_of(&room).contains(&1));
    assert!(reg.members_of(&room).contains(&2));
    let targets = broadcast_targets(&reg, 2, &room);
    assert!(!targets.contains(&1));
}

#[test]
fn disconnect_request_without_room_field_is_ignored() {
    let mut reg = empty_registry();
    let room = "lobby".to_string();
    reg.join(1, &room);
    let conn = Connection { id: 1, rooms: vec!["lobby".to_string()] };
    let payload = PayloadValue::Document(Vec::new());
    let action = on_disconnect_request(&mut reg, &conn, &payload);
    assert!(matches!(action, DisconnectAction::Ignored));
    assert!(reg.members_of(&room).contains(&1));
}

#[test]
fn malformed_disconnect_payload_leaves_connection_connected() {
    let mut reg = empty_registry();
    let room = "lobby".to_string();
    reg.join(1, &room);
    let conn = Connection { id: 1, rooms: vec!["lobby".to_string()] };
    let payload = PayloadValue::Text("oops".to_string());
    let action = on_disconnect_request(&mut reg, &conn, &payload);
    assert!(matches!(action, DisconnectAction::MalformedPayload));
    assert!(reg.members_of(&room).contains(&1));
    assert_eq!(reg.count(&room), 1);
}

#[test]
fn extract_room_id_reads_the_contract_field() {
    let payload = doc_with_room("alpha");
    assert_eq!(extract_room_id(&payload), Some("alpha".to_string()));
}

#[test]
fn extract_room_id_skips_entries_of_other_shapes() {
    let payload = PayloadValue::Document(vec![
        (PayloadValue::Other, PayloadValue::Text("x".to_string())),
        (
            PayloadValue::Text("room_id".to_string()),
            PayloadValue::Other,
        ),
        (
            PayloadValue::Text("room_id".to_string()),
            PayloadValue::Text("beta".to_string()),
        ),
    ]);
    assert_eq!(extract_room_id(&payload), Some("beta".to_string()));
}

#[test]
fn extract_room_id_absent_or_malformed_is_none() {
    assert_eq!(extract_room_id(&PayloadValue::Other), None);
    assert_eq!(
        extract_room_id(&PayloadValue::Text("room_id".to_string())),
        None
    );
    assert_eq!(
        extract_room_id(&PayloadValue::Document(Vec::new())),
        None
    );
    let wrong_key = PayloadValue::Document(vec![(
        PayloadValue::Text("user_id".to_string()),
        PayloadValue::Text("gamma".to_string()),
    )]);
    assert_eq!(extract_room_id(&wrong_key), None);
}
