use zeroai::db::{sort_by_index, StoredMessage, Timestamp};

fn msg(i: u64) -> StoredMessage {
    StoredMessage { session_id: "s".into(), index: i, role: "user".into(), content: format!("m{}", i), timestamp: Timestamp { secs: 0, nanos: 0 } }
}

#[test]
fn messages_come_back_in_position_order() {
    let sorted = sort_by_index(vec![msg(3), msg(0), msg(2), msg(1)]);
    let idx: Vec<u64> = sorted.iter().map(|m| m.index).collect();
    assert_eq!(idx, vec![0, 1, 2, 3]);
    assert!(sort_by_index(vec![]).is_empty());
}
