use aes67_rs::discovery::{session_topic, Session};
use aes67_rs::sdp::{Origin, SessionDescription};
use aes67_rs::time::Timestamp;
use std::cmp::Ordering;

fn session(id: u64, version: u64, seconds: u64, nanos: u32) -> Session {
    Session {
        description: SessionDescription {
            origin: Origin { session_id: id, session_version: version, unicast_address: "192.168.1.10".to_owned() },
            session_name: "stream".to_owned(),
            session_information: None,
            connection_information: None,
            media_descriptions: vec![],
        },
        timestamp: Timestamp { seconds, nanos },
    }
}

#[test]
fn newer_sessions_come_first() {
    let old = session(1, 1, 100, 0);
    let new = session(2, 1, 100, 5);
    assert_eq!(new.partial_cmp(&old), Some(Ordering::Less));
    assert_eq!(old.partial_cmp(&new), Some(Ordering::Greater));
    assert!(new < old);
    let mut list = vec![session(3, 1, 50, 0), new.clone(), old.clone()];
    list.sort_by(|a, b| a.partial_cmp(b).unwrap());
    let ids: Vec<u64> = list.iter().map(|s| s.description.origin.session_id).collect();
    assert_eq!(ids, vec![2, 1, 3]);
}

#[test]
fn sessions_found_at_the_same_time_tie() {
    let a = session(1, 1, 7, 7);
    let b = session(2, 3, 7, 7);
    assert_eq!(a.partial_cmp(&b), Some(Ordering::Equal));
    assert!(a != b);
}

#[test]
fn equality_is_by_id_version_and_time() {
    let a = session(1, 1, 7, 7);
    let mut b = session(1, 1, 7, 7);
    b.description.session_name = "other".to_owned();
    assert!(a == b);
    assert!(a != session(1, 2, 7, 7));
    assert!(a != session(1, 1, 7, 8));
}

#[test]
fn announcement_topic() {
    assert_eq!(session_topic("192.168.1.10", 4711), "discovery/sap/192.168.1.10/4711");
    assert_eq!(session_topic("::1", 0), "discovery/sap/::1/0");
}
