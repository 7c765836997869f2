//! Sessions found by SAP discovery, and the order in which they are listed.

use crate::sdp::SessionDescription;
use crate::text::{push_decimal, push_str};
use crate::time::Timestamp;
use core::cmp::Ordering;
use vstd::prelude::*;
use vstd::std_specs::cmp::PartialEqSpecImpl;
use vstd::std_specs::cmp::PartialOrdSpecImpl;

verus! {

/// A session description as it was announced, and when it was found.
#[derive(Debug, Clone)]
pub struct Session {
    pub description: SessionDescription,
    pub timestamp: Timestamp,
}

/// Timestamps compared by seconds, then nanoseconds.
pub open spec fn timestamp_order(a: Timestamp, b: Timestamp) -> Ordering {
    if a.seconds < b.seconds {
        Ordering::Less
    } else if a.seconds > b.seconds {
        Ordering::Greater
    } else if a.nanos < b.nanos {
        Ordering::Less
    } else if a.nanos > b.nanos {
        Ordering::Greater
    } else {
        Ordering::Equal
    }
}

/// Two sessions are the same announcement found at the same time: same session id, same
/// session version, same timestamp.
pub open spec fn same_session(a: Session, b: Session) -> bool {
    &&& a.description.origin.session_id == b.description.origin.session_id
    &&& a.description.origin.session_version == b.description.origin.session_version
    &&& a.timestamp == b.timestamp
}

/// Sessions are listed newest first: a session comes before another when it was found
/// later.
pub open spec fn session_order(a: Session, b: Session) -> Ordering {
    timestamp_order(b.timestamp, a.timestamp)
}

fn compare_timestamps(a: &Timestamp, b: &Timestamp) -> (r: Ordering)
    ensures
        r == timestamp_order(*a, *b),
{
    if a.seconds < b.seconds {
        Ordering::Less
    } else if a.seconds > b.seconds {
        Ordering::Greater
    } else if a.nanos < b.nanos {
        Ordering::Less
    } else if a.nanos > b.nanos {
        Ordering::Greater
    } else {
        Ordering::Equal
    }
}

impl PartialEq for Session {
    fn eq(&self, other: &Self) -> (r: bool) {
        self.description.origin.session_id == other.description.origin.session_id
            && self.description.origin.session_version == other.description.origin.session_version
            && self.timestamp.seconds == other.timestamp.seconds
            && self.timestamp.nanos == other.timestamp.nanos
    }
}

impl PartialEqSpecImpl for Session {
    open spec fn obeys_eq_spec() -> bool {
        true
    }

    open spec fn eq_spec(&self, other: &Session) -> bool {
        same_session(*self, *other)
    }
}

impl Eq for Session {

}

impl PartialOrd for Session {
    fn partial_cmp(&self, other: &Self) -> (r: Option<Ordering>) {
        Some(compare_timestamps(&other.timestamp, &self.timestamp))
    }
}

impl PartialOrdSpecImpl for Session {
    open spec fn obeys_partial_cmp_spec() -> bool {
        true
    }

    open spec fn partial_cmp_spec(&self, other: &Session) -> Option<Ordering> {
        Some(session_order(*self, *other))
    }
}

/// The ordering of sessions is a total order on their timestamps, reversed: it is
/// antisymmetric, a later timestamp comes first, and sessions found at the same time are
/// tied.
pub proof fn lemma_session_order(a: Session, b: Session)
    ensures
        session_order(a, b) == Ordering::Less <==> session_order(b, a) == Ordering::Greater,
        session_order(a, b) == Ordering::Equal <==> a.timestamp == b.timestamp,
        session_order(a, b) == Ordering::Less <==> (b.timestamp.seconds < a.timestamp.seconds || (
        b.timestamp.seconds == a.timestamp.seconds && b.timestamp.nanos < a.timestamp.nanos)),
{
}

/// The ordering of sessions is transitive.
pub proof fn lemma_session_order_transitive(a: Session, b: Session, c: Session)
    requires
        session_order(a, b) == Ordering::Less,
        session_order(b, c) == Ordering::Less,
    ensures
        session_order(a, c) == Ordering::Less,
{
}

/// The key under which a session announced by `source` with message id hash
/// `msg_id_hash` is published: `discovery/sap/<source>/<hash>`.
pub fn session_topic(source: &str, msg_id_hash: u16) -> (r: String)
    ensures
        r@ == "discovery/sap/"@ + source@ + "/"@ + crate::text::decimal_digits(msg_id_hash as nat),
{
    let mut key = String::new();
    push_str(&mut key, "discovery/sap/");
    push_str(&mut key, source);
    push_str(&mut key, "/");
    push_decimal(&mut key, msg_id_hash as u64);
    assert(key@ =~= "discovery/sap/"@ + source@ + "/"@ + crate::text::decimal_digits(
        msg_id_hash as nat,
    ));
    key
}

} // verus!
