use std::cell::RefCell;
use std::rc::Rc;
use wavcast::frame::{frame_header, frame_length, MAX_FRAME_SIZE};
use wavcast::server::{broadcast_to, greet, FrameSink, Greeting, Peer, PeerSet};

/// An in-memory connection: the bytes written to it, and whether it is closed.
#[derive(Clone, Default)]
struct Wire {
    bytes: Rc<RefCell<Vec<u8>>>,
    closed: Rc<RefCell<bool>>,
}

impl FrameSink for Wire {
    fn write_frame(&mut self, payload: &[u8]) -> bool {
        if *self.closed.borrow() {
            return false;
        }
        let header = frame_header(payload.len()).unwrap();
        let mut bytes = self.bytes.borrow_mut();
        bytes.extend_from_slice(&header);
        bytes.extend_from_slice(payload);
        true
    }
}

/// Reads the next frame from `wire`, starting at `*pos`.
fn receive(wire: &Wire, pos: &mut usize) -> Vec<u8> {
    let bytes = wire.bytes.borrow();
    let header = [bytes[*pos], bytes[*pos + 1], bytes[*pos + 2], bytes[*pos + 3]];
    let n = frame_length(header, MAX_FRAME_SIZE).unwrap();
    let payload = bytes[*pos + 4..*pos + 4 + n].to_vec();
    *pos += 4 + n;
    payload
}

fn broadcast(set: &mut PeerSet<Wire>, data: &[u8]) {
    let peers = set.take_all();
    let outcome = broadcast_to(peers, data);
    set.restore(outcome.survivors);
}

fn accept(set: &mut PeerSet<Wire>, greeting: &Greeting, wire: Wire) -> bool {
    let mut peer = Peer::new(wire);
    let g = greeting.for_new_peer();
    if !greet(&mut peer, &g) {
        return false;
    }
    set.insert(peer);
    true
}

#[test]
fn broadcast_test() {
    let mut set = PeerSet::new();
    let greeting = Greeting::new();
    let wire = Wire::default();
    assert!(accept(&mut set, &greeting, wire.clone()));
    assert_eq!(set.len(), 1);
    let data = vec![1, 2, 3, 4, 5];
    broadcast(&mut set, &data);
    let mut pos = 0;
    let buffer = receive(&wire, &mut pos);
    assert_eq!(buffer.len(), data.len());
    assert_eq!(buffer, data);
    assert_eq!(pos, wire.bytes.borrow().len());
}

#[test]
fn new_client_message_test() {
    let mut set = PeerSet::new();
    let mut greeting = Greeting::new();
    let new_client_message = vec![10, 20, 30, 40, 50];
    greeting.set(&new_client_message);
    let wire = Wire::default();
    assert!(accept(&mut set, &greeting, wire.clone()));
    let mut pos = 0;
    let buffer = receive(&wire, &mut pos);
    assert_eq!(buffer.len(), new_client_message.len());
    assert_eq!(buffer, new_client_message);
    assert_eq!(set.len(), 1);
}

#[test]
fn greeting_precedes_broadcast() {
    let mut set = PeerSet::new();
    let mut greeting = Greeting::new();
    greeting.set(&[10, 20, 30, 40, 50]);
    let wire = Wire::default();
    assert!(accept(&mut set, &greeting, wire.clone()));
    broadcast(&mut set, &[1, 2, 3]);
    let mut pos = 0;
    assert_eq!(receive(&wire, &mut pos), vec![10, 20, 30, 40, 50]);
    assert_eq!(receive(&wire, &mut pos), vec![1, 2, 3]);
    assert_eq!(set.len(), 1);
}

#[test]
fn greeting_is_replaced_not_appended() {
    let mut greeting = Greeting::new();
    assert_eq!(greeting.for_new_peer(), None);
    greeting.set(&[1, 2]);
    greeting.set(&[3]);
    assert_eq!(greeting.for_new_peer(), Some(vec![3]));
}

#[test]
fn peer_dropped_on_write_failure() {
    let mut set = PeerSet::new();
    let greeting = Greeting::new();
    let a = Wire::default();
    let b = Wire::default();
    assert!(accept(&mut set, &greeting, a.clone()));
    assert!(accept(&mut set, &greeting, b.clone()));
    assert_eq!(set.len(), 2);
    *b.closed.borrow_mut() = true;
    broadcast(&mut set, &[9]);
    assert_eq!(set.len(), 1);
    let mut pos = 0;
    assert_eq!(receive(&a, &mut pos), vec![9]);
    assert!(b.bytes.borrow().is_empty());
}

#[test]
fn broadcast_reports_each_peer() {
    let a = Wire::default();
    let b = Wire::default();
    *a.closed.borrow_mut() = true;
    let peers = vec![Peer::new(a), Peer::new(b.clone())];
    let outcome = broadcast_to(peers, &[4, 2]);
    assert_eq!(outcome.delivered, vec![false, true]);
    assert_eq!(outcome.survivors.len(), 1);
    assert_eq!(outcome.dropped.len(), 1);
    let mut pos = 0;
    assert_eq!(receive(&b, &mut pos), vec![4, 2]);
}

#[test]
fn failed_greeting_keeps_peer_out() {
    let mut set = PeerSet::new();
    let mut greeting = Greeting::new();
    greeting.set(&[1]);
    let wire = Wire::default();
    *wire.closed.borrow_mut() = true;
    assert!(!accept(&mut set, &greeting, wire));
    assert_eq!(set.len(), 0);
}
