use std::cell::RefCell;
use std::rc::Rc;

use datachannel::{
    decode_message, DataChannel, Event, MakeDataChannel, RtcDataChannel, SendError, Session,
};

#[derive(Default)]
struct Record {
    opens: usize,
    closes: usize,
    errors: Vec<String>,
    messages: Vec<Vec<u8>>,
}

struct Recorder {
    rec: Rc<RefCell<Record>>,
}

impl Recorder {
    fn new() -> (Recorder, Rc<RefCell<Record>>) {
        let rec = Rc::new(RefCell::new(Record::default()));
        (Recorder { rec: rec.clone() }, rec)
    }
}

impl DataChannel for Recorder {
    fn on_open(&mut self) {
        self.rec.borrow_mut().opens += 1;
    }

    fn on_closed(&mut self) {
        self.rec.borrow_mut().closes += 1;
    }

    fn on_error(&mut self, err: &str) {
        self.rec.borrow_mut().errors.push(err.to_string());
    }

    fn on_message(&mut self, msg: &[u8]) {
        self.rec.borrow_mut().messages.push(msg.to_vec());
    }
}

struct RecorderFactory {
    made: Rc<RefCell<usize>>,
    rec: Rc<RefCell<Record>>,
}

impl MakeDataChannel<Recorder> for RecorderFactory {
    fn make(&self) -> Recorder {
        *self.made.borrow_mut() += 1;
        Recorder { rec: self.rec.clone() }
    }
}

#[test]
fn identifiers_are_unique() {
    let mut session: Session<Recorder> = Session::new();
    let mut ids = Vec::new();
    for _ in 0..8 {
        let (handler, _) = Recorder::new();
        ids.push(session.create(b"ch".to_vec(), handler));
    }
    // delete some, create more: fresh identifiers never collide
    assert!(session.delete(ids[2]));
    assert!(session.delete(ids[5]));
    for _ in 0..4 {
        let (handler, _) = Recorder::new();
        ids.push(session.create(b"ch".to_vec(), handler));
    }
    for i in 0..ids.len() {
        for j in 0..i {
            assert_ne!(ids[i], ids[j]);
        }
    }
}

#[test]
fn events_route_to_the_targeted_channel_only() {
    let mut session: Session<Recorder> = Session::new();
    let (h1, r1) = Recorder::new();
    let (h2, r2) = Recorder::new();
    let id1 = session.create(b"one".to_vec(), h1);
    let id2 = session.create(b"two".to_vec(), h2);

    assert!(session.dispatch(id1, Event::Open));
    assert!(session.dispatch(id2, Event::Open));
    assert!(session.dispatch(id2, Event::Message(vec![1, 2, 3])));
    assert!(session.dispatch(id1, Event::Error(String::from("oops"))));
    assert!(session.dispatch(id2, Event::Closed));

    let r1 = r1.borrow();
    let r2 = r2.borrow();
    assert_eq!(r1.opens, 1);
    assert_eq!(r1.closes, 0);
    assert_eq!(r1.errors, vec![String::from("oops")]);
    assert_eq!(r1.messages, Vec::<Vec<u8>>::new());
    assert_eq!(r2.opens, 1);
    assert_eq!(r2.closes, 1);
    assert_eq!(r2.errors, Vec::<String>::new());
    assert_eq!(r2.messages, vec![vec![1, 2, 3]]);
}

#[test]
fn message_framing_reaches_handler_exactly() {
    let mut session: Session<Recorder> = Session::new();
    let (handler, rec) = Recorder::new();
    let id = session.create(b"data".to_vec(), handler);

    // binary: explicit length, embedded zero byte preserved
    let wire: Vec<u8> = vec![0, 255, 16];
    let payload = decode_message(&wire, 3);
    assert!(session.dispatch(id, Event::Message(payload)));

    // text sentinel: negative length, terminator excluded
    let wire: Vec<u8> = b"hello\0".to_vec();
    let payload = decode_message(&wire, -1);
    assert!(session.dispatch(id, Event::Message(payload)));

    let rec = rec.borrow();
    assert_eq!(rec.messages, vec![vec![0, 255, 16], b"hello".to_vec()]);
}

#[test]
fn teardown_is_final() {
    let mut session: Session<Recorder> = Session::new();
    let (handler, rec) = Recorder::new();
    let id = session.create(b"gone".to_vec(), handler);
    assert!(session.contains(id));
    assert!(session.delete(id));
    assert!(!session.contains(id));
    // no further callback fires for the identifier
    assert!(!session.dispatch(id, Event::Open));
    assert!(!session.dispatch(id, Event::Message(vec![1])));
    let rec = rec.borrow();
    assert_eq!(rec.opens, 0);
    assert_eq!(rec.messages, Vec::<Vec<u8>>::new());
    // deleting again reports that nothing was live
    assert!(!session.delete(id));
}

#[test]
fn send_round_trips_binary_bytes() {
    let mut channel = RtcDataChannel::new(3, b"bin".to_vec(), Recorder::new().0);
    let frame = channel.send(&[0x00, 0xFF, 0x10]).unwrap();
    assert_eq!(frame.bytes, vec![0x00, 0xFF, 0x10]);
    assert_eq!(frame.len, 3);
    // what the collaborator receives decodes back to the same three bytes
    assert_eq!(decode_message(&frame.bytes, frame.len), vec![0x00, 0xFF, 0x10]);
}

#[test]
fn session_send_checks_liveness() {
    let mut session: Session<Recorder> = Session::new();
    let (handler, _) = Recorder::new();
    let id = session.create(b"out".to_vec(), handler);
    let frame = session.send(id, &[7, 0, 9]).unwrap();
    assert_eq!(frame.bytes, vec![7, 0, 9]);
    assert_eq!(frame.len, 3);
    assert!(session.delete(id));
    assert_eq!(session.send(id, &[7, 0, 9]).unwrap_err(), SendError::ChannelClosed);
}

#[test]
fn create_and_delete_balance() {
    let mut session: Session<Recorder> = Session::new();
    assert_eq!(session.created_calls(), 0);
    assert_eq!(session.deleted_calls(), 0);
    let (handler, rec) = Recorder::new();
    let id = session.create(b"owned".to_vec(), handler);
    assert_eq!(session.created_calls(), 1);
    assert_eq!(session.live_count(), 1);
    // drop the channel without any callback having fired
    assert!(session.delete(id));
    assert_eq!(session.created_calls(), 1);
    assert_eq!(session.deleted_calls(), 1);
    assert_eq!(session.live_count(), 0);
    // the handler was released without ever being invoked
    assert_eq!(Rc::strong_count(&rec), 1);
    let rec = rec.borrow();
    assert_eq!(rec.opens + rec.closes + rec.errors.len() + rec.messages.len(), 0);
}

#[test]
fn accept_attaches_a_fresh_handler() {
    let mut session: Session<Recorder> = Session::new();
    let made = Rc::new(RefCell::new(0));
    let rec = Rc::new(RefCell::new(Record::default()));
    let factory = RecorderFactory { made: made.clone(), rec: rec.clone() };
    let id = session.accept(b"remote".to_vec(), &factory);
    assert_eq!(*made.borrow(), 1);
    assert!(session.dispatch(id, Event::Open));
    assert_eq!(rec.borrow().opens, 1);
}

#[test]
fn channel_dispatch_calls_matching_hook() {
    let (handler, rec) = Recorder::new();
    let mut channel = RtcDataChannel::new(11, b"direct".to_vec(), handler);
    assert_eq!(channel.id(), 11);
    channel.handle_event(Event::Open);
    channel.handle_event(Event::Message(b"payload".to_vec()));
    channel.handle_event(Event::Error(String::from("bad")));
    channel.handle_event(Event::Closed);
    let rec = rec.borrow();
    assert_eq!(rec.opens, 1);
    assert_eq!(rec.closes, 1);
    assert_eq!(rec.errors, vec![String::from("bad")]);
    assert_eq!(rec.messages, vec![b"payload".to_vec()]);
}

struct Silent;

impl DataChannel for Silent {
}

#[test]
fn default_hooks_are_no_ops() {
    let mut channel = RtcDataChannel::new(0, b"quiet".to_vec(), Silent);
    channel.handle_event(Event::Open);
    channel.handle_event(Event::Message(vec![1, 2]));
    channel.handle_event(Event::Error(String::from("ignored")));
    channel.handle_event(Event::Closed);
}
