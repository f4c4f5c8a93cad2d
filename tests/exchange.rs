use tryteex::connection::{Action, Exchange, Status};
use tryteex::dispatch::Pool;
use tryteex::fastcgi::{BeginRequest, ContentData, Header, HeaderType, Record, Role};
use tryteex::queue::Queue;

fn rec(t: HeaderType, data: ContentData) -> Record {
    Record {
        header: Header { version: 1, header_type: t, request_id: 1, content_length: 0, padding_length: 0, reserved: 0 },
        data,
    }
}

fn begin(flags: u8) -> Record {
    rec(HeaderType::BeginRequest, ContentData::BeginRequest(BeginRequest { role: Role::Responder, flags, reserved: [0; 5] }))
}

fn params(ps: &[(&str, &str)]) -> Record {
    let v = ps.iter().map(|(k, v)| (k.as_bytes().to_vec(), v.as_bytes().to_vec())).collect();
    rec(HeaderType::Params, ContentData::Param(v))
}

#[test]
fn records_in_order_reach_dispatch() {
    let mut ex = Exchange::new();
    assert!(matches!(ex.on_record(begin(0)), Action::Continue));
    assert!(matches!(ex.on_record(params(&[("REDIRECT_URL", "/"), ("REQUEST_METHOD", "GET")])), Action::Continue));
    assert!(matches!(ex.on_record(params(&[("REQUEST_METHOD", "POST")])), Action::Continue));
    assert!(matches!(ex.on_record(rec(HeaderType::Params, ContentData::Empty)), Action::Continue));
    assert!(matches!(ex.on_record(rec(HeaderType::Stdin, ContentData::Stream(b"ab".to_vec()))), Action::Continue));
    assert!(matches!(ex.on_record(rec(HeaderType::Stdin, ContentData::Stream(b"c".to_vec()))), Action::Continue));
    assert!(matches!(ex.on_record(rec(HeaderType::Stdin, ContentData::Empty)), Action::Dispatch));
    assert_eq!(ex.status, Status::Work);
    assert_eq!(ex.params.len(), 3);
    assert_eq!(ex.stdin, b"abc".to_vec());
    assert!(!ex.finish());
    assert_eq!(ex.status, Status::End);
}

#[test]
fn stdin_before_params_end_closes() {
    let mut ex = Exchange::new();
    ex.on_record(begin(0));
    ex.on_record(params(&[("A", "b")]));
    assert!(matches!(ex.on_record(rec(HeaderType::Stdin, ContentData::Empty)), Action::Close));
}

#[test]
fn params_before_begin_closes() {
    let mut ex = Exchange::new();
    assert!(matches!(ex.on_record(params(&[("A", "b")])), Action::Close));
    let mut ex = Exchange::new();
    ex.on_record(begin(0));
    assert!(matches!(ex.on_record(begin(0)), Action::Close));
}

#[test]
fn abort_answers_end_request() {
    let mut ex = Exchange::new();
    assert!(matches!(ex.on_record(rec(HeaderType::AbortRequest, ContentData::Empty)), Action::Close));
    ex.on_record(begin(0));
    match ex.on_record(rec(HeaderType::AbortRequest, ContentData::Empty)) {
        Action::Abort(b) => assert_eq!(b, vec![1, 3, 0, 1, 0, 8, 0, 0, 0, 0, 0, 0, 0, 0, 0, 0]),
        other => panic!("{:?}", other),
    }
}

#[test]
fn keep_conn_starts_over() {
    let mut ex = Exchange::new();
    ex.on_record(begin(1));
    ex.on_record(params(&[("A", "b")]));
    ex.on_record(rec(HeaderType::Params, ContentData::Empty));
    ex.on_record(rec(HeaderType::Stdin, ContentData::Empty));
    assert!(ex.finish());
    assert_eq!(ex.status, Status::Init);
    assert!(ex.params.is_empty());
    assert!(matches!(ex.on_record(begin(0)), Action::Continue));
}

#[test]
fn queue_is_fifo_and_bounded() {
    let mut q: Queue<u32> = Queue::new(2);
    assert!(q.empty());
    assert_eq!(q.push(1), None);
    assert_eq!(q.push(2), None);
    assert_eq!(q.push(3), Some(3));
    assert_eq!(q.take(), Some(1));
    assert_eq!(q.push(4), None);
    assert_eq!(q.take(), Some(2));
    assert_eq!(q.take(), Some(4));
    assert_eq!(q.take(), None);
    assert!(q.empty());
}

#[test]
fn dispatch_takes_first_idle_worker() {
    let mut p = Pool::new(3);
    assert_eq!(p.dispatch(), Some(0));
    assert_eq!(p.dispatch(), Some(1));
    assert!(p.is_busy(0));
    assert!(!p.is_busy(2));
    assert!(!p.is_busy(7));
    p.release(0);
    assert_eq!(p.in_flight(), 1);
    assert_eq!(p.dispatch(), Some(0));
    assert_eq!(p.dispatch(), Some(2));
    assert_eq!(p.in_flight(), 3);
    assert_eq!(p.dispatch(), None);
    assert_eq!(p.in_flight(), 3);
}

#[test]
fn stalled_request_is_never_dispatched() {
    let mut ex = Exchange::new();
    ex.on_record(begin(0));
    ex.on_record(params(&[("A", "b")]));
    assert!(matches!(ex.on_record(rec(HeaderType::Params, ContentData::Empty)), Action::Continue));
    assert!(matches!(ex.on_record(rec(HeaderType::Stdin, ContentData::Stream(b"x".to_vec()))), Action::Continue));
    assert_eq!(ex.status, Status::Stdin);
}
