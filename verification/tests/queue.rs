use texlab::ident::RequestId;
use texlab::req_queue::CancelFlag;
use texlab::req_queue::QueueError;
use texlab::req_queue::ReplyChannel;
use texlab::req_queue::ReqQueue;

fn number(n: i32) -> RequestId {
    RequestId::Number(n)
}

fn text(t: &str) -> RequestId {
    RequestId::Text(t.to_string())
}

#[test]
fn register_incoming_makes_a_new_flag_for_each_request() {
    let mut queue = ReqQueue::new();
    assert_eq!(queue.register_incoming(number(1)), Ok(CancelFlag { slot: 0 }));
    assert_eq!(queue.register_incoming(text("1")), Ok(CancelFlag { slot: 1 }));
    assert!(queue.is_registered(&number(1)));
    assert!(queue.is_registered(&text("1")));
    assert!(!queue.is_registered(&number(2)));
    assert!(!queue.is_canceled(CancelFlag { slot: 0 }));
    assert!(!queue.is_canceled(CancelFlag { slot: 1 }));
}

#[test]
fn register_incoming_refuses_a_duplicate_id() {
    let mut queue = ReqQueue::new();
    assert!(queue.register_incoming(number(1)).is_ok());
    assert_eq!(queue.register_incoming(number(1)), Err(QueueError::DuplicateId));
    assert_eq!(queue.complete_incoming(&number(1)), Some(CancelFlag { slot: 0 }));
    assert_eq!(queue.register_incoming(number(1)), Ok(CancelFlag { slot: 1 }));
}

#[test]
fn complete_incoming_is_idempotent() {
    let mut queue = ReqQueue::new();
    assert_eq!(queue.complete_incoming(&number(5)), None);
    let flag = queue.register_incoming(number(5)).unwrap();
    assert_eq!(queue.complete_incoming(&number(5)), Some(flag));
    assert_eq!(queue.complete_incoming(&number(5)), None);
    assert!(!queue.is_registered(&number(5)));
}

#[test]
fn cancel_sets_the_flag_for_good() {
    let mut queue = ReqQueue::new();
    let first = queue.register_incoming(number(1)).unwrap();
    let second = queue.register_incoming(number(2)).unwrap();
    assert_eq!(queue.cancel(&number(1)), Some(first));
    assert!(queue.is_canceled(first));
    assert!(!queue.is_canceled(second));
    assert!(!queue.is_registered(&number(1)));
    assert_eq!(queue.cancel(&number(1)), None);
    let third = queue.register_incoming(number(1)).unwrap();
    queue.complete_incoming(&number(2));
    queue.register_outgoing(number(9), ReplyChannel { number: 1 }).unwrap();
    assert!(queue.is_canceled(first));
    assert!(!queue.is_canceled(third));
}

#[test]
fn cancel_of_an_unknown_request_changes_nothing() {
    let mut queue = ReqQueue::new();
    let flag = queue.register_incoming(number(1)).unwrap();
    assert_eq!(queue.cancel(&text("1")), None);
    assert!(!queue.is_canceled(flag));
    assert!(queue.is_registered(&number(1)));
}

#[test]
fn flag_of_another_queue_is_not_set() {
    let mut queue = ReqQueue::new();
    queue.set_flag(CancelFlag { slot: 3 });
    assert!(!queue.is_canceled(CancelFlag { slot: 3 }));
    let flag = queue.register_incoming(number(1)).unwrap();
    queue.set_flag(flag);
    queue.set_flag(flag);
    assert!(queue.is_canceled(flag));
}

#[test]
fn outgoing_requests_are_completed_once() {
    let mut queue = ReqQueue::new();
    assert_eq!(queue.register_outgoing(number(1), ReplyChannel { number: 10 }), Ok(()));
    assert_eq!(
        queue.register_outgoing(number(1), ReplyChannel { number: 11 }),
        Err(QueueError::DuplicateId)
    );
    assert_eq!(queue.register_outgoing(text("a"), ReplyChannel { number: 12 }), Ok(()));
    assert_eq!(queue.complete_outgoing(&number(1)), Ok(ReplyChannel { number: 10 }));
    assert_eq!(queue.complete_outgoing(&number(1)), Err(QueueError::UnknownId));
    assert_eq!(queue.complete_outgoing(&text("a")), Ok(ReplyChannel { number: 12 }));
    assert_eq!(queue.complete_outgoing(&text("b")), Err(QueueError::UnknownId));
}

#[test]
fn incoming_and_outgoing_ids_do_not_meet() {
    let mut queue = ReqQueue::new();
    queue.register_incoming(number(1)).unwrap();
    assert_eq!(queue.complete_outgoing(&number(1)), Err(QueueError::UnknownId));
    assert_eq!(queue.register_outgoing(number(1), ReplyChannel { number: 1 }), Ok(()));
    assert!(queue.is_registered(&number(1)));
}
