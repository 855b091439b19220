use preempt_k8s::event_queue::{EventQueue, QueueError, MAX_MESSAGE_SIZE};
use preempt_k8s::message::QueueMessage;
use preempt_k8s::watchers::{publish, PublishError};

fn msg(name: &str, uid: &str, namespace: &str) -> QueueMessage {
    QueueMessage {
        name: name.to_string(),
        uid: uid.to_string(),
        namespace: namespace.to_string(),
    }
}

#[test]
fn empty_queue_receives_nothing() {
    let mut q = EventQueue::new(10);
    assert!(q.is_empty());
    assert!(q.receive().is_none());
}

#[test]
fn lowest_band_leaves_first() {
    let mut q = EventQueue::new(100);
    for i in 0..20u8 {
        q.send(vec![i], 5).unwrap();
    }
    q.send(vec![99], 0).unwrap();
    let (payload, band) = q.receive().unwrap();
    assert_eq!(payload, vec![99]);
    assert_eq!(band, 0);
    let (payload, band) = q.receive().unwrap();
    assert_eq!(payload, vec![0]);
    assert_eq!(band, 5);
    assert_eq!(q.len(), 19);
}

#[test]
fn band_is_fifo() {
    let mut q = EventQueue::new(10);
    q.send(vec![1], 3).unwrap();
    q.send(vec![2], 7).unwrap();
    q.send(vec![3], 3).unwrap();
    q.send(vec![4], 1).unwrap();
    let order: Vec<(Vec<u8>, u32)> = std::iter::from_fn(|| q.receive()).collect();
    assert_eq!(
        order,
        vec![(vec![4], 1), (vec![1], 3), (vec![3], 3), (vec![2], 7)]
    );
}

#[test]
fn full_queue_refuses() {
    let mut q = EventQueue::new(2);
    assert_eq!(q.send(vec![1], 0), Ok(()));
    assert_eq!(q.send(vec![2], 0), Ok(()));
    assert_eq!(q.send(vec![3], 0), Err(QueueError::Full));
    assert_eq!(q.len(), 2);
    q.receive().unwrap();
    assert_eq!(q.send(vec![3], 0), Ok(()));
}

#[test]
fn long_message_refused() {
    let mut q = EventQueue::new(2);
    assert_eq!(
        q.send(vec![7; MAX_MESSAGE_SIZE + 1], 0),
        Err(QueueError::MessageTooLong)
    );
    assert_eq!(q.send(vec![7; MAX_MESSAGE_SIZE], 0), Ok(()));
    assert_eq!(q.capacity(), 2);
}

#[test]
fn message_bytes_layout() {
    let m = msg("svc", "u-1", "ns");
    let b = m.to_bytes().unwrap();
    assert_eq!(b, b"svc\0u-1\0ns".to_vec());
}

#[test]
fn message_round_trip() {
    let m = msg("svc-é", "0f1e", "prod");
    let b = m.to_bytes().unwrap();
    let back = QueueMessage::from_bytes(&b).unwrap();
    assert_eq!(back.name, "svc-é");
    assert_eq!(back.uid, "0f1e");
    assert_eq!(back.namespace, "prod");
}

#[test]
fn message_with_separator_is_refused() {
    assert!(msg("a\0b", "u", "n").to_bytes().is_none());
}

#[test]
fn malformed_messages_are_dropped() {
    assert!(QueueMessage::from_bytes(b"only\0two").is_none());
    assert!(QueueMessage::from_bytes(b"a\0b\0c\0d").is_none());
    assert!(QueueMessage::from_bytes(&[0xff, 0, b'u', 0, b'n']).is_none());
    let empty = QueueMessage::from_bytes(b"\0\0").unwrap();
    assert_eq!(empty.name, "");
    assert_eq!(empty.namespace, "");
}

#[test]
fn publish_then_receive() {
    let mut q = EventQueue::new(5);
    publish(&mut q, &msg("low", "1", "ns"), 9).unwrap();
    publish(&mut q, &msg("high", "2", "ns"), 1).unwrap();
    let (b, band) = q.receive().unwrap();
    assert_eq!(band, 1);
    assert_eq!(QueueMessage::from_bytes(&b).unwrap().name, "high");
}

#[test]
fn publish_errors() {
    let mut q = EventQueue::new(1);
    assert_eq!(
        publish(&mut q, &msg("a\0", "1", "ns"), 0),
        Err(PublishError::Unencodable)
    );
    let long = "x".repeat(300);
    assert_eq!(
        publish(&mut q, &msg(&long, "1", "ns"), 0),
        Err(PublishError::Queue(QueueError::MessageTooLong))
    );
    publish(&mut q, &msg("a", "1", "ns"), 0).unwrap();
    assert_eq!(
        publish(&mut q, &msg("b", "2", "ns"), 0),
        Err(PublishError::Queue(QueueError::Full))
    );
}
