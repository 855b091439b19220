//! What the two watchers put on the event queue: for an RTResource that
//! was applied or deleted, its identity in the band of its criticality; for
//! a deleted managed pod, the identity of its RTResource as the pod's
//! labels record it.
use vstd::prelude::*;
use crate::decimal::{parse_unsigned, parse_unsigned_spec};
use crate::event_queue::{EventQueue, QueueError, MAX_MESSAGE_SIZE};
use crate::labels::Labels;
use crate::message::QueueMessage;
use crate::scheduling::{LABEL_CRITICALITY, LABEL_NAME, LABEL_NAMESPACE, LABEL_UID};

verus! {

/// The kind of a watch event.
#[derive(Clone, Copy, Debug, PartialEq, Eq, Structural)]
pub enum WatchEvent {
    /// An object was created or changed.
    Applied,
    /// An object was deleted.
    Deleted,
    /// Anything else: the initial listing, bookmarks.
    Other,
}

pub open spec fn message_fields(m: QueueMessage) -> (Seq<char>, Seq<char>, Seq<char>) {
    (m.name@, m.uid@, m.namespace@)
}

/// The message for an event about an RTResource with the given metadata
/// and criticality: sent for applied and deleted resources whose name, uid
/// and namespace are all known, in the band of the criticality.
pub fn resource_event_message(
    event: WatchEvent,
    name: &Option<String>,
    uid: &Option<String>,
    namespace: &Option<String>,
    criticality: u32,
) -> (r: Option<(QueueMessage, u32)>)
    ensures
        r is Some <==> (event != WatchEvent::Other && name is Some && uid is Some
            && namespace is Some),
        r matches Some(m) ==> m.1 == criticality && message_fields(m.0) == (
            name->0@,
            uid->0@,
            namespace->0@,
        ),
{
    if event == WatchEvent::Other {
        return None;
    }
    match (name, uid, namespace) {
        (Some(n), Some(u), Some(ns)) => Some(
            (QueueMessage { name: n.clone(), uid: u.clone(), namespace: ns.clone() }, criticality),
        ),
        _ => None,
    }
}

/// The labels of a deleted pod name its RTResource and a criticality that
/// fits a `u32`.
pub open spec fn pod_labels_message(l: Map<Seq<char>, Seq<char>>) -> Option<
    (Seq<char>, Seq<char>, Seq<char>, nat),
> {
    if l.contains_key(LABEL_NAME@) && l.contains_key(LABEL_UID@) && l.contains_key(LABEL_NAMESPACE@)
        && l.contains_key(LABEL_CRITICALITY@) {
        match parse_unsigned_spec(
            vstd::utf8::encode_utf8(l[LABEL_CRITICALITY@]),
            u32::MAX as nat,
        ) {
            Some(c) => Some((l[LABEL_NAME@], l[LABEL_UID@], l[LABEL_NAMESPACE@], c)),
            None => None,
        }
    } else {
        None
    }
}

/// The message for an event about a pod: sent only for a deleted pod whose
/// labels identify its RTResource, in the band its criticality label gives.
pub fn pod_event_message(event: WatchEvent, labels: &Option<Labels>) -> (r: Option<
    (QueueMessage, u32),
>)
    ensures
        r is Some <==> (event == WatchEvent::Deleted && labels is Some && pod_labels_message(
            labels->0.view(),
        ) is Some),
        r matches Some(m) ==> ({
            let p = pod_labels_message(labels->0.view())->0;
            message_fields(m.0) == (p.0, p.1, p.2) && m.1 as nat == p.3
        }),
{
    if event != WatchEvent::Deleted {
        return None;
    }
    let l = match labels {
        Some(l) => l,
        None => return None,
    };
    let name = l.get(&String::from_str(LABEL_NAME));
    let uid = l.get(&String::from_str(LABEL_UID));
    let namespace = l.get(&String::from_str(LABEL_NAMESPACE));
    let criticality = l.get(&String::from_str(LABEL_CRITICALITY));
    match (name, uid, namespace, criticality) {
        (Some(name), Some(uid), Some(namespace), Some(c)) => {
            match parse_unsigned(c.as_str(), u32::MAX as u64) {
                Some(band) => Some((QueueMessage { name, uid, namespace }, band as u32)),
                None => None,
            }
        },
        _ => None,
    }
}

/// Why a message could not be published.
#[derive(Clone, Copy, Debug, PartialEq, Eq, Structural)]
pub enum PublishError {
    /// A field of the message holds the separator byte.
    Unencodable,
    /// The queue refused the encoded message.
    Queue(QueueError),
}

/// Encodes `msg` and sends it on `queue` in band `band`.
pub fn publish(queue: &mut EventQueue, msg: &QueueMessage, band: u32) -> (r: Result<
    (),
    PublishError,
>)
    ensures
        final(queue).capacity_spec() == old(queue).capacity_spec(),
        !msg.encodable_spec() ==> r == Err::<(), PublishError>(PublishError::Unencodable),
        msg.encodable_spec() && msg.encoding_spec().len() > MAX_MESSAGE_SIZE ==> r == Err::<
            (),
            PublishError,
        >(PublishError::Queue(QueueError::MessageTooLong)),
        msg.encodable_spec() && msg.encoding_spec().len() <= MAX_MESSAGE_SIZE && old(queue)@.len()
            >= old(queue).capacity_spec() ==> r == Err::<(), PublishError>(
            PublishError::Queue(QueueError::Full),
        ),
        r is Ok ==> final(queue)@ == old(queue)@.push((band, msg.encoding_spec())),
        r is Ok <==> msg.encodable_spec() && msg.encoding_spec().len() <= MAX_MESSAGE_SIZE
            && old(queue)@.len() < old(queue).capacity_spec(),
        r is Err ==> final(queue)@ == old(queue)@,
{
    match msg.to_bytes() {
        None => Err(PublishError::Unencodable),
        Some(bytes) => match queue.send(bytes, band) {
            Ok(()) => Ok(()),
            Err(e) => Err(PublishError::Queue(e)),
        },
    }
}

} // verus!
