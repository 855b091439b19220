//! The priority event queue: a bounded queue of byte messages, each sent in
//! a priority band. Band 0 is the most critical. `receive` hands out the
//! oldest message of the lowest non-empty band, so messages of one band
//! leave in the order they came.
use vstd::prelude::*;

verus! {

/// Largest message the queue carries, in bytes.
pub const MAX_MESSAGE_SIZE: usize = 256;

/// Number of messages the controller's event queue holds.
pub const EVENT_QUEUE_CAPACITY: usize = 2000;

/// Why `send` refused a message.
#[derive(Clone, Copy, Debug, PartialEq, Eq, Structural)]
pub enum QueueError {
    /// The queue holds as many messages as its capacity.
    Full,
    /// The message is longer than `MAX_MESSAGE_SIZE`.
    MessageTooLong,
}

/// A bounded queue of messages, each with its band, in the order sent.
pub struct EventQueue {
    entries: Vec<(u32, Vec<u8>)>,
    capacity: usize,
}

/// The index of the message that leaves next: the first one of the lowest
/// band.
pub open spec fn next_index(s: Seq<(u32, Seq<u8>)>) -> int
    decreases s.len(),
{
    if s.len() <= 1 {
        0
    } else {
        let k = next_index(s.drop_last());
        if s.last().0 < s[k].0 {
            s.len() - 1
        } else {
            k
        }
    }
}

/// `i` holds a message of the lowest band, and no earlier message has that
/// band.
pub open spec fn is_next(s: Seq<(u32, Seq<u8>)>, i: int) -> bool {
    &&& 0 <= i < s.len()
    &&& forall|j: int| 0 <= j < s.len() ==> s[i].0 <= #[trigger] s[j].0
    &&& forall|j: int| 0 <= j < i ==> s[i].0 < #[trigger] s[j].0
}

pub proof fn lemma_next_index(s: Seq<(u32, Seq<u8>)>)
    requires
        s.len() > 0,
    ensures
        is_next(s, next_index(s)),
    decreases s.len(),
{
    if s.len() > 1 {
        let p = s.drop_last();
        lemma_next_index(p);
        assert forall|j: int| 0 <= j < p.len() implies p[j] == s[j] by {}
    }
}

/// A message in a lower band leaves before any message in a higher band.
pub proof fn lemma_lower_band_leaves_first(s: Seq<(u32, Seq<u8>)>, early: int, urgent: int)
    requires
        0 <= early < s.len(),
        0 <= urgent < s.len(),
        s[urgent].0 < s[early].0,
    ensures
        next_index(s) != early,
{
    lemma_next_index(s);
}

/// Of two messages in one band, the later one does not leave first.
pub proof fn lemma_band_is_fifo(s: Seq<(u32, Seq<u8>)>, first: int, second: int)
    requires
        0 <= first < second < s.len(),
        s[first].0 == s[second].0,
    ensures
        next_index(s) != second,
{
    lemma_next_index(s);
}

impl View for EventQueue {
    type V = Seq<(u32, Seq<u8>)>;

    closed spec fn view(&self) -> Seq<(u32, Seq<u8>)> {
        self.entries@.map_values(|e: (u32, Vec<u8>)| (e.0, e.1@))
    }
}

impl EventQueue {
    pub closed spec fn capacity_spec(&self) -> nat {
        self.capacity as nat
    }

    #[verifier::type_invariant]
    spec fn within_capacity(&self) -> bool {
        self.entries@.len() <= self.capacity
    }

    /// An empty queue that holds at most `capacity` messages.
    pub fn new(capacity: usize) -> (r: EventQueue)
        ensures
            r@ == Seq::<(u32, Seq<u8>)>::empty(),
            r.capacity_spec() == capacity,
    {
        let r = EventQueue { entries: Vec::new(), capacity };
        assert(r@ =~= Seq::<(u32, Seq<u8>)>::empty());
        r
    }

    pub fn capacity(&self) -> (r: usize)
        ensures
            r == self.capacity_spec(),
    {
        self.capacity
    }

    /// Number of messages waiting.
    pub fn len(&self) -> (r: usize)
        ensures
            r == self@.len(),
    {
        self.entries.len()
    }

    pub fn is_empty(&self) -> (r: bool)
        ensures
            r == (self@.len() == 0),
    {
        self.entries.len() == 0
    }

    /// Queues `payload` in priority band `band`, behind the messages that
    /// are already there.
    pub fn send(&mut self, payload: Vec<u8>, band: u32) -> (r: Result<(), QueueError>)
        ensures
            final(self).capacity_spec() == old(self).capacity_spec(),
            payload@.len() > MAX_MESSAGE_SIZE ==> r == Err::<(), QueueError>(
                QueueError::MessageTooLong,
            ),
            payload@.len() <= MAX_MESSAGE_SIZE && old(self)@.len() >= old(self).capacity_spec()
                ==> r == Err::<(), QueueError>(QueueError::Full),
            r is Ok <==> payload@.len() <= MAX_MESSAGE_SIZE && old(self)@.len()
                < old(self).capacity_spec(),
            r is Ok ==> final(self)@ == old(self)@.push((band, payload@)),
            r is Err ==> final(self)@ == old(self)@,
    {
        proof {
            use_type_invariant(&*self);
        }
        if payload.len() > MAX_MESSAGE_SIZE {
            return Err(QueueError::MessageTooLong);
        }
        if self.entries.len() >= self.capacity {
            return Err(QueueError::Full);
        }
        let ghost before = self@;
        let mut entries: Vec<(u32, Vec<u8>)> = Vec::new();
        std::mem::swap(&mut entries, &mut self.entries);
        entries.push((band, payload));
        self.entries = entries;
        assert(self@ =~= before.push((band, payload@)));
        Ok(())
    }

    /// Takes out the oldest message of the lowest non-empty band, with its
    /// band; `None` when the queue is empty.
    pub fn receive(&mut self) -> (r: Option<(Vec<u8>, u32)>)
        ensures
            final(self).capacity_spec() == old(self).capacity_spec(),
            r is None <==> old(self)@.len() == 0,
            r is None ==> final(self)@ == old(self)@,
            r matches Some(m) ==> {
                let i = next_index(old(self)@);
                &&& is_next(old(self)@, i)
                &&& m.0@ == old(self)@[i].1
                &&& m.1 == old(self)@[i].0
                &&& final(self)@ == old(self)@.remove(i)
            },
    {
        proof {
            use_type_invariant(&*self);
        }
        let n = self.entries.len();
        if n == 0 {
            return None;
        }
        let ghost all = self@;
        let mut best: usize = 0;
        let mut i: usize = 1;
        assert(all.subrange(0, 1).len() == 1);
        while i < n
            invariant
                all == self@,
                n == all.len(),
                1 <= i <= n,
                best < i,
                best as int == next_index(all.subrange(0, i as int)),
            decreases n - i,
        {
            let ghost p = all.subrange(0, i as int + 1);
            assert(p.drop_last() =~= all.subrange(0, i as int));
            if self.entries[i].0 < self.entries[best].0 {
                best = i;
            }
            i = i + 1;
        }
        assert(all.subrange(0, n as int) =~= all);
        proof {
            lemma_next_index(all);
        }
        let ghost before = self@;
        let mut entries: Vec<(u32, Vec<u8>)> = Vec::new();
        std::mem::swap(&mut entries, &mut self.entries);
        let e = entries.remove(best);
        self.entries = entries;
        assert(self@ =~= before.remove(best as int));
        Some((e.1, e.0))
    }
}

} // verus!
