//! The append-only, offset-indexed message log of one topic.

use vstd::prelude::*;

verus! {

/// One message stored in a topic: an opaque text payload and the zero-based
/// position it was assigned when it was published. Messages are created only
/// by [`Topic::publish`] and are never mutated or deleted.
pub struct Message {
    pub payload: String,
    pub offset: usize,
}

impl Clone for Message {
    fn clone(&self) -> (res: Self)
        ensures
            res == *self,
    {
        Message { payload: self.payload.clone(), offset: self.offset }
    }
}

/// What one publish does to a message log: it appends a message carrying the
/// payload at the next free offset, which is the log's current length.
pub open spec fn spec_publish(msgs: Seq<Message>, payload: String) -> Seq<Message> {
    msgs.push(Message { payload, offset: msgs.len() as usize })
}

/// The log produced by publishing each payload of `ps` in order, starting
/// from the log `msgs`.
pub open spec fn spec_publish_all(msgs: Seq<Message>, ps: Seq<String>) -> Seq<Message>
    decreases ps.len(),
{
    if ps.len() == 0 {
        msgs
    } else {
        spec_publish_all(spec_publish(msgs, ps[0]), ps.skip(1))
    }
}

/// A named, append-only log of messages. Offsets are assigned densely from 0:
/// for a topic holding N messages the offsets are exactly `0 .. N-1`, in
/// sequence order — no gaps, no duplicates, no reordering.
pub struct Topic {
    pub name: String,
    pub messages: Vec<Message>,
    pub next_offset: usize,
}

impl Topic {
    /// The log invariant: `next_offset` counts the messages, and each
    /// message's offset equals its position in the log.
    pub open spec fn wf(self) -> bool {
        &&& self.next_offset == self.messages@.len()
        &&& forall|i: int|
            0 <= i < self.messages@.len() ==> (#[trigger] self.messages@[i]).offset == i
    }

    pub fn new(name: &str) -> (t: Topic)
        ensures
            t.wf(),
            t.name@ == name@,
            t.messages@.len() == 0,
    {
        Topic { name: name.to_owned(), messages: Vec::new(), next_offset: 0 }
    }

    /// Appends a new message carrying `payload` at the next free offset and
    /// returns the offset it was assigned.
    pub fn publish(&mut self, payload: String) -> (offset: usize)
        requires
            old(self).wf(),
            old(self).messages@.len() < usize::MAX,
        ensures
            final(self).wf(),
            final(self).name == old(self).name,
            offset == old(self).messages@.len(),
            final(self).messages@ == spec_publish(old(self).messages@, payload),
    {
        let offset = self.next_offset;
        let msg = Message { payload, offset };
        self.messages.push(msg);
        self.next_offset += 1;
        offset
    }

    /// Returns a copy of every message in the log, in offset order.
    pub fn consume_all(&self) -> (r: Vec<Message>)
        ensures
            r@ == self.messages@,
    {
        let mut out: Vec<Message> = Vec::new();
        let n = self.messages.len();
        for i in 0..n
            invariant
                n == self.messages@.len(),
                out@ == self.messages@.take(i as int),
        {
            out.push(self.messages[i].clone());
            proof {
                assert(out@ =~= self.messages@.take(i + 1 as int));
            }
        }
        proof {
            assert(out@ =~= self.messages@);
        }
        out
    }

    /// Returns, in offset order, a copy of every message whose offset is at
    /// least `from_offset`: exactly the suffix of the log starting there.
    /// A `from_offset` past the end yields an empty result, not an error.
    pub fn consume(&self, from_offset: usize) -> (r: Vec<Message>)
        requires
            self.wf(),
        ensures
            r@ == if from_offset <= self.messages@.len() {
                self.messages@.skip(from_offset as int)
            } else {
                Seq::<Message>::empty()
            },
    {
        let mut out: Vec<Message> = Vec::new();
        let n = self.messages.len();
        if from_offset > n {
            proof {
                assert(out@ =~= Seq::<Message>::empty());
            }
            return out;
        }
        for i in from_offset..n
            invariant
                n == self.messages@.len(),
                from_offset <= i <= n,
                out@ == self.messages@.subrange(from_offset as int, i as int),
        {
            out.push(self.messages[i].clone());
            proof {
                assert(out@ =~= self.messages@.subrange(from_offset as int, i + 1 as int));
            }
        }
        proof {
            assert(out@ =~= self.messages@.skip(from_offset as int));
        }
        out
    }
}

/// Publishing the payloads of `ps` in order onto any existing log keeps the
/// existing messages and appends one message per payload, in publish order,
/// each at the offset equal to its final position in the log.
pub proof fn lemma_publish_all(msgs: Seq<Message>, ps: Seq<String>)
    requires
        msgs.len() + ps.len() <= usize::MAX,
    ensures
        spec_publish_all(msgs, ps).len() == msgs.len() + ps.len(),
        forall|i: int|
            0 <= i < msgs.len() ==> #[trigger] spec_publish_all(msgs, ps)[i] == msgs[i],
        forall|i: int|
            msgs.len() <= i < msgs.len() + ps.len() ==> {
                &&& (#[trigger] spec_publish_all(msgs, ps)[i]).payload == ps[i - msgs.len()]
                &&& spec_publish_all(msgs, ps)[i].offset == i
            },
    decreases ps.len(),
{
    if ps.len() > 0 {
        let pushed = spec_publish(msgs, ps[0]);
        lemma_publish_all(pushed, ps.skip(1));
        assert forall|i: int|
            msgs.len() <= i < msgs.len() + ps.len() implies {
                &&& (#[trigger] spec_publish_all(msgs, ps)[i]).payload == ps[i - msgs.len()]
                &&& spec_publish_all(msgs, ps)[i].offset == i
            } by {
            if i > msgs.len() {
                assert(ps.skip(1)[i - pushed.len()] == ps[i - msgs.len()]);
            }
        }
    }
}

/// For every sequence of publishes into a fresh topic, reading the log back
/// in full returns exactly the published payloads in publish order, carrying
/// the offsets `0 .. N-1`.
pub proof fn lemma_publish_order_round_trip(ps: Seq<String>)
    requires
        ps.len() <= usize::MAX,
    ensures
        spec_publish_all(Seq::<Message>::empty(), ps).len() == ps.len(),
        forall|i: int|
            0 <= i < ps.len() ==> {
                &&& (#[trigger] spec_publish_all(Seq::<Message>::empty(), ps)[i]).payload == ps[i]
                &&& spec_publish_all(Seq::<Message>::empty(), ps)[i].offset == i
            },
{
    lemma_publish_all(Seq::<Message>::empty(), ps);
}

/// Consuming from offset 0 returns the whole log: `consume(0)` and
/// `consume_all` agree on every well-formed topic.
pub proof fn lemma_consume_zero_is_consume_all(t: Topic)
    requires
        t.wf(),
    ensures
        t.messages@.skip(0) == t.messages@,
{
    assert(t.messages@.skip(0) =~= t.messages@);
}

/// The suffix of a well-formed log from position `k` holds exactly the
/// messages whose offset is at least `k`: each kept message sits `k` places
/// earlier than in the full log, and a message's offset is at least `k`
/// precisely when its position is.
pub proof fn lemma_consume_suffix_exact(t: Topic, k: int)
    requires
        t.wf(),
        0 <= k <= t.messages@.len(),
    ensures
        t.messages@.skip(k).len() == t.messages@.len() - k,
        forall|i: int|
            0 <= i < t.messages@.len() - k ==> {
                &&& #[trigger] t.messages@.skip(k)[i] == t.messages@[k + i]
                &&& t.messages@.skip(k)[i].offset >= k
            },
        forall|i: int|
            0 <= i < t.messages@.len() ==> ((#[trigger] t.messages@[i]).offset >= k <==> i >= k),
{
}

} // verus!
