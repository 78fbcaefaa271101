//! Client-side production: publishing into a broker, the wire commands a
//! producer sends, and the bounded pool of idle producer connections.

use vstd::prelude::*;
use crate::broker::Broker;
use crate::topic::{spec_publish, spec_publish_all, Message};

verus! {

/// A producer that appends messages to a broker's topics.
pub struct Producer {}

impl Producer {
    pub fn new() -> (p: Producer) {
        Producer {  }
    }

    /// Publishes one message to the topic named `topic`, creating the topic
    /// if it does not exist yet. No other topic is touched.
    pub fn send(&self, broker: &mut Broker, topic: &str, message: &str)
        requires
            old(broker).wf(),
            old(broker).topics@.len() < usize::MAX,
            old(broker).has_topic(topic@)
                ==> old(broker).topics@[old(broker).topic_index(topic@)].messages@.len()
                    < usize::MAX,
        ensures
            final(broker).wf(),
            final(broker).has_topic(topic@),
            ({
                let i = final(broker).topic_index(topic@);
                &&& old(broker).has_topic(topic@) ==> {
                    &&& i == old(broker).topic_index(topic@)
                    &&& final(broker).topics@.len() == old(broker).topics@.len()
                    &&& final(broker).topics@[i].messages@.len()
                        == old(broker).topics@[i].messages@.len() + 1
                    &&& final(broker).topics@[i].messages@.last().payload@ == message@
                    &&& final(broker).topics@[i].messages@.last().offset
                        == old(broker).topics@[i].messages@.len()
                }
                &&& !old(broker).has_topic(topic@) ==> {
                    &&& i == old(broker).topics@.len()
                    &&& final(broker).topics@.len() == old(broker).topics@.len() + 1
                    &&& final(broker).topics@[i].messages@.len() == 1
                    &&& final(broker).topics@[i].messages@[0].payload@ == message@
                    &&& final(broker).topics@[i].messages@[0].offset == 0
                }
                &&& forall|j: int|
                    0 <= j < final(broker).topics@.len() && j != i
                        ==> final(broker).topics@[j] == old(broker).topics@[j]
            }),
    {
        let _ = broker.publish_message(topic, message.to_owned());
    }

    /// Publishes every message of `messages`, in order, to the topic named
    /// `topic`. The topic is created first if need be, even for an empty
    /// batch, and no other topic is touched.
    pub fn send_batch(&self, broker: &mut Broker, topic: &str, messages: &Vec<String>)
        requires
            old(broker).wf(),
            old(broker).topics@.len() < usize::MAX,
            old(broker).has_topic(topic@)
                ==> old(broker).topics@[old(broker).topic_index(topic@)].messages@.len()
                    + messages@.len() <= usize::MAX,
            !old(broker).has_topic(topic@) ==> messages@.len() <= usize::MAX,
        ensures
            final(broker).wf(),
            final(broker).has_topic(topic@),
            ({
                let i = final(broker).topic_index(topic@);
                &&& old(broker).has_topic(topic@) ==> {
                    &&& i == old(broker).topic_index(topic@)
                    &&& final(broker).topics@.len() == old(broker).topics@.len()
                    &&& final(broker).topics@[i].messages@ == spec_publish_all(
                        old(broker).topics@[i].messages@,
                        messages@,
                    )
                }
                &&& !old(broker).has_topic(topic@) ==> {
                    &&& i == old(broker).topics@.len()
                    &&& final(broker).topics@.len() == old(broker).topics@.len() + 1
                    &&& final(broker).topics@[i].messages@ == spec_publish_all(
                        Seq::<Message>::empty(),
                        messages@,
                    )
                }
                &&& forall|j: int|
                    0 <= j < final(broker).topics@.len() && j != i
                        ==> final(broker).topics@[j] == old(broker).topics@[j]
            }),
    {
        let idx = broker.get_or_create_topic(topic);
        let ghost mid = *broker;
        let ghost base = broker.topics@[idx as int].messages@;
        let n = messages.len();
        for j in 0..n
            invariant
                n == messages@.len(),
                idx < broker.topics@.len(),
                broker.topics@.len() == mid.topics@.len(),
                broker.wf(),
                broker.topics@[idx as int].name@ == mid.topics@[idx as int].name@,
                base.len() + messages@.len() <= usize::MAX,
                broker.topics@[idx as int].messages@ == spec_publish_all(
                    base,
                    messages@.take(j as int),
                ),
                forall|j2: int|
                    0 <= j2 < broker.topics@.len() && j2 != idx
                        ==> broker.topics@[j2] == mid.topics@[j2],
        {
            proof {
                lemma_publish_all_len(base, messages@.take(j as int));
            }
            let payload = messages[j].clone();
            let _ = broker.topics[idx].publish(payload);
            proof {
                assert(messages@.take(j + 1).drop_last() =~= messages@.take(j as int));
                assert(messages@.take(j + 1).last() == messages@[j as int]);
                lemma_publish_all_snoc(base, messages@.take(j as int), messages@[j as int]);
                assert(messages@.take(j as int).push(messages@[j as int]) =~= messages@.take(
                    j + 1,
                ));
            }
        }
        proof {
            assert(messages@.take(n as int) =~= messages@);
            crate::broker::lemma_unique_topic_index(*broker, topic@, idx as int);
            if old(broker).has_topic(topic@) {
                assert(base == old(broker).topics@[old(broker).topic_index(topic@)].messages@);
            } else {
                assert(base =~= Seq::<Message>::empty());
            }
        }
    }
}

/// Publishing a batch appends one message per payload: the log grows by
/// exactly the batch's length.
pub proof fn lemma_publish_all_len(msgs: Seq<Message>, ps: Seq<String>)
    ensures
        spec_publish_all(msgs, ps).len() == msgs.len() + ps.len(),
    decreases ps.len(),
{
    if ps.len() > 0 {
        lemma_publish_all_len(spec_publish(msgs, ps[0]), ps.skip(1));
    }
}

/// Publishing a batch and then one more payload is the same as publishing
/// the batch extended by that payload.
pub proof fn lemma_publish_all_snoc(msgs: Seq<Message>, ps: Seq<String>, p: String)
    ensures
        spec_publish_all(msgs, ps.push(p)) == spec_publish(spec_publish_all(msgs, ps), p),
    decreases ps.len(),
{
    if ps.len() == 0 {
        assert(ps.push(p)[0] == p);
        assert(ps.push(p).skip(1) =~= Seq::<String>::empty());
        assert(spec_publish_all(msgs, ps.push(p)) == spec_publish_all(
            spec_publish(msgs, p),
            Seq::<String>::empty(),
        ));
        assert(spec_publish_all(spec_publish(msgs, p), Seq::<String>::empty()) == spec_publish(
            msgs,
            p,
        ));
        assert(spec_publish_all(msgs, ps) == msgs);
    } else {
        assert(ps.push(p)[0] == ps[0]);
        assert(ps.push(p).skip(1) =~= ps.skip(1).push(p));
        lemma_publish_all_snoc(spec_publish(msgs, ps[0]), ps.skip(1), p);
        assert(spec_publish_all(msgs, ps.push(p)) == spec_publish_all(
            spec_publish(msgs, ps[0]),
            ps.skip(1).push(p),
        ));
    }
}

/// The wire line a producer sends to publish `payload` on `topic`.
pub fn publish_command(topic: &str, payload: &str) -> (r: String)
    ensures
        r@ == "PUBLISH "@ + topic@ + " "@ + payload@ + "\n"@,
{
    let mut s = String::from_str("PUBLISH ");
    s.append(topic);
    s.append(" ");
    s.append(payload);
    s.append("\n");
    s
}

/// The wire line a consumer sends to poll the full backlog of `topic`.
pub fn consume_command(topic: &str) -> (r: String)
    ensures
        r@ == "CONSUME "@ + topic@ + "\n"@,
{
    let mut s = String::from_str("CONSUME ");
    s.append(topic);
    s.append("\n");
    s
}

/// A bounded pool of idle producer connections to one address. The pool
/// never holds more than `max_connections` idle connections; what the
/// connections are is the caller's business, and dialing a fresh one when
/// the pool is empty happens outside the library.
pub struct ProducerPool<C> {
    pub address: String,
    pub connections: Vec<C>,
    pub max_connections: usize,
}

impl<C> ProducerPool<C> {
    /// The pool invariant: the idle connections never exceed the capacity.
    pub open spec fn wf(self) -> bool {
        self.connections@.len() <= self.max_connections
    }

    pub fn new(address: String, max_connections: usize) -> (p: ProducerPool<C>)
        ensures
            p.wf(),
            p.address == address,
            p.max_connections == max_connections,
            p.connections@.len() == 0,
    {
        ProducerPool { address, connections: Vec::new(), max_connections }
    }

    /// Hands out an idle connection if the pool holds one. An empty pool
    /// yields nothing: the caller then dials a fresh connection itself.
    pub fn get_connection(&mut self) -> (r: Option<C>)
        requires
            old(self).wf(),
        ensures
            final(self).wf(),
            final(self).address == old(self).address,
            final(self).max_connections == old(self).max_connections,
            match r {
                Some(c) => {
                    &&& old(self).connections@.len() > 0
                    &&& c == old(self).connections@.last()
                    &&& final(self).connections@ == old(self).connections@.drop_last()
                },
                None => {
                    &&& old(self).connections@.len() == 0
                    &&& final(self).connections@ == old(self).connections@
                },
            },
    {
        self.connections.pop()
    }

    /// Returns a connection to the pool if the pool is below capacity;
    /// beyond capacity the surplus connection is discarded without error.
    pub fn release_connection(&mut self, conn: C)
        requires
            old(self).wf(),
        ensures
            final(self).wf(),
            final(self).address == old(self).address,
            final(self).max_connections == old(self).max_connections,
            old(self).connections@.len() < old(self).max_connections
                ==> final(self).connections@ == old(self).connections@.push(conn),
            old(self).connections@.len() >= old(self).max_connections
                ==> final(self).connections@ == old(self).connections@,
    {
        if self.connections.len() < self.max_connections {
            self.connections.push(conn);
        }
    }
}

} // verus!
