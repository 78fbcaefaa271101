//! Client-side consumption: one-shot snapshot polls, and the retry/backoff
//! state machine of the resilient consumer.

use vstd::prelude::*;
use vstd::arithmetic::power2::{pow2, lemma2_to64, lemma2_to64_rest, lemma_pow2_strictly_increases};
use crate::broker::Broker;
use crate::topic::Message;

verus! {

/// A consumer that takes one-shot snapshot reads of a broker's topics.
pub struct Consumer {}

impl Consumer {
    pub fn new() -> (c: Consumer) {
        Consumer {  }
    }

    /// Reads the full backlog of the topic named `topic`, in offset order.
    /// An unknown topic yields an empty result, never an error, and nothing
    /// is created.
    pub fn poll(&self, broker: &Broker, topic: &str) -> (r: Vec<Message>)
        requires
            broker.wf(),
        ensures
            broker.has_topic(topic@)
                ==> r@ == broker.topics@[broker.topic_index(topic@)].messages@,
            !broker.has_topic(topic@) ==> r@.len() == 0,
    {
        match broker.lookup(topic) {
            Some(i) => broker.topics[i].consume_all(),
            None => Vec::new(),
        }
    }

    /// Like [`Consumer::poll`], but returns at most the first `limit`
    /// messages of the backlog.
    pub fn poll_with_limit(&self, broker: &Broker, topic: &str, limit: usize) -> (r: Vec<Message>)
        requires
            broker.wf(),
        ensures
            broker.has_topic(topic@) ==> {
                let msgs = broker.topics@[broker.topic_index(topic@)].messages@;
                r@ == msgs.take(if limit <= msgs.len() { limit as int } else { msgs.len() as int })
            },
            !broker.has_topic(topic@) ==> r@.len() == 0,
    {
        match broker.lookup(topic) {
            Some(i) => {
                let t = &broker.topics[i];
                let n = t.messages.len();
                let m = if limit < n { limit } else { n };
                let mut out: Vec<Message> = Vec::new();
                for j in 0..m
                    invariant
                        m <= n,
                        n == t.messages@.len(),
                        out@ == t.messages@.take(j as int),
                {
                    out.push(t.messages[j].clone());
                    proof {
                        assert(out@ =~= t.messages@.take(j + 1 as int));
                    }
                }
                out
            }
            None => Vec::new(),
        }
    }
}

/// What a resilient consumer does after one connect-and-read cycle ends.
pub enum RetryDecision {
    /// The cycle completed without error: begin the next cycle at once.
    Proceed,
    /// The cycle failed: sleep this many seconds, then retry.
    Backoff { seconds: u64 },
    /// The retry budget is exhausted: terminate with a fatal error.
    GiveUp,
}

/// The configuration of a long-running consumer that reconnects with
/// exponential backoff. The connecting, reading, and sleeping happen outside
/// the library; [`ResilientConsumer::next_decision`] decides each step.
pub struct ResilientConsumer {
    pub address: String,
    pub topic: String,
    pub max_retries: usize,
}

impl ResilientConsumer {
    /// `max_retries` is capped so that every backoff the consumer can be told
    /// to take fits the machine's seconds counter.
    pub fn new(address: String, topic: String, max_retries: usize) -> (c: ResilientConsumer)
        requires
            max_retries <= 62,
        ensures
            c.address == address,
            c.topic == topic,
            c.max_retries == max_retries,
    {
        ResilientConsumer { address, topic, max_retries }
    }

    /// Decides what follows one cycle, given how many consecutive failures
    /// preceded it and whether it completed without error. A clean cycle
    /// resets the failure count to zero, even if it delivered no messages. A
    /// failed cycle raises the count to `n`; the consumer gives up once the
    /// count exceeds `max_retries`, and otherwise backs off for `2^n`
    /// seconds — exponential, with no cap below the budget.
    pub fn next_decision(&self, consecutive_failures: usize, cycle_ok: bool) -> (r: (
        usize,
        RetryDecision,
    ))
        requires
            self.max_retries <= 62,
            consecutive_failures <= self.max_retries,
        ensures
            cycle_ok ==> r.0 == 0 && r.1 is Proceed,
            !cycle_ok ==> {
                &&& r.0 == consecutive_failures + 1
                &&& r.0 > self.max_retries ==> r.1 is GiveUp
                &&& r.0 <= self.max_retries ==> (r.1 matches RetryDecision::Backoff { seconds }
                    && seconds == pow2(r.0 as nat))
            },
    {
        if cycle_ok {
            (0, RetryDecision::Proceed)
        } else {
            let n = consecutive_failures + 1;
            if n > self.max_retries {
                (n, RetryDecision::GiveUp)
            } else {
                (n, RetryDecision::Backoff { seconds: backoff_seconds(n) })
            }
        }
    }
}

/// The exponential backoff delay: `2^failures` seconds.
pub fn backoff_seconds(failures: usize) -> (r: u64)
    requires
        failures <= 63,
    ensures
        r == pow2(failures as nat),
{
    proof {
        lemma2_to64();
        lemma2_to64_rest();
    }
    let mut r: u64 = 1;
    for i in 0..failures
        invariant
            failures <= 63,
            r == pow2(i as nat),
    {
        proof {
            vstd::arithmetic::power2::lemma_pow2_adds(1, i as nat);
            lemma_pow2_strictly_increases((i + 1) as nat, 64);
            lemma2_to64();
            assert(pow2((i + 1) as nat) == 2 * pow2(i as nat));
        }
        r = r * 2;
    }
    r
}

/// After consecutive failures one, two, and three, a resilient consumer is
/// told to back off for two, four, and eight seconds respectively, and one
/// clean cycle resets the count to zero.
pub proof fn lemma_backoff_first_steps()
    ensures
        pow2(1) == 2,
        pow2(2) == 4,
        pow2(3) == 8,
{
    lemma2_to64();
}

} // verus!
