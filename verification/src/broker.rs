//! The topic registry: a broker that maps topic names to topic logs.

use vstd::prelude::*;
use crate::topic::{Message, Topic};

verus! {

/// Compares two string slices character by character.
fn str_eq(a: &str, b: &str) -> (r: bool)
    ensures
        r == (a@ == b@),
{
    let alen = a.unicode_len();
    let blen = b.unicode_len();
    if alen != blen {
        return false;
    }
    for i in 0..alen
        invariant
            alen == a@.len(),
            blen == b@.len(),
            alen == blen,
            forall|j: int| 0 <= j < i ==> a@[j] == b@[j],
    {
        if a.get_char(i) != b.get_char(i) {
            return false;
        }
    }
    proof {
        assert(a@ =~= b@);
    }
    true
}

/// The broker's registry of topics. Each topic name owns at most one topic,
/// and callers address a topic through its index in the registry, which never
/// changes once assigned: the registry only grows.
pub struct Broker {
    pub topics: Vec<Topic>,
}

impl Broker {
    /// The registry invariant: every topic log is well formed and no two
    /// registered topics share a name.
    pub open spec fn wf(self) -> bool {
        &&& forall|i: int| 0 <= i < self.topics@.len() ==> (#[trigger] self.topics@[i]).wf()
        &&& forall|i: int, j: int|
            0 <= i < self.topics@.len() && 0 <= j < self.topics@.len() && i != j
                ==> (#[trigger] self.topics@[i]).name@ != (#[trigger] self.topics@[j]).name@
    }

    /// Whether some registered topic carries `name`.
    pub open spec fn has_topic(self, name: Seq<char>) -> bool {
        exists|i: int| 0 <= i < self.topics@.len() && (#[trigger] self.topics@[i]).name@ == name
    }

    /// The index of the topic named `name`; meaningful only when
    /// `has_topic(name)` holds, and then unique by the registry invariant.
    pub open spec fn topic_index(self, name: Seq<char>) -> int {
        choose|i: int| 0 <= i < self.topics@.len() && (#[trigger] self.topics@[i]).name@ == name
    }

    pub fn new() -> (b: Broker)
        ensures
            b.wf(),
            b.topics@.len() == 0,
    {
        Broker { topics: Vec::new() }
    }

    /// Returns the index of the topic named `topic` if one is registered.
    /// A read-only lookup: nothing is created.
    pub fn lookup(&self, topic: &str) -> (r: Option<usize>)
        requires
            self.wf(),
        ensures
            match r {
                Some(i) => self.has_topic(topic@) && i == self.topic_index(topic@),
                None => !self.has_topic(topic@),
            },
    {
        let n = self.topics.len();
        for i in 0..n
            invariant
                self.wf(),
                n == self.topics@.len(),
                forall|j: int| 0 <= j < i ==> (#[trigger] self.topics@[j]).name@ != topic@,
        {
            if str_eq(self.topics[i].name.as_str(), topic) {
                return Some(i);
            }
        }
        None
    }

    /// Returns the index of the topic named `topic`, registering a new empty
    /// topic under that name first if none exists yet. Idempotent: a repeated
    /// call with the same name returns the same index and changes nothing.
    pub fn get_or_create_topic(&mut self, topic: &str) -> (idx: usize)
        requires
            old(self).wf(),
            old(self).topics@.len() < usize::MAX,
        ensures
            final(self).wf(),
            idx < final(self).topics@.len(),
            final(self).topics@[idx as int].name@ == topic@,
            final(self).has_topic(topic@),
            idx == final(self).topic_index(topic@),
            old(self).has_topic(topic@) ==> *final(self) == *old(self),
            !old(self).has_topic(topic@) ==> {
                &&& idx == old(self).topics@.len()
                &&& final(self).topics@.len() == old(self).topics@.len() + 1
                &&& forall|j: int|
                    0 <= j < old(self).topics@.len()
                        ==> final(self).topics@[j] == old(self).topics@[j]
                &&& final(self).topics@[idx as int].messages@.len() == 0
            },
    {
        let found = self.lookup(topic);
        match found {
            Some(i) => {
                proof {
                    lemma_unique_topic_index(*self, topic@, i as int);
                }
                i
            }
            None => {
                let idx = self.topics.len();
                let t = Topic::new(topic);
                self.topics.push(t);
                proof {
                    lemma_unique_topic_index(*self, topic@, idx as int);
                }
                idx
            }
        }
    }

    /// Appends `payload` to the topic named `topic`, registering the topic
    /// first if it does not exist yet, and returns the offset the message was
    /// assigned. Every other topic is left untouched.
    pub fn publish_message(&mut self, topic: &str, payload: String) -> (offset: usize)
        requires
            old(self).wf(),
            old(self).topics@.len() < usize::MAX,
            old(self).has_topic(topic@)
                ==> old(self).topics@[old(self).topic_index(topic@)].messages@.len() < usize::MAX,
        ensures
            final(self).wf(),
            final(self).has_topic(topic@),
            ({
                let i = final(self).topic_index(topic@);
                &&& old(self).has_topic(topic@) ==> {
                    &&& i == old(self).topic_index(topic@)
                    &&& final(self).topics@.len() == old(self).topics@.len()
                    &&& offset == old(self).topics@[i].messages@.len()
                    &&& final(self).topics@[i].messages@ == old(self).topics@[i].messages@.push(
                        Message { payload, offset },
                    )
                    &&& final(self).topics@[i].name@ == old(self).topics@[i].name@
                }
                &&& !old(self).has_topic(topic@) ==> {
                    &&& i == old(self).topics@.len()
                    &&& final(self).topics@.len() == old(self).topics@.len() + 1
                    &&& offset == 0
                    &&& final(self).topics@[i].messages@ == seq![
                        Message { payload, offset: 0usize },
                    ]
                    &&& final(self).topics@[i].name@ == topic@
                }
                &&& forall|j: int|
                    0 <= j < final(self).topics@.len() && j != i
                        ==> final(self).topics@[j] == old(self).topics@[j]
            }),
    {
        let idx = self.get_or_create_topic(topic);
        let offset = self.topics[idx].publish(payload);
        proof {
            assert(final(self).topics@[idx as int].name@ == topic@);
            lemma_unique_topic_index(*self, topic@, idx as int);
            if !old(self).has_topic(topic@) {
                assert(final(self).topics@[idx as int].messages@ =~= seq![
                    Message { payload, offset: 0usize },
                ]);
            }
        }
        offset
    }
}

/// In a well-formed registry any index whose topic carries `name` is the one
/// and only such index: two handles obtained for the same name always address
/// the same single topic.
pub proof fn lemma_unique_topic_index(b: Broker, name: Seq<char>, i: int)
    requires
        b.wf(),
        0 <= i < b.topics@.len(),
        b.topics@[i].name@ == name,
    ensures
        b.has_topic(name),
        b.topic_index(name) == i,
{
    assert(b.has_topic(name));
    let j = b.topic_index(name);
    assert(0 <= j < b.topics@.len() && b.topics@[j].name@ == name);
    if i != j {
        assert(b.topics@[i].name@ != b.topics@[j].name@);
    }
}

} // verus!
