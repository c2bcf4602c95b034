//! The proxy's account of subscriptions: how many subscribers each topic has,
//! kept from the control messages that subscribers send upstream.
use vstd::prelude::*;
use crate::text::{lossy_text, utf8_lossy};

verus! {

/// A subscription control message: a subscribe or an unsubscribe for a topic.
pub struct SubscriptionControl {
    pub subscribe: bool,
    pub topic: String,
}

/// What a control message did to the count of its topic.
#[derive(Clone, Copy, Debug, PartialEq, Eq, Structural)]
pub enum ControlEffect {
    /// A subscriber came; the topic now has `total`.
    Subscribed { total: usize },
    /// A subscriber left; the topic has `remaining`.
    Unsubscribed { remaining: usize },
    /// An unsubscribe for a topic without subscribers: nothing changed.
    Unchanged,
}

/// The control message that `frame` holds: none where it is empty; else it
/// subscribes where its first byte is 1, and names the topic that the rest of
/// its bytes spell.
pub open spec fn control_of(frame: Seq<u8>) -> Option<(bool, Seq<char>)> {
    if frame.len() == 0 {
        None
    } else {
        Some((frame[0] == 1, utf8_lossy(frame.drop_first())))
    }
}

/// Reads a subscription control message from a frame that the proxy's
/// publishing side received.
pub fn parse_control(frame: &[u8]) -> (res: Option<SubscriptionControl>)
    ensures
        match control_of(frame@) {
            None => res is None,
            Some((subscribe, topic)) => res matches Some(c) && c.subscribe == subscribe
                && c.topic@ == topic,
        },
{
    if frame.len() == 0 {
        return None;
    }
    let rest = vstd::slice::slice_subrange(frame, 1, frame.len());
    assert(rest@ =~= frame@.drop_first());
    Some(SubscriptionControl { subscribe: frame[0] == 1, topic: lossy_text(rest) })
}

/// How many subscribers `m` gives `topic`: none where it does not know it.
pub open spec fn count_in(m: Map<Seq<char>, nat>, topic: Seq<char>) -> nat {
    if m.contains_key(topic) {
        m[topic]
    } else {
        0
    }
}

/// The count of a topic after a control message: one more for a subscribe,
/// one fewer for an unsubscribe, never below zero.
pub open spec fn next_count(count: nat, subscribe: bool) -> nat {
    if subscribe {
        count + 1
    } else if count > 0 {
        (count - 1) as nat
    } else {
        0
    }
}

/// The counts after a control message for `topic`: the topic is recorded from
/// then on, with its next count; other topics keep theirs.
pub open spec fn after_control(m: Map<Seq<char>, nat>, subscribe: bool, topic: Seq<char>) -> Map<
    Seq<char>,
    nat,
> {
    m.insert(topic, next_count(count_in(m, topic), subscribe))
}

/// The number of subscribers of each topic that the proxy has seen.
pub struct SubscriptionTable {
    topics: Vec<String>,
    counts: Vec<usize>,
    counted: Ghost<Map<Seq<char>, nat>>,
}

impl View for SubscriptionTable {
    type V = Map<Seq<char>, nat>;

    closed spec fn view(&self) -> Map<Seq<char>, nat> {
        self.counted@
    }
}

impl SubscriptionTable {
    /// The table is well formed: one entry per topic, each holding the topic's count.
    pub closed spec fn wf(&self) -> bool {
        &&& self.topics.len() == self.counts.len()
        &&& forall|i: int, j: int|
            0 <= i < j < self.topics.len() ==> self.topics@[i]@ != self.topics@[j]@
        &&& forall|i: int|
            0 <= i < self.topics.len() ==> #[trigger] self.counted@.contains_key(self.topics@[i]@)
                && self.counted@[self.topics@[i]@] == self.counts@[i]
        &&& forall|t: Seq<char>| #[trigger]
            self.counted@.contains_key(t) ==> exists|i: int|
                0 <= i < self.topics.len() && self.topics@[i]@ == t
    }

    /// A table that knows no topic.
    pub fn new() -> (res: Self)
        ensures
            res.wf(),
            res@ == Map::<Seq<char>, nat>::empty(),
    {
        SubscriptionTable { topics: Vec::new(), counts: Vec::new(), counted: Ghost(Map::empty()) }
    }

    /// Where `topic` stands in the table, if it does.
    fn find(&self, topic: &String) -> (res: Option<usize>)
        requires
            self.wf(),
        ensures
            match res {
                Some(i) => i < self.topics.len() && self.topics@[i as int]@ == topic@,
                None => !self@.contains_key(topic@),
            },
    {
        let mut i: usize = 0;
        while i < self.topics.len()
            invariant
                self.wf(),
                i <= self.topics.len(),
                forall|j: int| 0 <= j < i ==> self.topics@[j]@ != topic@,
            decreases self.topics.len() - i,
        {
            if self.topics[i] == *topic {
                return Some(i);
            }
            i = i + 1;
        }
        proof {
            if self@.contains_key(topic@) {
                let k = choose|k: int| 0 <= k < self.topics.len() && self.topics@[k]@ == topic@;
                assert(self.topics@[k]@ != topic@);
            }
        }
        None
    }

    /// How many subscribers `topic` has.
    pub fn count_of(&self, topic: &String) -> (res: usize)
        requires
            self.wf(),
        ensures
            res == count_in(self@, topic@),
    {
        match self.find(topic) {
            Some(i) => self.counts[i],
            None => 0,
        }
    }

    /// Takes a control message into account: the topic gets one subscriber
    /// more for a subscribe, one fewer for an unsubscribe where it has any.
    /// The topic is recorded either way.
    pub fn apply(&mut self, control: &SubscriptionControl) -> (effect: ControlEffect)
        requires
            old(self).wf(),
            control.subscribe ==> count_in(old(self)@, control.topic@) < usize::MAX,
        ensures
            final(self).wf(),
            final(self)@ == after_control(old(self)@, control.subscribe, control.topic@),
            effect == if control.subscribe {
                ControlEffect::Subscribed {
                    total: (count_in(old(self)@, control.topic@) + 1) as usize,
                }
            } else if count_in(old(self)@, control.topic@) > 0 {
                ControlEffect::Unsubscribed {
                    remaining: (count_in(old(self)@, control.topic@) - 1) as usize,
                }
            } else {
                ControlEffect::Unchanged
            },
    {
        let ghost old_map = self@;
        let ghost t = control.topic@;
        let i = match self.find(&control.topic) {
            Some(i) => i,
            None => {
                let ghost before = self.topics@;
                self.topics.push(control.topic.clone());
                self.counts.push(0);
                self.counted = Ghost(self.counted@.insert(t, 0));
                let n = self.topics.len() - 1;
                proof {
                    assert(self.topics@[n as int]@ == t);
                    assert forall|j: int| 0 <= j < n implies self.topics@[j]@ != t by {
                        assert(self.topics@[j] == before[j]);
                        assert(old_map.contains_key(before[j]@));
                    }
                    assert forall|k: Seq<char>| #[trigger]
                        self.counted@.contains_key(k) implies exists|j: int|
                        0 <= j < self.topics.len() && self.topics@[j]@ == k by {
                        if k != t {
                            assert(old_map.contains_key(k));
                            let j = choose|j: int| 0 <= j < before.len() && before[j]@ == k;
                            assert(self.topics@[j]@ == k);
                        }
                    }
                }
                n
            },
        };
        assert(self.wf());
        assert(self.topics@[i as int]@ == t);
        assert(count_in(old_map, t) == self.counts@[i as int]);
        let count = self.counts[i];
        let (new_count, effect) = if control.subscribe {
            (count + 1, ControlEffect::Subscribed { total: count + 1 })
        } else if count > 0 {
            (count - 1, ControlEffect::Unsubscribed { remaining: count - 1 })
        } else {
            (0, ControlEffect::Unchanged)
        };
        let ghost mid = self.counted@;
        let ghost counts_mid = self.counts@;
        self.counts.set(i, new_count);
        self.counted = Ghost(self.counted@.insert(t, new_count as nat));
        proof {
            assert forall|k: Seq<char>| #[trigger]
                self.counted@.contains_key(k) implies exists|j: int|
                0 <= j < self.topics.len() && self.topics@[j]@ == k by {
                if k == t {
                    assert(self.topics@[i as int]@ == k);
                } else {
                    assert(mid.contains_key(k));
                }
            }
            assert forall|j: int| 0 <= j < self.topics.len() implies #[trigger]
                self.counted@.contains_key(self.topics@[j]@) && self.counted@[self.topics@[j]@]
                == self.counts@[j] by {
                if j != i {
                    if j < i {
                        assert(self.topics@[j]@ != self.topics@[i as int]@);
                    } else {
                        assert(self.topics@[i as int]@ != self.topics@[j]@);
                    }
                    assert(mid.contains_key(self.topics@[j]@));
                    assert(mid[self.topics@[j]@] == counts_mid[j]);
                }
            }
            assert(self@ =~= after_control(old_map, control.subscribe, t));
        }
        effect
    }

    /// The topics with their counts, each topic once.
    pub fn entries(&self) -> (res: Vec<(String, usize)>)
        requires
            self.wf(),
        ensures
            forall|i: int, j: int| 0 <= i < j < res.len() ==> res@[i].0@ != res@[j].0@,
            forall|i: int|
                0 <= i < res.len() ==> #[trigger] self@.contains_key(res@[i].0@) && self@[res@[i].0@]
                    == res@[i].1,
            forall|t: Seq<char>| #[trigger]
                self@.contains_key(t) ==> exists|i: int| 0 <= i < res.len() && res@[i].0@ == t,
    {
        let mut res: Vec<(String, usize)> = Vec::new();
        let mut i: usize = 0;
        while i < self.topics.len()
            invariant
                self.wf(),
                i <= self.topics.len(),
                res.len() == i,
                forall|j: int| 0 <= j < i ==> (#[trigger] res@[j]).0@ == self.topics@[j]@
                    && res@[j].1 == self.counts@[j],
            decreases self.topics.len() - i,
        {
            res.push((self.topics[i].clone(), self.counts[i]));
            i = i + 1;
        }
        proof {
            assert forall|t: Seq<char>| #[trigger]
                self@.contains_key(t) implies exists|j: int| 0 <= j < res.len() && res@[j].0@ == t by {
                let j = choose|j: int| 0 <= j < self.topics.len() && self.topics@[j]@ == t;
                assert(res@[j].0@ == t);
            }
        }
        res
    }
}

/// A subscribe followed by an unsubscribe for the same topic leaves every
/// count as it was; the topic stays recorded.
pub proof fn lemma_subscribe_then_unsubscribe(m: Map<Seq<char>, nat>, topic: Seq<char>)
    ensures
        after_control(after_control(m, true, topic), false, topic) == m.insert(
            topic,
            count_in(m, topic),
        ),
{
    assert(after_control(after_control(m, true, topic), false, topic) =~= m.insert(
        topic,
        count_in(m, topic),
    ));
}

/// A control message changes the count of its own topic only.
pub proof fn lemma_control_keeps_other_topics(
    m: Map<Seq<char>, nat>,
    subscribe: bool,
    topic: Seq<char>,
    other: Seq<char>,
)
    requires
        other != topic,
    ensures
        count_in(after_control(m, subscribe, topic), other) == count_in(m, other),
{
}

/// An unsubscribe for a topic without subscribers leaves its count at zero.
pub proof fn lemma_unsubscribe_at_zero(m: Map<Seq<char>, nat>, topic: Seq<char>)
    requires
        count_in(m, topic) == 0,
    ensures
        count_in(after_control(m, false, topic), topic) == 0,
{
}

/// A control frame subscribes exactly when its first byte is 1, whatever
/// follows it (nothing included: the empty topic, every topic), and names the
/// topic that the bytes after the first spell.
pub proof fn lemma_control_frame(first: u8, rest: Seq<u8>)
    ensures
        control_of(seq![first] + rest) == Some((first == 1, utf8_lossy(rest))),
{
    assert((seq![first] + rest).drop_first() =~= rest);
}

/// An empty frame is no control message.
pub proof fn lemma_empty_frame_is_no_control()
    ensures
        control_of(Seq::<u8>::empty()) is None,
{
}

/// A subscribe adds one subscriber to its topic, an unsubscribe takes one
/// away where there is one and leaves zero at zero.
pub proof fn lemma_control_counts(m: Map<Seq<char>, nat>, topic: Seq<char>)
    ensures
        count_in(after_control(m, true, topic), topic) == count_in(m, topic) + 1,
        count_in(m, topic) > 0 ==> count_in(after_control(m, false, topic), topic) + 1 == count_in(
            m,
            topic,
        ),
        count_in(m, topic) == 0 ==> count_in(after_control(m, false, topic), topic) == 0,
{
}

} // verus!
