//! The event broker: who gets which event.
//!
//! The broker owns the list of subscribers and the receiving end of the one
//! channel on which every actor publishes. For each event it decides which
//! subscribers get a copy; the caller awaits the sends, in the order given.

use vstd::prelude::*;
use tokio::sync::mpsc::{Receiver, Sender};
use crate::event::{Event, EventView};
use crate::text::same_text;
use crate::topic::{topic_of, topic_of_view, Topic};

verus! {

/// One registration with the broker. It never changes once made.
pub struct Subscriber {
    pub name: String,
    pub sender: Sender<Event>,
    pub topics: &'static [Topic],
}

/// One copy of an event, on its way to one subscriber.
pub struct Delivery<'a> {
    /// The position of the subscriber in the order of registration.
    pub subscriber: usize,
    /// The subscriber's channel.
    pub sender: &'a Sender<Event>,
    /// The copy to send.
    pub event: Event,
}

/// The hub that forwards events by topic.
pub struct EventBroker {
    receiver: Receiver<Event>,
    subscribers: Vec<Subscriber>,
}

/// Whether a subscriber with these topics is to get this event.
pub open spec fn wants(topics: Seq<Topic>, event: EventView, force: bool) -> bool {
    force || topics.contains(topic_of_view(event.payload))
}

/// `targets` is the routing of `event` among `subscribers`: the positions of
/// those that want it, each once, in the order of registration.
pub open spec fn is_routing(
    subscribers: Seq<Subscriber>,
    event: EventView,
    force: bool,
    targets: Seq<int>,
) -> bool {
    &&& forall|k: int|
        0 <= k < targets.len() ==> 0 <= #[trigger] targets[k] < subscribers.len() && wants(
            subscribers[targets[k]].topics@,
            event,
            force,
        )
    &&& forall|j: int, k: int|
        0 <= j < k < targets.len() ==> #[trigger] targets[j] < #[trigger] targets[k]
    &&& forall|i: int|
        0 <= i < subscribers.len() && wants(#[trigger] subscribers[i].topics@, event, force)
            ==> targets.contains(i)
}

/// `deliveries` is what the broker sends for `event`: one copy for each
/// subscriber that the routing names, in that order, each through the
/// channel that the subscriber registered.
pub open spec fn delivers(
    subscribers: Seq<Subscriber>,
    event: EventView,
    force: bool,
    deliveries: Seq<Delivery>,
) -> bool {
    &&& is_routing(subscribers, event, force, targets_of(deliveries))
    &&& forall|k: int|
        0 <= k < deliveries.len() ==> (#[trigger] deliveries[k]).event@ == event
            && *deliveries[k].sender == subscribers[deliveries[k].subscriber as int].sender
}

/// The positions that a list of deliveries goes to.
pub open spec fn targets_of(deliveries: Seq<Delivery>) -> Seq<int> {
    Seq::new(deliveries.len(), |k: int| deliveries[k].subscriber as int)
}

/// What one subscriber has received once the broker has routed `published`,
/// event by event and without force: the events under its topics, in the
/// order in which they were published.
pub open spec fn inbox(topics: Seq<Topic>, published: Seq<EventView>) -> Seq<EventView> {
    published.filter(|event: EventView| wants(topics, event, false))
}

/// Tells whether `topic` is among `topics`.
pub fn subscribes(topics: &[Topic], topic: Topic) -> (found: bool)
    ensures
        found == topics@.contains(topic),
{
    let mut i: usize = 0;
    while i < topics.len()
        invariant
            i <= topics.len(),
            forall|j: int| 0 <= j < i ==> topics@[j] != topic,
        decreases topics.len() - i,
    {
        if topics[i] == topic {
            return true;
        }
        i += 1;
    }
    false
}

impl EventBroker {
    /// The subscribers, in the order of registration.
    pub closed spec fn subscribers(&self) -> Seq<Subscriber> {
        self.subscribers@
    }

    /// The receiving end of the channel on which actors publish.
    pub closed spec fn receiver(&self) -> Receiver<Event> {
        self.receiver
    }

    /// A broker without subscribers that reads from `receiver`.
    pub fn new(receiver: Receiver<Event>) -> (broker: EventBroker)
        ensures
            broker.subscribers() == Seq::<Subscriber>::empty(),
            broker.receiver() == receiver,
    {
        EventBroker { receiver, subscribers: Vec::new() }
    }

    /// Registers a subscriber behind those already there. A name may be
    /// taken twice, since routing goes by topics; the result tells whether
    /// it was, so that the caller can log it.
    pub fn add_subscriber(
        &mut self,
        sender: Sender<Event>,
        name: String,
        topics: &'static [Topic],
    ) -> (duplicate: bool)
        ensures
            final(self).subscribers() == old(self).subscribers().push(
                (Subscriber { name, sender, topics }),
            ),
            final(self).receiver() == old(self).receiver(),
            duplicate == exists|i: int|
                0 <= i < old(self).subscribers().len()
                    && #[trigger] old(self).subscribers()[i].name@ == name@,
    {
        let duplicate = self.has_subscriber(name.as_str());
        self.subscribers.push(Subscriber { name, sender, topics });
        duplicate
    }

    /// Tells whether a subscriber of that name is registered.
    pub fn has_subscriber(&self, name: &str) -> (found: bool)
        ensures
            found == exists|i: int|
                0 <= i < self.subscribers().len() && #[trigger] self.subscribers()[i].name@
                    == name@,
    {
        let mut i: usize = 0;
        while i < self.subscribers.len()
            invariant
                i <= self.subscribers.len(),
                forall|j: int| 0 <= j < i ==> self.subscribers@[j].name@ != name@,
            decreases self.subscribers.len() - i,
        {
            if same_text(self.subscribers[i].name.as_str(), name) {
                assert(self.subscribers()[i as int].name@ == name@);
                return true;
            }
            i += 1;
        }
        false
    }

    /// The number of subscribers.
    pub fn subscriber_count(&self) -> (count: usize)
        ensures
            count == self.subscribers().len(),
    {
        self.subscribers.len()
    }

    /// The subscriber at a position in the order of registration, if there
    /// is one.
    pub fn subscriber(&self, position: usize) -> (found: Option<&Subscriber>)
        ensures
            found is Some <==> position < self.subscribers().len(),
            found matches Some(subscriber) ==> *subscriber == self.subscribers()[position as int],
    {
        if position < self.subscribers.len() {
            Some(&self.subscribers[position])
        } else {
            None
        }
    }

    /// The channel to await the next published event on.
    pub fn inbound(&mut self) -> (receiver: &mut Receiver<Event>)
        ensures
            *receiver == old(self).receiver(),
            final(self).receiver() == *final(receiver),
            final(self).subscribers() == old(self).subscribers(),
    {
        &mut self.receiver
    }

    /// Decides who gets `event`. With `force` every subscriber does, whatever
    /// its topics; without, those whose topics hold the topic of the event.
    /// Each of them gets one copy, and the copies are listed in the order of
    /// registration. No subscriber at all is no error: the list is empty.
    pub fn broadcast(&self, event: &Event, force: bool) -> (deliveries: Vec<Delivery<'_>>)
        ensures
            delivers(self.subscribers(), event@, force, deliveries@),
    {
        let topic = topic_of(&event.payload);
        let mut deliveries: Vec<Delivery<'_>> = Vec::new();
        let mut i: usize = 0;
        while i < self.subscribers.len()
            invariant
                i <= self.subscribers.len(),
                topic == topic_of_view(event@.payload),
                delivers(self.subscribers@.take(i as int), event@, force, deliveries@),
            decreases self.subscribers.len() - i,
        {
            let subscriber = &self.subscribers[i];
            let ghost before = targets_of(deliveries@);
            let ghost sent = deliveries@;
            if force || subscribes(subscriber.topics, topic) {
                deliveries.push(
                    Delivery { subscriber: i, sender: &subscriber.sender, event: event.clone() },
                );
                proof {
                    assert(targets_of(deliveries@) =~= before.push(i as int));
                }
            }
            proof {
                lemma_routing_extends(self.subscribers@, event@, force, i as int, before);
                let longer = self.subscribers@.take(i as int + 1);
                assert forall|k: int| 0 <= k < deliveries.len() implies {
                    &&& (#[trigger] deliveries[k]).event@ == event@
                    &&& *deliveries[k].sender == longer[deliveries[k].subscriber as int].sender
                } by {
                    if k < sent.len() {
                        assert(deliveries[k] == sent[k]);
                        assert(before[k] == sent[k].subscriber);
                        assert(self.subscribers@.take(i as int)[before[k]] == longer[before[k]]);
                    }
                }
            }
            i += 1;
        }
        proof {
            assert(self.subscribers@.take(i as int) =~= self.subscribers@);
        }
        deliveries
    }

    /// One turn of the broker's loop on what its channel gave: an event is
    /// routed by its topic, and `None`, the closed channel, ends the loop.
    pub fn run(&self, inbound: Option<Event>) -> (step: Option<Vec<Delivery<'_>>>)
        ensures
            inbound is None <==> step is None,
            inbound matches Some(event) ==> delivers(self.subscribers(), event@, false, step->0@),
    {
        match inbound {
            Some(event) => Some(self.broadcast(&event, false)),
            None => None,
        }
    }
}

/// Routing grows with the list of subscribers: the routing among the first
/// `i` of them becomes the routing among the first `i + 1` by adding
/// position `i` if that subscriber wants the event.
proof fn lemma_routing_extends(
    subscribers: Seq<Subscriber>,
    event: EventView,
    force: bool,
    i: int,
    targets: Seq<int>,
)
    requires
        0 <= i < subscribers.len(),
        is_routing(subscribers.take(i), event, force, targets),
    ensures
        wants(subscribers[i].topics@, event, force) ==> is_routing(
            subscribers.take(i + 1),
            event,
            force,
            targets.push(i),
        ),
        !wants(subscribers[i].topics@, event, force) ==> is_routing(
            subscribers.take(i + 1),
            event,
            force,
            targets,
        ),
{
    let shorter = subscribers.take(i);
    let longer = subscribers.take(i + 1);
    assert forall|k: int| 0 <= k < shorter.len() implies shorter[k] == longer[k] by {}
    if wants(subscribers[i].topics@, event, force) {
        let grown = targets.push(i);
        assert forall|k: int| 0 <= k < grown.len() implies 0 <= #[trigger] grown[k] < longer.len()
            && wants(longer[grown[k]].topics@, event, force) by {
            if k < targets.len() {
                assert(grown[k] == targets[k]);
                assert(shorter[targets[k]] == longer[targets[k]]);
            }
        }
        assert forall|j: int, k: int| 0 <= j < k < grown.len() implies #[trigger] grown[j]
            < #[trigger] grown[k] by {
            assert(grown[j] == targets[j]);
            if k < targets.len() {
                assert(grown[k] == targets[k]);
            }
        }
        assert forall|p: int|
            0 <= p < longer.len() && wants(#[trigger] longer[p].topics@, event, force)
            implies grown.contains(p) by {
            if p < i {
                assert(shorter[p] == longer[p]);
                assert(targets.contains(p));
                let k = choose|k: int| 0 <= k < targets.len() && targets[k] == p;
                assert(grown[k] == p);
            } else {
                assert(grown[targets.len() as int] == p);
            }
        }
    } else {
        assert forall|k: int| 0 <= k < targets.len() implies 0 <= #[trigger] targets[k]
            < longer.len() && wants(longer[targets[k]].topics@, event, force) by {
            assert(shorter[targets[k]] == longer[targets[k]]);
        }
        assert forall|p: int|
            0 <= p < longer.len() && wants(#[trigger] longer[p].topics@, event, force)
            implies targets.contains(p) by {
            assert(p < i);
            assert(shorter[p] == longer[p]);
        }
    }
}

/// There is one routing and no other: two lists that both route `event`
/// among `subscribers` are the same list.
pub proof fn law_routing_is_unique(
    subscribers: Seq<Subscriber>,
    event: EventView,
    force: bool,
    left: Seq<int>,
    right: Seq<int>,
)
    requires
        is_routing(subscribers, event, force, left),
        is_routing(subscribers, event, force, right),
    ensures
        left == right,
{
    assert forall|p: int| left.contains(p) <==> right.contains(p) by {
        if left.contains(p) {
            let k = choose|k: int| 0 <= k < left.len() && left[k] == p;
            assert(wants(subscribers[left[k]].topics@, event, force));
        }
        if right.contains(p) {
            let k = choose|k: int| 0 <= k < right.len() && right[k] == p;
            assert(wants(subscribers[right[k]].topics@, event, force));
        }
    }
    lemma_ascending_lists_agree(left, right);
}

/// Two ascending lists of numbers with the same members are the same list.
proof fn lemma_ascending_lists_agree(left: Seq<int>, right: Seq<int>)
    requires
        forall|j: int, k: int| 0 <= j < k < left.len() ==> #[trigger] left[j] < #[trigger] left[k],
        forall|j: int, k: int|
            0 <= j < k < right.len() ==> #[trigger] right[j] < #[trigger] right[k],
        forall|p: int| left.contains(p) <==> right.contains(p),
    ensures
        left == right,
    decreases left.len(),
{
    if left.len() == 0 {
        if right.len() > 0 {
            assert(right.contains(right[0]));
        }
        assert(left =~= right);
    } else {
        let top = left.last();
        assert(left.contains(top));
        let at = choose|k: int| 0 <= k < right.len() && right[k] == top;
        assert(right.contains(right.last()));
        let back = choose|k: int| 0 <= k < left.len() && left[k] == right.last();
        assert(right.last() == top) by {
            if back < left.len() - 1 {
                assert(left[back] < left[left.len() - 1]);
            }
            if at < right.len() - 1 {
                assert(right[at] < right[right.len() - 1]);
            }
        }
        let shorter_left = left.drop_last();
        let shorter_right = right.drop_last();
        assert forall|p: int| shorter_left.contains(p) <==> shorter_right.contains(p) by {
            if shorter_left.contains(p) {
                let k = choose|k: int| 0 <= k < shorter_left.len() && shorter_left[k] == p;
                assert(left[k] == p);
                assert(left[k] < left[left.len() - 1]);
                assert(left.contains(p));
                let m = choose|m: int| 0 <= m < right.len() && right[m] == p;
                assert(shorter_right[m] == p);
            }
            if shorter_right.contains(p) {
                let k = choose|k: int| 0 <= k < shorter_right.len() && shorter_right[k] == p;
                assert(right[k] == p);
                assert(right[k] < right[right.len() - 1]);
                assert(right.contains(p));
                let m = choose|m: int| 0 <= m < left.len() && left[m] == p;
                assert(shorter_left[m] == p);
            }
        }
        assert forall|j: int, k: int|
            0 <= j < k < shorter_left.len() implies #[trigger] shorter_left[j]
            < #[trigger] shorter_left[k] by {
            assert(left[j] < left[k]);
        }
        assert forall|j: int, k: int|
            0 <= j < k < shorter_right.len() implies #[trigger] shorter_right[j]
            < #[trigger] shorter_right[k] by {
            assert(right[j] < right[k]);
        }
        lemma_ascending_lists_agree(shorter_left, shorter_right);
        assert(left =~= shorter_left.push(top));
        assert(right =~= shorter_right.push(top));
    }
}

/// A forced broadcast reaches every subscriber, whatever its topics: its
/// routing is the list of all positions, in the order of registration.
pub proof fn law_forced_broadcast_reaches_all(
    subscribers: Seq<Subscriber>,
    event: EventView,
    targets: Seq<int>,
)
    requires
        is_routing(subscribers, event, true, targets),
    ensures
        targets == Seq::new(subscribers.len(), |i: int| i),
{
    let everyone = Seq::new(subscribers.len(), |i: int| i);
    assert forall|i: int|
        0 <= i < subscribers.len() && wants(#[trigger] subscribers[i].topics@, event, true)
        implies everyone.contains(i) by {
        assert(everyone[i] == i);
    }
    assert(is_routing(subscribers, event, true, everyone));
    law_routing_is_unique(subscribers, event, true, targets, everyone);
}

/// Without force an event goes to the subscribers whose topics hold its
/// topic and to no other: a position is in the routing exactly if the topic
/// of the event is among the topics registered at that position.
pub proof fn law_routing_goes_by_topic(
    subscribers: Seq<Subscriber>,
    event: EventView,
    targets: Seq<int>,
    position: int,
)
    requires
        is_routing(subscribers, event, false, targets),
        0 <= position < subscribers.len(),
    ensures
        targets.contains(position) <==> subscribers[position].topics@.contains(
            topic_of_view(event.payload),
        ),
{
    if targets.contains(position) {
        let k = choose|k: int| 0 <= k < targets.len() && targets[k] == position;
        assert(wants(subscribers[targets[k]].topics@, event, false));
    }
    if subscribers[position].topics@.contains(topic_of_view(event.payload)) {
        assert(wants(subscribers[position].topics@, event, false));
    }
}

/// One more published event adds to an inbox exactly if the subscriber's
/// topics hold its topic, and then at the end: what came first stays first.
pub proof fn law_inbox_grows_in_order(
    topics: Seq<Topic>,
    published: Seq<EventView>,
    event: EventView,
)
    ensures
        inbox(topics, published.push(event)) == if topics.contains(
            topic_of_view(event.payload),
        ) {
            inbox(topics, published).push(event)
        } else {
            inbox(topics, published)
        },
{
    let pred = |event: EventView| wants(topics, event, false);
    published.lemma_filter_push(event, pred);
    assert(pred(event) == topics.contains(topic_of_view(event.payload)));
}

/// A subscriber registered for the one topic `topic` receives every
/// published event of that topic and none of another, in the order in
/// which they were published.
pub proof fn law_filtering(topic: Topic, published: Seq<EventView>)
    ensures
        inbox(seq![topic], published) == published.filter(
            |event: EventView| topic_of_view(event.payload) == topic,
        ),
        forall|k: int|
            0 <= k < inbox(seq![topic], published).len() ==> topic_of_view(
                (#[trigger] inbox(seq![topic], published)[k]).payload,
            ) == topic,
        forall|i: int|
            0 <= i < published.len() && topic_of_view((#[trigger] published[i]).payload) == topic
                ==> inbox(seq![topic], published).contains(published[i]),
    decreases published.len(),
{
    let subscribed = |event: EventView| wants(seq![topic], event, false);
    let of_topic = |event: EventView| topic_of_view(event.payload) == topic;
    assert forall|event: EventView| #[trigger] subscribed(event) == of_topic(event) by {
        if of_topic(event) {
            assert(seq![topic][0] == topic);
        }
    }
    assert(subscribed =~= of_topic);
    assert forall|i: int|
        0 <= i < published.len() && topic_of_view((#[trigger] published[i]).payload) == topic
        implies inbox(seq![topic], published).contains(published[i]) by {
        assert(subscribed(published[i]));
        published.lemma_filter_contains(subscribed, i);
    }
    assert forall|k: int| 0 <= k < inbox(seq![topic], published).len() implies topic_of_view(
        (#[trigger] inbox(seq![topic], published)[k]).payload,
    ) == topic by {
        published.lemma_filter_pred(subscribed, k);
    }
}

} // verus!
