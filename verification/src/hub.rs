//! Broadcast hub: every published message is queued for each current
//! subscriber, in publication order. A subscriber holds at most `capacity`
//! unread messages; when one more arrives, its oldest unread message is
//! dropped. Nothing published before a subscription is ever queued for it.

use crate::text::texts;
use std::collections::VecDeque;
use vstd::prelude::*;

verus! {

/// What one subscriber has been sent and has not read yet, oldest first.
pub struct SubscriberView {
    pub id: u64,
    pub pending: Seq<Seq<char>>,
}

/// The hub as a mathematical value: its subscribers in the order in which
/// they registered.
pub struct HubView {
    pub capacity: nat,
    pub issued: nat,
    pub subscribers: Seq<SubscriberView>,
}

/// The last `n` items of `s`, or all of `s` where it has no more than `n`.
pub open spec fn keep_last<A>(s: Seq<A>, n: nat) -> Seq<A> {
    if s.len() > n {
        s.skip(s.len() - n)
    } else {
        s
    }
}

impl HubView {
    /// Identifiers rise with the order of registration, each is below the
    /// number issued so far, and no queue is longer than the capacity.
    pub open spec fn wf(self) -> bool {
        &&& self.capacity >= 1
        &&& self.issued <= u64::MAX
        &&& forall|i: int|
            0 <= i < self.subscribers.len() ==> {
                &&& (#[trigger] self.subscribers[i]).id < self.issued
                &&& self.subscribers[i].pending.len() <= self.capacity
            }
        &&& forall|i: int, j: int|
            0 <= i < j < self.subscribers.len() ==> (#[trigger] self.subscribers[i]).id < (
            #[trigger] self.subscribers[j]).id
    }

    /// A hub with no subscriber that has issued no identifier yet.
    pub open spec fn fresh(capacity: nat) -> HubView {
        HubView { capacity, issued: 0, subscribers: Seq::empty() }
    }

    /// Whether `id` is the identifier of a subscriber.
    pub open spec fn is_subscribed(self, id: u64) -> bool {
        exists|i: int| 0 <= i < self.subscribers.len() && (#[trigger] self.subscribers[i]).id == id
    }

    /// Where the subscriber `id` stands among the subscribers.
    pub open spec fn position(self, id: u64) -> int {
        choose|i: int| 0 <= i < self.subscribers.len() && (#[trigger] self.subscribers[i]).id == id
    }

    /// The unread messages of subscriber `id`; none for an unknown identifier.
    pub open spec fn pending(self, id: u64) -> Seq<Seq<char>> {
        if self.is_subscribed(id) {
            self.subscribers[self.position(id)].pending
        } else {
            Seq::empty()
        }
    }

    /// Every subscriber is sent `message`; a full queue loses its oldest entry.
    pub open spec fn publish(self, message: Seq<char>) -> HubView {
        HubView {
            subscribers: Seq::new(
                self.subscribers.len(),
                |i: int|
                    SubscriberView {
                        id: self.subscribers[i].id,
                        pending: keep_last(
                            self.subscribers[i].pending.push(message),
                            self.capacity,
                        ),
                    },
            ),
            ..self
        }
    }

    /// The messages of `messages` are published one after another.
    pub open spec fn publish_all(self, messages: Seq<Seq<char>>) -> HubView
        decreases messages.len(),
    {
        if messages.len() == 0 {
            self
        } else {
            self.publish_all(messages.drop_last()).publish(messages.last())
        }
    }

    /// A new subscriber registers under the next identifier, with nothing to
    /// read.
    pub open spec fn subscribe(self) -> HubView {
        HubView {
            issued: self.issued + 1,
            subscribers: self.subscribers.push(
                SubscriberView { id: self.issued as u64, pending: Seq::empty() },
            ),
            ..self
        }
    }

    /// Subscriber `id` takes its oldest unread message, if it has one.
    pub open spec fn receive(self, id: u64) -> HubView {
        if self.pending(id).len() > 0 {
            HubView {
                subscribers: self.subscribers.update(
                    self.position(id),
                    SubscriberView { id, pending: self.pending(id).drop_first() },
                ),
                ..self
            }
        } else {
            self
        }
    }

    /// Subscriber `id` takes its oldest unread message `count` times over.
    pub open spec fn receive_times(self, id: u64, count: nat) -> HubView
        decreases count,
    {
        if count == 0 {
            self
        } else {
            self.receive(id).receive_times(id, (count - 1) as nat)
        }
    }

    /// Subscriber `id` leaves; what it had not read is discarded.
    pub open spec fn unsubscribe(self, id: u64) -> HubView {
        if self.is_subscribed(id) {
            HubView { subscribers: self.subscribers.remove(self.position(id)), ..self }
        } else {
            self
        }
    }
}

struct Subscriber {
    id: u64,
    pending: VecDeque<String>,
}

impl View for Subscriber {
    type V = SubscriberView;

    closed spec fn view(&self) -> SubscriberView {
        SubscriberView { id: self.id, pending: texts(self.pending@) }
    }
}

/// The publish/subscribe fan-out shared by all sessions.
pub struct Hub {
    capacity: usize,
    issued: u64,
    subscribers: Vec<Subscriber>,
}

impl View for Hub {
    type V = HubView;

    closed spec fn view(&self) -> HubView {
        HubView {
            capacity: self.capacity as nat,
            issued: self.issued as nat,
            subscribers: Seq::new(self.subscribers.len() as nat, |i: int| self.subscribers[i]@),
        }
    }
}

impl Hub {
    /// The hub's invariant: its view is well formed.
    pub open spec fn wf(&self) -> bool {
        self@.wf()
    }

    /// A hub whose subscribers each hold up to `capacity` unread messages.
    pub fn new(capacity: usize) -> (hub: Hub)
        requires
            capacity >= 1,
        ensures
            hub.wf(),
            hub@ == HubView::fresh(capacity as nat),
    {
        let hub = Hub { capacity, issued: 0, subscribers: Vec::new() };
        assert(hub@.subscribers =~= Seq::empty());
        hub
    }

    /// Registers a new subscriber and returns its identifier. It will be sent
    /// what is published from now on, and nothing published before. `None`,
    /// with the hub unchanged, once every identifier has been issued.
    pub fn subscribe(&mut self) -> (id: Option<u64>)
        requires
            old(self).wf(),
        ensures
            final(self).wf(),
            match id {
                Some(id) => {
                    &&& old(self)@.issued < u64::MAX
                    &&& id == old(self)@.issued
                    &&& final(self)@ == old(self)@.subscribe()
                },
                None => {
                    &&& old(self)@.issued == u64::MAX
                    &&& final(self)@ == old(self)@
                },
            },
    {
        if self.issued == u64::MAX {
            return None;
        }
        let id: u64 = self.issued;
        self.issued = id + 1;
        self.subscribers.push(Subscriber { id, pending: VecDeque::new() });
        proof {
            assert(texts(Seq::<String>::empty()) =~= Seq::<Seq<char>>::empty());
            assert(final(self)@.subscribers =~= old(self)@.subscribe().subscribers);
        }
        Some(id)
    }

    /// Sends `message` to every subscriber and returns how many there are.
    /// A subscriber whose queue is full loses its oldest unread message.
    pub fn publish(&mut self, message: &str) -> (delivered: usize)
        requires
            old(self).wf(),
        ensures
            final(self).wf(),
            final(self)@ == old(self)@.publish(message@),
            delivered == old(self)@.subscribers.len(),
    {
        let n: usize = self.subscribers.len();
        let mut i: usize = 0;
        while i < n
            invariant
                i <= n,
                n == self.subscribers.len(),
                n == old(self).subscribers.len(),
                self.capacity == old(self).capacity,
                self.issued == old(self).issued,
                old(self).wf(),
                forall|j: int|
                    0 <= j < i ==> (#[trigger] self.subscribers[j])@ == old(self)@.publish(
                        message@,
                    ).subscribers[j],
                forall|j: int|
                    i <= j < n ==> (#[trigger] self.subscribers[j]) == old(self).subscribers[j],
            decreases n - i,
        {
            let ghost before = self.subscribers[i as int].pending@;
            assert(old(self)@.subscribers[i as int].pending == texts(before));
            if self.subscribers[i].pending.len() >= self.capacity {
                let _ = self.subscribers[i].pending.pop_front();
            }
            self.subscribers[i].pending.push_back(message.to_owned());
            proof {
                let after = self.subscribers[i as int].pending@;
                assert(texts(after) =~= keep_last(texts(before).push(message@), self.capacity as nat));
            }
            i += 1;
        }
        proof {
            assert(final(self)@.subscribers =~= old(self)@.publish(message@).subscribers);
        }
        n
    }

    /// Sends `messages` one after another, each to every subscriber, and
    /// returns how many subscribers there are.
    pub fn publish_all(&mut self, messages: &Vec<String>) -> (delivered: usize)
        requires
            old(self).wf(),
        ensures
            final(self).wf(),
            final(self)@ == old(self)@.publish_all(texts(messages@)),
            delivered == old(self)@.subscribers.len(),
    {
        let n: usize = messages.len();
        let mut i: usize = 0;
        while i < n
            invariant
                i <= n,
                n == messages.len(),
                self.wf(),
                self@ == old(self)@.publish_all(texts(messages@).take(i as int)),
                self@.subscribers.len() == old(self)@.subscribers.len(),
            decreases n - i,
        {
            proof {
                let sent = texts(messages@).take(i + 1);
                assert(sent.drop_last() =~= texts(messages@).take(i as int));
            }
            let _ = self.publish(messages[i].as_str());
            i += 1;
        }
        proof {
            assert(texts(messages@).take(n as int) =~= texts(messages@));
        }
        self.subscribers.len()
    }

    /// The index of subscriber `id` among the subscribers.
    fn find(&self, id: u64) -> (at: Option<usize>)
        requires
            self.wf(),
        ensures
            match at {
                Some(i) => self@.is_subscribed(id) && i == self@.position(id),
                None => !self@.is_subscribed(id),
            },
    {
        let n: usize = self.subscribers.len();
        let mut i: usize = 0;
        while i < n
            invariant
                i <= n,
                n == self.subscribers.len(),
                self.wf(),
                forall|j: int| 0 <= j < i ==> (#[trigger] self@.subscribers[j]).id != id,
            decreases n - i,
        {
            if self.subscribers[i].id == id {
                proof {
                    lemma_position(self@, i as int);
                }
                return Some(i);
            }
            i += 1;
        }
        None
    }

    /// Hands subscriber `id` its oldest unread message. `None`, with the hub
    /// unchanged, where it has none or `id` is not subscribed.
    pub fn receive(&mut self, id: u64) -> (message: Option<String>)
        requires
            old(self).wf(),
        ensures
            final(self).wf(),
            final(self)@ == old(self)@.receive(id),
            match message {
                Some(m) => old(self)@.pending(id).len() > 0 && m@ == old(self)@.pending(id)[0],
                None => old(self)@.pending(id).len() == 0,
            },
    {
        match self.find(id) {
            None => None,
            Some(i) => {
                let ghost before = self.subscribers[i as int].pending@;
                let message = self.subscribers[i].pending.pop_front();
                proof {
                    let after = self.subscribers[i as int].pending@;
                    if before.len() > 0 {
                        assert(texts(after) =~= texts(before).drop_first());
                        assert(final(self)@.subscribers =~= old(self)@.receive(id).subscribers);
                    } else {
                        assert(final(self)@.subscribers =~= old(self)@.subscribers);
                    }
                }
                message
            },
        }
    }

    /// Removes subscriber `id` and discards what it had not read. Returns
    /// whether `id` was subscribed.
    pub fn unsubscribe(&mut self, id: u64) -> (removed: bool)
        requires
            old(self).wf(),
        ensures
            final(self).wf(),
            final(self)@ == old(self)@.unsubscribe(id),
            removed == old(self)@.is_subscribed(id),
    {
        match self.find(id) {
            None => false,
            Some(i) => {
                let _ = self.subscribers.remove(i);
                proof {
                    assert(final(self)@.subscribers =~= old(self)@.unsubscribe(id).subscribers);
                }
                true
            },
        }
    }

    /// Whether `id` is a current subscriber.
    pub fn is_subscribed(&self, id: u64) -> (subscribed: bool)
        requires
            self.wf(),
        ensures
            subscribed == self@.is_subscribed(id),
    {
        self.find(id).is_some()
    }

    /// How many unread messages subscriber `id` holds.
    pub fn pending_count(&self, id: u64) -> (count: usize)
        requires
            self.wf(),
        ensures
            count == self@.pending(id).len(),
    {
        match self.find(id) {
            None => 0,
            Some(i) => self.subscribers[i].pending.len(),
        }
    }

    /// How many subscribers there are.
    pub fn subscriber_count(&self) -> (count: usize)
        ensures
            count == self@.subscribers.len(),
    {
        self.subscribers.len()
    }

    /// How many unread messages a subscriber can hold.
    pub fn capacity(&self) -> (capacity: usize)
        ensures
            capacity == self@.capacity,
    {
        self.capacity
    }
}

/// Trimming to the last `n` and then appending gives, once trimmed again, the
/// same as appending first.
pub proof fn lemma_keep_last_push<A>(s: Seq<A>, x: A, n: nat)
    ensures
        keep_last(keep_last(s, n).push(x), n) == keep_last(s.push(x), n),
{
}

/// In a well-formed hub a subscriber stands where its identifier is found.
pub proof fn lemma_position(h: HubView, i: int)
    requires
        h.wf(),
        0 <= i < h.subscribers.len(),
    ensures
        h.is_subscribed(h.subscribers[i].id),
        h.position(h.subscribers[i].id) == i,
        h.pending(h.subscribers[i].id) == h.subscribers[i].pending,
{
    let id = h.subscribers[i].id;
    let at = h.position(id);
    if at < i {
        assert(h.subscribers[at].id < h.subscribers[i].id);
    } else if i < at {
        assert(h.subscribers[i].id < h.subscribers[at].id);
    }
}

/// Ordering: after `messages` have been published, every subscriber that was
/// registered before holds what it held, followed by `messages` in the order
/// of publication, trimmed at the front to the capacity. So all of them are
/// sent the messages in one and the same order.
pub proof fn lemma_publication_order(h: HubView, messages: Seq<Seq<char>>)
    requires
        h.wf(),
    ensures
        h.publish_all(messages).wf(),
        h.publish_all(messages).capacity == h.capacity,
        h.publish_all(messages).issued == h.issued,
        h.publish_all(messages).subscribers.len() == h.subscribers.len(),
        forall|i: int|
            0 <= i < h.subscribers.len() ==> {
                &&& (#[trigger] h.publish_all(messages).subscribers[i]).id == h.subscribers[i].id
                &&& h.publish_all(messages).subscribers[i].pending == keep_last(
                    h.subscribers[i].pending + messages,
                    h.capacity,
                )
            },
    decreases messages.len(),
{
    if messages.len() == 0 {
        assert forall|i: int| 0 <= i < h.subscribers.len() implies h.subscribers[i].pending
            == keep_last(h.subscribers[i].pending + messages, h.capacity) by {
            assert(h.subscribers[i].pending + messages =~= h.subscribers[i].pending);
        }
    } else {
        let front = messages.drop_last();
        let mid = h.publish_all(front);
        lemma_publication_order(h, front);
        assert forall|i: int| 0 <= i < h.subscribers.len() implies (#[trigger] mid.publish(
            messages.last(),
        ).subscribers[i]).pending == keep_last(h.subscribers[i].pending + messages, h.capacity) by {
            let q = h.subscribers[i].pending;
            lemma_keep_last_push(q + front, messages.last(), h.capacity);
            assert((q + front).push(messages.last()) =~= q + messages);
        }
    }
}

/// Ordering, by identifier: what subscriber `id` holds after `messages` have
/// been published ends with the last of `messages`, as many as the capacity
/// admits, in the order of publication. This holds of every subscriber alike.
pub proof fn lemma_same_order(h: HubView, messages: Seq<Seq<char>>, id: u64)
    requires
        h.wf(),
        h.is_subscribed(id),
    ensures
        h.publish_all(messages).is_subscribed(id),
        h.publish_all(messages).pending(id) == keep_last(h.pending(id) + messages, h.capacity),
        keep_last(h.publish_all(messages).pending(id), messages.len()) == keep_last(
            messages,
            h.capacity,
        ),
{
    let after = h.publish_all(messages);
    let i = h.position(id);
    lemma_publication_order(h, messages);
    lemma_position(h, i);
    lemma_position(after, i);
    let q = h.pending(id);
    assert(keep_last(keep_last(q + messages, h.capacity), messages.len()) =~= keep_last(
        messages,
        h.capacity,
    ));
}

/// No replay: a subscriber that registers after `earlier` has been published
/// holds nothing, and after `later` has been published it holds messages of
/// `later` only.
pub proof fn lemma_no_replay(h: HubView, earlier: Seq<Seq<char>>, later: Seq<Seq<char>>)
    requires
        h.wf(),
        h.issued < u64::MAX,
    ensures
        ({
            let joined = h.publish_all(earlier).subscribe();
            let id = h.issued as u64;
            &&& joined.wf()
            &&& joined.is_subscribed(id)
            &&& joined.pending(id) == Seq::<Seq<char>>::empty()
            &&& joined.publish_all(later).pending(id) == keep_last(later, h.capacity)
        }),
{
    let before = h.publish_all(earlier);
    lemma_publication_order(h, earlier);
    let joined = before.subscribe();
    let id = h.issued as u64;
    let last = before.subscribers.len() as int;
    assert(joined.subscribers[last].id == id);
    lemma_position(joined, last);
    lemma_same_order(joined, later, id);
    assert(Seq::<Seq<char>>::empty() + later =~= later);
}

/// Reading takes the oldest unread message of the reader.
pub proof fn lemma_receive(h: HubView, id: u64)
    requires
        h.wf(),
        h.pending(id).len() > 0,
    ensures
        h.receive(id).wf(),
        h.receive(id).pending(id) == h.pending(id).drop_first(),
{
    let after = h.receive(id);
    let i = h.position(id);
    lemma_position(h, i);
    assert(after.wf()) by {
        assert forall|a: int, b: int| 0 <= a < b < after.subscribers.len() implies (
        #[trigger] after.subscribers[a]).id < (#[trigger] after.subscribers[b]).id by {
            assert(h.subscribers[a].id < h.subscribers[b].id);
        }
    }
    lemma_position(after, i);
}

/// Reading leaves the queue of every other subscriber as it was.
pub proof fn lemma_receive_apart(h: HubView, id: u64, other: u64)
    requires
        h.wf(),
        other != id,
    ensures
        h.receive(id).pending(other) == h.pending(other),
{
    if h.pending(id).len() > 0 {
        let after = h.receive(id);
        lemma_receive(h, id);
        if h.is_subscribed(other) {
            let j = h.position(other);
            lemma_position(h, j);
            assert(after.subscribers[j] == h.subscribers[j]);
            lemma_position(after, j);
        } else if after.is_subscribed(other) {
            let j = after.position(other);
            assert(h.subscribers[j].id == other);
        }
    }
}

/// Publishing one message is publishing the list of that one message.
pub proof fn lemma_publish_one(h: HubView, message: Seq<char>)
    ensures
        h.publish_all(seq![message]) == h.publish(message),
{
    let one = seq![message];
    assert(h.publish_all(one.drop_last()) == h);
}

/// Reading order: a subscriber reads its unread messages oldest first. After
/// `count` of them it holds the rest, and the next one it reads is the one
/// that stood at `count`.
pub proof fn lemma_reading_order(h: HubView, id: u64, count: nat)
    requires
        h.wf(),
        count <= h.pending(id).len(),
    ensures
        h.receive_times(id, count).wf(),
        h.receive_times(id, count).pending(id) == h.pending(id).skip(count as int),
        count < h.pending(id).len() ==> h.receive_times(id, count).pending(id)[0] == h.pending(
            id,
        )[count as int],
    decreases count,
{
    if count > 0 {
        lemma_receive(h, id);
        lemma_reading_order(h.receive(id), id, (count - 1) as nat);
        assert(h.pending(id).drop_first().skip(count - 1) =~= h.pending(id).skip(count as int));
    }
}

} // verus!
