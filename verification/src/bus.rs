//! The event bus: a relay with one topic. Whatever is published is handed to
//! every subscription that is live at that moment, and to no other. The bus
//! keeps raw text and looks into none of it.

use crate::wire::texts;
use vstd::prelude::*;
use vstd::string::StringExecFns;

verus! {

/// What stands for one subscription: a number that the bus gave out.
#[derive(Clone, Copy, Debug, PartialEq, Eq, Structural)]
pub struct SubscriptionId(pub u64);

/// One subscriber's private feed: what was published since it subscribed and
/// has not been taken yet, oldest first.
struct Subscription {
    id: u64,
    pending: Vec<String>,
}

/// The registry of subscriptions.
pub struct EventBus {
    issued: u64,
    subscriptions: Vec<Subscription>,
}

/// The first place in the registry that holds the given number, or the length
/// of the registry where none does.
spec fn place(subscriptions: Seq<Subscription>, id: u64) -> int
    decreases subscriptions.len(),
{
    if subscriptions.len() == 0 {
        0
    } else if subscriptions[0].id == id {
        0
    } else {
        1 + place(subscriptions.drop_first(), id)
    }
}

/// No number occurs twice.
spec fn distinct(subscriptions: Seq<Subscription>) -> bool {
    forall|i: int, j: int|
        0 <= i < j < subscriptions.len() ==> subscriptions[i].id != subscriptions[j].id
}

/// Each subscription of a registry with its feed.
spec fn feeds(subscriptions: Seq<Subscription>) -> Map<SubscriptionId, Seq<Seq<char>>> {
    Map::new(
        |id: SubscriptionId| place(subscriptions, id.0) < subscriptions.len(),
        |id: SubscriptionId| texts(subscriptions[place(subscriptions, id.0)].pending@),
    )
}

proof fn lemma_place(subscriptions: Seq<Subscription>, id: u64)
    ensures
        0 <= place(subscriptions, id) <= subscriptions.len(),
        place(subscriptions, id) < subscriptions.len() ==> subscriptions[place(
            subscriptions,
            id,
        )].id == id,
        forall|i: int| 0 <= i < place(subscriptions, id) ==> subscriptions[i].id != id,
    decreases subscriptions.len(),
{
    if subscriptions.len() > 0 && subscriptions[0].id != id {
        let rest = subscriptions.drop_first();
        lemma_place(rest, id);
        assert forall|i: int| 0 <= i < place(subscriptions, id) implies subscriptions[i].id
            != id by {
            if i > 0 {
                assert(subscriptions[i] == rest[i - 1]);
            }
        }
    }
}

/// Where no number occurs twice, each subscription is found at its own place.
proof fn lemma_place_of_each(subscriptions: Seq<Subscription>)
    requires
        distinct(subscriptions),
    ensures
        forall|i: int|
            0 <= i < subscriptions.len() ==> place(subscriptions, #[trigger] subscriptions[i].id)
                == i,
{
    assert forall|i: int| 0 <= i < subscriptions.len() implies place(
        subscriptions,
        #[trigger] subscriptions[i].id,
    ) == i by {
        lemma_place(subscriptions, subscriptions[i].id);
    }
}

/// Two registries that hold the same numbers in the same places find each
/// number at the same place.
proof fn lemma_same_places(a: Seq<Subscription>, b: Seq<Subscription>, id: u64)
    requires
        a.len() == b.len(),
        forall|k: int| 0 <= k < a.len() ==> (#[trigger] b[k]).id == a[k].id,
    ensures
        place(a, id) == place(b, id),
    decreases a.len(),
{
    if a.len() > 0 {
        assert(b[0].id == a[0].id);
        if a[0].id != id {
            let x = a.drop_first();
            let y = b.drop_first();
            assert forall|k: int| 0 <= k < x.len() implies (#[trigger] y[k]).id == x[k].id by {
                assert(y[k] == b[k + 1]);
            }
            lemma_same_places(x, y, id);
        }
    }
}

/// A subscription with an unused number, put at the end of the registry,
/// adds its feed and leaves the others.
proof fn lemma_feeds_push(before: Seq<Subscription>, last: Subscription)
    requires
        distinct(before),
        forall|i: int| 0 <= i < before.len() ==> before[i].id != last.id,
    ensures
        distinct(before.push(last)),
        !feeds(before).dom().contains(SubscriptionId(last.id)),
        feeds(before.push(last)) == feeds(before).insert(
            SubscriptionId(last.id),
            texts(last.pending@),
        ),
{
    let after = before.push(last);
    lemma_place(before, last.id);
    lemma_place_of_each(after);
    assert(after[before.len() as int] == last);
    assert forall|id: SubscriptionId|
        #![trigger feeds(after).dom().contains(id)]
        #![trigger feeds(after)[id]]
        feeds(after).dom().contains(id) == feeds(before).insert(
            SubscriptionId(last.id),
            texts(last.pending@),
        ).dom().contains(id) && (feeds(after).dom().contains(id) ==> feeds(after)[id] == feeds(
            before,
        ).insert(SubscriptionId(last.id), texts(last.pending@))[id]) by {
        lemma_place(before, id.0);
        lemma_place(after, id.0);
        let p = place(before, id.0);
        if p < before.len() {
            assert(after[p] == before[p]);
        }
    }
    assert(feeds(after) =~= feeds(before).insert(SubscriptionId(last.id), texts(last.pending@)));
}

/// Taking a subscription out of the registry takes its feed away and leaves
/// the others.
proof fn lemma_feeds_remove(before: Seq<Subscription>, i: int)
    requires
        distinct(before),
        0 <= i < before.len(),
    ensures
        distinct(before.remove(i)),
        feeds(before.remove(i)) == feeds(before).remove(SubscriptionId(before[i].id)),
{
    let after = before.remove(i);
    let gone = SubscriptionId(before[i].id);
    lemma_place_of_each(before);
    assert(distinct(after));
    lemma_place_of_each(after);
    assert forall|id: SubscriptionId|
        #![trigger feeds(after).dom().contains(id)]
        #![trigger feeds(after)[id]]
        feeds(after).dom().contains(id) == feeds(before).remove(gone).dom().contains(id) && (feeds(
            after,
        ).dom().contains(id) ==> feeds(after)[id] == feeds(before).remove(gone)[id]) by {
        lemma_place(before, id.0);
        lemma_place(after, id.0);
        let p = place(before, id.0);
        let q = place(after, id.0);
        if q < after.len() {
            let back = if q < i { q } else { q + 1 };
            assert(before[back] == after[q]);
        }
        if p < before.len() && p != i {
            let forth = if p < i { p } else { p - 1 };
            assert(after[forth] == before[p]);
        }
        if p == i {
            assert(id == gone);
        }
    }
    assert(feeds(after) =~= feeds(before).remove(gone));
}

/// Two registries with the same numbers in the same places have the same
/// subscriptions.
proof fn lemma_feeds_in_place(before: Seq<Subscription>, after: Seq<Subscription>)
    requires
        distinct(before),
        after.len() == before.len(),
        forall|k: int| 0 <= k < before.len() ==> (#[trigger] after[k]).id == before[k].id,
    ensures
        distinct(after),
        feeds(after).dom() == feeds(before).dom(),
{
    assert forall|i: int, j: int| 0 <= i < j < after.len() implies after[i].id != after[j].id by {
        assert(after[i].id == before[i].id && after[j].id == before[j].id);
    }
    assert forall|id: SubscriptionId| #[trigger]
        place(after, id.0) == place(before, id.0) by {
        lemma_same_places(before, after, id.0);
    }
    assert(feeds(after).dom() =~= feeds(before).dom());
}

impl View for EventBus {
    type V = Map<SubscriptionId, Seq<Seq<char>>>;

    /// Each live subscription with its feed.
    closed spec fn view(&self) -> Map<SubscriptionId, Seq<Seq<char>>> {
        feeds(self.subscriptions@)
    }
}

impl EventBus {
    /// How many subscriptions the bus has handed out since it was made.
    pub closed spec fn issued(&self) -> nat {
        self.issued as nat
    }

    /// No two live subscriptions share a number, and every number in use was
    /// handed out by this bus.
    pub closed spec fn wf(&self) -> bool {
        &&& distinct(self.subscriptions@)
        &&& forall|i: int|
            0 <= i < self.subscriptions.len() ==> (#[trigger] self.subscriptions[i]).id
                < self.issued
    }

    /// A bus with no subscription.
    pub fn new() -> (r: EventBus)
        ensures
            r.wf(),
            r@ == Map::<SubscriptionId, Seq<Seq<char>>>::empty(),
            r.issued() == 0,
    {
        let r = EventBus { issued: 0, subscriptions: Vec::new() };
        assert(r@ =~= Map::<SubscriptionId, Seq<Seq<char>>>::empty());
        r
    }

    /// Whether the bus can still hand out a subscription.
    pub fn can_subscribe(&self) -> (r: bool)
        ensures
            r == (self.issued() < u64::MAX),
    {
        self.issued < u64::MAX
    }

    /// Opens a subscription. Its feed starts empty: nothing that was
    /// published before is replayed.
    pub fn subscribe(&mut self) -> (id: SubscriptionId)
        requires
            old(self).wf(),
            old(self).issued() < u64::MAX,
        ensures
            final(self).wf(),
            !old(self)@.dom().contains(id),
            id.0 == old(self).issued(),
            final(self)@ == old(self)@.insert(id, Seq::<Seq<char>>::empty()),
            final(self).issued() == old(self).issued() + 1,
    {
        let number = self.issued;
        let opened = Subscription { id: number, pending: Vec::new() };
        proof {
            lemma_feeds_push(self.subscriptions@, opened);
            assert(texts(opened.pending@) =~= Seq::<Seq<char>>::empty());
        }
        self.issued = number + 1;
        self.subscriptions.push(opened);
        SubscriptionId(number)
    }

    /// The place of a subscription in the registry.
    fn find(&self, id: SubscriptionId) -> (r: Option<usize>)
        ensures
            match r {
                Some(i) => i == place(self.subscriptions@, id.0) && i < self.subscriptions.len()
                    && self.subscriptions[i as int].id == id.0,
                None => place(self.subscriptions@, id.0) == self.subscriptions.len(),
            },
    {
        let mut i: usize = 0;
        while i < self.subscriptions.len()
            invariant
                i <= self.subscriptions.len(),
                forall|k: int| 0 <= k < i ==> self.subscriptions[k].id != id.0,
            decreases self.subscriptions.len() - i,
        {
            if self.subscriptions[i].id == id.0 {
                proof {
                    lemma_place(self.subscriptions@, id.0);
                }
                return Some(i);
            }
            i += 1;
        }
        proof {
            lemma_place(self.subscriptions@, id.0);
        }
        None
    }

    /// Whether a subscription is live.
    pub fn is_subscribed(&self, id: SubscriptionId) -> (r: bool)
        ensures
            r == self@.dom().contains(id),
    {
        self.find(id).is_some()
    }

    /// How many texts wait in a subscription's feed; none where it is not
    /// live.
    pub fn pending(&self, id: SubscriptionId) -> (r: usize)
        ensures
            r == (if self@.dom().contains(id) {
                self@[id].len()
            } else {
                0
            }),
    {
        match self.find(id) {
            Some(i) => self.subscriptions[i].pending.len(),
            None => 0,
        }
    }

    /// Hands a text to every live subscription: each feed grows by this text
    /// at its end, so each subscriber sees what was published in the order of
    /// publishing. No subscription is opened or closed.
    pub fn publish(&mut self, text: &str)
        requires
            old(self).wf(),
        ensures
            final(self).wf(),
            final(self).issued() == old(self).issued(),
            final(self)@.dom() == old(self)@.dom(),
            forall|id: SubscriptionId|
                old(self)@.dom().contains(id) ==> #[trigger] final(self)@[id]
                    == old(self)@[id].push(text@),
    {
        let ghost before = self.subscriptions@;
        let mut i: usize = 0;
        while i < self.subscriptions.len()
            invariant
                i <= self.subscriptions.len(),
                self.issued == old(self).issued,
                self.subscriptions.len() == before.len(),
                forall|k: int|
                    0 <= k < before.len() ==> (#[trigger] self.subscriptions[k]).id == before[k].id,
                forall|k: int|
                    0 <= k < i ==> texts((#[trigger] self.subscriptions[k]).pending@) == texts(
                        before[k].pending@,
                    ).push(text@),
                forall|k: int|
                    i <= k < before.len() ==> (#[trigger] self.subscriptions[k]).pending
                        == before[k].pending,
            decreases self.subscriptions.len() - i,
        {
            let ghost feed = self.subscriptions[i as int].pending@;
            self.subscriptions[i].pending.push(String::from_str(text));
            assert(texts(self.subscriptions[i as int].pending@) =~= texts(feed).push(text@));
            i += 1;
        }
        proof {
            let after = self.subscriptions@;
            lemma_feeds_in_place(before, after);
            assert forall|id: SubscriptionId|
                feeds(before).dom().contains(id) implies #[trigger] feeds(after)[id]
                == feeds(before)[id].push(text@) by {
                let p = place(before, id.0);
                lemma_place(before, id.0);
                lemma_same_places(before, after, id.0);
                assert(texts(after[p].pending@) == texts(before[p].pending@).push(text@));
            }
        }
    }

    /// Closes a subscription: it leaves the registry, and what was still in
    /// its feed is dropped with it. The other subscriptions keep their feeds.
    /// Closing what is not live changes nothing.
    pub fn unsubscribe(&mut self, id: SubscriptionId)
        requires
            old(self).wf(),
        ensures
            final(self).wf(),
            final(self).issued() == old(self).issued(),
            final(self)@ == old(self)@.remove(id),
    {
        match self.find(id) {
            Some(i) => {
                proof {
                    lemma_feeds_remove(self.subscriptions@, i as int);
                }
                self.subscriptions.remove(i);
            },
            None => {
                assert(self@ =~= self@.remove(id));
            },
        }
    }

    /// Takes the oldest text out of a subscription's feed. `None` where the
    /// feed is empty or the subscription is not live; the bus is then as it
    /// was.
    pub fn receive(&mut self, id: SubscriptionId) -> (r: Option<String>)
        requires
            old(self).wf(),
        ensures
            final(self).wf(),
            final(self).issued() == old(self).issued(),
            match r {
                Some(text) => {
                    &&& old(self)@.dom().contains(id)
                    &&& old(self)@[id].len() > 0
                    &&& text@ == old(self)@[id][0]
                    &&& final(self)@ == old(self)@.insert(id, old(self)@[id].drop_first())
                },
                None => {
                    &&& !old(self)@.dom().contains(id) || old(self)@[id].len() == 0
                    &&& final(self)@ == old(self)@
                },
            },
    {
        let ghost before = self.subscriptions@;
        match self.find(id) {
            Some(i) => {
                if self.subscriptions[i].pending.len() == 0 {
                    return None;
                }
                let ghost feed = self.subscriptions[i as int].pending@;
                let text = self.subscriptions[i].pending.remove(0);
                proof {
                    let after = self.subscriptions@;
                    assert(texts(after[i as int].pending@) =~= texts(feed).drop_first());
                    assert forall|k: int| 0 <= k < before.len() implies (#[trigger] after[k]).id
                        == before[k].id by {}
                    lemma_feeds_in_place(before, after);
                    assert forall|other: SubscriptionId|
                        feeds(before).dom().contains(other) implies #[trigger] feeds(after)[other]
                        == feeds(before).insert(id, feeds(before)[id].drop_first())[other] by {
                        let p = place(before, other.0);
                        lemma_place(before, other.0);
                        lemma_same_places(before, after, other.0);
                        if p != i {
                            assert(after[p].pending == before[p].pending);
                        }
                    }
                    assert(feeds(after) =~= feeds(before).insert(
                        id,
                        feeds(before)[id].drop_first(),
                    ));
                }
                Some(text)
            },
            None => None,
        }
    }
}

} // verus!
