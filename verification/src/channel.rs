//! The connection channel: what stands between the session and the
//! transport. Outbound, a queue that takes a text without waiting and without
//! failing its caller; inbound, the relay that hands every text that arrives
//! to the event bus as it came.

use crate::bus::{EventBus, SubscriptionId};
use crate::wire::texts;
use vstd::prelude::*;

verus! {

/// An outbound text could not be queued.
#[derive(Clone, Copy, Debug, PartialEq, Eq, Structural)]
pub enum SendFailure {
    /// The transport has closed.
    Closed,
}

/// One connection: whether its transport is open, and the texts that wait to
/// be transmitted, oldest first.
pub struct Channel {
    open: bool,
    outbound: Vec<String>,
}

/// A `Channel` as mathematics.
pub struct ChannelView {
    pub open: bool,
    pub outbound: Seq<Seq<char>>,
}

impl ChannelView {
    /// The channel after a text was sent on it: queued at the end where the
    /// channel is open, unchanged where it is closed.
    pub open spec fn after_send(self, text: Seq<char>) -> ChannelView {
        if self.open {
            ChannelView { open: true, outbound: self.outbound.push(text) }
        } else {
            self
        }
    }

    /// What a send on this channel returns.
    pub open spec fn send_result(self) -> Result<(), SendFailure> {
        if self.open {
            Ok(())
        } else {
            Err(SendFailure::Closed)
        }
    }
}

impl View for Channel {
    type V = ChannelView;

    closed spec fn view(&self) -> ChannelView {
        ChannelView { open: self.open, outbound: texts(self.outbound@) }
    }
}

impl Channel {
    /// An open channel with nothing queued.
    pub fn new() -> (r: Channel)
        ensures
            r@.open,
            r@.outbound == Seq::<Seq<char>>::empty(),
    {
        let r = Channel { open: true, outbound: Vec::new() };
        assert(r@.outbound =~= Seq::<Seq<char>>::empty());
        r
    }

    pub fn is_open(&self) -> (r: bool)
        ensures
            r == self@.open,
    {
        self.open
    }

    /// How many texts wait to be transmitted.
    pub fn queued(&self) -> (r: usize)
        ensures
            r == self@.outbound.len(),
    {
        self.outbound.len()
    }

    /// Queues a text for the transport. On an open channel the text joins the
    /// end of the queue. On a closed one nothing changes and the failure is
    /// returned for the caller to note; it is never raised.
    pub fn send(&mut self, text: String) -> (r: Result<(), SendFailure>)
        ensures
            final(self)@ == old(self)@.after_send(text@),
            r == old(self)@.send_result(),
    {
        if self.open {
            let ghost before = self.outbound@;
            self.outbound.push(text);
            assert(texts(self.outbound@) =~= texts(before).push(text@));
            Ok(())
        } else {
            Err(SendFailure::Closed)
        }
    }

    /// Takes the oldest queued text, for the transport to transmit. `None`
    /// where nothing is queued.
    pub fn next_outbound(&mut self) -> (r: Option<String>)
        ensures
            final(self)@.open == old(self)@.open,
            match r {
                Some(text) => old(self)@.outbound.len() > 0 && text@ == old(self)@.outbound[0]
                    && final(self)@.outbound == old(self)@.outbound.drop_first(),
                None => old(self)@.outbound.len() == 0 && final(self)@ == old(self)@,
            },
    {
        if self.outbound.len() == 0 {
            None
        } else {
            let ghost before = self.outbound@;
            let text = self.outbound.remove(0);
            assert(texts(self.outbound@) =~= texts(before).drop_first());
            Some(text)
        }
    }

    /// Marks the transport as closed. What is queued stays as it is; from now
    /// on nothing is queued and nothing is relayed.
    pub fn close(&mut self)
        ensures
            !final(self)@.open,
            final(self)@.outbound == old(self)@.outbound,
    {
        self.open = false;
    }

    /// Hands one text that arrived from the transport to the bus, as it came.
    /// Returns whether it did: a closed channel relays nothing.
    pub fn relay(&self, text: &str, bus: &mut EventBus) -> (r: bool)
        requires
            old(bus).wf(),
        ensures
            final(bus).wf(),
            final(bus).issued() == old(bus).issued(),
            r == self@.open,
            final(bus)@.dom() == old(bus)@.dom(),
            forall|id: SubscriptionId|
                old(bus)@.dom().contains(id) ==> #[trigger] final(bus)@[id] == (if self@.open {
                    old(bus)@[id].push(text@)
                } else {
                    old(bus)@[id]
                }),
    {
        if self.open {
            bus.publish(text);
            true
        } else {
            false
        }
    }

    /// The receive loop over the texts that arrived: each is relayed in turn,
    /// so every subscriber's feed grows by all of them, in the order of
    /// arrival. A closed channel relays none.
    pub fn relay_all(&self, arrived: &Vec<String>, bus: &mut EventBus)
        requires
            old(bus).wf(),
        ensures
            final(bus).wf(),
            final(bus).issued() == old(bus).issued(),
            final(bus)@.dom() == old(bus)@.dom(),
            forall|id: SubscriptionId|
                old(bus)@.dom().contains(id) ==> #[trigger] final(bus)@[id] == (if self@.open {
                    old(bus)@[id] + texts(arrived@)
                } else {
                    old(bus)@[id]
                }),
    {
        let mut i: usize = 0;
        while i < arrived.len()
            invariant
                i <= arrived.len(),
                bus.wf(),
                bus.issued() == old(bus).issued(),
                bus@.dom() == old(bus)@.dom(),
                forall|id: SubscriptionId|
                    old(bus)@.dom().contains(id) ==> #[trigger] bus@[id] == (if self@.open {
                        old(bus)@[id] + texts(arrived@).take(i as int)
                    } else {
                        old(bus)@[id]
                    }),
            decreases arrived.len() - i,
        {
            let ghost feeds = bus@;
            self.relay(arrived[i].as_str(), bus);
            proof {
                let so_far = texts(arrived@).take(i as int);
                assert(texts(arrived@).take(i + 1) =~= so_far.push(arrived[i as int]@));
                assert forall|id: SubscriptionId|
                    old(bus)@.dom().contains(id) && self@.open implies #[trigger] bus@[id]
                    == old(bus)@[id] + texts(arrived@).take(i + 1) by {
                    assert(bus@[id] == feeds[id].push(arrived[i as int]@));
                    assert(bus@[id] =~= old(bus)@[id] + texts(arrived@).take(i + 1));
                }
            }
            i += 1;
        }
        proof {
            assert(texts(arrived@).take(arrived.len() as int) =~= texts(arrived@));
        }
    }
}

} // verus!
