//! The mailbox of one actor: deliveries leave it in the order in which they
//! came.

use vstd::prelude::*;
use std::collections::VecDeque;
use crate::message::{pending_asks, Delivery, Ticket};

verus! {

/// The pending deliveries of one actor, oldest first.
pub struct Mailbox {
    queue: VecDeque<Delivery>,
}

impl View for Mailbox {
    type V = Seq<Delivery>;

    closed spec fn view(&self) -> Seq<Delivery> {
        self.queue@
    }
}

impl Mailbox {
    /// An empty mailbox.
    pub fn new() -> (mailbox: Mailbox)
        ensures
            mailbox@ == Seq::<Delivery>::empty(),
    {
        Mailbox { queue: VecDeque::new() }
    }

    /// The number of pending deliveries.
    pub fn len(&self) -> (n: usize)
        ensures
            n == self@.len(),
    {
        self.queue.len()
    }

    /// Tells whether nothing is pending.
    pub fn is_empty(&self) -> (empty: bool)
        ensures
            empty == (self@.len() == 0),
    {
        self.queue.len() == 0
    }

    /// Puts a delivery behind all that are pending.
    pub fn enqueue(&mut self, delivery: Delivery)
        ensures
            final(self)@ == old(self)@.push(delivery),
    {
        self.queue.push_back(delivery);
    }

    /// Takes the oldest delivery out, if there is one.
    pub fn dequeue(&mut self) -> (next: Option<Delivery>)
        ensures
            match next {
                Some(delivery) => old(self)@.len() > 0 && delivery == old(self)@[0] && final(self)@
                    == old(self)@.skip(1),
                None => old(self)@.len() == 0 && final(self)@ == old(self)@,
            },
    {
        let next = self.queue.pop_front();
        proof {
            if next is Some {
                assert(self.queue@ =~= old(self).queue@.skip(1));
            }
        }
        next
    }

    /// Empties the mailbox and hands out the tickets of the asks that were
    /// pending, oldest first.
    pub fn drain_asks(&mut self) -> (tickets: Vec<Ticket>)
        ensures
            final(self)@ == Seq::<Delivery>::empty(),
            tickets@ == pending_asks(old(self)@),
    {
        let mut tickets: Vec<Ticket> = Vec::new();
        let n: usize = self.queue.len();
        let mut i: usize = 0;
        while i < n
            invariant
                n == self.queue@.len(),
                i <= n,
                self.queue@ == old(self).queue@,
                tickets@ == pending_asks(self.queue@.take(i as int)),
            decreases n - i,
        {
            proof {
                assert(self.queue@.take(i + 1).drop_last() =~= self.queue@.take(i as int));
            }
            match self.queue[i].reply {
                Some(ticket) => {
                    tickets.push(ticket);
                },
                None => {},
            }
            i += 1;
        }
        proof {
            assert(self.queue@.take(n as int) =~= self.queue@);
        }
        self.queue.clear();
        tickets
    }
}

} // verus!
