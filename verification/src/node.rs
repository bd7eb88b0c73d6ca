//! The node: it owns the cells of all actors that it spawned and carries
//! every delivery to them.

use vstd::prelude::*;
use crate::cell::{is_teardown_of, Cell, Completion, Teardown};
use crate::dispatch::DispatchTable;
use crate::message::{pending_asks, Address, Delivery, Fault, Message, Ticket};
use crate::model::{
    event_keeps_wf, subscribers_among, Cause, CellView, Event, Phase, Step, Subscription,
};

verus! {

/// The state of a node.
pub struct NodeView {
    /// The state of each actor, in the order of spawning.
    pub cells: Seq<CellView>,
    /// The number of tickets handed out.
    pub issued: nat,
}

/// Whether the ticket of `delivery`, if it has one, is among the first
/// `issued` tickets.
pub open spec fn ticket_below(delivery: Delivery, issued: nat) -> bool {
    match delivery.reply {
        Some(ticket) => ticket.id < issued,
        None => true,
    }
}

impl NodeView {
    /// Whether `at` names an actor of this node.
    pub open spec fn knows(self, at: Address) -> bool {
        at.id < self.cells.len()
    }

    /// Whether `at` names an actor of this node that has not ended.
    pub open spec fn alive(self, at: Address) -> bool {
        self.knows(at) && !(self.cells[at.id as int].phase is Terminated)
    }

    /// The state after an event at the actor `at`. No other actor changes,
    /// and an address that names none changes nothing.
    pub open spec fn after(self, at: Address, event: Event) -> NodeView {
        if self.knows(at) {
            NodeView {
                cells: self.cells.update(at.id as int, self.cells[at.id as int].after(event)),
                ..self
            }
        } else {
            self
        }
    }

    /// The state after an ask of `message` to the actor `to`: the message
    /// arrives with the next ticket.
    pub open spec fn after_ask(self, to: Address, message: Message) -> NodeView {
        NodeView {
            issued: self.issued + 1,
            ..self.after(
                to,
                Event::Accept(Delivery { message, reply: Some(Ticket { id: self.issued as u64 }) }),
            )
        }
    }

    /// The state after `subscriber` subscribed to the broadcasts of `kind` of
    /// the actor `to`.
    pub open spec fn after_subscribe(self, to: Address, kind: u64, subscriber: Address) -> NodeView {
        if self.knows(to) {
            NodeView {
                cells: self.cells.update(
                    to.id as int,
                    self.cells[to.id as int].after_subscribe(kind, subscriber),
                ),
                ..self
            }
        } else {
            self
        }
    }

    /// The state after the actor `from` broadcast `message`: each of its
    /// subscribers for the message's type has the message behind all that
    /// were pending for it, as after a tell, unless it has ended. No other
    /// actor changes.
    pub open spec fn after_broadcast(self, from: Address, message: Message) -> NodeView {
        if self.knows(from) {
            NodeView {
                cells: Seq::new(
                    self.cells.len(),
                    |i: int|
                        if self.cells[from.id as int].has_subscriber(
                            message.kind,
                            Address { id: i as usize },
                        ) {
                            self.cells[i].after_accept(Delivery { message, reply: None })
                        } else {
                            self.cells[i]
                        },
                ),
                ..self
            }
        } else {
            self
        }
    }

    /// The state after every actor was ended.
    pub open spec fn after_shutdown(self) -> NodeView {
        NodeView {
            cells: Seq::new(self.cells.len(), |i: int| self.cells[i].after_end()),
            ..self
        }
    }

    /// Whether the state is one that a node can be in.
    pub open spec fn wf(self) -> bool {
        &&& forall|i: int|
            0 <= i < self.cells.len() ==> (#[trigger] self.cells[i]).wf() && self.cells[i].address.id
                == i
        &&& forall|i: int, k: int|
            0 <= i < self.cells.len() && 0 <= k < self.cells[i].accepted.len() ==> ticket_below(
                #[trigger] self.cells[i].accepted[k],
                self.issued,
            )
        &&& forall|i: int, k: int, j: int, l: int|
            0 <= i < self.cells.len() && 0 <= k < self.cells[i].accepted.len() && 0 <= j
                < self.cells.len() && 0 <= l < self.cells[j].accepted.len() && (i != j || k != l)
                && (#[trigger] self.cells[i].accepted[k]).reply is Some
                ==> self.cells[i].accepted[k].reply != (#[trigger] self.cells[j].accepted[l]).reply
    }
}

/// A node.
pub struct Node {
    cells: Vec<Cell>,
    issued: u64,
}

impl View for Node {
    type V = NodeView;

    closed spec fn view(&self) -> NodeView {
        NodeView { cells: Seq::new(self.cells@.len(), |i: int| self.cells@[i]@), issued: self.issued as nat }
    }
}

impl Node {
    /// A node without actors.
    pub fn new() -> (node: Node)
        ensures
            node@.cells.len() == 0,
            node@.issued == 0,
            node@.wf(),
    {
        Node { cells: Vec::new(), issued: 0 }
    }

    /// The number of actors that were spawned.
    pub fn len(&self) -> (n: usize)
        ensures
            n == self@.cells.len(),
    {
        self.cells.len()
    }

    /// Spawns an actor with the dispatch table of its type and hands out
    /// its address at once: the initialization hook is still to run, and
    /// deliveries that come meanwhile wait in the mailbox.
    pub fn spawn(&mut self, table: DispatchTable) -> (address: Address)
        requires
            old(self)@.wf(),
        ensures
            address.id == old(self)@.cells.len(),
            final(self)@.cells == old(self)@.cells.push(CellView::fresh(address, table@)),
            final(self)@.issued == old(self)@.issued,
            final(self)@.wf(),
    {
        let address = Address { id: self.cells.len() };
        let cell = Cell::new(address, table);
        self.cells.push(cell);
        proof {
            assert(self@.cells =~= old(self)@.cells.push(CellView::fresh(address, table@)));
        }
        address
    }

    /// Where the actor `at` stands in its life, if the node has such an
    /// actor.
    pub fn phase(&self, at: Address) -> (phase: Option<Phase>)
        ensures
            phase == if self@.knows(at) {
                Some(self@.cells[at.id as int].phase)
            } else {
                None
            },
    {
        if at.id < self.cells.len() {
            Some(self.cells[at.id].phase())
        } else {
            None
        }
    }

    /// The number of deliveries that wait for the actor `at`.
    pub fn pending(&self, at: Address) -> (n: usize)
        ensures
            n == if self@.knows(at) {
                self@.cells[at.id as int].mailbox.len()
            } else {
                0
            },
    {
        if at.id < self.cells.len() {
            self.cells[at.id].pending()
        } else {
            0
        }
    }

    /// Sends a message and does not wait: the message is put behind all
    /// that are pending for the actor, and nothing else changes. Fails, and
    /// changes nothing, if the actor has ended or the address names none.
    pub fn tell(&mut self, to: Address, message: Message) -> (r: Result<(), Fault>)
        requires
            old(self)@.wf(),
        ensures
            final(self)@ == old(self)@.after(to, Event::Accept(Delivery { message, reply: None })),
            final(self)@.wf(),
            r == if old(self)@.alive(to) {
                Ok::<(), Fault>(())
            } else {
                Err::<(), Fault>(Fault::DeliveryFailed)
            },
    {
        let delivery = Delivery { message, reply: None };
        proof {
            event_keeps_node_wf(self@, to, Event::Accept(delivery));
        }
        if to.id < self.cells.len() {
            let r = self.cells[to.id].enqueue(delivery);
            proof {
                assert(self@.cells =~= old(self)@.after(to, Event::Accept(delivery)).cells);
            }
            r
        } else {
            Err(Fault::DeliveryFailed)
        }
    }

    /// Sends a message whose outcome is wanted: the message is put behind
    /// all that are pending for the actor, with a ticket that no delivery
    /// has carried before. The outcome comes with that ticket when the
    /// handler is done, or the ticket fails when the actor ends first.
    /// Fails at once with delivery-failed, and changes nothing, if the
    /// actor has ended or the address names none.
    pub fn ask(&mut self, to: Address, message: Message) -> (r: Result<Ticket, Fault>)
        requires
            old(self)@.wf(),
            old(self)@.issued < u64::MAX,
        ensures
            final(self)@.wf(),
            match r {
                Ok(ticket) => {
                    &&& old(self)@.alive(to)
                    &&& ticket.id == old(self)@.issued
                    &&& final(self)@ == old(self)@.after_ask(to, message)
                },
                Err(fault) => {
                    &&& !old(self)@.alive(to)
                    &&& fault == Fault::DeliveryFailed
                    &&& final(self)@ == old(self)@
                },
            },
    {
        if to.id < self.cells.len() {
            match self.cells[to.id].phase() {
                Phase::Terminated => Err(Fault::DeliveryFailed),
                _ => {
                    let ticket = Ticket { id: self.issued };
                    let delivery = Delivery { message, reply: Some(ticket) };
                    self.issued = self.issued + 1;
                    proof {
                        ask_keeps_node_wf(old(self)@, to, message);
                    }
                    let _ = self.cells[to.id].enqueue(delivery);
                    proof {
                        assert(self@.cells =~= old(self)@.after_ask(to, message).cells);
                    }
                    Ok(ticket)
                },
            }
        } else {
            Err(Fault::DeliveryFailed)
        }
    }

    /// Takes note that the initialization hook of the actor `at` came to
    /// its end.
    pub fn init_finished(&mut self, at: Address, ok: bool) -> (teardown: Option<Teardown>)
        requires
            old(self)@.wf(),
        ensures
            final(self)@ == old(self)@.after(at, Event::InitFinished(ok)),
            final(self)@.wf(),
            if old(self)@.knows(at) {
                is_teardown_of(
                    teardown,
                    old(self)@.cells[at.id as int],
                    final(self)@.cells[at.id as int],
                    if ok {
                        Cause::Stop
                    } else {
                        Cause::InitFailure
                    },
                    old(self)@.cells[at.id as int].waiting_asks(),
                )
            } else {
                teardown is None
            },
    {
        proof {
            event_keeps_node_wf(self@, at, Event::InitFinished(ok));
        }
        if at.id < self.cells.len() {
            let teardown = self.cells[at.id].init_finished(ok);
            proof {
                assert(self@.cells =~= old(self)@.after(at, Event::InitFinished(ok)).cells);
            }
            teardown
        } else {
            None
        }
    }

    /// Says what the actor `at` is to do next. An address that names no
    /// actor is answered as an actor that has ended.
    pub fn poll(&mut self, at: Address) -> (step: Step)
        requires
            old(self)@.wf(),
        ensures
            final(self)@ == old(self)@.after(at, Event::Poll),
            final(self)@.wf(),
            step == if old(self)@.knows(at) {
                old(self)@.cells[at.id as int].poll_step()
            } else {
                Step::Ended
            },
    {
        proof {
            event_keeps_node_wf(self@, at, Event::Poll);
        }
        if at.id < self.cells.len() {
            let step = self.cells[at.id].poll();
            proof {
                assert(self@.cells =~= old(self)@.after(at, Event::Poll).cells);
            }
            step
        } else {
            Step::Ended
        }
    }

    /// Takes note that the handler at work in the actor `at` came to its
    /// end with `outcome`, and says where the outcome goes.
    pub fn complete<R>(&mut self, at: Address, outcome: R) -> (done: Completion<R>)
        requires
            old(self)@.wf(),
        ensures
            final(self)@ == old(self)@.after(at, Event::Complete),
            final(self)@.wf(),
            if old(self)@.knows(at) {
                &&& done.reply == match old(self)@.cells[at.id as int].reply_ticket() {
                    Some(ticket) => Some((ticket, outcome)),
                    None => None,
                }
                &&& is_teardown_of(
                    done.teardown,
                    old(self)@.cells[at.id as int],
                    final(self)@.cells[at.id as int],
                    Cause::Stop,
                    pending_asks(old(self)@.cells[at.id as int].mailbox),
                )
            } else {
                done.reply is None && done.teardown is None
            },
    {
        proof {
            event_keeps_node_wf(self@, at, Event::Complete);
        }
        if at.id < self.cells.len() {
            let done = self.cells[at.id].complete(outcome);
            proof {
                assert(self@.cells =~= old(self)@.after(at, Event::Complete).cells);
            }
            done
        } else {
            Completion { reply: None, teardown: None }
        }
    }

    /// Asks the actor `at` to stop.
    pub fn stop(&mut self, at: Address) -> (teardown: Option<Teardown>)
        requires
            old(self)@.wf(),
        ensures
            final(self)@ == old(self)@.after(at, Event::Stop),
            final(self)@.wf(),
            if old(self)@.knows(at) {
                is_teardown_of(
                    teardown,
                    old(self)@.cells[at.id as int],
                    final(self)@.cells[at.id as int],
                    Cause::Stop,
                    pending_asks(old(self)@.cells[at.id as int].mailbox),
                )
            } else {
                teardown is None
            },
    {
        proof {
            event_keeps_node_wf(self@, at, Event::Stop);
        }
        if at.id < self.cells.len() {
            let teardown = self.cells[at.id].stop();
            proof {
                assert(self@.cells =~= old(self)@.after(at, Event::Stop).cells);
            }
            teardown
        } else {
            None
        }
    }

    /// Ends the actor `at` from outside, whatever it is doing.
    pub fn terminate(&mut self, at: Address, cause: Cause) -> (teardown: Option<Teardown>)
        requires
            old(self)@.wf(),
        ensures
            final(self)@ == old(self)@.after(at, Event::End(cause)),
            final(self)@.wf(),
            if old(self)@.knows(at) {
                is_teardown_of(
                    teardown,
                    old(self)@.cells[at.id as int],
                    final(self)@.cells[at.id as int],
                    cause,
                    old(self)@.cells[at.id as int].waiting_asks(),
                )
            } else {
                teardown is None
            },
    {
        proof {
            event_keeps_node_wf(self@, at, Event::End(cause));
        }
        if at.id < self.cells.len() {
            let teardown = self.cells[at.id].terminate(cause);
            proof {
                assert(self@.cells =~= old(self)@.after(at, Event::End(cause)).cells);
            }
            teardown
        } else {
            None
        }
    }

    /// Records that `subscriber` receives the broadcasts of the message
    /// type `kind` of the actor `to`. Tells whether that was new. Nothing is
    /// asked of the subscriber: whether it lives shows when it is told.
    pub fn subscribe(&mut self, to: Address, kind: u64, subscriber: Address) -> (added: bool)
        requires
            old(self)@.wf(),
        ensures
            final(self)@ == old(self)@.after_subscribe(to, kind, subscriber),
            final(self)@.wf(),
            added == (old(self)@.knows(to) && !old(self)@.cells[to.id as int].has_subscriber(
                kind,
                subscriber,
            )),
    {
        if to.id < self.cells.len() {
            let added = self.cells[to.id].subscribe(kind, subscriber);
            proof {
                assert(self@.cells =~= old(self)@.after_subscribe(to, kind, subscriber).cells);
            }
            added
        } else {
            false
        }
    }

    /// Sends `message` from the actor `from` to each of its subscribers for
    /// the message's type, by a tell to each.
    pub fn broadcast(&mut self, from: Address, message: Message)
        requires
            old(self)@.wf(),
        ensures
            final(self)@ == old(self)@.after_broadcast(from, message),
            final(self)@.wf(),
    {
        if from.id >= self.cells.len() {
            return ;
        }
        let subscribers = self.cells[from.id].subscribers(message.kind);
        let ghost source = old(self)@.cells[from.id as int];
        let ghost delivery = Delivery { message, reply: None };
        proof {
            subscribers_are_distinct(source.subscriptions, message.kind);
        }
        let mut k: usize = 0;
        while k < subscribers.len()
            invariant
                k <= subscribers@.len(),
                old(self)@.wf(),
                old(self)@.knows(from),
                source == old(self)@.cells[from.id as int],
                delivery == (Delivery { message, reply: None }),
                subscribers@ == source.subscribers(message.kind),
                forall|i: int, j: int|
                    0 <= i < j < subscribers@.len() ==> subscribers@[i] != subscribers@[j],
                self@.wf(),
                self@.issued == old(self)@.issued,
                self@.cells.len() == old(self)@.cells.len(),
                forall|i: int|
                    0 <= i < self@.cells.len() ==> #[trigger] self@.cells[i] == if told(
                        subscribers@,
                        k as int,
                        i,
                    ) {
                        old(self)@.cells[i].after_accept(delivery)
                    } else {
                        old(self)@.cells[i]
                    },
            decreases subscribers@.len() - k,
        {
            let ghost before = self@;
            let to = subscribers[k];
            let _ = self.tell(to, message);
            proof {
                assert forall|i: int| 0 <= i < self@.cells.len() implies #[trigger] self@.cells[i]
                    == if told(subscribers@, k + 1, i) {
                    old(self)@.cells[i].after_accept(delivery)
                } else {
                    old(self)@.cells[i]
                } by {
                    if i == to.id {
                        assert(subscribers@[k as int].id == i);
                        assert(told(subscribers@, k + 1, i));
                        if told(subscribers@, k as int, i) {
                            let j = choose|j: int| 0 <= j < k && (#[trigger] subscribers@[j]).id == i;
                            assert(subscribers@[j] == subscribers@[k as int]);
                        }
                        assert(before.cells[i] == old(self)@.cells[i]);
                    } else {
                        assert(self@.cells[i] == before.cells[i]);
                        if told(subscribers@, k + 1, i) {
                            let j = choose|j: int|
                                0 <= j < k + 1 && (#[trigger] subscribers@[j]).id == i;
                            assert(j < k);
                            assert(told(subscribers@, k as int, i));
                        }
                        if told(subscribers@, k as int, i) {
                            let j = choose|j: int| 0 <= j < k && (#[trigger] subscribers@[j]).id == i;
                            assert(0 <= j < k + 1 && subscribers@[j].id == i);
                        }
                    }
                }
            }
            k += 1;
        }
        proof {
            let goal = old(self)@.after_broadcast(from, message);
            assert forall|i: int| 0 <= i < self@.cells.len() implies self@.cells[i]
                == goal.cells[i] by {
                let a = Address { id: i as usize };
                subscribers_are_the_subscribed(source.subscriptions, message.kind, a);
                if told(subscribers@, subscribers@.len() as int, i) {
                    let j = choose|j: int|
                        0 <= j < subscribers@.len() && (#[trigger] subscribers@[j]).id == i;
                    assert(subscribers@[j] == a);
                }
                if subscribers@.contains(a) {
                    let j = choose|j: int| 0 <= j < subscribers@.len() && subscribers@[j] == a;
                    assert(subscribers@[j].id == i);
                }
            }
            assert(self@.cells =~= goal.cells);
        }
    }

    /// Ends every actor of the node. The answer holds, for each actor in
    /// the order of spawning, the order to run its teardown hook, unless
    /// the actor had ended before.
    pub fn shutdown(&mut self) -> (teardowns: Vec<Option<Teardown>>)
        requires
            old(self)@.wf(),
        ensures
            final(self)@ == old(self)@.after_shutdown(),
            final(self)@.wf(),
            teardowns@.len() == old(self)@.cells.len(),
            forall|i: int|
                0 <= i < teardowns@.len() ==> is_teardown_of(
                    #[trigger] teardowns@[i],
                    old(self)@.cells[i],
                    final(self)@.cells[i],
                    Cause::Shutdown,
                    old(self)@.cells[i].waiting_asks(),
                ),
    {
        let mut teardowns: Vec<Option<Teardown>> = Vec::new();
        let n: usize = self.cells.len();
        let mut i: usize = 0;
        while i < n
            invariant
                i <= n,
                n == old(self)@.cells.len(),
                self@.cells.len() == n,
                self@.issued == old(self)@.issued,
                self@.wf(),
                teardowns@.len() == i,
                forall|j: int|
                    0 <= j < n ==> #[trigger] self@.cells[j] == if j < i {
                        old(self)@.cells[j].after_end()
                    } else {
                        old(self)@.cells[j]
                    },
                forall|j: int|
                    0 <= j < i ==> is_teardown_of(
                        #[trigger] teardowns@[j],
                        old(self)@.cells[j],
                        self@.cells[j],
                        Cause::Shutdown,
                        old(self)@.cells[j].waiting_asks(),
                    ),
            decreases n - i,
        {
            let ghost before = self@;
            let ghost orders = teardowns@;
            let teardown = self.terminate(Address { id: i }, Cause::Shutdown);
            teardowns.push(teardown);
            proof {
                assert forall|j: int| 0 <= j < i + 1 implies is_teardown_of(
                    #[trigger] teardowns@[j],
                    old(self)@.cells[j],
                    self@.cells[j],
                    Cause::Shutdown,
                    old(self)@.cells[j].waiting_asks(),
                ) by {
                    if j < i {
                        assert(teardowns@[j] == orders[j]);
                        assert(self@.cells[j] == before.cells[j]);
                    }
                }
            }
            i += 1;
        }
        proof {
            assert(self@.cells =~= old(self)@.after_shutdown().cells);
        }
        teardowns
    }
}

/// An event at one actor leads to a state that a node can be in, as long
/// as a delivery that arrives carries no ticket.
pub proof fn event_keeps_node_wf(n: NodeView, at: Address, event: Event)
    requires
        n.wf(),
        match event {
            Event::Accept(delivery) => delivery.reply is None,
            _ => true,
        },
    ensures
        n.after(at, event).wf(),
{
    let m = n.after(at, event);
    if n.knows(at) {
        let c = n.cells[at.id as int];
        event_keeps_wf(c, event);
        assert forall|i: int, k: int|
            0 <= i < m.cells.len() && 0 <= k < m.cells[i].accepted.len() implies ticket_below(
            #[trigger] m.cells[i].accepted[k],
            m.issued,
        ) by {
            if k < n.cells[i].accepted.len() {
                assert(ticket_below(n.cells[i].accepted[k], n.issued));
            }
        }
        assert forall|i: int, k: int, j: int, l: int|
            0 <= i < m.cells.len() && 0 <= k < m.cells[i].accepted.len() && 0 <= j
                < m.cells.len() && 0 <= l < m.cells[j].accepted.len() && (i != j || k != l)
                && (#[trigger] m.cells[i].accepted[k]).reply is Some implies m.cells[i].accepted[k].reply
            != (#[trigger] m.cells[j].accepted[l]).reply by {
            if k < n.cells[i].accepted.len() && l < n.cells[j].accepted.len() {
                assert(n.cells[i].accepted[k].reply != n.cells[j].accepted[l].reply);
            }
        }
    }
}

/// An ask leads to a state that a node can be in: its ticket is one that
/// no delivery has carried.
pub proof fn ask_keeps_node_wf(n: NodeView, to: Address, message: Message)
    requires
        n.wf(),
        n.issued < u64::MAX,
    ensures
        n.after_ask(to, message).wf(),
{
    let m = n.after_ask(to, message);
    let delivery = Delivery { message, reply: Some(Ticket { id: n.issued as u64 }) };
    if n.knows(to) {
        event_keeps_wf(n.cells[to.id as int], Event::Accept(delivery));
    }
    assert forall|i: int, k: int|
        0 <= i < m.cells.len() && 0 <= k < m.cells[i].accepted.len() implies ticket_below(
        #[trigger] m.cells[i].accepted[k],
        m.issued,
    ) by {
        if k < n.cells[i].accepted.len() {
            assert(ticket_below(n.cells[i].accepted[k], n.issued));
        }
    }
    assert forall|i: int, k: int, j: int, l: int|
        0 <= i < m.cells.len() && 0 <= k < m.cells[i].accepted.len() && 0 <= j < m.cells.len()
            && 0 <= l < m.cells[j].accepted.len() && (i != j || k != l)
            && (#[trigger] m.cells[i].accepted[k]).reply is Some implies m.cells[i].accepted[k].reply
        != (#[trigger] m.cells[j].accepted[l]).reply by {
        if k < n.cells[i].accepted.len() {
            assert(ticket_below(n.cells[i].accepted[k], n.issued));
            if l < n.cells[j].accepted.len() {
                assert(n.cells[i].accepted[k].reply != n.cells[j].accepted[l].reply);
            }
        } else if l < n.cells[j].accepted.len() {
            assert(ticket_below(n.cells[j].accepted[l], n.issued));
        }
    }
}

/// Whether one of the first `upto` of `subscribers` is the actor at place
/// `i`.
pub open spec fn told(subscribers: Seq<Address>, upto: int, i: int) -> bool {
    exists|j: int| 0 <= j < upto && j < subscribers.len() && (#[trigger] subscribers[j]).id == i
}

/// The subscribers to a message type are those for whom a subscription to
/// that type is recorded.
pub proof fn subscribers_are_the_subscribed(
    subscriptions: Seq<Subscription>,
    kind: u64,
    subscriber: Address,
)
    ensures
        subscribers_among(subscriptions, kind).contains(subscriber) <==> subscriptions.contains(
            Subscription { kind, subscriber },
        ),
    decreases subscriptions.len(),
{
    let wanted = Subscription { kind, subscriber };
    let found = subscribers_among(subscriptions, kind);
    if subscriptions.len() > 0 {
        let rest = subscriptions.drop_last();
        let found_rest = subscribers_among(rest, kind);
        subscribers_are_the_subscribed(rest, kind, subscriber);
        if found.contains(subscriber) {
            let j = choose|j: int| 0 <= j < found.len() && found[j] == subscriber;
            if j < found_rest.len() {
                assert(found_rest[j] == subscriber);
                let i = choose|i: int| 0 <= i < rest.len() && rest[i] == wanted;
                assert(subscriptions[i] == wanted);
            } else {
                assert(subscriptions[subscriptions.len() - 1] == wanted);
            }
        }
        if subscriptions.contains(wanted) {
            let i = choose|i: int| 0 <= i < subscriptions.len() && subscriptions[i] == wanted;
            if i < rest.len() {
                assert(rest[i] == wanted);
                let j = choose|j: int| 0 <= j < found_rest.len() && found_rest[j] == subscriber;
                assert(found[j] == subscriber);
            } else {
                assert(found[found.len() - 1] == subscriber);
            }
        }
    }
}

/// Where no subscription is recorded twice, no subscriber is listed twice.
pub proof fn subscribers_are_distinct(subscriptions: Seq<Subscription>, kind: u64)
    requires
        forall|i: int, j: int|
            0 <= i < j < subscriptions.len() ==> subscriptions[i] != subscriptions[j],
    ensures
        forall|i: int, j: int|
            0 <= i < j < subscribers_among(subscriptions, kind).len() ==> subscribers_among(
                subscriptions,
                kind,
            )[i] != subscribers_among(subscriptions, kind)[j],
    decreases subscriptions.len(),
{
    if subscriptions.len() > 0 {
        let rest = subscriptions.drop_last();
        let last = subscriptions.last();
        let found = subscribers_among(subscriptions, kind);
        let found_rest = subscribers_among(rest, kind);
        assert forall|i: int, j: int| 0 <= i < j < rest.len() implies rest[i] != rest[j] by {
            assert(rest[i] == subscriptions[i] && rest[j] == subscriptions[j]);
        }
        subscribers_are_distinct(rest, kind);
        if last.kind == kind {
            subscribers_are_the_subscribed(rest, kind, last.subscriber);
            if found_rest.contains(last.subscriber) {
                let i = choose|i: int| 0 <= i < rest.len() && rest[i] == last;
                assert(subscriptions[i] == subscriptions[subscriptions.len() - 1]);
            }
            assert forall|i: int, j: int| 0 <= i < j < found.len() implies found[i]
                != found[j] by {
                if j == found_rest.len() {
                    assert(found_rest[i] == found[i]);
                    assert(found_rest.contains(found[i]));
                } else {
                    assert(found_rest[i] == found[i] && found_rest[j] == found[j]);
                }
            }
        }
    }
}


} // verus!
