//! The state of one actor as a mathematical value, and the events that
//! change it. The executable actor is held to this model step by step.

use vstd::prelude::*;
use crate::message::{pending_asks, pending_asks_from_front, Address, Delivery, Message, Ticket};

verus! {

/// Where an actor stands in its life.
#[derive(Clone, Copy, Debug, PartialEq, Eq, Structural)]
pub enum Phase {
    /// The initialization hook runs. Deliveries are accepted and wait.
    Initializing,
    /// Deliveries are handled, one at a time.
    Running,
    /// The actor has ended. Nothing is accepted any more.
    Terminated,
}

/// Why an actor ended.
#[derive(Clone, Copy, Debug, PartialEq, Eq, Structural)]
pub enum Cause {
    /// A handler or hook of the actor asked for it.
    Stop,
    /// The initialization hook failed.
    InitFailure,
    /// A fault from which the actor cannot go on.
    Fault,
    /// The node shut down.
    Shutdown,
    /// The last address of the actor was given up.
    Released,
}

/// The record, kept by a broadcaster, that `subscriber` receives its
/// broadcasts of the message type `kind`.
#[derive(Clone, Copy, Debug, PartialEq, Eq, Structural)]
pub struct Subscription {
    pub kind: u64,
    pub subscriber: Address,
}

/// What the one who drives an actor is to do next.
#[derive(Clone, Copy, Debug, PartialEq, Eq, Structural)]
pub enum Step {
    /// Run this handler on this message, to its end, then report that it
    /// completed.
    Invoke { handler: u64, message: Message },
    /// The message's type has no handler. The message is dropped; if it
    /// was an ask, the ask fails with this ticket.
    Unhandled { message: Message, reply: Option<Ticket> },
    /// Nothing is pending: wait for a delivery.
    Idle,
    /// A hook or a handler of this actor is still at work.
    Busy,
    /// The actor has ended.
    Ended,
}

/// Something that happens to an actor.
pub enum Event {
    /// A delivery arrives.
    Accept(Delivery),
    /// The initialization hook came to its end, well or not.
    InitFinished(bool),
    /// The driver asks what to do next.
    Poll,
    /// The handler that was invoked came to its end.
    Complete,
    /// The actor asks to be stopped.
    Stop,
    /// The actor is ended from outside.
    End(Cause),
}

/// The state of one actor.
pub struct CellView {
    pub address: Address,
    pub phase: Phase,
    /// The handler of each message type that the actor accepts.
    pub table: Map<u64, u64>,
    /// The pending deliveries, oldest first.
    pub mailbox: Seq<Delivery>,
    /// The delivery whose handler is at work.
    pub in_flight: Option<Delivery>,
    /// Whether the actor ends as soon as the work in progress is done.
    pub stopping: bool,
    pub subscriptions: Seq<Subscription>,
    /// Every delivery that was ever accepted, in the order of arrival.
    pub accepted: Seq<Delivery>,
    /// Every delivery that was ever taken out of the mailbox, in the order
    /// in which they were taken.
    pub handled: Seq<Delivery>,
    /// The tickets of the asks that were answered, with an outcome or with
    /// a fault, in the order of the answers.
    pub answered: Seq<Ticket>,
    /// How many times the teardown hook was started.
    pub teardowns: nat,
}

/// The answers after one more delivery was answered: one more ticket if
/// the delivery was an ask.
pub open spec fn with_answer(answered: Seq<Ticket>, reply: Option<Ticket>) -> Seq<Ticket> {
    match reply {
        Some(ticket) => answered.push(ticket),
        None => answered,
    }
}

impl CellView {
    /// The state of an actor that was just spawned.
    pub open spec fn fresh(address: Address, table: Map<u64, u64>) -> CellView {
        CellView {
            address,
            phase: Phase::Initializing,
            table,
            mailbox: Seq::empty(),
            in_flight: None,
            stopping: false,
            subscriptions: Seq::empty(),
            accepted: Seq::empty(),
            handled: Seq::empty(),
            answered: Seq::empty(),
            teardowns: 0,
        }
    }

    /// Whether a hook or a handler of the actor is at work.
    pub open spec fn busy(self) -> bool {
        self.phase is Initializing || self.in_flight is Some
    }

    /// Whether the state is one that an actor can be in.
    pub open spec fn wf(self) -> bool {
        &&& self.phase is Terminated ==> self.mailbox.len() == 0 && self.in_flight is None
        &&& self.phase is Initializing ==> self.handled.len() == 0 && self.in_flight is None
        &&& self.stopping ==> self.busy()
        &&& self.in_flight is Some ==> self.handled.len() > 0 && self.handled.last()
            == self.in_flight.unwrap() && self.table.contains_key(
            self.in_flight.unwrap().message.kind,
        )
        &&& self.handled.len() <= self.accepted.len()
        &&& self.handled == self.accepted.take(self.handled.len() as int)
        &&& !(self.phase is Terminated) ==> self.accepted == self.handled + self.mailbox
        &&& pending_asks(self.accepted) == self.answered + self.waiting_asks()
        &&& self.teardowns == if self.phase is Terminated {
            1nat
        } else {
            0nat
        }
        &&& forall|i: int, j: int|
            0 <= i < j < self.subscriptions.len() ==> self.subscriptions[i]
                != self.subscriptions[j]
    }

    /// The state after a delivery arrived. An actor that has ended accepts
    /// nothing.
    pub open spec fn after_accept(self, delivery: Delivery) -> CellView {
        if self.phase is Terminated {
            self
        } else {
            CellView {
                mailbox: self.mailbox.push(delivery),
                accepted: self.accepted.push(delivery),
                ..self
            }
        }
    }

    /// The asks that wait for their answer: the one whose handler is at
    /// work, then those that are pending, oldest first. They fail when the
    /// actor ends.
    pub open spec fn waiting_asks(self) -> Seq<Ticket> {
        match self.in_flight {
            Some(Delivery { reply: Some(ticket), .. }) => seq![ticket] + pending_asks(
                self.mailbox,
            ),
            _ => pending_asks(self.mailbox),
        }
    }

    /// The state after the actor ended. An actor ends once.
    pub open spec fn after_end(self) -> CellView {
        if self.phase is Terminated {
            self
        } else {
            CellView {
                phase: Phase::Terminated,
                mailbox: Seq::empty(),
                in_flight: None,
                stopping: false,
                answered: self.answered + self.waiting_asks(),
                teardowns: self.teardowns + 1,
                ..self
            }
        }
    }

    /// The state after the initialization hook came to its end.
    pub open spec fn after_init(self, ok: bool) -> CellView {
        if !(self.phase is Initializing) {
            self
        } else if !ok || self.stopping {
            self.after_end()
        } else {
            CellView { phase: Phase::Running, ..self }
        }
    }

    /// Whether the next poll takes a delivery out of the mailbox.
    pub open spec fn ready(self) -> bool {
        self.phase is Running && self.in_flight is None && self.mailbox.len() > 0
    }

    /// What a poll answers.
    pub open spec fn poll_step(self) -> Step {
        match self.phase {
            Phase::Terminated => Step::Ended,
            Phase::Initializing => Step::Busy,
            Phase::Running => if self.in_flight is Some {
                Step::Busy
            } else if self.mailbox.len() == 0 {
                Step::Idle
            } else if self.table.contains_key(self.mailbox[0].message.kind) {
                Step::Invoke {
                    handler: self.table[self.mailbox[0].message.kind],
                    message: self.mailbox[0].message,
                }
            } else {
                Step::Unhandled { message: self.mailbox[0].message, reply: self.mailbox[0].reply }
            },
        }
    }

    /// The state after a poll. Only an actor that runs and has no handler at
    /// work takes a delivery out, and it takes the oldest.
    pub open spec fn after_poll(self) -> CellView {
        if self.ready() {
            CellView {
                mailbox: self.mailbox.skip(1),
                handled: self.handled.push(self.mailbox[0]),
                in_flight: if self.table.contains_key(self.mailbox[0].message.kind) {
                    Some(self.mailbox[0])
                } else {
                    None
                },
                answered: if self.table.contains_key(self.mailbox[0].message.kind) {
                    self.answered
                } else {
                    with_answer(self.answered, self.mailbox[0].reply)
                },
                ..self
            }
        } else {
            self
        }
    }

    /// The ticket to which the outcome of the handler at work goes.
    pub open spec fn reply_ticket(self) -> Option<Ticket> {
        match self.in_flight {
            Some(delivery) => delivery.reply,
            None => None,
        }
    }

    /// The state after the delivery in hand was answered.
    pub open spec fn after_answer(self) -> CellView {
        CellView {
            in_flight: None,
            answered: with_answer(self.answered, self.reply_ticket()),
            ..self
        }
    }

    /// The state after the handler at work came to its end.
    pub open spec fn after_complete(self) -> CellView {
        if self.in_flight is None {
            self
        } else if self.stopping {
            self.after_answer().after_end()
        } else {
            self.after_answer()
        }
    }

    /// The state after the actor asked to be stopped. Work in progress is
    /// not interrupted: the actor ends when it is done.
    pub open spec fn after_stop(self) -> CellView {
        if self.phase is Terminated {
            self
        } else if self.busy() {
            CellView { stopping: true, ..self }
        } else {
            self.after_end()
        }
    }

    /// The state after an event.
    pub open spec fn after(self, event: Event) -> CellView {
        match event {
            Event::Accept(delivery) => self.after_accept(delivery),
            Event::InitFinished(ok) => self.after_init(ok),
            Event::Poll => self.after_poll(),
            Event::Complete => self.after_complete(),
            Event::Stop => self.after_stop(),
            Event::End(_) => self.after_end(),
        }
    }

    /// Whether the teardown hook is started at an event: at the one event
    /// that ends the actor.
    pub open spec fn tears_down(self, event: Event) -> bool {
        !(self.phase is Terminated) && self.after(event).phase is Terminated
    }

    /// The state after a run of events.
    pub open spec fn after_all(self, events: Seq<Event>) -> CellView
        decreases events.len(),
    {
        if events.len() == 0 {
            self
        } else {
            self.after_all(events.drop_last()).after(events.last())
        }
    }

    /// How many times the teardown hook is started in a run of events.
    pub open spec fn teardowns_in(self, events: Seq<Event>) -> nat
        decreases events.len(),
    {
        if events.len() == 0 {
            0
        } else {
            let before = self.teardowns_in(events.drop_last());
            if self.after_all(events.drop_last()).tears_down(events.last()) {
                before + 1
            } else {
                before
            }
        }
    }

    /// The subscribers to the actor's broadcasts of `kind`, in the order in
    /// which they subscribed.
    pub open spec fn subscribers(self, kind: u64) -> Seq<Address> {
        subscribers_among(self.subscriptions, kind)
    }

    /// Whether `subscriber` receives the actor's broadcasts of `kind`.
    pub open spec fn has_subscriber(self, kind: u64, subscriber: Address) -> bool {
        self.subscriptions.contains(Subscription { kind, subscriber })
    }

    /// The state after `subscriber` subscribed to the actor's broadcasts of
    /// `kind`. To subscribe twice is to subscribe once.
    pub open spec fn after_subscribe(self, kind: u64, subscriber: Address) -> CellView {
        if self.has_subscriber(kind, subscriber) {
            self
        } else {
            CellView {
                subscriptions: self.subscriptions.push(Subscription { kind, subscriber }),
                ..self
            }
        }
    }
}

/// The subscribers to `kind` among `subscriptions`, in their order.
pub open spec fn subscribers_among(subscriptions: Seq<Subscription>, kind: u64) -> Seq<Address>
    decreases subscriptions.len(),
{
    if subscriptions.len() == 0 {
        Seq::empty()
    } else if subscriptions.last().kind == kind {
        subscribers_among(subscriptions.drop_last(), kind).push(subscriptions.last().subscriber)
    } else {
        subscribers_among(subscriptions.drop_last(), kind)
    }
}

/// A freshly spawned actor is in a state that an actor can be in.
pub proof fn fresh_is_wf(address: Address, table: Map<u64, u64>)
    ensures
        CellView::fresh(address, table).wf(),
{
    let c = CellView::fresh(address, table);
    assert(c.accepted.take(0) =~= c.handled);
    assert(c.accepted =~= c.handled + c.mailbox);
    assert(pending_asks(c.accepted) =~= c.answered + c.waiting_asks());
}

/// Ending leads to a state that an actor can be in.
pub proof fn end_keeps_wf(c: CellView)
    requires
        c.wf(),
    ensures
        c.after_end().wf(),
{
    let d = c.after_end();
    if !(c.phase is Terminated) {
        assert(d.waiting_asks() =~= Seq::<Ticket>::empty());
        assert(pending_asks(d.accepted) =~= d.answered + d.waiting_asks());
    }
}

/// No event leads out of the states that an actor can be in.
pub proof fn event_keeps_wf(c: CellView, event: Event)
    requires
        c.wf(),
    ensures
        c.after(event).wf(),
{
    let d = c.after(event);
    match event {
        Event::Accept(delivery) => {
            if !(c.phase is Terminated) {
                assert(d.accepted.take(d.handled.len() as int) =~= c.accepted.take(
                    c.handled.len() as int,
                ));
                assert(d.accepted =~= d.handled + d.mailbox);
                assert(d.accepted.drop_last() =~= c.accepted);
                assert(d.mailbox.drop_last() =~= c.mailbox);
                assert(pending_asks(d.accepted) =~= d.answered + d.waiting_asks());
            }
        },
        Event::Poll => {
            if c.ready() {
                assert(d.accepted =~= d.handled + d.mailbox);
                assert(d.handled =~= d.accepted.take(d.handled.len() as int));
                pending_asks_from_front(c.mailbox);
                assert(pending_asks(d.accepted) =~= d.answered + d.waiting_asks());
            }
        },
        Event::Complete => {
            if c.in_flight is Some {
                let e = c.after_answer();
                assert(pending_asks(c.accepted) =~= e.answered + pending_asks(c.mailbox));
                if c.stopping {
                    assert(d.waiting_asks() =~= Seq::<Ticket>::empty());
                }
                assert(pending_asks(d.accepted) =~= d.answered + d.waiting_asks());
            }
        },
        Event::InitFinished(_) => {
            end_keeps_wf(c);
        },
        Event::Stop => {
            end_keeps_wf(c);
        },
        Event::End(_) => {
            end_keeps_wf(c);
        },
    }
}

/// Subscribing leads to a state that an actor can be in.
pub proof fn subscribe_keeps_wf(c: CellView, kind: u64, subscriber: Address)
    requires
        c.wf(),
    ensures
        c.after_subscribe(kind, subscriber).wf(),
{
    let d = c.after_subscribe(kind, subscriber);
    if !c.has_subscriber(kind, subscriber) {
        assert forall|i: int, j: int| 0 <= i < j < d.subscriptions.len() implies d.subscriptions[i]
            != d.subscriptions[j] by {
            if j == c.subscriptions.len() {
                assert(c.subscriptions[i] == d.subscriptions[i]);
            }
        }
    }
}

} // verus!
