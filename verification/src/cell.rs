//! The actor cell: one actor's mailbox, its place in its life, and the
//! bookkeeping of its subscribers. The cell decides; whoever drives it runs
//! the hooks and handlers that it names and reports back.

use vstd::prelude::*;
use crate::dispatch::DispatchTable;
use crate::mailbox::Mailbox;
use crate::message::{pending_asks, Address, Delivery, Fault, Ticket};
use crate::model::{
    event_keeps_wf, fresh_is_wf, subscribe_keeps_wf, subscribers_among, with_answer, Cause,
    CellView, Event, Phase, Step, Subscription,
};

verus! {

/// The order to run the teardown hook, given once in the life of a cell,
/// with the reason and with the asks that fail with delivery-failed once
/// the hook is done.
#[derive(Debug, PartialEq, Eq)]
pub struct Teardown {
    pub cause: Cause,
    pub failed: Vec<Ticket>,
}

/// What comes of a handler's end.
#[derive(Debug)]
pub struct Completion<R> {
    /// The outcome and the ticket that it goes to, if the message was an
    /// ask.
    pub reply: Option<(Ticket, R)>,
    /// Set if the cell ends now.
    pub teardown: Option<Teardown>,
}

/// Whether `teardown` is what a cell in state `before` hands out at an
/// event that takes it to state `after`, where `failed` are the asks that
/// fail if the cell ends.
pub open spec fn is_teardown_of(
    teardown: Option<Teardown>,
    before: CellView,
    after: CellView,
    cause: Cause,
    failed: Seq<Ticket>,
) -> bool {
    match teardown {
        Some(order) => !(before.phase is Terminated) && after.phase is Terminated && order.cause
            == cause && order.failed@ == failed,
        None => before.phase is Terminated || !(after.phase is Terminated),
    }
}

/// One actor's cell.
pub struct Cell {
    address: Address,
    phase: Phase,
    table: DispatchTable,
    mailbox: Mailbox,
    in_flight: Option<Delivery>,
    stopping: bool,
    subscriptions: Vec<Subscription>,
    accepted: Ghost<Seq<Delivery>>,
    handled: Ghost<Seq<Delivery>>,
    answered: Ghost<Seq<Ticket>>,
    teardowns: Ghost<nat>,
}

impl View for Cell {
    type V = CellView;

    closed spec fn view(&self) -> CellView {
        CellView {
            address: self.address,
            phase: self.phase,
            table: self.table@,
            mailbox: self.mailbox@,
            in_flight: self.in_flight,
            stopping: self.stopping,
            subscriptions: self.subscriptions@,
            accepted: self.accepted@,
            handled: self.handled@,
            answered: self.answered@,
            teardowns: self.teardowns@,
        }
    }
}

impl Cell {
    /// The cell of an actor that was just spawned: its initialization hook
    /// is to run, and nothing is pending.
    pub fn new(address: Address, table: DispatchTable) -> (cell: Cell)
        ensures
            cell@ == CellView::fresh(address, table@),
            cell@.wf(),
    {
        proof {
            fresh_is_wf(address, table@);
        }
        Cell {
            address,
            phase: Phase::Initializing,
            table,
            mailbox: Mailbox::new(),
            in_flight: None,
            stopping: false,
            subscriptions: Vec::new(),
            accepted: Ghost(Seq::empty()),
            handled: Ghost(Seq::empty()),
            answered: Ghost(Seq::empty()),
            teardowns: Ghost(0),
        }
    }

    /// The address of the actor.
    pub fn address(&self) -> (address: Address)
        ensures
            address == self@.address,
    {
        self.address
    }

    /// Where the actor stands in its life.
    pub fn phase(&self) -> (phase: Phase)
        ensures
            phase == self@.phase,
    {
        self.phase
    }

    /// The number of pending deliveries.
    pub fn pending(&self) -> (n: usize)
        ensures
            n == self@.mailbox.len(),
    {
        self.mailbox.len()
    }

    /// Tells whether a hook or a handler of the actor is at work.
    pub fn is_busy(&self) -> (busy: bool)
        ensures
            busy == self@.busy(),
    {
        match self.phase {
            Phase::Initializing => true,
            _ => self.in_flight.is_some(),
        }
    }

    /// Puts a delivery behind all that are pending. A cell that has ended
    /// refuses it and stays as it is.
    pub fn enqueue(&mut self, delivery: Delivery) -> (r: Result<(), Fault>)
        requires
            old(self)@.wf(),
        ensures
            final(self)@ == old(self)@.after_accept(delivery),
            final(self)@.wf(),
            r == if old(self)@.phase is Terminated {
                Err::<(), Fault>(Fault::DeliveryFailed)
            } else {
                Ok::<(), Fault>(())
            },
    {
        proof {
            event_keeps_wf(self@, Event::Accept(delivery));
        }
        match self.phase {
            Phase::Terminated => Err(Fault::DeliveryFailed),
            _ => {
                self.mailbox.enqueue(delivery);
                self.accepted = Ghost(self.accepted@.push(delivery));
                Ok(())
            },
        }
    }

    /// Ends a cell that has not ended: empties the mailbox and hands out
    /// the order to run the teardown hook.
    fn end(&mut self, cause: Cause) -> (order: Teardown)
        requires
            !(old(self)@.phase is Terminated),
        ensures
            final(self)@ == old(self)@.after_end(),
            order.cause == cause,
            order.failed@ == old(self)@.waiting_asks(),
    {
        self.answered = Ghost(self.answered@ + self@.waiting_asks());
        let mut failed: Vec<Ticket> = Vec::new();
        match self.in_flight {
            Some(Delivery { reply: Some(ticket), .. }) => {
                failed.push(ticket);
            },
            _ => {},
        }
        let mut pending = self.mailbox.drain_asks();
        failed.append(&mut pending);
        self.phase = Phase::Terminated;
        self.in_flight = None;
        self.stopping = false;
        self.teardowns = Ghost(self.teardowns@ + 1);
        Teardown { cause, failed }
    }

    /// Ends the cell from outside, whatever it is doing. The ask whose
    /// handler is at work fails with the pending ones. A cell that has
    /// ended stays as it is, and no teardown is ordered again.
    pub fn terminate(&mut self, cause: Cause) -> (teardown: Option<Teardown>)
        requires
            old(self)@.wf(),
        ensures
            final(self)@ == old(self)@.after_end(),
            final(self)@.wf(),
            is_teardown_of(teardown, old(self)@, final(self)@, cause, old(self)@.waiting_asks()),
    {
        proof {
            event_keeps_wf(self@, Event::End(cause));
        }
        match self.phase {
            Phase::Terminated => None,
            _ => Some(self.end(cause)),
        }
    }

    /// Takes note that the initialization hook came to its end. If it
    /// failed, the cell ends for that reason; if it asked for a stop, the
    /// cell ends for that one; else the cell runs.
    pub fn init_finished(&mut self, ok: bool) -> (teardown: Option<Teardown>)
        requires
            old(self)@.wf(),
        ensures
            final(self)@ == old(self)@.after_init(ok),
            final(self)@.wf(),
            is_teardown_of(
                teardown,
                old(self)@,
                final(self)@,
                if ok {
                    Cause::Stop
                } else {
                    Cause::InitFailure
                },
                old(self)@.waiting_asks(),
            ),
    {
        proof {
            event_keeps_wf(self@, Event::InitFinished(ok));
        }
        match self.phase {
            Phase::Initializing => {
                if !ok {
                    Some(self.end(Cause::InitFailure))
                } else if self.stopping {
                    Some(self.end(Cause::Stop))
                } else {
                    self.phase = Phase::Running;
                    None
                }
            },
            _ => None,
        }
    }

    /// Says what is to be done next. A cell that runs and has no handler at
    /// work takes the oldest delivery out of its mailbox; in every other
    /// state the cell stays as it is.
    pub fn poll(&mut self) -> (step: Step)
        requires
            old(self)@.wf(),
        ensures
            final(self)@ == old(self)@.after_poll(),
            final(self)@.wf(),
            step == old(self)@.poll_step(),
    {
        proof {
            event_keeps_wf(self@, Event::Poll);
        }
        match self.phase {
            Phase::Terminated => Step::Ended,
            Phase::Initializing => Step::Busy,
            Phase::Running => {
                if self.in_flight.is_some() {
                    return Step::Busy;
                }
                match self.mailbox.dequeue() {
                    None => Step::Idle,
                    Some(delivery) => {
                        self.handled = Ghost(self.handled@.push(delivery));
                        match self.table.lookup(delivery.message.kind) {
                            Some(handler) => {
                                self.in_flight = Some(delivery);
                                Step::Invoke { handler, message: delivery.message }
                            },
                            None => {
                                self.answered = Ghost(with_answer(self.answered@, delivery.reply));
                                Step::Unhandled { message: delivery.message, reply: delivery.reply }
                            },
                        }
                    },
                }
            },
        }
    }

    /// Takes note that the handler at work came to its end with `outcome`.
    /// The outcome goes, as it is, to the ticket of the delivery that the
    /// handler worked on; that of a tell is dropped. If a stop was asked for
    /// meanwhile, the cell ends now. With no handler at work the cell stays
    /// as it is and the outcome is dropped.
    pub fn complete<R>(&mut self, outcome: R) -> (done: Completion<R>)
        requires
            old(self)@.wf(),
        ensures
            final(self)@ == old(self)@.after_complete(),
            final(self)@.wf(),
            done.reply == match old(self)@.reply_ticket() {
                Some(ticket) => Some((ticket, outcome)),
                None => None,
            },
            is_teardown_of(
                done.teardown,
                old(self)@,
                final(self)@,
                Cause::Stop,
                pending_asks(old(self)@.mailbox),
            ),
    {
        proof {
            event_keeps_wf(self@, Event::Complete);
        }
        match self.in_flight {
            None => Completion { reply: None, teardown: None },
            Some(delivery) => {
                self.in_flight = None;
                self.answered = Ghost(with_answer(self.answered@, delivery.reply));
                let reply = match delivery.reply {
                    Some(ticket) => Some((ticket, outcome)),
                    None => None,
                };
                let teardown = if self.stopping {
                    Some(self.end(Cause::Stop))
                } else {
                    None
                };
                Completion { reply, teardown }
            },
        }
    }

    /// Asks the cell to stop. A cell with a hook or a handler at work goes
    /// on until that is done and ends then; an idle cell ends now.
    pub fn stop(&mut self) -> (teardown: Option<Teardown>)
        requires
            old(self)@.wf(),
        ensures
            final(self)@ == old(self)@.after_stop(),
            final(self)@.wf(),
            is_teardown_of(
                teardown,
                old(self)@,
                final(self)@,
                Cause::Stop,
                pending_asks(old(self)@.mailbox),
            ),
    {
        proof {
            event_keeps_wf(self@, Event::Stop);
        }
        match self.phase {
            Phase::Terminated => None,
            _ => {
                if self.is_busy() {
                    self.stopping = true;
                    None
                } else {
                    Some(self.end(Cause::Stop))
                }
            },
        }
    }

    /// Records that `subscriber` receives this actor's broadcasts of the
    /// message type `kind`. Tells whether that was new.
    #[verifier::loop_isolation(false)]
    pub fn subscribe(&mut self, kind: u64, subscriber: Address) -> (added: bool)
        requires
            old(self)@.wf(),
        ensures
            final(self)@ == old(self)@.after_subscribe(kind, subscriber),
            final(self)@.wf(),
            added == !old(self)@.has_subscriber(kind, subscriber),
    {
        proof {
            subscribe_keeps_wf(self@, kind, subscriber);
        }
        let wanted = Subscription { kind, subscriber };
        let mut i: usize = 0;
        while i < self.subscriptions.len()
            invariant
                i <= self.subscriptions@.len(),
                *self == *old(self),
                forall|j: int| 0 <= j < i ==> self.subscriptions@[j] != wanted,
            decreases self.subscriptions@.len() - i,
        {
            if self.subscriptions[i] == wanted {
                assert(self@.subscriptions[i as int] == wanted);
                return false;
            }
            i += 1;
        }
        self.subscriptions.push(wanted);
        true
    }

    /// The subscribers to this actor's broadcasts of the message type
    /// `kind`, in the order in which they subscribed.
    pub fn subscribers(&self, kind: u64) -> (found: Vec<Address>)
        ensures
            found@ == self@.subscribers(kind),
    {
        let mut found: Vec<Address> = Vec::new();
        let mut i: usize = 0;
        while i < self.subscriptions.len()
            invariant
                i <= self.subscriptions@.len(),
                found@ == subscribers_among(self.subscriptions@.take(i as int), kind),
            decreases self.subscriptions@.len() - i,
        {
            proof {
                assert(self.subscriptions@.take(i + 1).drop_last() =~= self.subscriptions@.take(
                    i as int,
                ));
            }
            if self.subscriptions[i].kind == kind {
                found.push(self.subscriptions[i].subscriber);
            }
            i += 1;
        }
        proof {
            assert(self.subscriptions@.take(i as int) =~= self.subscriptions@);
        }
        found
    }
}

} // verus!
