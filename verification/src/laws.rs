//! What holds of every actor and of every node, whatever happens to them
//! and in whatever order.

use vstd::prelude::*;
use crate::message::{pending_asks, Address, Delivery, Message, Ticket};
use crate::model::{event_keeps_wf, CellView, Event, Step};
use crate::node::NodeView;

verus! {

/// No run of events leads out of the states that an actor can be in.
pub proof fn run_keeps_wf(c: CellView, events: Seq<Event>)
    requires
        c.wf(),
    ensures
        c.after_all(events).wf(),
    decreases events.len(),
{
    if events.len() > 0 {
        run_keeps_wf(c, events.drop_last());
        event_keeps_wf(c.after_all(events.drop_last()), events.last());
    }
}

/// What was accepted stays accepted and what was handled stays handled, in
/// the same places: both records only grow at the end.
pub proof fn records_only_grow(c: CellView, events: Seq<Event>)
    requires
        c.wf(),
    ensures
        c.accepted.len() <= c.after_all(events).accepted.len(),
        c.handled.len() <= c.after_all(events).handled.len(),
        c.answered.len() <= c.after_all(events).answered.len(),
        c.accepted == c.after_all(events).accepted.take(c.accepted.len() as int),
        c.handled == c.after_all(events).handled.take(c.handled.len() as int),
        c.answered == c.after_all(events).answered.take(c.answered.len() as int),
    decreases events.len(),
{
    if events.len() == 0 {
        assert(c.accepted =~= c.accepted.take(c.accepted.len() as int));
        assert(c.handled =~= c.handled.take(c.handled.len() as int));
        assert(c.answered =~= c.answered.take(c.answered.len() as int));
    } else {
        let b = c.after_all(events.drop_last());
        let d = c.after_all(events);
        records_only_grow(c, events.drop_last());
        run_keeps_wf(c, events.drop_last());
        assert(b.accepted =~= d.accepted.take(b.accepted.len() as int));
        assert(b.handled =~= d.handled.take(b.handled.len() as int));
        assert(c.accepted =~= d.accepted.take(c.accepted.len() as int));
        assert(c.handled =~= d.handled.take(c.handled.len() as int));
        assert(b.answered =~= d.answered.take(b.answered.len() as int));
        assert(c.answered =~= d.answered.take(c.answered.len() as int));
    }
}

/// The deliveries to one actor are handled in the order in which they
/// came, whatever else happens to the actor in between and however long a
/// handler takes: of two deliveries, the later one is taken out of the
/// mailbox only after the earlier one was.
pub proof fn handled_in_order_of_arrival(c: CellView, events: Seq<Event>, i: int, j: int)
    requires
        c.wf(),
        0 <= i <= j < c.after_all(events).handled.len(),
    ensures
        j < c.after_all(events).accepted.len(),
        c.after_all(events).handled[i] == c.after_all(events).accepted[i],
        c.after_all(events).handled[j] == c.after_all(events).accepted[j],
{
    run_keeps_wf(c, events);
}

/// A delivery that arrives at an actor that has not ended stands behind
/// all that came before it, and is the next to be handled after them.
pub proof fn arrival_is_last_in_line(c: CellView, delivery: Delivery)
    requires
        c.wf(),
        !(c.phase is Terminated),
    ensures
        c.after_accept(delivery).accepted == c.accepted.push(delivery),
        c.after_accept(delivery).mailbox == c.mailbox.push(delivery),
        c.after_accept(delivery).mailbox.first() == if c.mailbox.len() == 0 {
            delivery
        } else {
            c.mailbox.first()
        },
{
}

/// While a handler of an actor is at work, no other handler of that actor
/// is started and the delivery it works on stays the one in hand: a poll
/// is answered with `Busy` and changes nothing, and only the handler's own
/// end or the end of the actor takes the delivery out of hand.
pub proof fn one_handler_at_a_time(c: CellView, event: Event)
    requires
        c.wf(),
        c.in_flight is Some,
    ensures
        c.poll_step() == Step::Busy,
        c.after_poll() == c,
        !(event is Complete) && !(event is End) ==> c.after(event).in_flight == c.in_flight,
{
}

/// A handler is started only when none is at work, and then on the oldest
/// pending delivery.
pub proof fn handler_starts_on_oldest(c: CellView)
    requires
        c.wf(),
        c.poll_step() is Invoke,
    ensures
        c.in_flight is None,
        c.mailbox.len() > 0,
        c.after_poll().in_flight == Some(c.mailbox[0]),
        c.poll_step()->Invoke_message == c.mailbox[0].message,
        c.poll_step()->Invoke_handler == c.table[c.mailbox[0].message.kind],
        c.after_poll().handled == c.handled.push(c.mailbox[0]),
{
}

/// The outcome of a handler goes to the ask that brought the message the
/// handler was started on, whatever arrives or is asked for in between.
pub proof fn outcome_goes_to_its_ask(c: CellView, between: Seq<Event>)
    requires
        c.wf(),
        c.poll_step() is Invoke,
        forall|k: int|
            0 <= k < between.len() ==> !(#[trigger] between[k] is Complete) && !(between[k] is End),
    ensures
        c.after_poll().after_all(between).in_flight == Some(c.mailbox[0]),
        c.after_poll().after_all(between).reply_ticket() == c.mailbox[0].reply,
    decreases between.len(),
{
    if between.len() > 0 {
        outcome_goes_to_its_ask(c, between.drop_last());
        event_keeps_wf(c, Event::Poll);
        run_keeps_wf(c.after_poll(), between.drop_last());
        assert(!(between[between.len() - 1] is Complete));
    }
}

/// The ticket that the next ask is given is carried by no delivery that
/// any actor of the node ever accepted.
pub proof fn next_ticket_is_fresh(n: NodeView, i: int, k: int)
    requires
        n.wf(),
        0 <= i < n.cells.len(),
        0 <= k < n.cells[i].accepted.len(),
    ensures
        match n.cells[i].accepted[k].reply {
            Some(ticket) => ticket.id != n.issued,
            None => true,
        },
{
    assert(crate::node::ticket_below(n.cells[i].accepted[k], n.issued));
}

/// No two deliveries that actors of one node accepted carry the same
/// ticket, so that an answer names one ask.
pub proof fn tickets_are_distinct(n: NodeView, i: int, k: int, j: int, l: int)
    requires
        n.wf(),
        0 <= i < n.cells.len(),
        0 <= k < n.cells[i].accepted.len(),
        0 <= j < n.cells.len(),
        0 <= l < n.cells[j].accepted.len(),
        i != j || k != l,
        n.cells[i].accepted[k].reply is Some,
    ensures
        n.cells[i].accepted[k].reply != n.cells[j].accepted[l].reply,
{
}

/// Every ask among `queue` has its ticket among the pending asks.
pub proof fn pending_asks_holds_every_ask(queue: Seq<Delivery>, k: int)
    requires
        0 <= k < queue.len(),
        queue[k].reply is Some,
    ensures
        pending_asks(queue).contains(queue[k].reply.unwrap()),
    decreases queue.len(),
{
    let all = pending_asks(queue);
    let rest = pending_asks(queue.drop_last());
    if k < queue.len() - 1 {
        pending_asks_holds_every_ask(queue.drop_last(), k);
        let j = choose|j: int| 0 <= j < rest.len() && rest[j] == queue[k].reply.unwrap();
        assert(all[j] == queue[k].reply.unwrap());
    } else {
        assert(all[all.len() - 1] == queue[k].reply.unwrap());
    }
}

/// When an actor ends, no ask is left waiting: the ask whose handler was
/// at work and every pending ask are among those that fail.
pub proof fn end_fails_every_waiting_ask(c: CellView, ticket: Ticket)
    requires
        c.wf(),
        c.reply_ticket() == Some(ticket) || exists|k: int|
            0 <= k < c.mailbox.len() && c.mailbox[k].reply == Some(ticket),
    ensures
        c.waiting_asks().contains(ticket),
        c.phase is Terminated || c.after_end().mailbox.len() == 0,
{
    let failed = c.waiting_asks();
    let pending = pending_asks(c.mailbox);
    if exists|k: int| 0 <= k < c.mailbox.len() && c.mailbox[k].reply == Some(ticket) {
        let k = choose|k: int| 0 <= k < c.mailbox.len() && c.mailbox[k].reply == Some(ticket);
        pending_asks_holds_every_ask(c.mailbox, k);
        let j = choose|j: int| 0 <= j < pending.len() && pending[j] == ticket;
        if c.reply_ticket() is Some {
            assert(failed[j + 1] == ticket);
        } else {
            assert(failed[j] == ticket);
        }
    } else {
        assert(failed[0] == ticket);
    }
}

/// No ask is lost and none is answered twice: the tickets of the asks that
/// an actor accepted, in the order of arrival, are those that were
/// answered, in the order of the answers, followed by those that still
/// wait. Once the actor has ended, none waits.
pub proof fn every_ask_is_answered_or_waits(c: CellView, events: Seq<Event>)
    requires
        c.wf(),
    ensures
        pending_asks(c.after_all(events).accepted) == c.after_all(events).answered
            + c.after_all(events).waiting_asks(),
        c.after_all(events).phase is Terminated ==> pending_asks(c.after_all(events).accepted)
            == c.after_all(events).answered,
{
    run_keeps_wf(c, events);
    let d = c.after_all(events);
    if d.phase is Terminated {
        assert(d.answered + d.waiting_asks() =~= d.answered);
    }
}

/// A tell does not wait for any handler: it puts the message into the
/// mailbox and leaves alone what the actor has in hand and what it has
/// handled, whether a handler is at work or not.
pub proof fn tell_does_not_wait(n: NodeView, to: Address, message: Message)
    requires
        n.wf(),
        n.alive(to),
    ensures
        ({
            let delivery = Delivery { message, reply: None };
            let before = n.cells[to.id as int];
            let after = n.after(to, Event::Accept(delivery)).cells[to.id as int];
            &&& after.mailbox == before.mailbox.push(delivery)
            &&& after.in_flight == before.in_flight
            &&& after.handled == before.handled
            &&& after.phase == before.phase
        }),
{
}

/// A broadcast reaches each subscriber as a tell does, and no one else: a
/// subscriber for the message's type is left as a tell of the message
/// would leave it, and every other actor stays as it was.
pub proof fn broadcast_is_a_tell_to_each_subscriber(
    n: NodeView,
    from: Address,
    message: Message,
    other: Address,
)
    requires
        n.wf(),
        n.knows(from),
        n.knows(other),
    ensures
        n.after_broadcast(from, message).cells[other.id as int] == if n.cells[from.id as int].has_subscriber(
            message.kind,
            other,
        ) {
            n.after(other, Event::Accept(Delivery { message, reply: None })).cells[other.id as int]
        } else {
            n.cells[other.id as int]
        },
{
    assert(Address { id: other.id as int as usize } == other);
}

/// In every run of events the teardown hook of an actor is started once if
/// the actor has ended, whatever ended it, and not at all if it has not.
/// Once the actor has ended its mailbox is empty.
pub proof fn teardown_runs_exactly_once(c: CellView, events: Seq<Event>)
    requires
        c.wf(),
    ensures
        c.after_all(events).teardowns == c.teardowns + c.teardowns_in(events),
        c.after_all(events).teardowns == if c.after_all(events).phase is Terminated {
            1nat
        } else {
            0nat
        },
        c.after_all(events).phase is Terminated ==> c.after_all(events).mailbox.len() == 0,
    decreases events.len(),
{
    run_keeps_wf(c, events);
    if events.len() > 0 {
        teardown_runs_exactly_once(c, events.drop_last());
        run_keeps_wf(c, events.drop_last());
        event_keeps_wf(c.after_all(events.drop_last()), events.last());
    }
}

} // verus!
