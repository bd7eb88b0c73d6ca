//! What travels between actors: addresses, messages, deliveries, and the
//! outcome of handling a message.

use vstd::prelude::*;

verus! {

/// A handle to one actor. It names the actor and shows nothing of its
/// state. Two addresses are equal when they name the same actor.
#[derive(Clone, Copy, Debug, PartialEq, Eq, Structural)]
pub struct Address {
    /// The place of the actor in its node, in the order of spawning.
    pub id: usize,
}

/// The rendezvous of one ask: whoever holds the ticket receives the reply.
#[derive(Clone, Copy, Debug, PartialEq, Eq, Structural)]
pub struct Ticket {
    pub id: u64,
}

/// A message. The runtime routes it and never looks inside the payload,
/// which is the key under which the sender keeps the value.
#[derive(Clone, Copy, Debug, PartialEq, Eq, Structural)]
pub struct Message {
    /// The message type, by which the handler is found.
    pub kind: u64,
    pub payload: u64,
}

/// A message on its way to an actor. A tell carries no ticket, an ask
/// carries its own.
#[derive(Clone, Copy, Debug, PartialEq, Eq, Structural)]
pub struct Delivery {
    pub message: Message,
    pub reply: Option<Ticket>,
}

/// Why a delivery brought no outcome. Neither is ever produced by a
/// handler.
#[derive(Clone, Copy, Debug, PartialEq, Eq, Structural)]
pub enum Fault {
    /// The actor had ended, or ended before it reached the delivery.
    DeliveryFailed,
    /// The actor has no handler for the message's type.
    HandlerNotFound,
}

/// What a handler makes of a message: a success value or a failure value.
/// A failure is data like any other and does not end the actor.
#[derive(Debug, PartialEq, Eq)]
pub enum Outcome<T, E> {
    Success(T),
    Failure(E),
}

impl<T, E> Outcome<T, E> {
    /// Tells whether the handler succeeded.
    pub fn is_success(&self) -> (yes: bool)
        ensures
            yes == (self is Success),
    {
        match self {
            Outcome::Success(_) => true,
            Outcome::Failure(_) => false,
        }
    }

    /// The outcome of a handler that returned `result`.
    pub fn from_result(result: Result<T, E>) -> (outcome: Self)
        ensures
            outcome == match result {
                Ok(value) => Outcome::<T, E>::Success(value),
                Err(error) => Outcome::<T, E>::Failure(error),
            },
    {
        match result {
            Ok(value) => Outcome::Success(value),
            Err(error) => Outcome::Failure(error),
        }
    }

    /// The outcome as a `Result`.
    pub fn into_result(self) -> (result: Result<T, E>)
        ensures
            result == match self {
                Outcome::Success(value) => Ok::<T, E>(value),
                Outcome::Failure(error) => Err::<T, E>(error),
            },
    {
        match self {
            Outcome::Success(value) => Ok(value),
            Outcome::Failure(error) => Err(error),
        }
    }
}

/// The tickets of the asks among `queue`, in the order of the queue.
pub open spec fn pending_asks(queue: Seq<Delivery>) -> Seq<Ticket>
    decreases queue.len(),
{
    if queue.len() == 0 {
        Seq::empty()
    } else {
        match queue.last().reply {
            Some(ticket) => pending_asks(queue.drop_last()).push(ticket),
            None => pending_asks(queue.drop_last()),
        }
    }
}

/// The pending asks, told from the front of the queue: the ticket of the
/// oldest delivery, if it is an ask, then the asks among the rest.
pub proof fn pending_asks_from_front(queue: Seq<Delivery>)
    requires
        queue.len() > 0,
    ensures
        pending_asks(queue) == match queue[0].reply {
            Some(ticket) => seq![ticket] + pending_asks(queue.skip(1)),
            None => pending_asks(queue.skip(1)),
        },
    decreases queue.len(),
{
    let rest = queue.skip(1);
    if queue.len() == 1 {
        assert(queue.drop_last() =~= Seq::<Delivery>::empty());
        assert(rest =~= Seq::<Delivery>::empty());
        assert(pending_asks(queue) =~= match queue[0].reply {
            Some(ticket) => seq![ticket] + pending_asks(rest),
            None => pending_asks(rest),
        });
    } else {
        pending_asks_from_front(queue.drop_last());
        assert(queue.drop_last().skip(1) =~= rest.drop_last());
        assert(rest.last() == queue.last());
        assert(queue.drop_last()[0] == queue[0]);
        assert(pending_asks(queue) =~= match queue[0].reply {
            Some(ticket) => seq![ticket] + pending_asks(rest),
            None => pending_asks(rest),
        });
    }
}

} // verus!
