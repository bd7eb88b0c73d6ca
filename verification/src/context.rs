//! The context: what a hook or a handler can do besides changing the state
//! of its own actor.

use vstd::prelude::*;
use crate::cell::{is_teardown_of, Teardown};
use crate::dispatch::DispatchTable;
use crate::message::{pending_asks, Address, Message};
use crate::model::{Cause, CellView, Event};
use crate::node::Node;

verus! {

/// The capability that a hook or a handler of one actor is given for the
/// time of one call. It acts in the name of that actor and reaches no
/// other actor's state.
pub struct Ctx {
    me: Address,
}

impl View for Ctx {
    type V = Address;

    closed spec fn view(&self) -> Address {
        self.me
    }
}

impl Ctx {
    /// The context of the actor `me`.
    pub fn new(me: Address) -> (ctx: Ctx)
        ensures
            ctx@ == me,
    {
        Ctx { me }
    }

    /// The address of the actor itself.
    pub fn address(&self) -> (me: Address)
        ensures
            me == self@,
    {
        self.me
    }

    /// Spawns a child, as the node does.
    pub fn spawn(&self, node: &mut Node, table: DispatchTable) -> (child: Address)
        requires
            old(node)@.wf(),
        ensures
            child.id == old(node)@.cells.len(),
            final(node)@.cells == old(node)@.cells.push(CellView::fresh(child, table@)),
            final(node)@.issued == old(node)@.issued,
            final(node)@.wf(),
    {
        node.spawn(table)
    }

    /// Subscribes the actor itself to the broadcasts of the message type
    /// `kind` of the actor `to`. The record is kept by `to`. Tells whether
    /// it was new.
    pub fn subscribe(&self, node: &mut Node, to: Address, kind: u64) -> (added: bool)
        requires
            old(node)@.wf(),
        ensures
            final(node)@ == old(node)@.after_subscribe(to, kind, self@),
            final(node)@.wf(),
            added == (old(node)@.knows(to) && !old(node)@.cells[to.id as int].has_subscriber(
                kind,
                self@,
            )),
    {
        node.subscribe(to, kind, self.me)
    }

    /// Sends `message` to each subscriber of the actor itself for the
    /// message's type, by a tell to each.
    pub fn broadcast(&self, node: &mut Node, message: Message)
        requires
            old(node)@.wf(),
        ensures
            final(node)@ == old(node)@.after_broadcast(self@, message),
            final(node)@.wf(),
    {
        node.broadcast(self.me, message)
    }

    /// Asks for the actor itself to be stopped. The hook or handler that
    /// asks goes on to its end; the actor ends when it reports back.
    pub fn stop(&self, node: &mut Node) -> (teardown: Option<Teardown>)
        requires
            old(node)@.wf(),
        ensures
            final(node)@ == old(node)@.after(self@, Event::Stop),
            final(node)@.wf(),
            if old(node)@.knows(self@) {
                is_teardown_of(
                    teardown,
                    old(node)@.cells[self@.id as int],
                    final(node)@.cells[self@.id as int],
                    Cause::Stop,
                    pending_asks(old(node)@.cells[self@.id as int].mailbox),
                )
            } else {
                teardown is None
            },
    {
        node.stop(self.me)
    }
}

} // verus!
