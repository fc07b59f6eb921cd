//! The process-wide sender: whether posts are buffered by a background
//! worker or sent at once, and how its lifecycle moves.
//!
//! The caller owns the thread, the channel and the connections; the types
//! here decide what to do with them.
use vstd::prelude::*;
use crate::wire::{encode_posts, frames_of, views_of, Record};

verus! {

/// What the caller must do to the background worker.
#[derive(Debug, PartialEq, Eq, Structural)]
pub enum Transition {
    /// Start a worker.
    Spawn,
    /// Shut the running worker down and wait for it, then start a new one.
    Restart,
    /// Send the worker its shutdown and wait for it to finish.
    Join,
    /// Nothing to do.
    Nothing,
}

/// How a batch of records is to be delivered.
pub enum Delivery {
    /// Hand each record, in order, to the running worker.
    Enqueue(Vec<Record>),
    /// Open a connection, write these bytes, and close it.
    Send(Vec<u8>),
    /// Nothing to deliver.
    Skip,
}

/// The sender's address and whether a worker is running.
pub struct BufferedSender {
    addr: String,
    active: bool,
}

impl BufferedSender {
    pub closed spec fn spec_addr(&self) -> Seq<char> {
        self.addr@
    }

    pub closed spec fn spec_active(&self) -> bool {
        self.active
    }

    /// An inactive sender for the collector at `addr`.
    pub fn new(addr: String) -> (r: BufferedSender)
        ensures
            r.spec_addr() == addr@,
            !r.spec_active(),
    {
        BufferedSender { addr, active: false }
    }

    /// The collector's address.
    pub fn get_addr(&self) -> (r: &String)
        ensures
            r@ == self.spec_addr(),
    {
        &self.addr
    }

    /// Whether a worker is running.
    pub fn is_active(&self) -> (r: bool)
        ensures
            r == self.spec_active(),
    {
        self.active
    }

    /// Turns buffering on. A running worker is never silently doubled: it is
    /// torn down before the new one starts.
    pub fn start(&mut self) -> (r: Transition)
        ensures
            final(self).spec_active(),
            final(self).spec_addr() == old(self).spec_addr(),
            old(self).spec_active() ==> r == Transition::Restart,
            !old(self).spec_active() ==> r == Transition::Spawn,
    {
        let r = if self.active {
            Transition::Restart
        } else {
            Transition::Spawn
        };
        self.active = true;
        r
    }

    /// Turns buffering off: a running worker is shut down, after it has
    /// flushed what it holds.
    pub fn join(&mut self) -> (r: Transition)
        ensures
            !final(self).spec_active(),
            final(self).spec_addr() == old(self).spec_addr(),
            old(self).spec_active() ==> r == Transition::Join,
            !old(self).spec_active() ==> r == Transition::Nothing,
    {
        let r = if self.active {
            Transition::Join
        } else {
            Transition::Nothing
        };
        self.active = false;
        r
    }

    /// How to deliver `records`: to the worker when one runs, else framed
    /// at once, with the same framing as the worker's, on one connection.
    pub fn post(&self, records: Vec<Record>) -> (r: Delivery)
        ensures
            self.spec_active() ==> (r matches Delivery::Enqueue(v) && v@ == records@),
            !self.spec_active() && records@.len() > 0 ==> (r matches Delivery::Send(b) && b@
                == frames_of(views_of(records@))),
            !self.spec_active() && records@.len() == 0 ==> r is Skip,
    {
        if self.active {
            Delivery::Enqueue(records)
        } else if records.len() > 0 {
            Delivery::Send(encode_posts(&records))
        } else {
            Delivery::Skip
        }
    }
}

/// The switch of buffering: while it is on, posts go through the worker.
pub struct Buffer {}

impl Buffer {
    /// Turns buffering on for `sender`.
    pub fn on(sender: &mut BufferedSender) -> (r: (Buffer, Transition))
        ensures
            final(sender).spec_active(),
            final(sender).spec_addr() == old(sender).spec_addr(),
            old(sender).spec_active() ==> r.1 == Transition::Restart,
            !old(sender).spec_active() ==> r.1 == Transition::Spawn,
    {
        let t = sender.start();
        (Buffer {}, t)
    }

    /// Turns buffering off for `sender`.
    pub fn off(&self, sender: &mut BufferedSender) -> (r: Transition)
        ensures
            !final(sender).spec_active(),
            final(sender).spec_addr() == old(sender).spec_addr(),
            old(sender).spec_active() ==> r == Transition::Join,
            !old(sender).spec_active() ==> r == Transition::Nothing,
    {
        sender.join()
    }
}

} // verus!
