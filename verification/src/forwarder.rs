//! Forwarder: the half of a connection that hands the client whatever the hub
//! has queued for it, for as long as frames can be sent to the client.

use crate::hub::{Hub, HubView};
use vstd::prelude::*;

verus! {

/// What the caller is to do next for the client.
#[derive(Debug, PartialEq, Eq)]
pub enum Outbound {
    /// Send this message to the client, and report how that went.
    Send(String),
    /// Nothing is queued: wait until something is published.
    Wait,
    /// Stop: the forwarder is closed.
    Stop,
}

/// An outbound directive as a mathematical value.
pub enum OutboundView {
    Send(Seq<char>),
    Wait,
    Stop,
}

impl View for Outbound {
    type V = OutboundView;

    open spec fn view(&self) -> OutboundView {
        match self {
            Outbound::Send(message) => OutboundView::Send(message@),
            Outbound::Wait => OutboundView::Wait,
            Outbound::Stop => OutboundView::Stop,
        }
    }
}

/// A forwarder as a mathematical value.
pub struct ForwarderView {
    /// The identifier under which the connection is subscribed to the hub.
    pub subscription: u64,
    /// Whether frames can still be sent to the client.
    pub open: bool,
}

impl ForwarderView {
    /// What an open forwarder takes from the hub: the oldest unread message of
    /// its subscription, if there is one. A closed forwarder takes nothing.
    pub open spec fn next(self, hub: HubView) -> (HubView, OutboundView) {
        if !self.open {
            (hub, OutboundView::Stop)
        } else if hub.pending(self.subscription).len() > 0 {
            (hub.receive(self.subscription), OutboundView::Send(hub.pending(self.subscription)[0]))
        } else {
            (hub, OutboundView::Wait)
        }
    }

    /// What follows from an attempt to send: a failure closes the forwarder
    /// and ends its subscription; a success changes nothing.
    pub open spec fn sent(self, hub: HubView, delivered: bool) -> (ForwarderView, HubView) {
        if delivered || !self.open {
            (self, hub)
        } else {
            (ForwarderView { open: false, ..self }, hub.unsubscribe(self.subscription))
        }
    }
}

/// The outbound half of one client's connection.
pub struct Forwarder {
    subscription: u64,
    open: bool,
}

impl View for Forwarder {
    type V = ForwarderView;

    closed spec fn view(&self) -> ForwarderView {
        ForwarderView { subscription: self.subscription, open: self.open }
    }
}

impl Forwarder {
    /// An open forwarder for the subscription `subscription`.
    pub fn new(subscription: u64) -> (forwarder: Forwarder)
        ensures
            forwarder@ == (ForwarderView { subscription, open: true }),
    {
        Forwarder { subscription, open: true }
    }

    /// Takes the next message for the client from the hub, and says what is
    /// to be done.
    pub fn next(&self, hub: &mut Hub) -> (outbound: Outbound)
        requires
            old(hub).wf(),
        ensures
            final(hub).wf(),
            (final(hub)@, outbound@) == self@.next(old(hub)@),
    {
        if !self.open {
            return Outbound::Stop;
        }
        match hub.receive(self.subscription) {
            Some(message) => Outbound::Send(message),
            None => Outbound::Wait,
        }
    }

    /// Takes note of how sending a message to the client went. After a
    /// failure the forwarder is closed and its subscription has ended.
    pub fn sent(&mut self, hub: &mut Hub, delivered: bool)
        requires
            old(hub).wf(),
        ensures
            final(hub).wf(),
            (final(self)@, final(hub)@) == old(self)@.sent(old(hub)@, delivered),
    {
        if !delivered && self.open {
            self.open = false;
            let _ = hub.unsubscribe(self.subscription);
        }
    }

    /// Whether frames can still be sent to the client.
    pub fn is_open(&self) -> (open: bool)
        ensures
            open == self@.open,
    {
        self.open
    }
}

} // verus!
