//! The per-connection record owned by the session bridge.

use vstd::prelude::*;

use crate::events::{send_events_view, SendEvent, SendEventView};
use crate::id::ConnectionId;

verus! {

/// This component represents a network connection with the given ID, holding
/// the queue of outbound commands that the connection's write task drains in
/// the order they were submitted.
#[derive(Debug)]
pub struct Connection {
    pub id: ConnectionId,
    outbound: Vec<SendEvent>,
}

/// Mathematical view of a `Connection`: its identifier and its pending
/// outbound commands, oldest first.
pub struct ConnectionView {
    pub id: ConnectionId,
    pub outbound: Seq<SendEventView>,
}

impl View for Connection {
    type V = ConnectionView;

    closed spec fn view(&self) -> ConnectionView {
        ConnectionView { id: self.id, outbound: send_events_view(self.outbound@) }
    }
}

impl Connection {
    /// A fresh record with an empty outbound queue, created the instant the
    /// connection's handshake completes.
    pub fn new(id: ConnectionId) -> (r: Connection)
        ensures
            r@ == (ConnectionView { id, outbound: Seq::<SendEventView>::empty() }),
    {
        let r = Connection { id, outbound: Vec::new() };
        proof {
            assert(send_events_view(r.outbound@) =~= Seq::<SendEventView>::empty());
        }
        r
    }

    /// Queue one outbound command for this connection's write task.
    pub fn push_outbound(&mut self, e: SendEvent)
        ensures
            final(self)@ == (ConnectionView {
                id: old(self)@.id,
                outbound: old(self)@.outbound.push(e@),
            }),
    {
        let ghost pre = self.outbound@;
        self.outbound.push(e);
        proof {
            assert(send_events_view(pre.push(e)) =~= send_events_view(pre).push(e@));
        }
    }

    /// The next outbound command, in the order submitted, if any is pending.
    pub fn pop_outbound(&mut self) -> (r: Option<SendEvent>)
        ensures
            final(self)@.id == old(self)@.id,
            old(self)@.outbound.len() == 0 ==> r is None && final(self)@ == old(self)@,
            old(self)@.outbound.len() > 0 ==> (r matches Some(e) && e@ == old(self)@.outbound[0]
                && final(self)@.outbound == old(self)@.outbound.skip(1)),
    {
        if self.outbound.len() == 0 {
            None
        } else {
            let ghost pre = self.outbound@;
            let e = self.outbound.remove(0);
            proof {
                assert(pre.remove(0) =~= pre.skip(1));
                assert(send_events_view(pre.skip(1)) =~= send_events_view(pre).skip(1));
            }
            Some(e)
        }
    }

    /// How many outbound commands are pending.
    pub fn outbound_len(&self) -> (n: usize)
        ensures
            n == self@.outbound.len(),
    {
        self.outbound.len()
    }
}

} // verus!
