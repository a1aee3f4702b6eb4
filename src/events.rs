//! What the connection hands to the application: the fate of each outgoing
//! datagram, and the bounded queue of datagrams received.
use std::collections::VecDeque;
use vstd::prelude::*;
use vstd::slice::slice_to_vec;

verus! {

/// The final fate of an outgoing datagram.
#[derive(Clone, Copy, Debug, PartialEq, Eq)]
pub enum OutgoingDatagramOutcome {
    DroppedTooBig,
    DroppedQueueFull,
    Acked,
    Lost,
}

/// One outcome notification, routed by the caller's correlation id.
#[derive(Clone, Copy, Debug, PartialEq, Eq)]
pub struct DatagramOutcomeEvent {
    pub id: Option<u64>,
    pub outcome: OutgoingDatagramOutcome,
}

/// The incoming queue after `data` arrives at `q` with room for `max_queued`:
/// when full, the oldest entry gives way.
pub open spec fn incoming_after(q: Seq<Seq<u8>>, max_queued: nat, data: Seq<u8>) -> Seq<Seq<u8>> {
    if q.len() >= max_queued && q.len() > 0 {
        q.drop_first().push(data)
    } else {
        q.push(data)
    }
}

/// Notifications and received datagrams awaiting the application.
pub struct ConnectionEvents {
    outcomes: Vec<DatagramOutcomeEvent>,
    incoming: VecDeque<Vec<u8>>,
}

impl ConnectionEvents {
    /// Outcome notifications, oldest first.
    pub closed spec fn spec_outcomes(&self) -> Seq<DatagramOutcomeEvent> {
        self.outcomes@
    }

    /// Received datagrams not yet delivered, oldest first.
    pub closed spec fn spec_incoming(&self) -> Seq<Seq<u8>> {
        self.incoming@.map_values(|d: Vec<u8>| d@)
    }

    pub fn new() -> (r: ConnectionEvents)
        ensures
            r.spec_outcomes() == Seq::<DatagramOutcomeEvent>::empty(),
            r.spec_incoming() == Seq::<Seq<u8>>::empty(),
    {
        let r = ConnectionEvents { outcomes: Vec::new(), incoming: VecDeque::new() };
        assert(r.spec_incoming() =~= Seq::<Seq<u8>>::empty());
        r
    }

    /// Reports the fate of the outgoing datagram with correlation id `id`.
    pub fn datagram_outcome(&mut self, id: Option<u64>, outcome: OutgoingDatagramOutcome)
        ensures
            final(self).spec_outcomes() == old(self).spec_outcomes().push(
                DatagramOutcomeEvent { id, outcome },
            ),
            final(self).spec_incoming() == old(self).spec_incoming(),
    {
        self.outcomes.push(DatagramOutcomeEvent { id, outcome });
    }

    /// Queues a received datagram for the application; when `max_queued`
    /// datagrams are already waiting, the oldest is dropped first.
    pub fn add_datagram(&mut self, max_queued: usize, data: &[u8])
        ensures
            final(self).spec_incoming() == incoming_after(
                old(self).spec_incoming(),
                max_queued as nat,
                data@,
            ),
            final(self).spec_outcomes() == old(self).spec_outcomes(),
    {
        let ghost q = self.incoming@;
        if self.incoming.len() >= max_queued && self.incoming.len() > 0 {
            self.incoming.pop_front();
            assert(self.incoming@.map_values(|d: Vec<u8>| d@) =~= q.map_values(
                |d: Vec<u8>| d@,
            ).drop_first());
        }
        let ghost mid = self.incoming@;
        self.incoming.push_back(slice_to_vec(data));
        assert(self.incoming@.map_values(|d: Vec<u8>| d@) =~= mid.map_values(|d: Vec<u8>| d@).push(
            data@,
        ));
    }

    /// Outcome notifications so far, oldest first.
    pub fn outcomes(&self) -> (r: &Vec<DatagramOutcomeEvent>)
        ensures
            r@ == self.spec_outcomes(),
    {
        &self.outcomes
    }

    /// Number of received datagrams waiting for the application.
    pub fn incoming_len(&self) -> (r: usize)
        ensures
            r == self.spec_incoming().len(),
    {
        self.incoming.len()
    }

    /// The `i`-th received datagram waiting for the application, oldest first.
    pub fn incoming(&self, i: usize) -> (r: &Vec<u8>)
        requires
            i < self.spec_incoming().len(),
        ensures
            r@ == self.spec_incoming()[i as int],
    {
        &self.incoming[i]
    }

    /// Hands the oldest received datagram to the application.
    pub fn next_datagram(&mut self) -> (r: Option<Vec<u8>>)
        ensures
            old(self).spec_incoming().len() == 0 ==> r.is_none() && final(self).spec_incoming()
                == old(self).spec_incoming(),
            old(self).spec_incoming().len() > 0 ==> r.is_some() && r.unwrap()@ == old(
                self,
            ).spec_incoming()[0] && final(self).spec_incoming() == old(
                self,
            ).spec_incoming().drop_first(),
            final(self).spec_outcomes() == old(self).spec_outcomes(),
    {
        let ghost q = self.incoming@;
        let r = self.incoming.pop_front();
        proof {
            if q.len() > 0 {
                assert(self.incoming@.map_values(|d: Vec<u8>| d@) =~= q.map_values(
                |d: Vec<u8>| d@,
            ).drop_first());
            }
        }
        r
    }
}

} // verus!
