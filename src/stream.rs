//! A simple in-memory stream with its role: what the application layer's
//! tests drive in place of a transport stream.
use std::collections::VecDeque;
use vstd::prelude::*;

use crate::packet::append_bytes;
use crate::{Error, Res};

verus! {

/// The endpoint's side of the connection.
#[derive(Clone, Copy, Debug, PartialEq, Eq)]
pub enum Role {
    Client,
    Server,
}

/// Whether a stream carries data both ways or one way.
#[derive(Clone, Copy, Debug, PartialEq, Eq)]
pub enum StreamType {
    BiDi,
    UniDi,
}

/// A stream's directionality together with the side that opened it.
#[derive(Clone, Copy, Debug, PartialEq, Eq)]
pub enum StreamTypeWithRole {
    ClientBiDi,
    ServerBiDi,
    ClientUniDi,
    ServerUniDi,
}

/// The stream type that an endpoint of role `r` opens for directionality `st`.
pub open spec fn stream_type_of(r: Role, st: StreamType) -> StreamTypeWithRole {
    match (r, st) {
        (Role::Client, StreamType::UniDi) => StreamTypeWithRole::ClientUniDi,
        (Role::Client, StreamType::BiDi) => StreamTypeWithRole::ClientBiDi,
        (Role::Server, StreamType::UniDi) => StreamTypeWithRole::ServerUniDi,
        (Role::Server, StreamType::BiDi) => StreamTypeWithRole::ServerBiDi,
    }
}

/// The stream type that an endpoint of role `r` opens for directionality `st`.
pub fn get_stream_type(r: Role, st: StreamType) -> (t: StreamTypeWithRole)
    ensures
        t == stream_type_of(r, st),
{
    match r {
        Role::Client => match st {
            StreamType::UniDi => StreamTypeWithRole::ClientUniDi,
            StreamType::BiDi => StreamTypeWithRole::ClientBiDi,
        },
        Role::Server => match st {
            StreamType::UniDi => StreamTypeWithRole::ServerUniDi,
            StreamType::BiDi => StreamTypeWithRole::ServerBiDi,
        },
    }
}

/// A stream that keeps what is sent and what may be read in buffers.
#[derive(Debug)]
pub struct Stream {
    pub send_side_closed: bool,
    pub send_side_stop_sending: bool,
    pub receive_side_closed: bool,
    pub stream_type: StreamTypeWithRole,
    /// The buffer that a sender fills in place.
    pub send_buf_tmp: VecDeque<u8>,
    pub send_buf: Vec<u8>,
    pub recv_buf: Vec<u8>,
    pub stop_sending_error: Option<Error>,
    pub error: Option<Error>,
}

impl Stream {
    /// A fresh stream of type `st`: open both ways, nothing buffered.
    pub fn new(st: StreamTypeWithRole) -> (r: Stream)
        ensures
            !r.send_side_closed,
            !r.send_side_stop_sending,
            !r.receive_side_closed,
            r.stream_type == st,
            r.send_buf@ == Seq::<u8>::empty(),
            r.recv_buf@ == Seq::<u8>::empty(),
            r.stop_sending_error.is_none(),
            r.error.is_none(),
    {
        Stream {
            send_side_closed: false,
            send_side_stop_sending: false,
            receive_side_closed: false,
            stream_type: st,
            send_buf_tmp: VecDeque::new(),
            send_buf: Vec::new(),
            recv_buf: Vec::new(),
            stop_sending_error: None,
            error: None,
        }
    }

    /// Marks the receiving side closed.
    pub fn receive_close(&mut self)
        ensures
            *final(self) == (Stream { receive_side_closed: true, ..*old(self) }),
    {
        self.receive_side_closed = true;
    }

    /// Records that the stream was reset with `err`.
    pub fn reset(&mut self, err: Error)
        ensures
            *final(self) == (Stream { error: Some(err), ..*old(self) }),
    {
        self.error = Some(err);
    }

    /// Enqueues `buf` to send; all of it is taken.
    pub fn send(&mut self, buf: &[u8]) -> (r: Res<u64>)
        ensures
            final(self).send_buf@ == old(self).send_buf@ + buf@,
            r == Ok::<u64, Error>(buf@.len() as u64),
            *final(self) == (Stream { send_buf: final(self).send_buf, ..*old(self) }),
    {
        append_bytes(&mut self.send_buf, buf);
        Ok(buf.len() as u64)
    }

    /// Number of bytes enqueued to send.
    pub fn send_data_ready(&self) -> (r: u64)
        ensures
            r == self.send_buf@.len(),
    {
        self.send_buf.len() as u64
    }

    /// The buffer that a sender fills in place.
    pub fn send_buffer(&mut self) -> (r: &mut VecDeque<u8>)
        ensures
            *r == old(self).send_buf_tmp,
            *final(self) == (Stream { send_buf_tmp: *final(r), ..*old(self) }),
    {
        &mut self.send_buf_tmp
    }

    /// Marks the sending side closed.
    pub fn close(&mut self)
        ensures
            *final(self) == (Stream { send_side_closed: true, ..*old(self) }),
    {
        self.send_side_closed = true;
    }

    /// Number of bytes waiting to be read.
    pub fn recv_data_ready(&self) -> (r: u64)
        ensures
            r == self.recv_buf@.len(),
    {
        self.recv_buf.len() as u64
    }

    /// Moves up to `amount` bytes from the front of the receive buffer into
    /// the front of `buf`, and returns how many were moved.
    pub fn read_with_amount(&mut self, buf: &mut [u8], amount: u64) -> (r: Res<u64>)
        requires
            old(buf)@.len() >= amount,
        ensures
            ({
                let n = if old(self).recv_buf@.len() < amount {
                    old(self).recv_buf@.len()
                } else {
                    amount as nat
                };
                &&& r == Ok::<u64, Error>(n as u64)
                &&& final(buf)@ == old(self).recv_buf@.take(n as int) + old(buf)@.skip(n as int)
                &&& final(self).recv_buf@ == old(self).recv_buf@.skip(n as int)
            }),
            *final(self) == (Stream { recv_buf: final(self).recv_buf, ..*old(self) }),
    {
        let n = self.copy_front(buf, amount);
        let mut remaining: Vec<u8> = Vec::new();
        let mut i: usize = n;
        while i < self.recv_buf.len()
            invariant
                n <= i <= self.recv_buf@.len(),
                remaining@ == self.recv_buf@.subrange(n as int, i as int),
            decreases self.recv_buf@.len() - i,
        {
            remaining.push(self.recv_buf[i]);
            i = i + 1;
            assert(remaining@ =~= self.recv_buf@.subrange(n as int, i as int));
        }
        assert(remaining@ =~= self.recv_buf@.skip(n as int));
        self.recv_buf = remaining;
        Ok(n as u64)
    }

    /// Moves as many bytes as `buf` holds, or as are waiting, into `buf`.
    pub fn read(&mut self, buf: &mut [u8]) -> (r: Res<u64>)
        ensures
            ({
                let n = if old(self).recv_buf@.len() < old(buf)@.len() {
                    old(self).recv_buf@.len()
                } else {
                    old(buf)@.len()
                };
                &&& r == Ok::<u64, Error>(n as u64)
                &&& final(buf)@ == old(self).recv_buf@.take(n as int) + old(buf)@.skip(n as int)
                &&& final(self).recv_buf@ == old(self).recv_buf@.skip(n as int)
            }),
            *final(self) == (Stream { recv_buf: final(self).recv_buf, ..*old(self) }),
    {
        let amount = buf.len() as u64;
        self.read_with_amount(buf, amount)
    }

    /// Copies up to `amount` bytes from the front of the receive buffer into
    /// the front of `buf`, leaving the receive buffer as it is.
    pub fn peek(&mut self, buf: &mut [u8], amount: u64) -> (r: Res<u64>)
        requires
            old(buf)@.len() >= amount,
        ensures
            ({
                let n = if old(self).recv_buf@.len() < amount {
                    old(self).recv_buf@.len()
                } else {
                    amount as nat
                };
                &&& r == Ok::<u64, Error>(n as u64)
                &&& final(buf)@ == old(self).recv_buf@.take(n as int) + old(buf)@.skip(n as int)
            }),
            *final(self) == *old(self),
    {
        let n = self.copy_front(buf, amount);
        Ok(n as u64)
    }

    /// Copies the first `min(recv_buf.len(), amount)` bytes of the receive
    /// buffer into `buf` and returns that count.
    fn copy_front(&self, buf: &mut [u8], amount: u64) -> (n: usize)
        requires
            old(buf)@.len() >= amount,
        ensures
            n == if self.recv_buf@.len() < amount {
                self.recv_buf@.len()
            } else {
                amount as nat
            },
            final(buf)@ == self.recv_buf@.take(n as int) + old(buf)@.skip(n as int),
    {
        let capacity = buf.len();
        assert(amount <= capacity);
        let n: usize = if (self.recv_buf.len() as u64) < amount {
            self.recv_buf.len()
        } else {
            amount as usize
        };
        let mut i: usize = 0;
        while i < n
            invariant
                i <= n,
                n <= self.recv_buf@.len(),
                n <= old(buf)@.len(),
                buf@.len() == old(buf)@.len(),
                buf@ == self.recv_buf@.take(i as int) + old(buf)@.skip(i as int),
            decreases n - i,
        {
            buf[i] = self.recv_buf[i];
            i = i + 1;
            assert(buf@ =~= self.recv_buf@.take(i as int) + old(buf)@.skip(i as int));
        }
        n
    }

    /// Accepts a stream frame; this stream keeps nothing of it.
    pub fn inbound_stream_frame(&mut self, _fin: bool, _offset: u64, _data: Vec<u8>) -> (r: Res<
        (),
    >)
        ensures
            r == Ok::<(), Error>(()),
            *final(self) == *old(self),
    {
        Ok(())
    }

    /// This stream never asks for a flow-control update.
    pub fn needs_flowc_update(&mut self) -> (r: Option<u64>)
        ensures
            r.is_none(),
            *final(self) == *old(self),
    {
        None
    }

    /// Records that the peer asked this stream to stop sending, with `err`.
    pub fn stop_sending(&mut self, err: Error)
        ensures
            *final(self) == (Stream { stop_sending_error: Some(err), ..*old(self) }),
    {
        self.stop_sending_error = Some(err);
    }
}

} // verus!
