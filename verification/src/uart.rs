//! The decoder's serial port, modelled as a pair of byte streams: bytes
//! waiting to be read, and bytes written so far.  The surrounding program
//! pumps real bytes in and out; every protocol decision on the stream is
//! made here, against these two sequences.

use vstd::prelude::*;

verus! {

/// A serial port carrying the request/response byte stream.
pub struct Uart {
    rx: Vec<u8>,
    rx_pos: usize,
    tx: Vec<u8>,
}

impl Uart {
    /// The reading position never passes the end of the received bytes.
    pub closed spec fn wf(self) -> bool {
        self.rx_pos <= self.rx@.len()
    }

    /// The bytes received but not yet read.
    pub closed spec fn spec_unread(self) -> Seq<u8> {
        self.rx@.skip(self.rx_pos as int)
    }

    /// Every byte written so far, in order.
    pub closed spec fn spec_sent(self) -> Seq<u8> {
        self.tx@
    }

    /// A port with `input` pending on the receive side and nothing sent yet.
    pub fn new(input: Vec<u8>) -> (r: Uart)
        ensures
            r.wf(),
            r.spec_unread() == input@,
            r.spec_sent() == Seq::<u8>::empty(),
    {
        let r = Uart { rx: input, rx_pos: 0, tx: Vec::new() };
        proof {
            assert(r.spec_unread() =~= r.rx@);
            assert(r.spec_sent() =~= Seq::<u8>::empty());
        }
        r
    }

    /// Appends more received bytes, as the host sends them.
    pub fn feed(&mut self, input: &[u8])
        requires
            old(self).wf(),
        ensures
            final(self).wf(),
            final(self).spec_unread() == old(self).spec_unread() + input@,
            final(self).spec_sent() == old(self).spec_sent(),
    {
        self.rx.extend_from_slice(input);
        proof {
            assert(final(self).spec_unread() =~= old(self).spec_unread() + input@);
        }
    }

    /// Hands out the bytes written so far and forgets them, as the host
    /// drains them.
    pub fn take_sent(&mut self) -> (out: Vec<u8>)
        requires
            old(self).wf(),
        ensures
            final(self).wf(),
            out@ == old(self).spec_sent(),
            final(self).spec_sent() == Seq::<u8>::empty(),
            final(self).spec_unread() == old(self).spec_unread(),
    {
        let mut out: Vec<u8> = Vec::new();
        core::mem::swap(&mut out, &mut self.tx);
        out
    }

    /// How many bytes are waiting to be read.
    pub fn available(&self) -> (n: usize)
        requires
            self.wf(),
        ensures
            n == self.spec_unread().len(),
    {
        self.rx.len() - self.rx_pos
    }

    /// Reads the next byte of the stream.
    pub fn read_byte(&mut self) -> (b: u8)
        requires
            old(self).wf(),
            old(self).spec_unread().len() > 0,
        ensures
            final(self).wf(),
            b == old(self).spec_unread()[0],
            final(self).spec_unread() == old(self).spec_unread().skip(1),
            final(self).spec_sent() == old(self).spec_sent(),
    {
        let rx_len = self.rx.len();
        proof {
            assert(self.rx_pos < rx_len);
        }
        let b = self.rx[self.rx_pos];
        self.rx_pos = self.rx_pos + 1;
        proof {
            assert(final(self).spec_unread() =~= old(self).spec_unread().skip(1));
        }
        b
    }

    /// Reads exactly `buffer.len()` bytes into `buffer`, front to back.
    pub fn read_bytes(&mut self, buffer: &mut Vec<u8>)
        requires
            old(self).wf(),
            old(self).spec_unread().len() >= old(buffer)@.len(),
        ensures
            final(self).wf(),
            final(buffer)@.len() == old(buffer)@.len(),
            final(buffer)@ == old(self).spec_unread().take(old(buffer)@.len() as int),
            final(self).spec_unread() == old(self).spec_unread().skip(old(buffer)@.len() as int),
            final(self).spec_sent() == old(self).spec_sent(),
    {
        let n = buffer.len();
        let mut i: usize = 0;
        while i < n
            invariant
                self.wf(),
                0 <= i <= n,
                buffer@.len() == n,
                old(self).spec_unread().len() >= n,
                self.spec_unread() == old(self).spec_unread().skip(i as int),
                self.spec_sent() == old(self).spec_sent(),
                forall|k: int| 0 <= k < i ==> buffer@[k] == old(self).spec_unread()[k],
            decreases n - i,
        {
            let b = self.read_byte();
            buffer[i] = b;
            proof {
                assert(old(self).spec_unread().skip(i as int).skip(1)
                    =~= old(self).spec_unread().skip(i + 1));
            }
            i += 1;
        }
        proof {
            assert(final(buffer)@ =~= old(self).spec_unread().take(n as int));
        }
    }

    /// Writes one byte to the stream.
    pub fn write_byte(&mut self, byte: u8)
        requires
            old(self).wf(),
        ensures
            final(self).wf(),
            final(self).spec_sent() == old(self).spec_sent().push(byte),
            final(self).spec_unread() == old(self).spec_unread(),
    {
        self.tx.push(byte);
    }

    /// Writes a run of bytes to the stream, front to back.
    pub fn write_bytes(&mut self, buffer: &[u8])
        requires
            old(self).wf(),
        ensures
            final(self).wf(),
            final(self).spec_sent() == old(self).spec_sent() + buffer@,
            final(self).spec_unread() == old(self).spec_unread(),
    {
        self.tx.extend_from_slice(buffer);
    }

    /// Discards everything waiting on the receive side.
    pub fn flush_uart_receive(&mut self)
        requires
            old(self).wf(),
        ensures
            final(self).wf(),
            final(self).spec_unread() == Seq::<u8>::empty(),
            final(self).spec_sent() == old(self).spec_sent(),
    {
        self.rx_pos = self.rx.len();
        proof {
            assert(final(self).spec_unread() =~= Seq::<u8>::empty());
        }
    }
}

} // verus!
