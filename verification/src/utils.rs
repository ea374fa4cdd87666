//! Buffer cursor used to assemble and parse message bodies, and the
//! uniform error-packet reporting of the main loop.

use vstd::prelude::*;
use vstd::slice::slice_subrange;
use vstd::string::StrSliceExecFns;

use crate::errors::{CursorError, DecoderError, MessageError};
use crate::message::{spec_acks, spec_header_bytes, Message, Opcode, MAX_BODY_SIZE};
use crate::uart::Uart;

verus! {

/// A read/write position over a byte buffer.
pub struct Cursor {
    buf: Vec<u8>,
    /// How many bytes have been read or written so far.
    pub offset: usize,
}

impl Cursor {
    /// The underlying buffer.
    pub closed spec fn spec_buf(self) -> Seq<u8> {
        self.buf@
    }

    /// The position of the cursor.
    pub closed spec fn spec_offset(self) -> int {
        self.offset as int
    }

    /// The position never passes the end of the buffer.
    pub open spec fn wf(self) -> bool {
        self.spec_offset() <= self.spec_buf().len()
    }

    /// A cursor at the start of `buf`.
    pub fn new(buf: Vec<u8>) -> (c: Cursor)
        ensures
            c.wf(),
            c.spec_buf() == buf@,
            c.spec_offset() == 0,
    {
        Cursor { buf, offset: 0 }
    }

    /// Reads bytes from this cursor into the buffer, filling it entirely.
    ///
    /// If fewer bytes remain than the buffer asks for, fails with how many
    /// remain, moving nothing.
    pub fn read_into(&mut self, other: &mut Vec<u8>) -> (r: Result<(), CursorError>)
        requires
            old(self).wf(),
        ensures
            final(self).wf(),
            final(self).spec_buf() == old(self).spec_buf(),
            if old(self).spec_buf().len() - old(self).spec_offset() >= old(other)@.len() {
                &&& r is Ok
                &&& final(other)@ == old(self).spec_buf().subrange(
                    old(self).spec_offset(),
                    old(self).spec_offset() + old(other)@.len(),
                )
                &&& final(self).spec_offset() == old(self).spec_offset() + old(other)@.len()
            } else {
                &&& r == Err::<(), CursorError>(
                    CursorError::OversizeError(
                        (old(self).spec_buf().len() - old(self).spec_offset()) as usize,
                    ),
                )
                &&& final(other)@ == old(other)@
                &&& final(self).spec_offset() == old(self).spec_offset()
            },
    {
        let remaining = self.buf.len() - self.offset;
        let n = other.len();
        if remaining < n {
            return Err(CursorError::OversizeError(remaining));
        }
        let mut i: usize = 0;
        while i < n
            invariant
                0 <= i <= n,
                other@.len() == n,
                self.buf@ == old(self).spec_buf(),
                self.offset == old(self).offset,
                self.offset + n <= self.buf.len(),
                forall|k: int| 0 <= k < i ==> other@[k] == self.buf@[self.offset + k],
            decreases n - i,
        {
            let b = self.buf[self.offset + i];
            other[i] = b;
            i += 1;
        }
        self.offset = self.offset + n;
        proof {
            assert(final(other)@ =~= old(self).spec_buf().subrange(
                old(self).spec_offset(),
                old(self).spec_offset() + n,
            ));
        }
        Ok(())
    }

    /// Writes the given bytes into the buffer at the cursor.
    ///
    /// If fewer bytes remain than given, fails with how many remain,
    /// moving nothing.
    pub fn read_from(&mut self, other: &[u8]) -> (r: Result<(), CursorError>)
        requires
            old(self).wf(),
        ensures
            final(self).wf(),
            final(self).spec_buf().len() == old(self).spec_buf().len(),
            if old(self).spec_buf().len() - old(self).spec_offset() >= other@.len() {
                &&& r is Ok
                &&& final(self).spec_offset() == old(self).spec_offset() + other@.len()
                &&& final(self).spec_buf() == old(self).spec_buf().subrange(
                    0,
                    old(self).spec_offset(),
                ) + other@ + old(self).spec_buf().skip(old(self).spec_offset() + other@.len())
            } else {
                &&& r == Err::<(), CursorError>(
                    CursorError::OversizeError(
                        (old(self).spec_buf().len() - old(self).spec_offset()) as usize,
                    ),
                )
                &&& final(self).spec_buf() == old(self).spec_buf()
                &&& final(self).spec_offset() == old(self).spec_offset()
            },
    {
        let remaining = self.buf.len() - self.offset;
        let n = other.len();
        if remaining < n {
            return Err(CursorError::OversizeError(remaining));
        }
        let mut i: usize = 0;
        while i < n
            invariant
                0 <= i <= n,
                other@.len() == n,
                self.buf@.len() == old(self).spec_buf().len(),
                self.offset == old(self).offset,
                self.offset + n <= self.buf.len(),
                forall|k: int| 0 <= k < self.offset ==> self.buf@[k] == old(self).spec_buf()[k],
                forall|k: int| 0 <= k < i ==> self.buf@[self.offset + k] == other@[k],
                forall|k: int|
                    self.offset + n <= k < self.buf@.len() ==> self.buf@[k] == old(
                        self,
                    ).spec_buf()[k],
        decreases n - i,
        {
            self.buf[self.offset + i] = other[i];
            i += 1;
        }
        self.offset = self.offset + n;
        proof {
            assert(final(self).spec_buf() =~= old(self).spec_buf().subrange(
                0,
                old(self).spec_offset(),
            ) + other@ + old(self).spec_buf().skip(old(self).spec_offset() + n));
        }
        Ok(())
    }

    /// A copy of everything written so far.
    pub fn written(&self) -> (out: Vec<u8>)
        requires
            self.wf(),
        ensures
            out@ == self.spec_buf().subrange(0, self.spec_offset()),
    {
        let mut out: Vec<u8> = Vec::new();
        out.extend_from_slice(slice_subrange(self.buf.as_slice(), 0, self.offset));
        out
    }
}

/// The packets that carry `data` as a stream of debug messages, each
/// holding at most one full body.
pub open spec fn spec_debug_stream(data: Seq<u8>) -> Seq<u8>
    decreases data.len(),
{
    if data.len() == 0 {
        Seq::empty()
    } else if data.len() <= MAX_BODY_SIZE {
        spec_header_bytes(Opcode::Debug, data.len() as u16) + data
    } else {
        spec_header_bytes(Opcode::Debug, MAX_BODY_SIZE as u16) + data.take(MAX_BODY_SIZE as int)
            + spec_debug_stream(data.skip(MAX_BODY_SIZE as int))
    }
}

/// Writes the given bytes as a stream of debug messages, split over as
/// many packets as they need.  Debug messages are never acknowledged.
pub fn write_debug_message(message: &[u8], uart: &mut Uart) -> (r: Result<(), MessageError>)
    requires
        old(uart).wf(),
    ensures
        final(uart).wf(),
        r is Ok,
        final(uart).spec_sent() == old(uart).spec_sent() + spec_debug_stream(message@),
        final(uart).spec_unread() == old(uart).spec_unread(),
{
    let n = message.len();
    proof {
        assert(message@.skip(0) =~= message@);
    }
    let mut offset: usize = 0;
    while offset < n
        invariant
            uart.wf(),
            0 <= offset <= n,
            n == message@.len(),
            old(uart).spec_sent() + spec_debug_stream(message@) == uart.spec_sent()
                + spec_debug_stream(message@.skip(offset as int)),
            uart.spec_unread() == old(uart).spec_unread(),
        decreases n - offset,
    {
        let chunk_len = if n - offset < MAX_BODY_SIZE {
            n - offset
        } else {
            MAX_BODY_SIZE
        };
        let chunk = vstd::slice::slice_subrange(message, offset, offset + chunk_len);
        proof {
            assert(crate::message::spec_acks_needed(Opcode::Debug, chunk@.len() as int) == 0);
            assert(uart.spec_unread().take(0) =~= spec_acks(0));
        }
        let send_result = Message::send_data(Opcode::Debug, chunk, uart);
        proof {
            let rest = message@.skip(offset as int);
            assert(chunk@ =~= rest.take(chunk_len as int));
            assert(message@.skip(offset + chunk_len) =~= rest.skip(chunk_len as int));
            if rest.len() <= MAX_BODY_SIZE {
                assert(chunk@ == rest);
                assert(spec_debug_stream(rest) =~= spec_header_bytes(
                    Opcode::Debug,
                    rest.len() as u16,
                ) + rest);
            } else {
                assert(chunk_len == MAX_BODY_SIZE);
            }
            assert(old(uart).spec_sent() + spec_debug_stream(message@) =~= uart.spec_sent()
                + spec_debug_stream(message@.skip(offset + chunk_len)));
        }
        if send_result.is_err() {
            proof {
                assert(false);
            }
            return send_result;
        }
        offset += chunk_len;
    }
    proof {
        assert(spec_debug_stream(message@.skip(n as int)) =~= Seq::<u8>::empty());
        assert(final(uart).spec_sent() =~= old(uart).spec_sent() + spec_debug_stream(message@));
    }
    Ok(())
}

/// Sends the given `message` bytes as the body of an error packet to the host tools.
///
/// Errors are never split across packets, so a host tool cannot mistake a
/// continuation for the answer to its next command.
pub fn write_error_bytes(message: &[u8], uart: &mut Uart) -> (r: Result<(), MessageError>)
    requires
        old(uart).wf(),
        message@.len() <= MAX_BODY_SIZE ==> {
            &&& old(uart).spec_unread().len() >= 4 * crate::message::spec_acks_needed(
                Opcode::Error,
                message@.len() as int,
            )
            &&& old(uart).spec_unread().take(
                4 * crate::message::spec_acks_needed(Opcode::Error, message@.len() as int),
            ) == spec_acks(
                crate::message::spec_acks_needed(Opcode::Error, message@.len() as int),
            )
        },
    ensures
        final(uart).wf(),
        message@.len() <= MAX_BODY_SIZE ==> r is Ok && final(uart).spec_sent() == old(
            uart,
        ).spec_sent() + spec_header_bytes(Opcode::Error, message@.len() as u16) + message@
            && final(uart).spec_unread() == old(uart).spec_unread().skip(
            4 * crate::message::spec_acks_needed(Opcode::Error, message@.len() as int),
        ),
        message@.len() > MAX_BODY_SIZE ==> r == Err::<(), MessageError>(
            MessageError::BodyLengthError,
        ) && *final(uart) == *old(uart),
{
    Message::send_data(Opcode::Error, message, uart)
}

/// Every error description is short ASCII text: one chunk carries any of
/// them.
pub proof fn lemma_message_text(e: DecoderError)
    ensures
        0 < e.spec_message().len() <= 256,
        vstd::utf8::is_ascii_chars(e.spec_message()),
{
    reveal_strlit("Error: timestamp not found in subtrees");
    reveal_strlit("Error: timestamp is out of bounds");
    reveal_strlit("Error: non-monotonic timestamp");
    reveal_strlit("Error: invalid payload received");
    reveal_strlit("Error: subscription is not valid for decoding the given frame");
    reveal_strlit("Messaging error: Unknown error");
    reveal_strlit("Messaging error: Unexpected opcode");
    reveal_strlit("Messaging error: Incorrect magic");
    reveal_strlit("Messaging error: Nonzero body length on ACK packet");
    reveal_strlit("Messaging error: Body too long");
    reveal_strlit("Cursor error: Too many bytes remaining");
    reveal_strlit("Decoder context error: Too many subscriptions!");
}

/// The printable description of an error, as bytes: every description is
/// plain ASCII.
pub open spec fn spec_message_bytes(e: DecoderError) -> Seq<u8> {
    Seq::new(e.spec_message().len(), |i: int| e.spec_message()[i] as u8)
}

/// Sends the error message for an error back to the host tools in an error packet.
pub fn write_error(error: &DecoderError, uart: &mut Uart) -> (r: Result<(), MessageError>)
    requires
        old(uart).wf(),
        old(uart).spec_unread().len() >= 8,
        old(uart).spec_unread().take(8) == spec_acks(2),
    ensures
        final(uart).wf(),
        r is Ok,
        final(uart).spec_sent() == old(uart).spec_sent() + spec_header_bytes(
            Opcode::Error,
            spec_message_bytes(*error).len() as u16,
        ) + spec_message_bytes(*error),
        final(uart).spec_unread() == old(uart).spec_unread().skip(8),
{
    let message = error.message();
    proof {
        lemma_message_text(*error);
        broadcast use vstd::string::is_ascii_spec_bytes;
        assert(vstd::string::is_ascii(message));
    }
    let bytes = message.as_bytes();
    proof {
        assert(bytes@ =~= spec_message_bytes(*error));
        assert(crate::message::spec_acks_needed(Opcode::Error, bytes@.len() as int) == 2) by {
            assert(crate::message::spec_chunk_count(bytes@.len() as int) == 1);
        }
        assert(old(uart).spec_unread().take(
            4 * crate::message::spec_acks_needed(Opcode::Error, bytes@.len() as int),
        ) == old(uart).spec_unread().take(8));
    }
    write_error_bytes(bytes, uart)
}

} // verus!
