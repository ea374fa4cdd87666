//! The framed request/response wire protocol.
//!
//! Every message is `MAGIC | opcode | length (u16 LE) | body`, the body
//! travelling in chunks of 256 bytes.  The receiver acknowledges the header
//! and every chunk; the sender awaits each acknowledgement, except for
//! `Ack` and `Debug` messages, which are never acknowledged.

use vstd::bytes::{spec_u16_from_le_bytes, spec_u16_to_le_bytes, u16_from_le_bytes, u16_to_le_bytes};
use vstd::prelude::*;
use vstd::slice::slice_subrange;

use crate::errors::MessageError;
use crate::uart::Uart;

verus! {

/// Value required at the start of every message: the byte `'%'`.
pub const MAGIC: u8 = 0x25;

/// Maximum body size for a message: 4.5 KiB
pub const MAX_BODY_SIZE: usize = 4608;

/// Messages get sent in 256-byte chunks, with an ack for each chunk
pub const CHUNK_SIZE: usize = 256;

/// The opcode of a message.
#[derive(Clone, Copy, Debug, PartialEq, Eq, Structural)]
pub enum Opcode {
    Decode,
    Subscribe,
    List,
    Ack,
    Debug,
    Error,
}

impl Opcode {
    /// The byte that carries this opcode on the wire.
    pub open spec fn spec_to_byte(self) -> u8 {
        match self {
            Opcode::Decode => 0x44,
            Opcode::Subscribe => 0x53,
            Opcode::List => 0x4c,
            Opcode::Ack => 0x41,
            Opcode::Debug => 0x47,
            Opcode::Error => 0x45,
        }
    }

    /// The opcode a byte names, if any.
    pub open spec fn spec_from_byte(value: u8) -> Option<Opcode> {
        match value {
            0x44 => Some(Opcode::Decode),
            0x53 => Some(Opcode::Subscribe),
            0x4c => Some(Opcode::List),
            0x41 => Some(Opcode::Ack),
            0x47 => Some(Opcode::Debug),
            0x45 => Some(Opcode::Error),
            _ => None,
        }
    }

    /// The byte that carries this opcode on the wire.
    pub fn to_byte(self) -> (r: u8)
        ensures
            r == self.spec_to_byte(),
    {
        match self {
            Opcode::Decode => 0x44,
            Opcode::Subscribe => 0x53,
            Opcode::List => 0x4c,
            Opcode::Ack => 0x41,
            Opcode::Debug => 0x47,
            Opcode::Error => 0x45,
        }
    }

    /// The opcode a byte names, if any.
    pub fn from_byte(value: u8) -> (r: Option<Opcode>)
        ensures
            r == Opcode::spec_from_byte(value),
    {
        match value {
            0x44 => Some(Opcode::Decode),
            0x53 => Some(Opcode::Subscribe),
            0x4c => Some(Opcode::List),
            0x41 => Some(Opcode::Ack),
            0x47 => Some(Opcode::Debug),
            0x45 => Some(Opcode::Error),
            _ => None,
        }
    }

    /// Whether messages with this opcode are acknowledged by the receiver.
    pub open spec fn spec_needs_ack(self) -> bool {
        !(self == Opcode::Ack || self == Opcode::Debug)
    }

    /// Whether messages with this opcode are acknowledged by the receiver.
    pub fn needs_ack(self) -> (r: bool)
        ensures
            r == self.spec_needs_ack(),
    {
        match self {
            Opcode::Ack => false,
            Opcode::Debug => false,
            _ => true,
        }
    }
}

/// The four header bytes of a message.
pub open spec fn spec_header_bytes(opcode: Opcode, length: u16) -> Seq<u8> {
    seq![MAGIC, opcode.spec_to_byte()] + spec_u16_to_le_bytes(length)
}

/// The header of an acknowledgement: an `Ack` with an empty body.
pub open spec fn spec_ack_bytes() -> Seq<u8> {
    spec_header_bytes(Opcode::Ack, 0)
}

/// `n` acknowledgements in a row.
pub open spec fn spec_acks(n: int) -> Seq<u8>
    decreases n,
{
    if n <= 0 {
        Seq::empty()
    } else {
        spec_ack_bytes() + spec_acks(n - 1)
    }
}

/// A run of `n` acknowledgements is `4 * n` bytes, four per acknowledgement.
pub proof fn lemma_acks_index(n: int)
    requires
        0 <= n,
    ensures
        spec_acks(n).len() == 4 * n,
        forall|j: int|
            0 <= j < n ==> #[trigger] spec_acks(n).subrange(4 * j, 4 * j + 4) == spec_ack_bytes(),
    decreases n,
{
    vstd::bytes::lemma_auto_spec_u16_to_from_le_bytes();
    if n > 0 {
        lemma_acks_index(n - 1);
        assert forall|j: int| 0 <= j < n implies #[trigger] spec_acks(n).subrange(4 * j, 4 * j + 4)
            == spec_ack_bytes() by {
            if j == 0 {
                assert(spec_acks(n).subrange(0, 4) =~= spec_ack_bytes());
            } else {
                assert(spec_acks(n).subrange(4 * j, 4 * j + 4)
                    =~= spec_acks(n - 1).subrange(4 * (j - 1), 4 * (j - 1) + 4));
            }
        }
    }
}

/// How many chunks a body of `length` bytes travels in.
pub open spec fn spec_chunk_count(length: int) -> int {
    (length + CHUNK_SIZE - 1) / CHUNK_SIZE as int
}

/// How many acknowledgements the sender of a message must collect.
pub open spec fn spec_acks_needed(opcode: Opcode, length: int) -> int {
    if opcode.spec_needs_ack() {
        1 + spec_chunk_count(length)
    } else {
        0
    }
}

/// A message body padded with zeroes to the full body buffer size.
pub open spec fn spec_padded_body(data: Seq<u8>) -> Seq<u8> {
    data + Seq::new((MAX_BODY_SIZE - data.len()) as nat, |i: int| 0u8)
}

/// One request or response of the wire protocol.
#[derive(Debug)]
pub struct Message {
    pub opcode: Opcode,
    pub length: u16,
    pub body: Vec<u8>,
}

/// The bytes a message occupies on the wire, acknowledgements aside.
pub open spec fn spec_message_bytes(m: Message) -> Seq<u8> {
    spec_header_bytes(m.opcode, m.length) + m.body@.take(m.length as int)
}

impl Message {
    /// The body buffer is always full-sized and the length names a prefix
    /// of it.
    pub open spec fn wf(self) -> bool {
        &&& self.body@.len() == MAX_BODY_SIZE
        &&& self.length <= MAX_BODY_SIZE
    }

    /// The body bytes the message carries.
    pub open spec fn spec_data(self) -> Seq<u8> {
        self.body@.take(self.length as int)
    }

    /// Creates a new message from the given opcode, length, and body.
    pub fn new(opcode: Opcode, length: u16, body: Vec<u8>) -> (m: Message)
        requires
            body@.len() == MAX_BODY_SIZE,
            length <= MAX_BODY_SIZE,
        ensures
            m.wf(),
            m.opcode == opcode,
            m.length == length,
            m.body == body,
    {
        Message { opcode, length, body }
    }

    /// Creates a new message from the given opcode and byte slice.
    pub fn from_data(opcode: Opcode, data: &[u8]) -> (m: Message)
        requires
            data@.len() <= MAX_BODY_SIZE,
        ensures
            m.wf(),
            m.opcode == opcode,
            m.length == data@.len(),
            m.spec_data() == data@,
            m.body@ == spec_padded_body(data@),
    {
        let mut body: Vec<u8> = Vec::new();
        body.extend_from_slice(data);
        let mut i: usize = data.len();
        while i < MAX_BODY_SIZE
            invariant
                data@.len() <= i <= MAX_BODY_SIZE,
                body@.len() == i,
                body@.take(data@.len() as int) == data@,
                forall|k: int| data@.len() <= k < i ==> body@[k] == 0u8,
            decreases MAX_BODY_SIZE - i,
        {
            body.push(0u8);
            assert(body@.take(data@.len() as int) =~= data@);
            i += 1;
        }
        let m = Message { opcode, length: data.len() as u16, body };
        proof {
            assert(m.body@ =~= spec_padded_body(data@));
            assert(m.spec_data() =~= data@);
        }
        m
    }

    /// A copy of the body bytes the message carries.
    pub fn data(&self) -> (out: Vec<u8>)
        requires
            self.wf(),
        ensures
            out@ == self.spec_data(),
    {
        let mut out: Vec<u8> = Vec::new();
        out.extend_from_slice(slice_subrange(self.body.as_slice(), 0, self.length as usize));
        out
    }

    /// Static method to generate an ack message.
    pub fn ack() -> (m: Message)
        ensures
            m.wf(),
            m.opcode == Opcode::Ack,
            m.length == 0,
    {
        let mut body: Vec<u8> = Vec::new();
        let mut i: usize = 0;
        while i < MAX_BODY_SIZE
            invariant
                body@.len() == i,
                0 <= i <= MAX_BODY_SIZE,
            decreases MAX_BODY_SIZE - i,
        {
            body.push(0u8);
            i += 1;
        }
        Message { opcode: Opcode::Ack, length: 0, body }
    }

    /// Writes this message's header to the port.
    pub fn write_header(&self, uart: &mut Uart)
        requires
            old(uart).wf(),
        ensures
            final(uart).wf(),
            final(uart).spec_sent() == old(uart).spec_sent() + spec_header_bytes(
                self.opcode,
                self.length,
            ),
            final(uart).spec_unread() == old(uart).spec_unread(),
    {
        uart.write_byte(MAGIC);
        uart.write_byte(self.opcode.to_byte());
        let length_bytes = u16_to_le_bytes(self.length);
        uart.write_bytes(length_bytes.as_slice());
        proof {
            assert(final(uart).spec_sent() =~= old(uart).spec_sent() + spec_header_bytes(
                self.opcode,
                self.length,
            ));
        }
    }

    /// Writes an ack to the port.
    pub fn send_ack(uart: &mut Uart)
        requires
            old(uart).wf(),
        ensures
            final(uart).wf(),
            final(uart).spec_sent() == old(uart).spec_sent() + spec_ack_bytes(),
            final(uart).spec_unread() == old(uart).spec_unread(),
    {
        let ack = Self::ack();
        ack.write_header(uart);
    }

    /// Reads a message header from the port without reading the body.
    ///
    /// Fails on a wrong magic byte (consuming one byte) or an unknown
    /// opcode (consuming two); on success consumes exactly the four header
    /// bytes.  Never writes.
    pub fn read_header(uart: &mut Uart) -> (r: Result<Message, MessageError>)
        requires
            old(uart).wf(),
            old(uart).spec_unread().len() >= 4,
        ensures
            final(uart).wf(),
            final(uart).spec_sent() == old(uart).spec_sent(),
            match r {
                Ok(m) => {
                    &&& old(uart).spec_unread()[0] == MAGIC
                    &&& Opcode::spec_from_byte(old(uart).spec_unread()[1]) == Some(m.opcode)
                    &&& m.length == spec_u16_from_le_bytes(old(uart).spec_unread().subrange(2, 4))
                    &&& m.body@.len() == MAX_BODY_SIZE
                    &&& final(uart).spec_unread() == old(uart).spec_unread().skip(4)
                },
                Err(MessageError::IncorrectMagic(b)) => {
                    &&& b == old(uart).spec_unread()[0]
                    &&& b != MAGIC
                    &&& final(uart).spec_unread() == old(uart).spec_unread().skip(1)
                },
                Err(MessageError::UnexpectedOpcode(b)) => {
                    &&& old(uart).spec_unread()[0] == MAGIC
                    &&& b == old(uart).spec_unread()[1]
                    &&& Opcode::spec_from_byte(b) is None
                    &&& final(uart).spec_unread() == old(uart).spec_unread().skip(2)
                },
                Err(_) => false,
            },
    {
        let magic = uart.read_byte();
        if magic != MAGIC {
            return Err(MessageError::IncorrectMagic(magic));
        }

        let opcode_byte = uart.read_byte();
        let opcode = match Opcode::from_byte(opcode_byte) {
            Some(opcode) => opcode,
            None => {
                proof {
                    assert(final(uart).spec_unread() =~= old(uart).spec_unread().skip(2));
                }
                return Err(MessageError::UnexpectedOpcode(opcode_byte));
            },
        };

        let mut length_buf: Vec<u8> = Vec::new();
        length_buf.push(0);
        length_buf.push(0);
        uart.read_bytes(&mut length_buf);
        let length = u16_from_le_bytes(length_buf.as_slice());

        let message = Self::ack();
        let m = Message { opcode, length, body: message.body };
        proof {
            assert(length_buf@ =~= old(uart).spec_unread().skip(2).take(2));
            assert(old(uart).spec_unread().skip(2).take(2)
                =~= old(uart).spec_unread().subrange(2, 4));
            assert(final(uart).spec_unread() =~= old(uart).spec_unread().skip(4));
        }
        Ok(m)
    }

    /// Reads an ack from the port: a header whose length is zero.
    pub fn read_ack(uart: &mut Uart) -> (r: Result<(), MessageError>)
        requires
            old(uart).wf(),
            old(uart).spec_unread().len() >= 4,
        ensures
            final(uart).wf(),
            final(uart).spec_sent() == old(uart).spec_sent(),
            old(uart).spec_unread().take(4) == spec_ack_bytes() ==> r is Ok
                && final(uart).spec_unread() == old(uart).spec_unread().skip(4),
    {
        proof {
            vstd::bytes::lemma_auto_spec_u16_to_from_le_bytes();
            let s = old(uart).spec_unread();
            if s.take(4) == spec_ack_bytes() {
                assert(s.take(4)[0] == s[0] && s.take(4)[1] == s[1] && s.take(4)[2] == s[2]
                    && s.take(4)[3] == s[3]);
                assert(s[0] == MAGIC && s[1] == 0x41);
                assert(s.subrange(2, 4) =~= spec_u16_to_le_bytes(0u16));
            }
        }
        let message = Self::read_header(uart)?;

        if message.length != 0 {
            Err(MessageError::AckError)
        } else {
            Ok(())
        }
    }

    /// Writes this message to the port: the header, then the body in
    /// chunks, awaiting an acknowledgement after the header and after each
    /// chunk unless the opcode is unacknowledged.
    ///
    /// The bytes sent are exactly the message's wire bytes, whatever the
    /// chunking; the acknowledgements awaited are consumed from the port.
    pub fn write(&self, uart: &mut Uart) -> (r: Result<(), MessageError>)
        requires
            self.wf(),
            old(uart).wf(),
            old(uart).spec_unread().len() >= 4 * spec_acks_needed(self.opcode, self.length as int),
            old(uart).spec_unread().take(4 * spec_acks_needed(self.opcode, self.length as int))
                == spec_acks(spec_acks_needed(self.opcode, self.length as int)),
        ensures
            final(uart).wf(),
            r is Ok,
            final(uart).spec_sent() == old(uart).spec_sent() + spec_message_bytes(*self),
            final(uart).spec_unread() == old(uart).spec_unread().skip(
                4 * spec_acks_needed(self.opcode, self.length as int),
            ),
    {
        let ghost n = spec_acks_needed(self.opcode, self.length as int);
        proof {
            lemma_acks_index(n);
        }
        self.write_header(uart);

        let needs_ack = self.opcode.needs_ack();
        let ghost mut acked: int = 0;
        if needs_ack {
            proof {
                assert(n >= 1);
                assert(spec_acks(n).subrange(4 * 0int, 4 * 0int + 4) == spec_ack_bytes());
                assert(old(uart).spec_unread().take(4) =~= old(uart).spec_unread().take(4 * n)
                    .subrange(4 * 0int, 4 * 0int + 4));
            }
            let ack_result = Self::read_ack(uart);
            proof {
                acked = 1;
            }
            if ack_result.is_err() {
                proof {
                    assert(false);
                }
                return ack_result;
            }
        }

        let length = self.length as usize;
        proof {
            assert(uart.spec_sent() =~= old(uart).spec_sent() + spec_header_bytes(
                self.opcode,
                self.length,
            ) + self.body@.take(0));
            if !needs_ack {
                assert(uart.spec_unread() =~= old(uart).spec_unread().skip(0));
            }
        }
        let mut offset: usize = 0;
        while offset < length
            invariant
                self.wf(),
                uart.wf(),
                length == self.length,
                0 <= offset <= length,
                needs_ack == self.opcode.spec_needs_ack(),
                n == spec_acks_needed(self.opcode, self.length as int),
                needs_ack ==> acked == 1 + spec_chunk_count(offset as int),
                !needs_ack ==> acked == 0,
                acked <= n,
                offset < length ==> offset % CHUNK_SIZE == 0,
                old(uart).spec_unread().len() >= 4 * n,
                old(uart).spec_unread().take(4 * n) == spec_acks(n),
                uart.spec_unread() == old(uart).spec_unread().skip(4 * acked),
                uart.spec_sent() == old(uart).spec_sent() + spec_header_bytes(
                    self.opcode,
                    self.length,
                ) + self.body@.take(offset as int),
            decreases length - offset,
        {
            let chunk_len = if length - offset < CHUNK_SIZE {
                length - offset
            } else {
                CHUNK_SIZE
            };
            let chunk = slice_subrange(self.body.as_slice(), offset, offset + chunk_len);
            uart.write_bytes(chunk);
            proof {
                assert(uart.spec_sent() =~= old(uart).spec_sent() + spec_header_bytes(
                    self.opcode,
                    self.length,
                ) + self.body@.take(offset + chunk_len));
            }

            if needs_ack {
                proof {
                    lemma_acks_index(n);
                    assert(acked < n) by {
                        assert(offset + chunk_len <= length);
                        assert(spec_chunk_count(offset as int) < spec_chunk_count(length as int));
                    }
                    assert(uart.spec_unread().take(4) =~= old(uart).spec_unread().take(4 * n)
                        .subrange(4 * acked, 4 * acked + 4));
                }
                let ack_result = Self::read_ack(uart);
                proof {
                    acked = acked + 1;
                }
                if ack_result.is_err() {
                    proof {
                        assert(false);
                    }
                    return ack_result;
                }
            }

            offset += chunk_len;
            proof {
                if offset < length {
                    assert((offset - chunk_len) % (CHUNK_SIZE as int) == 0);
                    assert(chunk_len == CHUNK_SIZE);
                }
                if needs_ack {
                    assert(acked == 1 + spec_chunk_count(offset as int));
                }
            }
        }
        proof {
            assert(self.body@.take(self.length as int) == self.spec_data());
            assert(final(uart).spec_sent() =~= old(uart).spec_sent() + spec_message_bytes(*self));
            if needs_ack {
                assert(acked == n) by {
                    assert(spec_chunk_count(length as int) == n - 1);
                }
            }
        }
        Ok(())
    }

    /// Reads a complete message from the port, acknowledging the header and
    /// every body chunk.
    ///
    /// A length that exceeds the body buffer fails with a body length
    /// error rather than reading on.
    pub fn read(uart: &mut Uart) -> (r: Result<Message, MessageError>)
        requires
            old(uart).wf(),
            old(uart).spec_unread().len() >= 4,
            spec_read_length(old(uart).spec_unread()) matches Some(len) ==> old(
                uart,
            ).spec_unread().len() >= 4 + len,
        ensures
            final(uart).wf(),
            match r {
                Ok(m) => {
                    let s = old(uart).spec_unread();
                    let len = m.length as int;
                    &&& m.wf()
                    &&& spec_read_length(s) == Some(len)
                    &&& Opcode::spec_from_byte(s[1]) == Some(m.opcode)
                    &&& m.spec_data() == s.skip(4).take(len)
                    &&& final(uart).spec_unread() == s.skip(4 + len)
                    &&& final(uart).spec_sent() == old(uart).spec_sent() + spec_acks(
                        1 + spec_chunk_count(len),
                    )
                },
                Err(_) => true,
            },
            r is Ok <==> spec_read_length(old(uart).spec_unread()) is Some,
    {
        let message = Self::read_header(uart);
        let mut message = match message {
            Ok(m) => m,
            Err(e) => {
                return Err(e);
            },
        };

        if message.length as usize > MAX_BODY_SIZE {
            return Err(MessageError::BodyLengthError);
        }

        Self::send_ack(uart);

        let length = message.length as usize;
        let ghost s = old(uart).spec_unread();
        let mut data: Vec<u8> = Vec::new();
        proof {
            assert(spec_acks(1) =~= spec_ack_bytes() + spec_acks(0));
            assert(spec_acks(1) =~= spec_ack_bytes());
            assert(uart.spec_sent() =~= old(uart).spec_sent() + spec_acks(1));
            assert(data@ =~= s.skip(4).take(0));
        }
        let mut offset: usize = 0;
        while offset < length
            invariant
                uart.wf(),
                0 <= offset <= length,
                length <= MAX_BODY_SIZE,
                offset < length ==> offset % CHUNK_SIZE == 0,
                s.len() >= 4 + length,
                data@.len() == offset,
                data@ == s.skip(4).take(offset as int),
                uart.spec_unread() == s.skip(4 + offset),
                uart.spec_sent() == old(uart).spec_sent() + spec_acks(
                    1 + spec_chunk_count(offset as int),
                ),
            decreases length - offset,
        {
            let chunk_len = if length - offset < CHUNK_SIZE {
                length - offset
            } else {
                CHUNK_SIZE
            };
            let mut chunk: Vec<u8> = Vec::new();
            let mut i: usize = 0;
            while i < chunk_len
                invariant
                    chunk@.len() == i,
                    0 <= i <= chunk_len,
                decreases chunk_len - i,
            {
                chunk.push(0u8);
                i += 1;
            }
            uart.read_bytes(&mut chunk);
            data.extend_from_slice(chunk.as_slice());
            Self::send_ack(uart);
            proof {
                assert(data@ =~= s.skip(4).take(offset + chunk_len));
                assert(uart.spec_unread() =~= s.skip(4 + offset + chunk_len));
                assert(spec_chunk_count(offset + chunk_len) == spec_chunk_count(offset as int) + 1)
                    by {
                    assert((offset + chunk_len == length) || chunk_len == CHUNK_SIZE);
                }
                assert(uart.spec_sent() =~= old(uart).spec_sent() + spec_acks(
                    1 + spec_chunk_count(offset + chunk_len),
                )) by {
                    lemma_acks_snoc(1 + spec_chunk_count(offset as int));
                }
            }
            offset += chunk_len;
        }

        let result = Message::from_data(message.opcode, data.as_slice());
        proof {
            assert(result.spec_data() == s.skip(4).take(length as int));
        }
        Ok(result)
    }

    /// Convenience method to immediately create and send a message from the given
    /// opcode and byte slice.
    pub fn send_data(opcode: Opcode, data: &[u8], uart: &mut Uart) -> (r: Result<
        (),
        MessageError,
    >)
        requires
            old(uart).wf(),
            data@.len() <= MAX_BODY_SIZE ==> {
                &&& old(uart).spec_unread().len() >= 4 * spec_acks_needed(
                    opcode,
                    data@.len() as int,
                )
                &&& old(uart).spec_unread().take(
                    4 * spec_acks_needed(opcode, data@.len() as int),
                ) == spec_acks(spec_acks_needed(opcode, data@.len() as int))
            },
        ensures
            final(uart).wf(),
            data@.len() > MAX_BODY_SIZE <==> r == Result::<(), MessageError>::Err(
                MessageError::BodyLengthError,
            ),
            data@.len() > MAX_BODY_SIZE ==> *final(uart) == *old(uart),
            data@.len() <= MAX_BODY_SIZE ==> {
                &&& r is Ok
                &&& final(uart).spec_sent() == old(uart).spec_sent() + spec_header_bytes(
                    opcode,
                    data@.len() as u16,
                ) + data@
                &&& final(uart).spec_unread() == old(uart).spec_unread().skip(
                    4 * spec_acks_needed(opcode, data@.len() as int),
                )
            },
    {
        if data.len() > MAX_BODY_SIZE {
            return Err(MessageError::BodyLengthError);
        }
        let msg = Message::from_data(opcode, data);
        let r = msg.write(uart);
        proof {
            assert(msg.spec_data() == data@);
        }
        r
    }
}

/// The body length announced by a well-formed header at the front of the
/// stream: `None` when the magic is wrong, the opcode unknown, or the length
/// over the body buffer size.
pub open spec fn spec_read_length(s: Seq<u8>) -> Option<int> {
    if s.len() >= 4 && s[0] == MAGIC && Opcode::spec_from_byte(s[1]) is Some
        && spec_u16_from_le_bytes(s.subrange(2, 4)) <= MAX_BODY_SIZE {
        Some(spec_u16_from_le_bytes(s.subrange(2, 4)) as int)
    } else {
        None
    }
}

/// Appending one more acknowledgement to a run.
pub proof fn lemma_acks_snoc(n: int)
    requires
        0 <= n,
    ensures
        spec_acks(n + 1) == spec_acks(n) + spec_ack_bytes(),
    decreases n,
{
    if n == 0 {
        assert(spec_acks(1) =~= spec_acks(0) + spec_ack_bytes());
    } else {
        lemma_acks_snoc(n - 1);
        assert(spec_acks(n + 1) =~= spec_acks(n) + spec_ack_bytes());
    }
}

} // verus!
