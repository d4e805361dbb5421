//! Connection protocols, raw packets and packet errors.

use vstd::prelude::*;

verus! {

/// The maximum size of a packet.
pub const MAX_PACKET_SIZE: usize = 2_097_152;

/// The maximum size of a packet's data.
pub const MAX_PACKET_DATA_SIZE: usize = 8_388_608;

/// The set of packets a connection understands at a given point. A
/// connection starts in `Handshake`, where the client names the protocol it
/// wants; the server then switches to it or disconnects the client.
#[derive(Clone, Copy, PartialEq, Eq, Structural, Hash, Debug)]
pub enum ConnectionProtocol {
    /// The initial protocol, in which the client states its intention.
    Handshake,
    /// The main protocol used while in game.
    Play,
    /// The protocol of a ping from the multiplayer screen.
    Status,
    /// Authentication before joining; switches to `Play` when done.
    Login,
    /// Syncing registered registries.
    Config,
}

/// A packet id with its encoded payload, held in a buffer that may start
/// with bytes that precede the payload.
#[derive(Debug)]
pub struct RawPacket {
    /// The id of the packet.
    pub id: i32,
    buffer: Vec<u8>,
    payload_start: u32,
}

impl RawPacket {
    #[verifier::type_invariant]
    spec fn inv(self) -> bool {
        self.payload_start as int <= self.buffer@.len()
    }

    /// The packet id.
    pub closed spec fn packet_id(&self) -> i32 {
        self.id
    }

    /// The payload bytes, without the packet id.
    pub closed spec fn payload_view(&self) -> Seq<u8> {
        self.buffer@.skip(self.payload_start as int)
    }

    /// A raw packet from an already-separated payload.
    pub fn new(id: i32, payload: Vec<u8>) -> (r: RawPacket)
        ensures
            r.packet_id() == id,
            r.payload_view() == payload@,
    {
        let r = RawPacket { id, buffer: payload, payload_start: 0 };
        assert(r.buffer@.skip(0) =~= payload@);
        r
    }

    /// A raw packet whose payload is `buffer` from `payload_start` on.
    pub fn from_buffer(id: i32, buffer: Vec<u8>, payload_start: usize) -> (r: RawPacket)
        requires
            payload_start <= buffer@.len(),
            payload_start <= MAX_PACKET_DATA_SIZE,
        ensures
            r.packet_id() == id,
            r.payload_view() == buffer@.skip(payload_start as int),
    {
        RawPacket { id, buffer, payload_start: payload_start as u32 }
    }

    /// The packet payload without its packet id.
    pub fn payload(&self) -> (r: &[u8])
        ensures
            r@ == self.payload_view(),
    {
        proof {
            use_type_invariant(self);
        }
        let start = self.payload_start as usize;
        let r = vstd::slice::slice_subrange(self.buffer.as_slice(), start, self.buffer.len());
        assert(r@ =~= self.buffer@.skip(start as int));
        r
    }
}

/// An error that can occur when handling packets.
#[derive(Debug)]
pub enum PacketError {
    /// Failed to decode the packet id.
    DecodeID,
    /// The packet length exceeds the maximum length.
    TooLong(usize),
    /// The packet length is out of bounds.
    OutOfBounds,
    /// The packet length `VarInt` is malformed.
    MalformedLength(String),
    /// A value in the packet is malformed.
    MalformedValue(String),
    /// Failed to decompress the packet.
    DecompressionFailed(String),
    /// Failed to compress the packet.
    CompressionFailed(String),
    /// The packet is uncompressed but greater than the threshold.
    NotCompressed,
    /// Failed to decrypt the packet.
    DecryptionFailed(String),
    /// Failed to encrypt the packet.
    EncryptionFailed(String),
    /// The connection has closed.
    ConnectionClosed,
    /// An error occurred when sending a packet.
    SendError(String),
    /// Another error occurred.
    Other(String),
    /// The protocol is invalid.
    InvalidProtocol(String),
}

/// The largest number of bytes encrypted and handed to the inner stream in
/// one write.
pub const ENCRYPT_BATCH_SIZE: usize = 4096;

/// How many of `len` offered bytes one write takes.
pub fn batch_len(len: usize) -> (r: usize)
    ensures
        r == if len < ENCRYPT_BATCH_SIZE { len } else { ENCRYPT_BATCH_SIZE },
{
    if len < ENCRYPT_BATCH_SIZE {
        len
    } else {
        ENCRYPT_BATCH_SIZE
    }
}

/// What a write of the inner stream did to the bytes waiting for it.
#[derive(Clone, Copy, PartialEq, Eq, Structural, Debug)]
pub enum WriteProgress {
    /// Nothing was written: the inner stream took no bytes.
    Stalled,
    /// Some bytes were written and some still wait.
    Partial,
    /// Every waiting byte was written.
    Complete,
}

/// Encrypted bytes waiting to be written to the inner stream.
pub struct PendingWrite {
    buffer: Vec<u8>,
    offset: usize,
}

impl PendingWrite {
    #[verifier::type_invariant]
    spec fn inv(self) -> bool {
        self.offset <= self.buffer@.len()
    }

    /// The bytes still to be written, in order.
    pub closed spec fn waiting(&self) -> Seq<u8> {
        self.buffer@.skip(self.offset as int)
    }

    /// Nothing waiting.
    pub fn new() -> (r: PendingWrite)
        ensures
            r.waiting().len() == 0,
    {
        PendingWrite { buffer: Vec::new(), offset: 0 }
    }

    /// Whether some bytes still wait.
    pub fn has_waiting(&self) -> (r: bool)
        ensures
            r == (self.waiting().len() > 0),
    {
        proof {
            use_type_invariant(self);
        }
        self.offset < self.buffer.len()
    }

    /// The bytes still to be written.
    pub fn unwritten(&self) -> (r: &[u8])
        ensures
            r@ == self.waiting(),
    {
        proof {
            use_type_invariant(self);
        }
        vstd::slice::slice_subrange(self.buffer.as_slice(), self.offset, self.buffer.len())
    }

    /// A freshly encrypted batch replaces whatever waited.
    pub fn start_batch(&mut self, encrypted: Vec<u8>)
        ensures
            final(self).waiting() == encrypted@,
    {
        *self = PendingWrite { buffer: encrypted, offset: 0 };
        assert(self.buffer@.skip(0) =~= self.buffer@);
    }

    /// Records that the inner stream wrote `written` of the waiting bytes.
    pub fn record_written(&mut self, written: usize) -> (r: WriteProgress)
        ensures
            written == 0 ==> r == WriteProgress::Stalled && final(self).waiting() == old(self).waiting(),
            0 < written < old(self).waiting().len() ==> r == WriteProgress::Partial
                && final(self).waiting() == old(self).waiting().skip(written as int),
            written > 0 && written >= old(self).waiting().len() ==> r == WriteProgress::Complete
                && final(self).waiting().len() == 0,
    {
        proof {
            use_type_invariant(&*self);
        }
        if written == 0 {
            return WriteProgress::Stalled;
        }
        let remaining = self.buffer.len() - self.offset;
        if written < remaining {
            let ghost before = self.waiting();
            self.offset = self.offset + written;
            assert(self.waiting() =~= before.skip(written as int));
            WriteProgress::Partial
        } else {
            *self = PendingWrite { buffer: Vec::new(), offset: 0 };
            assert(self.waiting() =~= Seq::<u8>::empty());
            WriteProgress::Complete
        }
    }
}

} // verus!
