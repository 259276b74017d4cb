//! The transport: the connection's state once the handshake is done. It
//! holds the codec and the bytes that have arrived and are not yet a frame.
//! The stream itself stays with the driver, which writes what `send` hands
//! out and feeds `receive` what it reads.

use vstd::prelude::*;
use crate::codec::{
    decoded, encodes, frame_bytes, APCodec, CodecError, CodecView, Decoded, Frame,
    MAX_PAYLOAD, OVERHEAD,
};
use crate::handshake::{HandshakeResult, HandshakeResultView};
use crate::wire::append;

verus! {

/// A transport as contracts see it.
pub ghost struct TransportView {
    /// The codec, with the nonce counters of both directions.
    pub codec: CodecView,
    /// The bytes that have arrived and have not been taken as a frame.
    pub inbound: Seq<u8>,
    /// The protocol version that the handshake settled on.
    pub version: u8,
}

impl TransportView {
    /// The transport that a handshake's result starts: nothing sent, nothing
    /// received, nothing buffered.
    pub open spec fn fresh(result: HandshakeResultView) -> TransportView {
        TransportView {
            codec: CodecView {
                send: result.ciphers.send,
                recv: result.ciphers.recv,
                limit: MAX_PAYLOAD as nat,
            },
            inbound: Seq::empty(),
            version: result.version,
        }
    }

    /// The transport after it has sent one frame.
    pub open spec fn sent(self) -> TransportView {
        TransportView { codec: self.codec.sent(), inbound: self.inbound, version: self.version }
    }

    /// The transport with `buf` as its buffer.
    pub open spec fn holding(self, buf: Seq<u8>) -> TransportView {
        TransportView { codec: self.codec, inbound: buf, version: self.version }
    }

    /// The transport after it has taken a frame of `consumed` bytes from the
    /// head of the buffer `buf`.
    pub open spec fn taken(self, buf: Seq<u8>, consumed: nat) -> TransportView {
        TransportView {
            codec: self.codec.received(),
            inbound: buf.skip(consumed as int),
            version: self.version,
        }
    }

    /// What the head of the buffer amounts to once `bytes` have joined it.
    pub open spec fn incoming(self, bytes: Seq<u8>) -> Decoded {
        decoded(self.codec.recv, self.codec.limit, self.inbound + bytes)
    }

    /// The transport after `bytes` have arrived and one frame, if a whole
    /// one was there, has been taken.
    pub open spec fn fed(self, bytes: Seq<u8>) -> TransportView {
        match self.incoming(bytes) {
            Decoded::Frame { consumed, .. } => self.taken(self.inbound + bytes, consumed),
            Decoded::Corrupt { consumed } => self.taken(self.inbound + bytes, consumed),
            _ => self.holding(self.inbound + bytes),
        }
    }
}

/// The connection's state after the handshake: codec and receive buffer.
pub struct Transport {
    codec: APCodec,
    inbound: Vec<u8>,
    version: u8,
}

impl View for Transport {
    type V = TransportView;

    closed spec fn view(&self) -> TransportView {
        TransportView { codec: self.codec@, inbound: self.inbound@, version: self.version }
    }
}

impl Transport {
    /// The transport that the result of a handshake starts. The result is
    /// used up: its ciphers belong to this transport alone.
    pub fn new(result: HandshakeResult) -> (transport: Transport)
        ensures
            transport@ == TransportView::fresh(result@),
    {
        let HandshakeResult { ciphers, version } = result;
        Transport { codec: APCodec::from_pair(ciphers), inbound: Vec::new(), version }
    }

    /// A transport over a codec made elsewhere, with an empty buffer.
    pub fn with_codec(codec: APCodec, version: u8) -> (transport: Transport)
        ensures
            transport@ == (TransportView { codec: codec@, inbound: Seq::empty(), version }),
    {
        Transport { codec, inbound: Vec::new(), version }
    }

    /// The protocol version that the handshake settled on.
    pub fn version(&self) -> (version: u8)
        ensures
            version == self@.version,
    {
        self.version
    }

    /// The number of frames sent so far: the nonce of the next one sent.
    pub fn send_nonce(&self) -> (nonce: u64)
        ensures
            nonce == self@.codec.send.counter,
    {
        self.codec.send_nonce()
    }

    /// The number of frames received so far: the nonce of the next one
    /// received.
    pub fn recv_nonce(&self) -> (nonce: u64)
        ensures
            nonce == self@.codec.recv.counter,
    {
        self.codec.recv_nonce()
    }

    /// The number of bytes that have arrived and are not yet a frame.
    pub fn buffered(&self) -> (count: usize)
        ensures
            count == self@.inbound.len(),
    {
        self.inbound.len()
    }

    /// Encodes one frame for the driver to write, and advances the sending
    /// nonce by one. A refusal changes nothing.
    pub fn send(&mut self, command: u8, payload: &Vec<u8>) -> (out: Result<Vec<u8>, CodecError>)
        ensures
            match out {
                Ok(wire) => {
                    &&& payload@.len() <= old(self)@.codec.limit
                    &&& !old(self)@.codec.send.exhausted()
                    &&& wire@ == frame_bytes(old(self)@.codec.send, command, payload@)
                    &&& encodes(old(self)@.codec.send, command, payload@, wire@)
                    &&& final(self)@ == old(self)@.sent()
                },
                Err(error) => {
                    &&& final(self)@ == old(self)@
                    &&& if payload@.len() > old(self)@.codec.limit {
                        error == CodecError::OversizedFrame
                    } else {
                        error == CodecError::NonceExhausted && old(self)@.codec.send.exhausted()
                    }
                },
            },
    {
        self.codec.encode(command, payload)
    }

    /// Takes in bytes that the driver has read, and takes one frame from the
    /// buffer if a whole one is there now. `Ok(None)` asks for more bytes.
    pub fn receive(&mut self, bytes: &Vec<u8>) -> (out: Result<Option<Frame>, CodecError>)
        ensures
            final(self)@ == old(self)@.fed(bytes@),
            match old(self)@.incoming(bytes@) {
                Decoded::Incomplete => out matches Ok(None),
                Decoded::Oversized => out matches Err(CodecError::OversizedFrame),
                Decoded::Exhausted => out matches Err(CodecError::NonceExhausted),
                Decoded::Corrupt { .. } => out matches Err(CodecError::DecryptionFailed),
                Decoded::Frame { frame, consumed } => out matches Ok(Some(taken)) && taken@
                    == frame && taken@.payload.len() == consumed - OVERHEAD,
            },
    {
        append(&mut self.inbound, bytes);
        self.codec.decode(&mut self.inbound)
    }

    /// Takes the end of the stream: one last frame if a whole one is still in
    /// the buffer; `Ok(None)` if the buffer is empty; `Truncated` if it holds
    /// the beginning of a frame.
    pub fn close(&mut self) -> (out: Result<Option<Frame>, CodecError>)
        ensures
            final(self)@ == old(self)@.fed(Seq::empty()),
            match old(self)@.incoming(Seq::empty()) {
                Decoded::Incomplete => if old(self)@.inbound.len() == 0 {
                    out matches Ok(None)
                } else {
                    out matches Err(CodecError::Truncated)
                },
                Decoded::Oversized => out matches Err(CodecError::OversizedFrame),
                Decoded::Exhausted => out matches Err(CodecError::NonceExhausted),
                Decoded::Corrupt { .. } => out matches Err(CodecError::DecryptionFailed),
                Decoded::Frame { frame, consumed } => out matches Ok(Some(taken)) && taken@
                    == frame && taken@.payload.len() == consumed - OVERHEAD,
            },
    {
        assert(self.inbound@ + Seq::<u8>::empty() =~= self.inbound@);
        self.codec.decode_eof(&mut self.inbound)
    }
}

} // verus!
