//! The frame codec. On the wire a frame is a two-byte length, most
//! significant byte first, that counts the payload alone; then the command
//! byte and the payload, encrypted together; then the tag over both.

use vstd::prelude::*;
use crate::cipher::{
    lemma_nonce_sequence, lemma_open_inverts_seal, CipherPair, CipherView,
};
use crate::wire::{append, be16, be16_value, lemma_be16_value, push_be16, range, read_be16};

verus! {

/// Length in bytes of the length prefix.
pub const LENGTH_SIZE: usize = 2;

/// The largest payload that the length prefix can declare.
pub const MAX_PAYLOAD: usize = 65535;

/// What a frame takes on the wire beyond its payload: the length prefix, the
/// command byte and the tag.
pub const OVERHEAD: usize = 7;

/// One protocol message: a command code and its payload.
#[derive(Debug)]
pub struct Frame {
    /// The command code.
    pub command: u8,
    /// The payload, as the peer wrote it.
    pub payload: Vec<u8>,
}

/// A frame as contracts see it.
pub ghost struct FrameView {
    /// The command code.
    pub command: u8,
    /// The payload.
    pub payload: Seq<u8>,
}

impl View for Frame {
    type V = FrameView;

    open spec fn view(&self) -> FrameView {
        FrameView { command: self.command, payload: self.payload@ }
    }
}

/// Why the codec refused to encode or decode. After any of these the
/// connection is of no further use.
#[derive(Clone, Copy, Debug, PartialEq, Eq, Structural)]
pub enum CodecError {
    /// The payload, or the length that a prefix declares, is over the limit.
    OversizedFrame,
    /// The stream ended in the middle of a frame.
    Truncated,
    /// The tag of a frame is not the tag of its content.
    DecryptionFailed,
    /// Every nonce of the direction has been used.
    NonceExhausted,
}

/// The bytes that are sealed for a frame: the command, then the payload.
pub open spec fn frame_content(command: u8, payload: Seq<u8>) -> Seq<u8> {
    seq![command] + payload
}

/// The wire form of a frame under the sender's cipher.
pub open spec fn frame_bytes(cipher: CipherView, command: u8, payload: Seq<u8>) -> Seq<u8> {
    be16(payload.len()) + cipher.sealed(frame_content(command, payload))
}

/// Whether `wire` is a wire form of the frame under `cipher`: the length
/// prefix declares the payload's length, and what follows is a sealed form of
/// command and payload.
pub open spec fn encodes(cipher: CipherView, command: u8, payload: Seq<u8>, wire: Seq<u8>) -> bool {
    &&& payload.len() <= MAX_PAYLOAD
    &&& wire.len() == payload.len() + OVERHEAD
    &&& wire.subrange(0, LENGTH_SIZE as int) == be16(payload.len())
    &&& cipher.seals(
        frame_content(command, payload),
        wire.subrange(LENGTH_SIZE as int, wire.len() as int),
    )
}

/// What the bytes at the head of a receive buffer amount to.
pub ghost enum Decoded {
    /// Not yet a whole frame: more bytes are needed.
    Incomplete,
    /// The length prefix declares more than the limit.
    Oversized,
    /// A whole frame is there, and no nonce is left to open it with.
    Exhausted,
    /// A whole frame of `consumed` bytes whose tag is not that of its content.
    Corrupt { consumed: nat },
    /// A whole frame of `consumed` bytes, opened.
    Frame { frame: FrameView, consumed: nat },
}

/// Reads the head of `buf` as a frame under the receiver's cipher, with
/// payloads of up to `limit` bytes. A declared length over the limit is
/// refused on sight of the prefix, however many bytes follow it.
pub open spec fn decoded(cipher: CipherView, limit: nat, buf: Seq<u8>) -> Decoded {
    if buf.len() < LENGTH_SIZE {
        Decoded::Incomplete
    } else {
        let declared = be16_value(buf);
        let total = (declared + OVERHEAD) as nat;
        if declared > limit {
            Decoded::Oversized
        } else if buf.len() < total {
            Decoded::Incomplete
        } else if cipher.exhausted() {
            Decoded::Exhausted
        } else {
            match cipher.opened(buf.subrange(LENGTH_SIZE as int, total as int)) {
                Some(content) => Decoded::Frame {
                    frame: FrameView { command: content[0], payload: content.skip(1) },
                    consumed: total,
                },
                None => Decoded::Corrupt { consumed: total },
            }
        }
    }
}

/// Decoding inverts encoding: under the cipher state that a frame was encoded
/// with, and with a limit that admits its payload, the wire form decodes to
/// that command and that payload, and takes the whole of the wire form.
pub proof fn lemma_decode_inverts_encode(
    cipher: CipherView,
    limit: nat,
    command: u8,
    payload: Seq<u8>,
    wire: Seq<u8>,
)
    requires
        encodes(cipher, command, payload, wire),
        payload.len() <= limit,
        !cipher.exhausted(),
    ensures
        decoded(cipher, limit, wire) == (Decoded::Frame {
            frame: FrameView { command, payload },
            consumed: wire.len(),
        }),
{
    lemma_be16_value(payload.len());
    let prefix = wire.subrange(0, LENGTH_SIZE as int);
    assert(prefix[0] == wire[0] && prefix[1] == wire[1]);
    assert(be16_value(wire) == payload.len());
    let content = frame_content(command, payload);
    lemma_open_inverts_seal(cipher, content, wire.subrange(LENGTH_SIZE as int, wire.len() as int));
    assert(content[0] == command);
    assert(content.skip(1) =~= payload);
}

/// Bytes that follow a whole frame in the buffer do not change what the head
/// of the buffer decodes to.
pub proof fn lemma_decoded_ignores_rest(cipher: CipherView, limit: nat, wire: Seq<u8>, rest: Seq<u8>)
    requires
        decoded(cipher, limit, wire) is Frame,
    ensures
        decoded(cipher, limit, wire + rest) == decoded(cipher, limit, wire),
{
    let both = wire + rest;
    assert(both[0] == wire[0] && both[1] == wire[1]);
    let total = (be16_value(wire) + OVERHEAD) as nat;
    assert(both.subrange(LENGTH_SIZE as int, total as int) =~= wire.subrange(
        LENGTH_SIZE as int,
        total as int,
    ));
}

/// The codec of one connection: the two ciphers and the payload limit.
pub struct APCodec {
    ciphers: CipherPair,
    limit: u16,
}

/// A codec as contracts see it.
pub ghost struct CodecView {
    /// The cipher that seals outgoing frames.
    pub send: CipherView,
    /// The cipher that opens incoming frames.
    pub recv: CipherView,
    /// The largest payload that is encoded or accepted, at most `MAX_PAYLOAD`.
    pub limit: nat,
}

impl CodecView {
    /// The codec after it has encoded one frame.
    pub open spec fn sent(self) -> CodecView {
        CodecView { send: self.send.advanced(), recv: self.recv, limit: self.limit }
    }

    /// The codec after it has taken one whole frame from its buffer.
    pub open spec fn received(self) -> CodecView {
        CodecView { send: self.send, recv: self.recv.advanced(), limit: self.limit }
    }

    /// The codec after it has encoded `frames` frames.
    pub open spec fn sent_times(self, frames: nat) -> CodecView
        decreases frames,
    {
        if frames == 0 {
            self
        } else {
            self.sent_times((frames - 1) as nat).sent()
        }
    }

    /// The codec after it has taken `frames` whole frames from its buffer.
    pub open spec fn received_times(self, frames: nat) -> CodecView
        decreases frames,
    {
        if frames == 0 {
            self
        } else {
            self.received_times((frames - 1) as nat).received()
        }
    }
}

/// Consecutive sends use consecutive nonces: send `i` of a run is encoded
/// under the sending counter plus `i`, which for a new codec is `i` itself.
/// Sending leaves the receiving direction and the limit alone.
pub proof fn lemma_send_nonces(codec: CodecView, frames: nat)
    ensures
        codec.sent_times(frames).send == codec.send.after(frames),
        codec.sent_times(frames).send.counter == codec.send.counter + frames,
        codec.sent_times(frames).recv == codec.recv,
        codec.sent_times(frames).limit == codec.limit,
    decreases frames,
{
    lemma_nonce_sequence(codec.send, frames);
    if frames > 0 {
        lemma_send_nonces(codec, (frames - 1) as nat);
    }
}

/// Consecutive receives use consecutive nonces: frame `i` of a run is opened
/// under the receiving counter plus `i`, which for a new codec is `i` itself.
/// Receiving leaves the sending direction and the limit alone.
pub proof fn lemma_receive_nonces(codec: CodecView, frames: nat)
    ensures
        codec.received_times(frames).recv == codec.recv.after(frames),
        codec.received_times(frames).recv.counter == codec.recv.counter + frames,
        codec.received_times(frames).send == codec.send,
        codec.received_times(frames).limit == codec.limit,
    decreases frames,
{
    lemma_nonce_sequence(codec.recv, frames);
    if frames > 0 {
        lemma_receive_nonces(codec, (frames - 1) as nat);
    }
}

impl View for APCodec {
    type V = CodecView;

    closed spec fn view(&self) -> CodecView {
        CodecView { send: self.ciphers.send@, recv: self.ciphers.recv@, limit: self.limit as nat }
    }
}

impl APCodec {
    /// A codec under the two keys, with both nonce counters at zero and the
    /// largest limit that the length prefix allows.
    pub fn new(send_key: Vec<u8>, recv_key: Vec<u8>) -> (codec: APCodec)
        ensures
            codec@ == (CodecView {
                send: CipherView::fresh(send_key@),
                recv: CipherView::fresh(recv_key@),
                limit: MAX_PAYLOAD as nat,
            }),
    {
        APCodec { ciphers: CipherPair::new(send_key, recv_key), limit: 65535 }
    }

    /// A codec under the two keys that encodes and accepts payloads of up to
    /// `limit` bytes only.
    pub fn with_limit(send_key: Vec<u8>, recv_key: Vec<u8>, limit: u16) -> (codec: APCodec)
        ensures
            codec@ == (CodecView {
                send: CipherView::fresh(send_key@),
                recv: CipherView::fresh(recv_key@),
                limit: limit as nat,
            }),
    {
        APCodec { ciphers: CipherPair::new(send_key, recv_key), limit }
    }

    /// A codec over the cipher pair of a finished handshake.
    pub fn from_pair(ciphers: CipherPair) -> (codec: APCodec)
        ensures
            codec@ == (CodecView {
                send: ciphers@.send,
                recv: ciphers@.recv,
                limit: MAX_PAYLOAD as nat,
            }),
    {
        APCodec { ciphers, limit: 65535 }
    }

    /// No codec's limit is over what the length prefix can declare.
    pub proof fn lemma_limit_bound(&self)
        ensures
            self@.limit <= MAX_PAYLOAD,
    {
    }

    /// The largest payload that this codec encodes or accepts.
    pub fn limit(&self) -> (limit: usize)
        ensures
            limit == self@.limit,
    {
        self.limit as usize
    }

    /// The number of frames encoded so far: the nonce of the next one sent.
    pub fn send_nonce(&self) -> (nonce: u64)
        ensures
            nonce == self@.send.counter,
    {
        self.ciphers.send.counter()
    }

    /// The number of frames taken from the buffer so far: the nonce of the
    /// next one received.
    pub fn recv_nonce(&self) -> (nonce: u64)
        ensures
            nonce == self@.recv.counter,
    {
        self.ciphers.recv.counter()
    }

    /// Encodes one frame and advances the sending nonce by one. A payload
    /// over the limit is refused, and so is any frame once the sending nonces
    /// are exhausted; a refusal changes nothing. The receiving direction is
    /// never touched.
    pub fn encode(&mut self, command: u8, payload: &Vec<u8>) -> (out: Result<Vec<u8>, CodecError>)
        ensures
            match out {
                Ok(wire) => {
                    &&& payload@.len() <= old(self)@.limit
                    &&& !old(self)@.send.exhausted()
                    &&& wire@ == frame_bytes(old(self)@.send, command, payload@)
                    &&& encodes(old(self)@.send, command, payload@, wire@)
                    &&& decoded(old(self)@.send, old(self)@.limit, wire@) == (Decoded::Frame {
                        frame: FrameView { command, payload: payload@ },
                        consumed: wire@.len(),
                    })
                    &&& final(self)@ == old(self)@.sent()
                },
                Err(error) => {
                    &&& final(self)@ == old(self)@
                    &&& if payload@.len() > old(self)@.limit {
                        error == CodecError::OversizedFrame
                    } else {
                        error == CodecError::NonceExhausted && old(self)@.send.exhausted()
                    }
                },
            },
    {
        if payload.len() > self.limit as usize {
            return Err(CodecError::OversizedFrame);
        }
        let mut content: Vec<u8> = Vec::new();
        content.push(command);
        append(&mut content, payload);
        assert(content@ =~= frame_content(command, payload@));
        let ghost cipher = self.ciphers.send@;
        match self.ciphers.send.seal(&content) {
            None => Err(CodecError::NonceExhausted),
            Some(sealed) => {
                let mut wire: Vec<u8> = Vec::new();
                push_be16(&mut wire, payload.len() as u16);
                append(&mut wire, &sealed);
                proof {
                    assert(wire@ =~= frame_bytes(cipher, command, payload@));
                    assert(wire@.subrange(0, LENGTH_SIZE as int) =~= be16(payload@.len()));
                    assert(wire@.subrange(LENGTH_SIZE as int, wire@.len() as int) =~= sealed@);
                    lemma_decode_inverts_encode(
                        cipher,
                        self.limit as nat,
                        command,
                        payload@,
                        wire@,
                    );
                }
                Ok(wire)
            },
        }
    }

    /// Takes one frame from the head of `buf`, if a whole one is there. What
    /// happens is what `decoded` says of the buffer: with too few bytes
    /// nothing is taken and nothing changes; a declared length over the limit
    /// is refused before any of the payload is looked at; a whole frame is
    /// removed from the buffer and the receiving nonce advances by one,
    /// whether its tag was accepted or not. The sending direction is never
    /// touched.
    pub fn decode(&mut self, buf: &mut Vec<u8>) -> (out: Result<Option<Frame>, CodecError>)
        ensures
            final(self)@.send == old(self)@.send,
            final(self)@.limit == old(self)@.limit,
            match decoded(old(self)@.recv, old(self)@.limit, old(buf)@) {
                Decoded::Incomplete => {
                    &&& out matches Ok(None)
                    &&& final(buf)@ == old(buf)@
                    &&& final(self)@ == old(self)@
                },
                Decoded::Oversized => {
                    &&& out matches Err(CodecError::OversizedFrame)
                    &&& final(buf)@ == old(buf)@
                    &&& final(self)@ == old(self)@
                },
                Decoded::Exhausted => {
                    &&& out matches Err(CodecError::NonceExhausted)
                    &&& final(buf)@ == old(buf)@
                    &&& final(self)@ == old(self)@
                },
                Decoded::Corrupt { consumed } => {
                    &&& out matches Err(CodecError::DecryptionFailed)
                    &&& final(buf)@ == old(buf)@.skip(consumed as int)
                    &&& final(self)@ == old(self)@.received()
                },
                Decoded::Frame { frame, consumed } => {
                    &&& out matches Ok(Some(taken))
                    &&& taken@ == frame
                    &&& taken@.payload.len() == consumed - OVERHEAD
                    &&& final(buf)@ == old(buf)@.skip(consumed as int)
                    &&& final(self)@ == old(self)@.received()
                },
            },
    {
        if buf.len() < LENGTH_SIZE {
            return Ok(None);
        }
        let declared: usize = read_be16(buf, 0) as usize;
        assert(buf@.subrange(0, 2)[0] == buf@[0] && buf@.subrange(0, 2)[1] == buf@[1]);
        if declared > self.limit as usize {
            return Err(CodecError::OversizedFrame);
        }
        let total: usize = declared + OVERHEAD;
        if buf.len() < total {
            return Ok(None);
        }
        if self.ciphers.recv.is_exhausted() {
            return Err(CodecError::NonceExhausted);
        }
        let sealed = range(buf, LENGTH_SIZE, total);
        let rest = range(buf, total, buf.len());
        assert(rest@ =~= buf@.skip(total as int));
        *buf = rest;
        match self.ciphers.recv.open(&sealed) {
            Ok(content) => {
                let command = content[0];
                let payload = range(&content, 1, content.len());
                assert(payload@ =~= content@.skip(1));
                Ok(Some(Frame { command, payload }))
            },
            Err(_) => Err(CodecError::DecryptionFailed),
        }
    }

    /// Takes one frame from the head of `buf` once the stream has ended. As
    /// `decode`, but that bytes which are not yet a whole frame are now a
    /// truncated one; an empty buffer is the clean end of the stream.
    pub fn decode_eof(&mut self, buf: &mut Vec<u8>) -> (out: Result<Option<Frame>, CodecError>)
        ensures
            final(self)@.send == old(self)@.send,
            final(self)@.limit == old(self)@.limit,
            match decoded(old(self)@.recv, old(self)@.limit, old(buf)@) {
                Decoded::Incomplete => {
                    &&& final(buf)@ == old(buf)@
                    &&& final(self)@ == old(self)@
                    &&& if old(buf)@.len() == 0 {
                        out matches Ok(None)
                    } else {
                        out matches Err(CodecError::Truncated)
                    }
                },
                Decoded::Oversized => {
                    &&& out matches Err(CodecError::OversizedFrame)
                    &&& final(buf)@ == old(buf)@
                    &&& final(self)@ == old(self)@
                },
                Decoded::Exhausted => {
                    &&& out matches Err(CodecError::NonceExhausted)
                    &&& final(buf)@ == old(buf)@
                    &&& final(self)@ == old(self)@
                },
                Decoded::Corrupt { consumed } => {
                    &&& out matches Err(CodecError::DecryptionFailed)
                    &&& final(buf)@ == old(buf)@.skip(consumed as int)
                    &&& final(self)@ == old(self)@.received()
                },
                Decoded::Frame { frame, consumed } => {
                    &&& out matches Ok(Some(taken))
                    &&& taken@ == frame
                    &&& taken@.payload.len() == consumed - OVERHEAD
                    &&& final(buf)@ == old(buf)@.skip(consumed as int)
                    &&& final(self)@ == old(self)@.received()
                },
            },
    {
        let pending = buf.len();
        match self.decode(buf) {
            Ok(None) => {
                if pending == 0 {
                    Ok(None)
                } else {
                    Err(CodecError::Truncated)
                }
            },
            other => other,
        }
    }
}

} // verus!
