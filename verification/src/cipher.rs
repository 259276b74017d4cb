//! The per-direction stream cipher: a key and a counter of the frames it has
//! sealed or opened. The counter is the nonce of the next frame; it starts at
//! zero, grows by one with every frame and is never used twice.

use shannon::Shannon;
use vstd::prelude::*;
use crate::wire::{append, range};

verus! {

/// Length in bytes of the authentication tag that closes every sealed message.
pub const MAC_SIZE: usize = 4;

/// Number of nonces that one cipher has: the counter stops here.
pub const NONCE_LIMIT: u64 = 0x1_0000_0000;

/// What `Shannon::encrypt` leaves in the buffer: the ciphertext of `plain`
/// under `key`, after the nonce was set to `nonce`.
pub uninterp spec fn shannon_encrypt(key: Seq<u8>, nonce: u32, plain: Seq<u8>) -> Seq<u8>;

/// What `Shannon::decrypt` leaves in the buffer: the plaintext of `body`
/// under `key`, after the nonce was set to `nonce`.
pub uninterp spec fn shannon_decrypt(key: Seq<u8>, nonce: u32, body: Seq<u8>) -> Seq<u8>;

/// What `Shannon::finish` writes into a buffer of `len` bytes, once the cipher
/// has taken in `plain` under `key` and `nonce`: the authentication tag.
pub uninterp spec fn shannon_mac(key: Seq<u8>, nonce: u32, plain: Seq<u8>, len: nat) -> Seq<u8>;

/// Calls `Shannon::new`, `Shannon::nonce_u32`, `Shannon::encrypt` and
/// `Shannon::finish` of the `shannon` crate, in this order, on a copy of
/// `plain`. The ciphertext and the tag are named, not computed here; what is
/// claimed beyond the names is that the ciphertext is as long as the
/// plaintext, that the tag fills the buffer it was given, and that decrypting
/// the ciphertext under the same key and nonce gives the plaintext back.
#[verifier::external_body]
fn shannon_seal(key: &Vec<u8>, nonce: u32, plain: &Vec<u8>, tag_len: usize) -> (out: (
    Vec<u8>,
    Vec<u8>,
))
    ensures
        out.0@ == shannon_encrypt(key@, nonce, plain@),
        out.0@.len() == plain@.len(),
        shannon_decrypt(key@, nonce, out.0@) == plain@,
        out.1@ == shannon_mac(key@, nonce, plain@, tag_len as nat),
        out.1@.len() == tag_len,
{
    let mut cipher = Shannon::new(key);
    cipher.nonce_u32(nonce);
    let mut body = plain.clone();
    cipher.encrypt(&mut body);
    let mut tag = vec![0u8; tag_len];
    cipher.finish(&mut tag);
    (body, tag)
}

/// Calls `Shannon::new`, `Shannon::nonce_u32`, `Shannon::decrypt` and
/// `Shannon::check_mac` of the `shannon` crate, in this order, on a copy of
/// `body`. The plaintext is named; `check_mac` computes the tag of that
/// plaintext, as long as `tag`, and accepts exactly when the two are equal.
/// The plaintext is as long as the ciphertext.
#[verifier::external_body]
fn shannon_open(key: &Vec<u8>, nonce: u32, body: &Vec<u8>, tag: &Vec<u8>) -> (out: Option<Vec<u8>>)
    ensures
        out is Some <==> tag@ == shannon_mac(
            key@,
            nonce,
            shannon_decrypt(key@, nonce, body@),
            tag@.len(),
        ),
        out matches Some(plain) ==> plain@ == shannon_decrypt(key@, nonce, body@) && plain@.len()
            == body@.len(),
{
    let mut cipher = Shannon::new(key);
    cipher.nonce_u32(nonce);
    let mut plain = body.clone();
    cipher.decrypt(&mut plain);
    match cipher.check_mac(tag) {
        Ok(()) => Some(plain),
        Err(_) => None,
    }
}

/// One direction's cipher as contracts see it.
pub ghost struct CipherView {
    /// The key that the handshake derived for this direction.
    pub key: Seq<u8>,
    /// How many frames this cipher has taken: the nonce of the next one.
    pub counter: nat,
}

impl CipherView {
    /// A cipher that has taken no frame yet.
    pub open spec fn fresh(key: Seq<u8>) -> CipherView {
        CipherView { key, counter: 0 }
    }

    /// Whether every nonce has been used.
    pub open spec fn exhausted(self) -> bool {
        self.counter >= NONCE_LIMIT
    }

    /// The nonce that the next frame is sealed or opened with.
    pub open spec fn nonce(self) -> u32 {
        self.counter as u32
    }

    /// The cipher after it has taken one frame.
    pub open spec fn advanced(self) -> CipherView {
        CipherView { key: self.key, counter: self.counter + 1 }
    }

    /// The cipher after it has taken `frames` frames.
    pub open spec fn after(self, frames: nat) -> CipherView
        decreases frames,
    {
        if frames == 0 {
            self
        } else {
            self.after((frames - 1) as nat).advanced()
        }
    }

    /// The nonces under which the next `frames` frames are taken, in order.
    pub open spec fn nonces(self, frames: nat) -> Seq<nat>
        decreases frames,
    {
        if frames == 0 {
            Seq::empty()
        } else {
            self.nonces((frames - 1) as nat).push(self.after((frames - 1) as nat).counter)
        }
    }

    /// The sealed form of `plain` under the next nonce: ciphertext, then tag.
    pub open spec fn sealed(self, plain: Seq<u8>) -> Seq<u8> {
        shannon_encrypt(self.key, self.nonce(), plain) + shannon_mac(
            self.key,
            self.nonce(),
            plain,
            MAC_SIZE as nat,
        )
    }

    /// What `sealed` opens to under the next nonce: the plaintext, where the
    /// tag at its end is the tag of that plaintext; nothing otherwise.
    pub open spec fn opened(self, sealed: Seq<u8>) -> Option<Seq<u8>> {
        if sealed.len() < MAC_SIZE {
            None
        } else {
            let body = sealed.subrange(0, sealed.len() - MAC_SIZE);
            let tag = sealed.subrange(sealed.len() - MAC_SIZE, sealed.len() as int);
            let plain = shannon_decrypt(self.key, self.nonce(), body);
            if tag == shannon_mac(self.key, self.nonce(), plain, MAC_SIZE as nat) {
                Some(plain)
            } else {
                None
            }
        }
    }

    /// Whether `sealed` is a sealed form of `plain` under the next nonce: as
    /// long as `plain` and a tag, decrypting to `plain`, and closed by the tag
    /// of `plain`.
    pub open spec fn seals(self, plain: Seq<u8>, sealed: Seq<u8>) -> bool {
        &&& sealed.len() == plain.len() + MAC_SIZE
        &&& shannon_decrypt(self.key, self.nonce(), sealed.subrange(0, plain.len() as int))
            == plain
        &&& sealed.subrange(plain.len() as int, sealed.len() as int) == shannon_mac(
            self.key,
            self.nonce(),
            plain,
            MAC_SIZE as nat,
        )
    }
}

/// Why a cipher did not open a sealed message.
#[derive(Clone, Copy, Debug, PartialEq, Eq, Structural)]
pub enum CipherError {
    /// Every nonce of this cipher has been used.
    Exhausted,
    /// The tag is not the tag of the plaintext.
    Rejected,
}

/// One direction's cipher: the key and the nonce of the next frame.
pub struct Cipher {
    key: Vec<u8>,
    next: Option<u32>,
}

impl View for Cipher {
    type V = CipherView;

    closed spec fn view(&self) -> CipherView {
        CipherView {
            key: self.key@,
            counter: match self.next {
                Some(n) => n as nat,
                None => NONCE_LIMIT as nat,
            },
        }
    }
}

impl Cipher {
    /// A cipher under `key` whose first nonce is zero.
    pub fn new(key: Vec<u8>) -> (cipher: Cipher)
        ensures
            cipher@ == CipherView::fresh(key@),
    {
        Cipher { key, next: Some(0) }
    }

    /// Every cipher's counter stays within its nonces.
    pub proof fn lemma_counter_bound(&self)
        ensures
            self@.counter <= NONCE_LIMIT,
    {
    }

    /// Whether every nonce has been used, so that nothing more can be sealed
    /// or opened.
    pub fn is_exhausted(&self) -> (exhausted: bool)
        ensures
            exhausted == self@.exhausted(),
    {
        self.next.is_none()
    }

    /// The number of frames taken so far, which is the nonce of the next.
    pub fn counter(&self) -> (counter: u64)
        ensures
            counter == self@.counter,
    {
        match self.next {
            Some(n) => n as u64,
            None => NONCE_LIMIT,
        }
    }

    fn advance(&mut self, nonce: u32)
        requires
            old(self).next == Some(nonce),
        ensures
            final(self)@ == old(self)@.advanced(),
    {
        if nonce == u32::MAX {
            self.next = None;
        } else {
            self.next = Some(nonce + 1);
        }
    }

    /// Seals `plain` under the next nonce and advances the counter. Fails,
    /// leaving the cipher as it was, exactly when the nonces are exhausted.
    pub fn seal(&mut self, plain: &Vec<u8>) -> (out: Option<Vec<u8>>)
        ensures
            out is None <==> old(self)@.exhausted(),
            out is None ==> final(self)@ == old(self)@,
            out matches Some(sealed) ==> {
                &&& sealed@ == old(self)@.sealed(plain@)
                &&& old(self)@.seals(plain@, sealed@)
                &&& final(self)@ == old(self)@.advanced()
            },
    {
        match self.next {
            None => None,
            Some(nonce) => {
                let (body, tag) = shannon_seal(&self.key, nonce, plain, MAC_SIZE);
                let mut sealed = body;
                append(&mut sealed, &tag);
                proof {
                    assert(sealed@.subrange(0, plain@.len() as int) =~= body@);
                    assert(sealed@.subrange(plain@.len() as int, sealed@.len() as int) =~= tag@);
                }
                self.advance(nonce);
                Some(sealed)
            },
        }
    }

    /// Opens `sealed` under the next nonce. Unless the nonces are exhausted
    /// the counter advances, whether the tag was accepted or not.
    pub fn open(&mut self, sealed: &Vec<u8>) -> (out: Result<Vec<u8>, CipherError>)
        ensures
            old(self)@.exhausted() ==> out == Err::<Vec<u8>, CipherError>(CipherError::Exhausted)
                && final(self)@ == old(self)@,
            !old(self)@.exhausted() ==> final(self)@ == old(self)@.advanced() && match out {
                Ok(plain) => old(self)@.opened(sealed@) == Some(plain@) && plain@.len()
                    == sealed@.len() - MAC_SIZE,
                Err(error) => error == CipherError::Rejected && old(self)@.opened(sealed@)
                    is None,
            },
    {
        match self.next {
            None => Err(CipherError::Exhausted),
            Some(nonce) => {
                self.advance(nonce);
                if sealed.len() < MAC_SIZE {
                    return Err(CipherError::Rejected);
                }
                let split: usize = sealed.len() - MAC_SIZE;
                let body = range(sealed, 0, split);
                let tag = range(sealed, split, sealed.len());
                match shannon_open(&self.key, nonce, &body, &tag) {
                    Some(plain) => Ok(plain),
                    None => Err(CipherError::Rejected),
                }
            },
        }
    }
}

/// A sealed form of a message opens to that message, under the same key and
/// nonce.
pub proof fn lemma_open_inverts_seal(cipher: CipherView, plain: Seq<u8>, sealed: Seq<u8>)
    requires
        cipher.seals(plain, sealed),
    ensures
        cipher.opened(sealed) == Some(plain),
{
    assert(sealed.len() - MAC_SIZE == plain.len());
}

/// The nonces of consecutive frames count up from the cipher's counter, one
/// by one: frame `i` of a run is taken under the counter plus `i`, so that a
/// cipher that has taken no frame yet takes its frames under 0, 1, 2 and so
/// on. No nonce comes twice, and the key stays.
pub proof fn lemma_nonce_sequence(cipher: CipherView, frames: nat)
    ensures
        cipher.after(frames).counter == cipher.counter + frames,
        cipher.after(frames).key == cipher.key,
        cipher.nonces(frames).len() == frames,
        forall|i: int| 0 <= i < frames ==> #[trigger] cipher.nonces(frames)[i] == cipher.counter + i,
        cipher.nonces(frames).no_duplicates(),
    decreases frames,
{
    if frames > 0 {
        lemma_nonce_sequence(cipher, (frames - 1) as nat);
    }
}

/// The two ciphers of one connection, one for each direction.
pub struct CipherPair {
    /// Seals what this side sends.
    pub send: Cipher,
    /// Opens what this side receives.
    pub recv: Cipher,
}

/// A cipher pair as contracts see it.
pub ghost struct CipherPairView {
    /// The cipher of the sending direction.
    pub send: CipherView,
    /// The cipher of the receiving direction.
    pub recv: CipherView,
}

impl View for CipherPair {
    type V = CipherPairView;

    open spec fn view(&self) -> CipherPairView {
        CipherPairView { send: self.send@, recv: self.recv@ }
    }
}

impl CipherPair {
    /// Two ciphers that have taken no frame yet, one under each key.
    pub fn new(send_key: Vec<u8>, recv_key: Vec<u8>) -> (pair: CipherPair)
        ensures
            pair@.send == CipherView::fresh(send_key@),
            pair@.recv == CipherView::fresh(recv_key@),
    {
        CipherPair { send: Cipher::new(send_key), recv: Cipher::new(recv_key) }
    }
}

} // verus!
