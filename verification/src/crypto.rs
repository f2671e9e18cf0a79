//! Cryptography handling using libsodium secretbox
//!
//! Authenticated encryption of messages, with one nonce per message and direction.
use vstd::prelude::*;

use crate::error::{result_view, Error, ErrorView};
use crate::wire::{le_value, lemma_value_bounds, pow256, ByteOrder};

verus! {

/// Number of bytes in a key
pub const KEYBYTES: usize = 32;

/// Number of bytes in a nonce
pub const NONCEBYTES: usize = 24;

/// Number of bytes by which a ciphertext is longer than its plaintext
pub const MACBYTES: usize = 16;

/// The ciphertext that `secretbox::seal` makes of a plaintext under a nonce and a key.
pub uninterp spec fn sealed(plaintext: Seq<u8>, nonce: Seq<u8>, key: Seq<u8>) -> Seq<u8>;

/// The plaintext that `secretbox::open` finds in a ciphertext under a nonce and a key, or `None`
/// where the ciphertext fails verification.
pub uninterp spec fn opened(ciphertext: Seq<u8>, nonce: Seq<u8>, key: Seq<u8>) -> Option<Seq<u8>>;

/// Calls `sodiumoxide::init`, which prepares the sodium library, and tells whether it
/// succeeded. Whether it does depends on the machine, so nothing is claimed of it.
#[verifier::external_body]
pub(crate) fn sodium_init() -> (ready: bool)
{
    sodiumoxide::init().is_ok()
}

/// Calls `sodiumoxide::crypto::secretbox::gen_key`, which draws a key at random. Claimed is
/// only its length: 32 bytes.
#[verifier::external_body]
fn sodium_gen_key() -> (key: Vec<u8>)
    ensures
        key@.len() == KEYBYTES,
{
    sodiumoxide::crypto::secretbox::gen_key().0.to_vec()
}

/// Calls `sodiumoxide::crypto::secretbox::seal`. Claimed is that the ciphertext depends on the
/// plaintext, the nonce and the key alone, that it is 16 bytes longer than the plaintext, and
/// that `open` with the same nonce and key finds the plaintext in it again. The call allocates
/// the ciphertext in one piece, so its length has to stay within the largest allocation.
#[verifier::external_body]
fn sodium_seal(plaintext: &[u8], nonce: &[u8; 24], key: &[u8; 32]) -> (ciphertext: Vec<u8>)
    requires
        plaintext@.len() + MACBYTES <= isize::MAX,
    ensures
        ciphertext@ == sealed(plaintext@, nonce@, key@),
        ciphertext@.len() == plaintext@.len() + MACBYTES,
        opened(ciphertext@, nonce@, key@) == Some(plaintext@),
{
    let nonce = sodiumoxide::crypto::secretbox::Nonce(*nonce);
    let key = sodiumoxide::crypto::secretbox::Key(*key);
    sodiumoxide::crypto::secretbox::seal(plaintext, &nonce, &key)
}

/// Calls `sodiumoxide::crypto::secretbox::open`. Claimed is that what it returns depends on the
/// ciphertext, the nonce and the key alone, that a ciphertext shorter than the 16 bytes of its
/// tag fails verification, and that a plaintext is 16 bytes shorter than its ciphertext.
#[verifier::external_body]
fn sodium_open(ciphertext: &[u8], nonce: &[u8; 24], key: &[u8; 32]) -> (plaintext: Option<Vec<u8>>)
    ensures
        match plaintext {
            Some(p) => opened(ciphertext@, nonce@, key@) == Some(p@),
            None => opened(ciphertext@, nonce@, key@) is None,
        },
        ciphertext@.len() < MACBYTES ==> plaintext is None,
        plaintext matches Some(p) ==> p@.len() + MACBYTES == ciphertext@.len(),
{
    let nonce = sodiumoxide::crypto::secretbox::Nonce(*nonce);
    let key = sodiumoxide::crypto::secretbox::Key(*key);
    sodiumoxide::crypto::secretbox::open(ciphertext, &nonce, &key).ok()
}

/// Cryptographic handler for the ET protocol
///
/// Holds the shared key and the nonce of one direction (client to server, or server to client).
/// The nonce advances after every message, sealed or opened.
pub struct CryptoHandler {
    key: [u8; 32],
    nonce: [u8; 24],
}

/// The state of a [`CryptoHandler`].
pub struct CryptoView {
    /// The shared secret key
    pub key: Seq<u8>,
    /// The nonce of the next message
    pub nonce: Seq<u8>,
}

impl View for CryptoHandler {
    type V = CryptoView;

    closed spec fn view(&self) -> CryptoView {
        CryptoView { key: self.key@, nonce: self.nonce@ }
    }
}

/// The nonce before the first message: zeros, with `msb` in the last place.
pub open spec fn initial_nonce(msb: u8) -> Seq<u8> {
    Seq::new(NONCEBYTES as nat, |i: int| if i == NONCEBYTES - 1 { msb } else { 0u8 })
}

/// The nonce after `nonce`: its bytes, least significant first, as a number one larger. A byte
/// that overflows becomes zero and carries into the next.
pub open spec fn next_nonce(nonce: Seq<u8>) -> Seq<u8>
    decreases nonce.len(),
{
    if nonce.len() == 0 {
        nonce
    } else if nonce[0] == 255 {
        seq![0u8] + next_nonce(nonce.skip(1))
    } else {
        nonce.update(0, (nonce[0] + 1) as u8)
    }
}

/// The nonce that comes `count` messages after `nonce`.
pub open spec fn nonce_after(nonce: Seq<u8>, count: nat) -> Seq<u8>
    decreases count,
{
    if count == 0 {
        nonce
    } else {
        next_nonce(nonce_after(nonce, (count - 1) as nat))
    }
}

impl CryptoView {
    /// The state once one more message has been sealed or opened.
    pub open spec fn advanced(self) -> CryptoView {
        CryptoView { key: self.key, nonce: next_nonce(self.nonce) }
    }

    /// The state after `count` more messages.
    pub open spec fn advanced_by(self, count: nat) -> CryptoView {
        CryptoView { key: self.key, nonce: nonce_after(self.nonce, count) }
    }

    /// What the next message becomes when it is sealed.
    pub open spec fn seal_next(self, plaintext: Seq<u8>) -> Seq<u8> {
        sealed(plaintext, self.nonce, self.key)
    }

    /// Whether what the next message becomes when it is sealed opens to the message again, and is
    /// as much longer as it should be. This holds of every message that was sealed.
    pub open spec fn seals(self, plaintext: Seq<u8>) -> bool {
        &&& self.open_next(self.seal_next(plaintext)) == Some(plaintext)
        &&& self.seal_next(plaintext).len() == plaintext.len() + MACBYTES
    }

    /// The state after some messages were sealed one after the other, and what they became.
    pub open spec fn sealed_in_turn(self, messages: Seq<Seq<u8>>) -> (CryptoView, Seq<Seq<u8>>)
        decreases messages.len(),
    {
        if messages.len() == 0 {
            (self, Seq::empty())
        } else {
            let (state, before) = self.sealed_in_turn(messages.drop_last());
            (state.advanced(), before.push(state.seal_next(messages.last())))
        }
    }

    /// The state after some messages were opened one after the other, and what each yielded.
    pub open spec fn opened_in_turn(self, ciphertexts: Seq<Seq<u8>>) -> (
        CryptoView,
        Seq<Option<Seq<u8>>>,
    )
        decreases ciphertexts.len(),
    {
        if ciphertexts.len() == 0 {
            (self, Seq::empty())
        } else {
            let (state, before) = self.opened_in_turn(ciphertexts.drop_last());
            (state.advanced(), before.push(state.open_next(ciphertexts.last())))
        }
    }

    /// What opening the next message yields.
    pub open spec fn open_next(self, ciphertext: Seq<u8>) -> Option<Seq<u8>> {
        opened(ciphertext, self.nonce, self.key)
    }
}

/// What making a handler results in, given whether the sodium library is ready.
pub open spec fn handler_for(ready: bool, key: Seq<u8>, nonce_msb: u8) -> Result<
    CryptoView,
    ErrorView,
> {
    if !ready {
        Err(ErrorView::Crypto("Failed to initialize sodiumoxide"@))
    } else if key.len() != KEYBYTES {
        Err(ErrorView::InvalidKeyLength { expected: KEYBYTES, got: key.len() as usize })
    } else {
        Ok(CryptoView { key, nonce: initial_nonce(nonce_msb) })
    }
}

impl CryptoHandler {
    /// Creates a new CryptoHandler with the given key and nonce MSB.
    ///
    /// # Arguments
    /// * `key` - Exactly 32 bytes of shared key material
    /// * `nonce_msb` - Most significant byte used to distinguish client/server streams
    ///
    /// # Errors
    /// Returns an error if the key length is not exactly 32 bytes, or if the sodium library
    /// cannot be initialized.
    pub fn new(key: &[u8], nonce_msb: u8) -> (r: Result<CryptoHandler, Error>)
        ensures
            exists|ready: bool| result_view(r) == #[trigger] handler_for(ready, key@, nonce_msb),
    {
        let ready = sodium_init();
        CryptoHandler::with_sodium(ready, key, nonce_msb)
    }

    /// Creates a handler once `sodiumoxide::init` has been called; `ready` is whether it
    /// succeeded.
    pub fn with_sodium(ready: bool, key: &[u8], nonce_msb: u8) -> (r: Result<CryptoHandler, Error>)
        ensures
            result_view(r) == handler_for(ready, key@, nonce_msb),
    {
        if !ready {
            return Err(Error::Crypto("Failed to initialize sodiumoxide".to_owned()));
        }
        if key.len() != KEYBYTES {
            return Err(Error::InvalidKeyLength { expected: KEYBYTES, got: key.len() });
        }
        let mut key_bytes: [u8; 32] = [0; 32];
        let mut i: usize = 0;
        while i < 32
            invariant
                i <= 32,
                key@.len() == 32,
                key_bytes@.len() == 32,
                forall|j: int| 0 <= j < i ==> key_bytes@[j] == key@[j],
            decreases 32 - i,
        {
            key_bytes[i] = key[i];
            i = i + 1;
        }
        let mut nonce: [u8; 24] = [0; 24];
        nonce[23] = nonce_msb;
        assert(key_bytes@ =~= key@);
        assert(nonce@ =~= initial_nonce(nonce_msb));
        Ok(CryptoHandler { key: key_bytes, nonce })
    }

    /// Generates a random key suitable for use with CryptoHandler
    pub fn generate_key() -> (r: Vec<u8>)
        ensures
            r@.len() == KEYBYTES,
    {
        let _ = sodium_init();
        sodium_gen_key()
    }

    /// Encrypts a plaintext buffer.
    ///
    /// Advances the nonce after encryption to ensure unique nonces for each message.
    ///
    /// # Returns
    /// The ciphertext including the MAC (authentication tag)
    pub fn encrypt(&mut self, plaintext: &[u8]) -> (r: Vec<u8>)
        requires
            plaintext@.len() + MACBYTES <= isize::MAX,
        ensures
            r@ == old(self)@.seal_next(plaintext@),
            old(self)@.seals(plaintext@),
            final(self)@ == old(self)@.advanced(),
    {
        let ciphertext = sodium_seal(plaintext, &self.nonce, &self.key);
        self.increment_nonce();
        ciphertext
    }

    /// Decrypts a ciphertext buffer.
    ///
    /// Advances the nonce after decryption, successful or not, to stay synchronized with the
    /// sender.
    ///
    /// # Errors
    /// Returns an error if decryption fails (authentication failure or key mismatch)
    pub fn decrypt(&mut self, ciphertext: &[u8]) -> (r: Result<Vec<u8>, Error>)
        ensures
            final(self)@ == old(self)@.advanced(),
            result_view(r) == (match old(self)@.open_next(ciphertext@) {
                Some(plaintext) => Ok::<Seq<u8>, ErrorView>(plaintext),
                None => Err(ErrorView::DecryptionFailed),
            }),
            r matches Ok(plaintext) ==> plaintext@.len() + MACBYTES == ciphertext@.len(),
    {
        let outcome = sodium_open(ciphertext, &self.nonce, &self.key);
        self.increment_nonce();
        match outcome {
            Some(plaintext) => Ok(plaintext),
            None => Err(Error::DecryptionFailed),
        }
    }

    /// Returns the MAC size added to each encrypted message
    pub fn mac_bytes() -> (r: usize)
        ensures
            r == MACBYTES,
    {
        MACBYTES
    }

    /// Returns the required key size
    pub fn key_bytes() -> (r: usize)
        ensures
            r == KEYBYTES,
    {
        KEYBYTES
    }

    /// Increments the nonce to guarantee unique per-message secretbox input.
    ///
    /// Uses little-endian increment with carry propagation.
    fn increment_nonce(&mut self)
        ensures
            final(self)@ == old(self)@.advanced(),
    {
        let ghost before = self.nonce@;
        let mut i: usize = 0;
        assert(before.skip(0) =~= before);
        while i < 24 && self.nonce[i] == 255
            invariant
                i <= 24,
                before.len() == 24,
                before == old(self).nonce@,
                self.key == old(self).key,
                self.nonce@ == Seq::new(i as nat, |j: int| 0u8) + before.skip(i as int),
                next_nonce(before) == Seq::new(i as nat, |j: int| 0u8) + next_nonce(
                    before.skip(i as int),
                ),
            decreases 24 - i,
        {
            let ghost rest = before.skip(i as int);
            assert(self.nonce@[i as int] == rest[0]);
            self.nonce[i] = 0;
            assert(rest.skip(1) =~= before.skip(i + 1));
            assert(self.nonce@ =~= Seq::new((i + 1) as nat, |j: int| 0u8) + before.skip(i + 1));
            assert(Seq::new(i as nat, |j: int| 0u8) + (seq![0u8] + next_nonce(rest.skip(1)))
                =~= Seq::new((i + 1) as nat, |j: int| 0u8) + next_nonce(before.skip(i + 1)));
            i = i + 1;
        }
        if i < 24 {
            let ghost rest = before.skip(i as int);
            let b: u8 = self.nonce[i];
            assert(b == rest[0]);
            self.nonce[i] = b + 1;
            assert(self.nonce@ =~= Seq::new(i as nat, |j: int| 0u8) + rest.update(
                0,
                (rest[0] + 1) as u8,
            ));
        } else {
            assert(before.skip(24) =~= Seq::<u8>::empty());
            assert(self.nonce@ =~= next_nonce(before));
        }
    }
}

proof fn lemma_next_nonce(nonce: Seq<u8>)
    ensures
        next_nonce(nonce).len() == nonce.len(),
        le_value(next_nonce(nonce)) == if le_value(nonce) + 1 < pow256(nonce.len()) {
            le_value(nonce) + 1
        } else {
            0
        },
    decreases nonce.len(),
{
    lemma_value_bounds(nonce, ByteOrder::Little);
    if nonce.len() > 0 {
        lemma_next_nonce(nonce.skip(1));
        lemma_value_bounds(nonce.skip(1), ByteOrder::Little);
        if nonce[0] == 255 {
            assert(next_nonce(nonce).skip(1) =~= next_nonce(nonce.skip(1)));
        } else {
            assert(next_nonce(nonce).skip(1) =~= nonce.skip(1));
        }
    }
}

/// Messages that are sealed one after the other open one after the other, at an end with the same
/// key and nonce: each yields what was sealed, each was longer by the tag, and both ends then
/// stand at the same next message.
pub proof fn law_messages_open_in_turn(crypto: CryptoView, messages: Seq<Seq<u8>>)
    requires
        forall|i: int|
            0 <= i < messages.len() ==> (#[trigger] crypto.advanced_by(i as nat)).seals(
                messages[i],
            ),
    ensures
        ({
            let (sealing, ciphertexts) = crypto.sealed_in_turn(messages);
            let (opening, opened) = crypto.opened_in_turn(ciphertexts);
            &&& sealing == crypto.advanced_by(messages.len())
            &&& opening == sealing
            &&& ciphertexts.len() == messages.len()
            &&& opened == Seq::new(messages.len(), |i: int| Some(messages[i]))
            &&& forall|i: int|
                0 <= i < messages.len() ==> (#[trigger] ciphertexts[i]).len() == messages[i].len()
                    + MACBYTES
        }),
    decreases messages.len(),
{
    if messages.len() > 0 {
        let before = messages.drop_last();
        assert forall|i: int| 0 <= i < before.len() implies (#[trigger] crypto.advanced_by(
            i as nat,
        )).seals(before[i]) by {
            assert(before[i] == messages[i]);
        }
        law_messages_open_in_turn(crypto, before);
        let (state, earlier) = crypto.sealed_in_turn(before);
        let (_, ciphertexts) = crypto.sealed_in_turn(messages);
        assert(ciphertexts.drop_last() =~= earlier);
        assert(crypto.advanced_by((messages.len() - 1) as nat).seals(messages[messages.len() - 1]));
        assert(crypto.opened_in_turn(ciphertexts).1 =~= Seq::new(
            messages.len(),
            |i: int| Some(messages[i]),
        ));
    } else {
        assert(crypto.opened_in_turn(crypto.sealed_in_turn(messages).1).1 =~= Seq::new(
            messages.len(),
            |i: int| Some(messages[i]),
        ));
    }
}

/// A nonce counts messages: read as a number, least significant byte first, it grows by one with
/// each message and starts again at zero only when every byte has overflowed.
pub proof fn law_nonce_counts(nonce: Seq<u8>, count: nat)
    requires
        le_value(nonce) + count < pow256(nonce.len()),
    ensures
        nonce_after(nonce, count).len() == nonce.len(),
        le_value(nonce_after(nonce, count)) == le_value(nonce) + count,
    decreases count,
{
    if count > 0 {
        law_nonce_counts(nonce, (count - 1) as nat);
        lemma_next_nonce(nonce_after(nonce, (count - 1) as nat));
    }
}

proof fn lemma_nonce_count_wraps(nonce: Seq<u8>, count: nat)
    ensures
        nonce_after(nonce, count).len() == nonce.len(),
        exists|turns: nat|
            le_value(nonce_after(nonce, count)) + #[trigger] (turns * pow256(nonce.len()))
                == le_value(nonce) + count,
    decreases count,
{
    let m = pow256(nonce.len());
    if count == 0 {
        assert(le_value(nonce_after(nonce, count)) + 0 * m == le_value(nonce) + count);
    } else {
        lemma_nonce_count_wraps(nonce, (count - 1) as nat);
        let before = nonce_after(nonce, (count - 1) as nat);
        let turns = choose|turns: nat|
            le_value(before) + #[trigger] (turns * m) == le_value(nonce) + count - 1;
        lemma_value_bounds(before, ByteOrder::Little);
        lemma_next_nonce(before);
        if le_value(before) + 1 < m {
            assert(le_value(nonce_after(nonce, count)) + turns * m == le_value(nonce) + count);
        } else {
            assert((turns + 1) * m == turns * m + m) by (nonlinear_arith);
            assert(le_value(nonce_after(nonce, count)) + (turns + 1) * m == le_value(nonce)
                + count);
        }
    }
}

/// No two messages of one direction share a nonce, unless as many messages lie between them as
/// there are nonces.
pub proof fn law_nonces_are_unique(nonce: Seq<u8>, i: nat, j: nat)
    requires
        i < j,
        j - i < pow256(nonce.len()),
    ensures
        nonce_after(nonce, i) != nonce_after(nonce, j),
{
    let m = pow256(nonce.len());
    lemma_nonce_count_wraps(nonce, i);
    lemma_nonce_count_wraps(nonce, j);
    let a = choose|turns: nat|
        le_value(nonce_after(nonce, i)) + #[trigger] (turns * m) == le_value(nonce) + i;
    let b = choose|turns: nat|
        le_value(nonce_after(nonce, j)) + #[trigger] (turns * m) == le_value(nonce) + j;
    if nonce_after(nonce, i) == nonce_after(nonce, j) {
        assert(b * m - a * m == j - i);
        assert((b - a) * m == b * m - a * m) by (nonlinear_arith);
        assert(false) by (nonlinear_arith)
            requires
                (b - a) * m == j - i,
                0 < j - i < m,
        ;
    }
}

proof fn lemma_trailing_byte(s: Seq<u8>)
    requires
        s.len() > 0,
        forall|i: int| 0 <= i < s.len() - 1 ==> s[i] == 0,
    ensures
        le_value(s) == s.last() * pow256((s.len() - 1) as nat),
    decreases s.len(),
{
    if s.len() > 1 {
        let rest = s.skip(1);
        lemma_trailing_byte(rest);
        let p = pow256((rest.len() - 1) as nat);
        assert(rest.last() == s.last());
        let q = pow256((s.len() - 1) as nat);
        let top = s.last() as int;
        assert(256 * (top * p) == top * q) by (nonlinear_arith)
            requires
                q == 256 * p,
        ;
    } else {
        assert(s.skip(1) =~= Seq::<u8>::empty());
        assert(le_value(s.skip(1)) == 0);
        let one = pow256((s.len() - 1) as nat);
        assert(s.last() * one == s.last()) by (nonlinear_arith)
            requires
                one == 1,
        ;
    }
}

/// The two directions of a connection, told apart by the last byte of their first nonce, share
/// no nonce while neither has sent so many messages that its count reaches that byte.
pub proof fn law_directions_share_no_nonce(msb_a: u8, msb_b: u8, i: nat, j: nat)
    requires
        msb_a != msb_b,
        i < pow256((NONCEBYTES - 1) as nat),
        j < pow256((NONCEBYTES - 1) as nat),
    ensures
        nonce_after(initial_nonce(msb_a), i) != nonce_after(initial_nonce(msb_b), j),
{
    let p = pow256((NONCEBYTES - 1) as nat);
    let a = initial_nonce(msb_a);
    let b = initial_nonce(msb_b);
    lemma_trailing_byte(a);
    lemma_trailing_byte(b);
    assert(pow256(NONCEBYTES as nat) == 256 * p);
    assert(msb_a * p + i < 256 * p) by (nonlinear_arith)
        requires
            msb_a <= 255,
            i < p,
    ;
    assert(msb_b * p + j < 256 * p) by (nonlinear_arith)
        requires
            msb_b <= 255,
            j < p,
    ;
    law_nonce_counts(a, i);
    law_nonce_counts(b, j);
    assert(msb_a * p + i != msb_b * p + j) by (nonlinear_arith)
        requires
            msb_a != msb_b,
            i < p,
            j < p,
    ;
}

/// A handler is made of a key of 32 bytes where the sodium library is ready: it keeps the key, and
/// its first nonce is zeros with the given byte in the last place. A key of another length is
/// refused with both lengths.
pub proof fn law_handler_needs_a_proper_key(ready: bool, key: Seq<u8>, nonce_msb: u8)
    requires
        key.len() <= usize::MAX,
    ensures
        handler_for(ready, key, nonce_msb) is Ok <==> ready && key.len() == 32,
        handler_for(ready, key, nonce_msb) matches Ok(crypto) ==> {
            &&& crypto.key == key
            &&& crypto.nonce.len() == 24
            &&& crypto.nonce[23] == nonce_msb
            &&& forall|i: int| 0 <= i < 23 ==> #[trigger] crypto.nonce[i] == 0
        },
        ready && key.len() != 32 ==> handler_for(ready, key, nonce_msb) == Err::<
            CryptoView,
            ErrorView,
        >(ErrorView::InvalidKeyLength { expected: 32, got: key.len() as usize }),
        !ready ==> handler_for(ready, key, nonce_msb) == Err::<CryptoView, ErrorView>(
            ErrorView::Crypto("Failed to initialize sodiumoxide"@),
        ),
{
}

} // verus!
