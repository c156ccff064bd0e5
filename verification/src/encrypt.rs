//! Authenticated encryption of the messages of one connection, under a key that
//! both ends share. Each end counts the messages it has sealed and those it has
//! opened, and the count is the nonce.

use bytes::BytesMut;
use sodiumoxide::crypto::secretbox;
use vstd::prelude::*;

use crate::buffers;
use crate::buffers::{bytes_mut_as_slice, bytes_mut_from_slice};

verus! {

/// The length of a key.
pub const KEY_BYTES: usize = 32;

/// The length of a nonce.
pub const NONCE_BYTES: usize = 24;

/// The bytes by which a sealed message is longer than the message.
pub const MAC_BYTES: usize = 16;

/// What `secretbox::seal` makes of a message, a nonce and a key.
pub uninterp spec fn secretbox_seal(message: Seq<u8>, nonce: Seq<u8>, key: Seq<u8>) -> Seq<u8>;

/// The message that `secretbox::open` finds in a sealed one; `None` where it
/// does not pass verification.
pub uninterp spec fn secretbox_open(sealed: Seq<u8>, nonce: Seq<u8>, key: Seq<u8>) -> Option<
    Seq<u8>,
>;

/// Calls `secretbox::seal`. The result is a function of message, nonce and key;
/// it is longer than the message by the authenticator; and `secretbox::open`
/// finds the message in it again under the same nonce and key. The result has
/// to fit in a vector.
#[verifier::external_body]
fn seal(message: &[u8], nonce: &[u8; NONCE_BYTES], key: &[u8; KEY_BYTES]) -> (r: Vec<u8>)
    requires
        message@.len() + MAC_BYTES <= isize::MAX,
    ensures
        r@ == secretbox_seal(message@, nonce@, key@),
        r@.len() == message@.len() + MAC_BYTES,
        secretbox_open(r@, nonce@, key@) == Some(message@),
{
    secretbox::seal(message, &secretbox::Nonce(*nonce), &secretbox::Key(*key))
}

/// Calls `secretbox::open`. The result is a function of sealed message, nonce
/// and key; a message that is found is shorter than the sealed one by the
/// authenticator.
#[verifier::external_body]
fn open(sealed: &[u8], nonce: &[u8; NONCE_BYTES], key: &[u8; KEY_BYTES]) -> (r: Result<Vec<u8>, ()>)
    ensures
        match r {
            Ok(message) => {
                &&& secretbox_open(sealed@, nonce@, key@) == Some(message@)
                &&& message@.len() + MAC_BYTES == sealed@.len()
            },
            Err(_) => secretbox_open(sealed@, nonce@, key@) is None,
        },
{
    secretbox::open(sealed, &secretbox::Nonce(*nonce), &secretbox::Key(*key))
}

/// A key that both ends of a connection share.
pub struct Key(pub [u8; KEY_BYTES]);

/// The sealing state of one end of a connection.
pub struct Encrypt {
    key: Key,
    sent: u64,
    received: u64,
}

/// The contents of [`Encrypt`]: the key, and how many messages were sealed and
/// how many were opened under it.
#[verifier::ext_equal]
pub struct EncryptView {
    pub key: Seq<u8>,
    pub sent: nat,
    pub received: nat,
}

impl View for Encrypt {
    type V = EncryptView;

    closed spec fn view(&self) -> EncryptView {
        EncryptView {
            key: self.key.0@,
            sent: self.sent as nat,
            received: self.received as nat,
        }
    }
}

/// The nonce of the message with a given number: the number in little-endian
/// order, then zeros.
pub open spec fn nonce_of(number: nat) -> Seq<u8> {
    vstd::bytes::spec_u64_to_le_bytes(number as u64) + Seq::new(
        (NONCE_BYTES - 8) as nat,
        |i: int| 0u8,
    )
}

/// Whether `data` is handed on as it is when it is received: a message of at
/// most one byte is too short to be a sealed one, and is taken for a plain one.
pub open spec fn is_too_short_to_open(data: Seq<u8>) -> bool {
    data.len() <= 1
}

impl EncryptView {
    /// A key under which nothing was sent yet.
    pub open spec fn fresh(key: Seq<u8>) -> EncryptView {
        EncryptView { key, sent: 0, received: 0 }
    }

    /// Whether `sealed` is `message` as the next one to be sent.
    pub open spec fn seals(self, message: Seq<u8>, sealed: Seq<u8>) -> bool {
        &&& sealed == secretbox_seal(message, nonce_of(self.sent + 1), self.key)
        &&& sealed.len() == message.len() + MAC_BYTES
        &&& secretbox_open(sealed, nonce_of(self.sent + 1), self.key) == Some(message)
    }

    /// The state after one more message was sent.
    pub open spec fn after_sending(self) -> EncryptView {
        EncryptView { sent: self.sent + 1, ..self }
    }

    /// Whether there is a number left for `data` as the next message received.
    pub open spec fn can_open(self, data: Seq<u8>) -> bool {
        is_too_short_to_open(data) || self.received < u64::MAX
    }

    /// Whether `message` can be sealed: a number is left for it, and the sealed
    /// message fits in a vector.
    pub open spec fn can_seal(self, message: Seq<u8>) -> bool {
        self.sent < u64::MAX && message.len() + MAC_BYTES <= isize::MAX
    }

    /// The message that `data` holds as the next one received; `None` where it
    /// does not pass verification.
    pub open spec fn opens(self, data: Seq<u8>) -> Option<Seq<u8>> {
        if is_too_short_to_open(data) {
            Some(data)
        } else {
            secretbox_open(data, nonce_of(self.received + 1), self.key)
        }
    }

    /// The state after `data` was received. What is too short to be a sealed
    /// message is not counted; what does not pass verification is.
    pub open spec fn after_receiving(self, data: Seq<u8>) -> EncryptView {
        if is_too_short_to_open(data) {
            self
        } else {
            EncryptView { received: self.received + 1, ..self }
        }
    }
}

/// A message that did not pass verification.
pub struct DecryptionError;

impl Encrypt {
    /// Begins with a key under which nothing was sent yet.
    pub fn new(key: Key) -> (r: Encrypt)
        ensures
            r@ == EncryptView::fresh(key.0@),
    {
        Encrypt { key, sent: 0, received: 0 }
    }

    /// Whether `data` can be sealed.
    pub fn can_enc(&self, data: &[u8]) -> (r: bool)
        ensures
            r == self@.can_seal(data@),
    {
        self.sent < u64::MAX && data.len() <= isize::MAX as usize - MAC_BYTES
    }

    /// Whether `data` can be opened.
    pub fn can_dec(&self, data: &[u8]) -> (r: bool)
        ensures
            r == self@.can_open(data@),
    {
        data.len() <= 1 || self.received < u64::MAX
    }

    fn get_nonce(seqnum: u64) -> (r: [u8; NONCE_BYTES])
        ensures
            r@ == nonce_of(seqnum as nat),
    {
        let number: Vec<u8> = vstd::bytes::u64_to_le_bytes(seqnum);
        let mut nonce: [u8; NONCE_BYTES] = [0u8; NONCE_BYTES];
        let mut i: usize = 0;
        while i < 8
            invariant
                i <= 8,
                number@.len() == 8,
                nonce@.len() == 24,
                forall|j: int| 0 <= j < i ==> nonce@[j] == number@[j],
                forall|j: int| i <= j < 24 ==> nonce@[j] == 0,
            decreases 8 - i,
        {
            nonce[i] = number[i];
            i = i + 1;
        }
        assert(nonce@ =~= nonce_of(seqnum as nat));
        nonce
    }

    /// Seals a message as the next one to be sent.
    pub fn enc(&mut self, data: &[u8]) -> (r: Vec<u8>)
        requires
            old(self)@.can_seal(data@),
        ensures
            old(self)@.seals(data@, r@),
            final(self)@ == old(self)@.after_sending(),
    {
        self.sent = self.sent + 1;
        let nonce: [u8; NONCE_BYTES] = Self::get_nonce(self.sent);
        seal(data, &nonce, &self.key.0)
    }

    /// Opens a buffer as the next message received, and puts what it holds in
    /// its place. Where it does not pass verification, it stays as it is.
    pub fn dec(&mut self, data: &mut BytesMut) -> (r: Result<(), DecryptionError>)
        requires
            old(self)@.can_open(buffers::bytes_mut_contents(*old(data))),
        ensures
            final(self)@ == old(self)@.after_receiving(buffers::bytes_mut_contents(*old(data))),
            match old(self)@.opens(buffers::bytes_mut_contents(*old(data))) {
                Some(message) => r is Ok && buffers::bytes_mut_contents(*final(data)) == message,
                None => r is Err && *final(data) == *old(data),
            },
    {
        if bytes_mut_as_slice(data).len() <= 1 {
            return Ok(());
        }
        self.received = self.received + 1;
        let nonce: [u8; NONCE_BYTES] = Self::get_nonce(self.received);
        match open(bytes_mut_as_slice(data), &nonce, &self.key.0) {
            Ok(message) => {
                *data = bytes_mut_from_slice(message.as_slice());
                Ok(())
            },
            Err(_) => Err(DecryptionError),
        }
    }
}

/// Law: two messages that were sent under one key never share a nonce.
pub proof fn law_nonces_differ(a: nat, b: nat)
    requires
        a <= u64::MAX,
        b <= u64::MAX,
        a != b,
    ensures
        nonce_of(a) != nonce_of(b),
{
    vstd::bytes::lemma_auto_spec_u64_to_from_le_bytes();
    if nonce_of(a) == nonce_of(b) {
        assert(nonce_of(a).take(8) =~= vstd::bytes::spec_u64_to_le_bytes(a as u64));
        assert(nonce_of(b).take(8) =~= vstd::bytes::spec_u64_to_le_bytes(b as u64));
    }
}

/// Law: a nonce is 24 bytes, of which the first eight are the number of the
/// message, the least of them first, and the others are zero.
pub proof fn law_a_nonce_is_the_number(number: nat)
    requires
        number <= u64::MAX,
    ensures
        nonce_of(number).len() == 24,
        number == nonce_of(number)[0] + 0x100 * nonce_of(number)[1] + 0x1_0000 * nonce_of(number)[2]
            + 0x100_0000 * nonce_of(number)[3] + 0x1_0000_0000 * nonce_of(number)[4]
            + 0x100_0000_0000 * nonce_of(number)[5] + 0x1_0000_0000_0000 * nonce_of(number)[6]
            + 0x100_0000_0000_0000 * nonce_of(number)[7],
        forall|i: int| 8 <= i < 24 ==> #[trigger] nonce_of(number)[i] == 0,
{
    let x: u64 = number as u64;
    vstd::bytes::lemma_auto_spec_u64_to_from_le_bytes();
    vstd::bytes::spec_u64_to_le_bytes_to_open(x);
    assert(x == ((x & 0xff) as u8) + 0x100 * (((x >> 8) & 0xff) as u8) + 0x1_0000 * (((x >> 16)
        & 0xff) as u8) + 0x100_0000 * (((x >> 24) & 0xff) as u8) + 0x1_0000_0000 * (((x >> 32)
        & 0xff) as u8) + 0x100_0000_0000 * (((x >> 40) & 0xff) as u8) + 0x1_0000_0000_0000 * (((x
        >> 48) & 0xff) as u8) + 0x100_0000_0000_0000 * (((x >> 56) & 0xff) as u8)) by (bit_vector);
}

/// Law: under a new key nothing was sent and nothing received. Sending counts one
/// message more as sent and changes nothing else.
pub proof fn law_a_new_key_starts_the_counts(key: Seq<u8>, state: EncryptView)
    ensures
        EncryptView::fresh(key).key == key,
        EncryptView::fresh(key).sent == 0,
        EncryptView::fresh(key).received == 0,
        state.after_sending().key == state.key,
        state.after_sending().sent == state.sent + 1,
        state.after_sending().received == state.received,
{
}

/// Law: a message is sealed by `secretbox` under the key, with the number of the
/// message for a nonce, and nothing is put before it or behind it. The first
/// message has the number one.
pub proof fn law_messages_are_sealed_by_number(
    state: EncryptView,
    message: Seq<u8>,
    sealed: Seq<u8>,
)
    requires
        state.seals(message, sealed),
    ensures
        sealed == secretbox_seal(message, nonce_of(state.sent + 1), state.key),
        sealed.len() == message.len() + 16,
        secretbox_open(sealed, nonce_of(state.sent + 1), state.key) == Some(message),
{
}

/// Law: what is received is opened by `secretbox` under the key, with the number
/// of the message for a nonce, and counted, whether it passes verification or
/// not. Only what is empty or a single byte is taken as it is, and not counted.
pub proof fn law_messages_are_opened_by_number(state: EncryptView, data: Seq<u8>)
    ensures
        data.len() >= 2 ==> {
            &&& state.opens(data) == secretbox_open(data, nonce_of(state.received + 1), state.key)
            &&& state.after_receiving(data).received == state.received + 1
        },
        data.len() < 2 ==> {
            &&& state.opens(data) == Some(data)
            &&& state.after_receiving(data).received == state.received
        },
        state.after_receiving(data).key == state.key,
        state.after_receiving(data).sent == state.sent,
{
}

/// Law: a message can be sealed as long as its number is one that a `u64` holds
/// and 16 bytes more fit in memory, and opened as long as its number is one that
/// a `u64` holds.
pub proof fn law_messages_can_be_sealed_and_opened(state: EncryptView, data: Seq<u8>)
    ensures
        state.can_seal(data) <==> state.sent + 1 <= 18446744073709551615 && data.len() + 16
            <= isize::MAX,
        state.can_open(data) <==> data.len() < 2 || state.received + 1 <= 18446744073709551615,
{
}

} // verus!
