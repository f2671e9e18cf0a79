//! Protocol packet handling
//!
//! This module implements the ET protocol packet format with optional encryption.
use vstd::prelude::*;
use vstd::slice::{slice_subrange, slice_to_vec};
use vstd::utf8::encode_utf8;

use crate::crypto::{CryptoHandler, CryptoView, MACBYTES};
use crate::error::{outcome_view, result_view, Error, ErrorView};

verus! {

/// Header size in bytes (encrypted flag + header byte)
pub const HEADER_SIZE: usize = 2;

/// Represents a length-encoded protocol packet with optional encryption
#[derive(Debug)]
pub struct Packet {
    /// Whether the payload is currently encrypted
    encrypted: bool,
    /// Application-specific packet type value
    header: u8,
    /// Message body (encrypted or decrypted depending on flag)
    payload: Vec<u8>,
}

/// What a [`Packet`] holds.
pub struct PacketView {
    /// Whether the payload is currently encrypted
    pub encrypted: bool,
    /// Application-specific packet type value
    pub header: u8,
    /// Message body
    pub payload: Seq<u8>,
}

impl View for Packet {
    type V = PacketView;

    closed spec fn view(&self) -> PacketView {
        PacketView { encrypted: self.encrypted, header: self.header, payload: self.payload@ }
    }
}

impl PacketView {
    /// The number of bytes of the packet in wire format.
    pub open spec fn len(self) -> nat {
        HEADER_SIZE as nat + self.payload.len()
    }

    /// The packet in wire format: the flag, the header byte and the payload.
    pub open spec fn serialized(self) -> Seq<u8> {
        seq![if self.encrypted { 1u8 } else { 0u8 }, self.header] + self.payload
    }

    /// The packet with its payload sealed as the next message of `crypto`.
    pub open spec fn sealed_by(self, crypto: CryptoView) -> PacketView {
        PacketView { encrypted: true, header: self.header, payload: crypto.seal_next(self.payload) }
    }
}

/// The packet that bytes in wire format hold, if they hold at least a flag and a header byte.
pub open spec fn deserialized(data: Seq<u8>) -> Result<PacketView, ErrorView> {
    if data.len() < HEADER_SIZE {
        Err(ErrorView::InvalidPacket("Packet too short"@))
    } else {
        Ok(PacketView { encrypted: data[0] != 0, header: data[1], payload: data.skip(2) })
    }
}

/// What decrypting `packet` as the next message of `crypto` leaves: the packet, the state of the
/// handler and the outcome.
pub open spec fn decrypted(packet: PacketView, crypto: CryptoView) -> (
    PacketView,
    CryptoView,
    Result<(), ErrorView>,
) {
    if !packet.encrypted {
        (
            packet,
            crypto,
            Err(ErrorView::InvalidPacket("Tried to decrypt a packet that wasn't encrypted"@)),
        )
    } else {
        match crypto.open_next(packet.payload) {
            Some(plaintext) => (
                PacketView { encrypted: false, header: packet.header, payload: plaintext },
                crypto.advanced(),
                Ok(()),
            ),
            None => (packet, crypto.advanced(), Err(ErrorView::DecryptionFailed)),
        }
    }
}

/// What encrypting `packet` as the next message of `crypto` leaves: the packet, the state of the
/// handler and the outcome.
pub open spec fn encrypted(packet: PacketView, crypto: CryptoView) -> (
    PacketView,
    CryptoView,
    Result<(), ErrorView>,
) {
    if packet.encrypted {
        (
            packet,
            crypto,
            Err(ErrorView::InvalidPacket("Tried to encrypt a packet that was already encrypted"@)),
        )
    } else {
        (packet.sealed_by(crypto), crypto.advanced(), Ok(()))
    }
}

impl Default for Packet {
    fn default() -> (r: Packet)
        ensures
            r@ == (PacketView { encrypted: false, header: 255, payload: Seq::empty() }),
    {
        Packet { encrypted: false, header: 255, payload: Vec::new() }
    }
}

impl Clone for Packet {
    fn clone(&self) -> (r: Packet)
        ensures
            r@ == self@,
    {
        Packet {
            encrypted: self.encrypted,
            header: self.header,
            payload: slice_to_vec(self.payload.as_slice()),
        }
    }
}

impl Packet {
    /// Creates a new unencrypted packet with the given header and payload
    pub fn new(header: u8, payload: Vec<u8>) -> (r: Packet)
        ensures
            r@ == (PacketView { encrypted: false, header, payload: payload@ }),
    {
        Packet { encrypted: false, header, payload }
    }

    /// Creates a new unencrypted packet with the given header and string payload
    pub fn from_str(header: u8, payload: &str) -> (r: Packet)
        ensures
            r@ == (PacketView { encrypted: false, header, payload: encode_utf8(payload@) }),
    {
        Packet { encrypted: false, header, payload: slice_to_vec(payload.as_bytes()) }
    }

    /// Creates a packet with explicit encryption flag
    pub fn with_encrypted(encrypted: bool, header: u8, payload: Vec<u8>) -> (r: Packet)
        ensures
            r@ == (PacketView { encrypted, header, payload: payload@ }),
    {
        Packet { encrypted, header, payload }
    }

    /// Deserializes a packet from its raw byte representation
    pub fn from_bytes(data: &[u8]) -> (r: Result<Packet, Error>)
        ensures
            result_view(r) == deserialized(data@),
    {
        if data.len() < HEADER_SIZE {
            return Err(Error::InvalidPacket("Packet too short".to_owned()));
        }
        let payload = slice_to_vec(slice_subrange(data, 2, data.len()));
        assert(payload@ =~= data@.skip(2));
        Ok(Packet { encrypted: data[0] != 0, header: data[1], payload })
    }

    /// Decrypts the payload if the encrypted flag is set
    pub fn decrypt(&mut self, crypto: &mut CryptoHandler) -> (r: Result<(), Error>)
        ensures
            (final(self)@, final(crypto)@, outcome_view(r)) == decrypted(old(self)@, old(crypto)@),
            r is Ok ==> final(self)@.payload.len() + MACBYTES == old(self)@.payload.len(),
    {
        if self.encrypted {
            match crypto.decrypt(self.payload.as_slice()) {
                Ok(plaintext) => {
                    self.payload = plaintext;
                    self.encrypted = false;
                    Ok(())
                },
                Err(e) => Err(e),
            }
        } else {
            Err(
                Error::InvalidPacket("Tried to decrypt a packet that wasn't encrypted".to_owned()),
            )
        }
    }

    /// Encrypts the payload and tags the packet as encrypted
    pub fn encrypt(&mut self, crypto: &mut CryptoHandler) -> (r: Result<(), Error>)
        requires
            old(self)@.payload.len() + MACBYTES <= isize::MAX,
        ensures
            (final(self)@, final(crypto)@, outcome_view(r)) == encrypted(old(self)@, old(crypto)@),
            r is Ok ==> old(crypto)@.seals(old(self)@.payload),
    {
        if self.encrypted {
            Err(
                Error::InvalidPacket(
                    "Tried to encrypt a packet that was already encrypted".to_owned(),
                ),
            )
        } else {
            self.payload = crypto.encrypt(self.payload.as_slice());
            self.encrypted = true;
            Ok(())
        }
    }

    /// Returns true if the payload is currently encrypted
    pub fn is_encrypted(&self) -> (r: bool)
        ensures
            r == self@.encrypted,
    {
        self.encrypted
    }

    /// Retrieves the application-specific header byte
    pub fn header(&self) -> (r: u8)
        ensures
            r == self@.header,
    {
        self.header
    }

    /// Returns the stored payload (decrypted if needed)
    pub fn payload(&self) -> (r: &[u8])
        ensures
            r@ == self@.payload,
    {
        self.payload.as_slice()
    }

    /// Consumes the packet and returns the payload
    pub fn into_payload(self) -> (r: Vec<u8>)
        ensures
            r@ == self@.payload,
    {
        self.payload
    }

    /// Returns the serialized byte count including the header
    pub fn len(&self) -> (r: usize)
        requires
            self@.len() <= usize::MAX,
        ensures
            r == self@.len(),
    {
        HEADER_SIZE + self.payload.len()
    }

    /// Returns true if the packet has no payload
    pub fn is_empty(&self) -> (r: bool)
        ensures
            r == (self@.payload.len() == 0),
    {
        self.payload.is_empty()
    }

    /// Serializes the header byte and payload into the packet wire format
    pub fn serialize(&self) -> (r: Vec<u8>)
        requires
            self@.len() <= isize::MAX,
        ensures
            r@ == self@.serialized(),
    {
        let mut data: Vec<u8> = Vec::with_capacity(HEADER_SIZE + self.payload.len());
        data.push(if self.encrypted { 1 } else { 0 });
        data.push(self.header);
        data.extend_from_slice(self.payload.as_slice());
        assert(data@ =~= self@.serialized());
        data
    }
}

/// Reading a packet back from its wire format gives the packet.
pub proof fn law_packet_round_trip(packet: PacketView)
    ensures
        deserialized(packet.serialized()) == Ok::<PacketView, ErrorView>(packet),
        packet.serialized().len() == packet.len(),
{
    assert(packet.serialized().skip(2) =~= packet.payload);
}

/// Writing out a packet that was read from bytes gives the bytes, with any flag other than zero
/// written as one.
pub proof fn law_bytes_round_trip_through_packet(data: Seq<u8>)
    requires
        data.len() >= HEADER_SIZE,
    ensures
        deserialized(data) matches Ok(packet) && packet.serialized() == data.update(
            0,
            if data[0] == 0 { 0u8 } else { 1u8 },
        ),
{
    let packet = deserialized(data)->Ok_0;
    assert(packet.serialized() =~= data.update(0, if data[0] == 0 { 0u8 } else { 1u8 }));
}

/// A sealed packet decrypts to the packet that was sealed, on a handler in the state in which it
/// was sealed; both handlers then stand at the next message.
pub proof fn law_decrypt_undoes_encrypt(packet: PacketView, crypto: CryptoView)
    requires
        !packet.encrypted,
        crypto.seals(packet.payload),
    ensures
        decrypted(packet.sealed_by(crypto), crypto) == (
            packet,
            crypto.advanced(),
            Ok::<(), ErrorView>(()),
        ),
        encrypted(packet, crypto) == (
            packet.sealed_by(crypto),
            crypto.advanced(),
            Ok::<(), ErrorView>(()),
        ),
{
}

/// On the wire a packet is a byte that says whether it is encrypted, its header, and its payload.
pub proof fn law_packet_on_the_wire(packet: PacketView, data: Seq<u8>)
    ensures
        packet.serialized().len() == packet.payload.len() + 2,
        packet.len() == packet.payload.len() + 2,
        packet.serialized()[0] == if packet.encrypted { 1u8 } else { 0u8 },
        packet.serialized()[1] == packet.header,
        packet.serialized().skip(2) == packet.payload,
        data.len() < 2 ==> deserialized(data) == Err::<PacketView, ErrorView>(
            ErrorView::InvalidPacket("Packet too short"@),
        ),
{
    assert(packet.serialized().skip(2) =~= packet.payload);
}

/// A packet is sealed once and opened once: one that is encrypted is not encrypted again, and one
/// that is not is not decrypted, and neither uses a message of the handler up. A packet that does
/// not open stays as it is, but uses one up.
pub proof fn law_packet_is_sealed_once(packet: PacketView, crypto: CryptoView)
    ensures
        packet.encrypted ==> {
            let (after, state, outcome) = encrypted(packet, crypto);
            after == packet && state == crypto && outcome is Err
        },
        !packet.encrypted ==> {
            let (sealed, state, outcome) = encrypted(packet, crypto);
            let (after, same, refused) = decrypted(packet, crypto);
            &&& sealed.encrypted && sealed.header == packet.header
            &&& sealed.payload == crypto.seal_next(packet.payload)
            &&& state == crypto.advanced() && outcome is Ok
            &&& after == packet && same == crypto && refused is Err
        },
        packet.encrypted ==> {
            let (after, state, outcome) = decrypted(packet, crypto);
            &&& state == crypto.advanced()
            &&& match crypto.open_next(packet.payload) {
                Some(plaintext) => outcome is Ok && !after.encrypted && after.header
                    == packet.header && after.payload == plaintext,
                None => after == packet && outcome == Err::<(), ErrorView>(
                    ErrorView::DecryptionFailed,
                ),
            }
        },
{
}

} // verus!
