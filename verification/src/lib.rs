//! Host-side driver core for the SwordFish serial protocol.
//!
//! The crate frames outgoing and incoming byte streams into discrete typed
//! messages, correlates requests with asynchronous responses, and exposes the
//! pure decision logic that a transport loop needs: a frame codec with
//! sync-word detection, checksum verification and resynchronization, an
//! opcode-indexed registry of message buckets, and the session state machine.
//! The physical serial link, threads and wait primitives live outside this
//! crate and call into it.
pub mod ffi;
pub mod swordfish_codec_laws;
pub mod swordfish_comm;
pub mod swordfish_concentrated_message;
pub mod swordfish_messages;

pub use swordfish_concentrated_message::SwordFishConcentratedMessage;
pub use swordfish_concentrated_message::TOTAL_MESSAGE_SIZE as CONCENTRATED_MESSAGE_TOTAL_SIZE;
pub use swordfish_messages::Ping as PingMessage;
pub use swordfish_messages::VersionData as VersionDataMessage;

use vstd::prelude::*;

verus! {

/// Protocol role of an opcode.
#[derive(Debug, Clone, Copy, PartialEq, Eq)]
pub enum SwordFishMessageCategory {
    /// Sent to the peer; the peer echoes a response under the same opcode.
    Bounce,
    /// Sent to the peer to get or set a parameter; the response shares the opcode.
    Param,
    /// Sent to the peer to trigger an action; the response, if any, arrives
    /// under the distinct opcode carried here.
    Operation(Option<u8>),
    /// Only ever arrives as a reply; never sent by a caller directly.
    Response,
}

/// The opcode a sender of a message with this category must wait on for the
/// peer's reply, or `None` when no reply is ever owed (fire-and-forget).
pub open spec fn spec_response_opcode(category: SwordFishMessageCategory, opcode: u8) -> Option<u8> {
    match category {
        SwordFishMessageCategory::Bounce => Some(opcode),
        SwordFishMessageCategory::Param => Some(opcode),
        SwordFishMessageCategory::Operation(r) => r,
        SwordFishMessageCategory::Response => None,
    }
}

/// Where a caller that just sent a frame with the given opcode and category
/// must wait for the reply: the same opcode for `Bounce` and `Param`, the
/// named response opcode for `Operation`, and nowhere otherwise.
pub fn response_opcode(category: SwordFishMessageCategory, opcode: u8) -> (r: Option<u8>)
    ensures
        r == spec_response_opcode(category, opcode),
{
    match category {
        SwordFishMessageCategory::Bounce => Some(opcode),
        SwordFishMessageCategory::Param => Some(opcode),
        SwordFishMessageCategory::Operation(r) => r,
        SwordFishMessageCategory::Response => None,
    }
}

/// Why a typed decode refused a frame.
#[derive(Debug, Clone, Copy, PartialEq, Eq)]
pub enum SwordFishMessageError {
    /// The frame's opcode is not the message type's opcode.
    WrongOpcode { expected: u8, got: u8 },
    /// The frame's payload length is not the message type's fixed size.
    WrongLength { expected_length: usize, got_length: u16 },
}

/// The per-opcode holding cell: the most recently received frame of that
/// opcode, if any not yet taken, and the opcode's category.
///
/// The slot is single-valued and last-writer-wins: storing overwrites,
/// taking clears. The wait primitive and the reception callback that pair
/// with the slot belong to the transport around the library.
pub struct SwordFishMessageBucket {
    pub message: Option<SwordFishConcentratedMessage>,
    pub category: SwordFishMessageCategory,
}

impl SwordFishMessageBucket {
    /// An empty bucket of the given category.
    pub fn new(category: SwordFishMessageCategory) -> (r: Self)
        ensures
            r.message is None,
            r.category == category,
    {
        SwordFishMessageBucket { message: None, category }
    }

    /// Store an arrived frame, overwriting whatever was there: no queue, no
    /// history.
    pub fn store(&mut self, msg: SwordFishConcentratedMessage)
        ensures
            final(self).message == Some(msg),
            final(self).category == old(self).category,
    {
        self.message = Some(msg);
    }

    /// Take and clear the slot.
    pub fn take(&mut self) -> (r: Option<SwordFishConcentratedMessage>)
        ensures
            r == old(self).message,
            final(self).message is None,
            final(self).category == old(self).category,
    {
        self.message.take()
    }
}

/// What a frame built from a typed message under a given counter holds: the
/// host-to-peer sync word, the counter, the type's opcode, and the encoded
/// payload with its checksum.
pub open spec fn encoded_frame_view<T: SwordFishMessageTrait>(
    m: T,
    counter: u16,
) -> swordfish_concentrated_message::SwordFishFrameView {
    swordfish_concentrated_message::SwordFishFrameView {
        sync_word: swordfish_concentrated_message::SYNC_WORD_TO_SWORDFISH_U32,
        counter,
        opcode: T::spec_opcode(),
        length: m.payload_view().len() as u16,
        payload: m.payload_view(),
        checksum: swordfish_concentrated_message::spec_checksum(
            swordfish_concentrated_message::SYNC_WORD_TO_SWORDFISH_U32,
            counter,
            T::spec_opcode(),
            m.payload_view().len() as u16,
            m.payload_view(),
        ),
    }
}

/// The capability of every message payload type: a fixed opcode, a fixed
/// category, a fixed payload size, and encode/decode against the frame
/// codec by explicit field-by-field serialization.
pub trait SwordFishMessageTrait where
    Self: Sized + PartialEq + vstd::std_specs::cmp::PartialEqSpec,
 {
    /// The opcode this message type owns.
    spec fn spec_opcode() -> u8;

    /// The protocol category of this message type.
    spec fn spec_category() -> SwordFishMessageCategory;

    /// The fixed byte size of this message type's payload.
    spec fn spec_payload_length() -> usize;

    /// The encoded payload of this value, byte for byte.
    spec fn payload_view(&self) -> Seq<u8>;

    /// The payload of every value has the type's fixed size, which fits the
    /// wire format.
    proof fn lemma_payload_wf(&self)
        ensures
            self.payload_view().len() == Self::spec_payload_length(),
            Self::spec_payload_length() <= swordfish_concentrated_message::MAX_PAYLOAD_SIZE,
    ;

    /// Two values with the same encoded payload are the same message, and
    /// `==` on the type decides exactly that.
    proof fn lemma_payload_injective(&self, other: &Self)
        ensures
            Self::obeys_eq_spec(),
            self.payload_view() == other.payload_view() ==> self.eq_spec(other),
    ;

    fn opcode() -> (r: u8)
        ensures
            r == Self::spec_opcode(),
    ;

    fn category() -> (r: SwordFishMessageCategory)
        ensures
            r == Self::spec_category(),
    ;

    /// The fixed payload size of this message type.
    fn get_payload_length() -> (r: usize)
        ensures
            r == Self::spec_payload_length(),
    ;

    /// Serialize this value's fields, in declared order, to the payload bytes.
    fn encode_payload(&self) -> (r: Vec<u8>)
        ensures
            r@ == self.payload_view(),
    ;

    /// Read a value back from payload bytes of exactly the fixed size.
    fn decode_payload(bytes: &[u8]) -> (r: Self)
        requires
            bytes@.len() == Self::spec_payload_length(),
        ensures
            r.payload_view() == bytes@,
    ;

    /// Wrap this value in a complete frame under the given counter.
    fn to_concentrated(&self, counter: u16) -> (r: SwordFishConcentratedMessage)
        ensures
            r@.sync_word == swordfish_concentrated_message::SYNC_WORD_TO_SWORDFISH_U32,
            r@.counter == counter,
            r@.opcode == Self::spec_opcode(),
            r@.length == Self::spec_payload_length(),
            r@.payload == self.payload_view(),
            r@.wf(),
            r@.checksum_ok(),
    {
        proof {
            self.lemma_payload_wf();
        }
        let payload = self.encode_payload();
        SwordFishConcentratedMessage::new(counter, Self::opcode(), payload.as_slice())
    }

    /// Read a value of this type back out of a frame: the frame must carry
    /// this type's opcode and declare exactly the type's fixed size, else the
    /// matching typed error comes back.
    fn from_concentrated(concentrated_msg: &SwordFishConcentratedMessage) -> (r: Result<
        Self,
        SwordFishMessageError,
    >)
        requires
            concentrated_msg@.wf(),
        ensures
            r is Ok <==> concentrated_msg@.opcode == Self::spec_opcode()
                && concentrated_msg@.length == Self::spec_payload_length(),
            r matches Ok(m) ==> m.payload_view() == concentrated_msg@.payload,
            concentrated_msg@.opcode != Self::spec_opcode() ==> r == Err::<
                Self,
                SwordFishMessageError,
            >(
                SwordFishMessageError::WrongOpcode {
                    expected: Self::spec_opcode(),
                    got: concentrated_msg@.opcode,
                },
            ),
            concentrated_msg@.opcode == Self::spec_opcode() && concentrated_msg@.length
                != Self::spec_payload_length() ==> r == Err::<Self, SwordFishMessageError>(
                SwordFishMessageError::WrongLength {
                    expected_length: Self::spec_payload_length(),
                    got_length: concentrated_msg@.length,
                },
            ),
    {
        if Self::opcode() != concentrated_msg.opcode {
            Err(
                SwordFishMessageError::WrongOpcode {
                    expected: Self::opcode(),
                    got: concentrated_msg.opcode,
                },
            )
        } else if concentrated_msg.length as usize != Self::get_payload_length() {
            Err(
                SwordFishMessageError::WrongLength {
                    expected_length: Self::get_payload_length(),
                    got_length: concentrated_msg.length,
                },
            )
        } else {
            Ok(Self::decode_payload(concentrated_msg.payload.as_slice()))
        }
    }
}

/// Round trip: the frame that encodes `m` under counter `c` carries `c`, the
/// opcode and fixed size of `T`, and a valid checksum; and any value of `T`
/// whose payload equals that frame's payload is `m` itself, as the type's
/// own equality decides it.
pub proof fn lemma_round_trip<T: SwordFishMessageTrait>(m: &T, decoded: &T, c: u16)
    requires
        decoded.payload_view() == encoded_frame_view(*m, c).payload,
    ensures
        encoded_frame_view(*m, c).counter == c,
        encoded_frame_view(*m, c).opcode == T::spec_opcode(),
        encoded_frame_view(*m, c).length == T::spec_payload_length(),
        encoded_frame_view(*m, c).wf(),
        encoded_frame_view(*m, c).checksum_ok(),
        T::obeys_eq_spec(),
        decoded.eq_spec(m),
        m.eq_spec(decoded),
{
    m.lemma_payload_wf();
    m.lemma_payload_injective(decoded);
    decoded.lemma_payload_injective(m);
}

} // verus!
