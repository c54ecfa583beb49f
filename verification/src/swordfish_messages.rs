//! The message catalog: every typed message the peer speaks, and the
//! registry of per-opcode buckets built from it once per session.
use vstd::prelude::*;
use std::collections::HashMap;
use crate::SwordFishMessageBucket;
use crate::SwordFishMessageCategory;
use crate::SwordFishMessageTrait;
use crate::swordfish_concentrated_message::lemma_u32_le_bytes_of;
use crate::swordfish_concentrated_message::lemma_u32_le_round;
use crate::swordfish_concentrated_message::u32_le_bytes;

verus! {

broadcast use vstd::std_specs::hash::group_hash_axioms, vstd::array::group_array_axioms;

/// A zero-size probe message: the peer echoes it back unchanged.
#[derive(Debug)]
pub struct Ping {}

impl Default for Ping {
    fn default() -> (r: Self)
        ensures
            r == (Ping {  }),
    {
        Ping {  }
    }
}

impl PartialEq for Ping {
    fn eq(&self, _other: &Ping) -> (r: bool) {
        true
    }
}

impl vstd::std_specs::cmp::PartialEqSpecImpl for Ping {
    open spec fn obeys_eq_spec() -> bool {
        true
    }

    open spec fn eq_spec(&self, other: &Ping) -> bool {
        true
    }
}

impl SwordFishMessageTrait for Ping {
    open spec fn spec_opcode() -> u8 {
        0
    }

    open spec fn spec_category() -> SwordFishMessageCategory {
        SwordFishMessageCategory::Bounce
    }

    open spec fn spec_payload_length() -> usize {
        0
    }

    open spec fn payload_view(&self) -> Seq<u8> {
        Seq::empty()
    }

    proof fn lemma_payload_wf(&self) {
    }

    proof fn lemma_payload_injective(&self, other: &Ping) {
    }

    fn opcode() -> u8 {
        0
    }

    fn category() -> SwordFishMessageCategory {
        SwordFishMessageCategory::Bounce
    }

    fn get_payload_length() -> usize {
        0
    }

    fn encode_payload(&self) -> (r: Vec<u8>) {
        let r: Vec<u8> = Vec::new();
        assert(r@ =~= Seq::<u8>::empty());
        r
    }

    fn decode_payload(bytes: &[u8]) -> (r: Ping) {
        let r = Ping {  };
        assert(r.payload_view() =~= bytes@);
        r
    }
}

/// The zero-padded, eight-byte image of a caller-supplied identifier slice.
pub open spec fn padded_uuid(b: Seq<u8>) -> Seq<u8> {
    Seq::new(8, |i: int| if i < b.len() { b[i] } else { 0u8 })
}

/// The peer's identity record: firmware version, hardware type and unique
/// identifier.
#[derive(Debug)]
pub struct VersionData {
    pub version: u8,
    pub subversion: u8,
    pub mcu_type: u32,
    pub uuid: [u8; 8],
}

impl Default for VersionData {
    fn default() -> (r: Self)
        ensures
            r.version == 0,
            r.subversion == 0,
            r.mcu_type == 0,
            r.uuid@ == padded_uuid(Seq::<u8>::empty()),
    {
        let r = VersionData {
            version: 0,
            subversion: 0,
            mcu_type: 0,
            uuid: vstd::array::array_fill_for_copy_types::<u8, 8>(0),
        };
        assert(r.uuid@ =~= padded_uuid(Seq::<u8>::empty()));
        r
    }
}

impl PartialEq for VersionData {
    fn eq(&self, other: &VersionData) -> (r: bool) {
        let fields_eq = self.version == other.version && self.subversion == other.subversion
            && self.mcu_type == other.mcu_type;
        let mut uuid_eq = true;
        let mut i: usize = 0;
        while i < 8
            invariant
                i <= 8,
                uuid_eq == (forall|j: int| 0 <= j < i ==> self.uuid@[j] == other.uuid@[j]),
            decreases 8 - i,
        {
            if self.uuid[i] != other.uuid[i] {
                uuid_eq = false;
            }
            i = i + 1;
        }
        if uuid_eq {
            assert(self.uuid@ =~= other.uuid@);
        }
        fields_eq && uuid_eq
    }
}

impl vstd::std_specs::cmp::PartialEqSpecImpl for VersionData {
    open spec fn obeys_eq_spec() -> bool {
        true
    }

    open spec fn eq_spec(&self, other: &VersionData) -> bool {
        &&& self.version == other.version
        &&& self.subversion == other.subversion
        &&& self.mcu_type == other.mcu_type
        &&& self.uuid@ == other.uuid@
    }
}

impl SwordFishMessageTrait for VersionData {
    open spec fn spec_opcode() -> u8 {
        2
    }

    open spec fn spec_category() -> SwordFishMessageCategory {
        SwordFishMessageCategory::Bounce
    }

    open spec fn spec_payload_length() -> usize {
        14
    }

    open spec fn payload_view(&self) -> Seq<u8> {
        seq![self.version, self.subversion] + u32_le_bytes(self.mcu_type) + self.uuid@
    }

    proof fn lemma_payload_wf(&self) {
    }

    proof fn lemma_payload_injective(&self, other: &VersionData) {
        if self.payload_view() == other.payload_view() {
            assert(self.version == other.version) by {
                assert(self.payload_view()[0] == self.version);
                assert(other.payload_view()[0] == other.version);
            }
            assert(self.subversion == other.subversion) by {
                assert(self.payload_view()[1] == self.subversion);
                assert(other.payload_view()[1] == other.subversion);
            }
            assert(self.mcu_type == other.mcu_type) by {
                assert forall|k: int| 0 <= k < 4 implies u32_le_bytes(self.mcu_type)[k]
                    == u32_le_bytes(other.mcu_type)[k] by {
                    assert(self.payload_view()[2 + k] == u32_le_bytes(self.mcu_type)[k]);
                    assert(other.payload_view()[2 + k] == u32_le_bytes(other.mcu_type)[k]);
                }
                lemma_u32_le_round(self.mcu_type);
                lemma_u32_le_round(other.mcu_type);
            }
            assert(self.uuid@ =~= other.uuid@) by {
                assert forall|j: int| 0 <= j < 8 implies self.uuid@[j] == other.uuid@[j] by {
                    assert(self.payload_view()[6 + j] == self.uuid@[j]);
                    assert(other.payload_view()[6 + j] == other.uuid@[j]);
                }
            }
        }
    }

    fn opcode() -> u8 {
        2
    }

    fn category() -> SwordFishMessageCategory {
        SwordFishMessageCategory::Bounce
    }

    fn get_payload_length() -> usize {
        14
    }

    fn encode_payload(&self) -> (r: Vec<u8>) {
        let mut r: Vec<u8> = Vec::new();
        r.push(self.version);
        r.push(self.subversion);
        r.push((self.mcu_type & 0xff) as u8);
        r.push(((self.mcu_type >> 8) & 0xff) as u8);
        r.push(((self.mcu_type >> 16) & 0xff) as u8);
        r.push(((self.mcu_type >> 24) & 0xff) as u8);
        let mut i: usize = 0;
        while i < 8
            invariant
                i <= 8,
                r@ == seq![self.version, self.subversion] + u32_le_bytes(self.mcu_type)
                    + self.uuid@.take(i as int),
            decreases 8 - i,
        {
            r.push(self.uuid[i]);
            assert(r@ =~= seq![self.version, self.subversion] + u32_le_bytes(self.mcu_type)
                + self.uuid@.take(i as int + 1));
            i = i + 1;
        }
        assert(r@ =~= self.payload_view());
        r
    }

    fn decode_payload(bytes: &[u8]) -> (r: VersionData) {
        let mcu_type: u32 = (bytes[2] as u32) | ((bytes[3] as u32) << 8) | ((bytes[4] as u32)
            << 16) | ((bytes[5] as u32) << 24);
        let mut uuid = vstd::array::array_fill_for_copy_types::<u8, 8>(0);
        let mut i: usize = 0;
        while i < 8
            invariant
                i <= 8,
                bytes@.len() == 14,
                uuid@.len() == 8,
                forall|j: int| 0 <= j < i ==> uuid@[j] == bytes@[6 + j],
            decreases 8 - i,
        {
            uuid[i] = bytes[6 + i];
            i = i + 1;
        }
        let r = VersionData { version: bytes[0], subversion: bytes[1], mcu_type, uuid };
        proof {
            lemma_u32_le_bytes_of(bytes@[2], bytes@[3], bytes@[4], bytes@[5]);
            assert(u32_le_bytes(mcu_type) == seq![bytes@[2], bytes@[3], bytes@[4], bytes@[5]]);
            assert(r.payload_view() =~= bytes@);
        }
        r
    }
}

/// The registry of the closed message catalog: one bucket per known opcode,
/// each starting empty with its type's declared category.
pub fn create_swordfish_messages_hashmap() -> (r: HashMap<u8, SwordFishMessageBucket>)
    ensures
        r@.dom() == set![Ping::spec_opcode(), VersionData::spec_opcode()],
        r@[Ping::spec_opcode()].category == Ping::spec_category(),
        r@[Ping::spec_opcode()].message is None,
        r@[VersionData::spec_opcode()].category == VersionData::spec_category(),
        r@[VersionData::spec_opcode()].message is None,
{
    let mut map: HashMap<u8, SwordFishMessageBucket> = HashMap::new();
    map.insert(Ping::opcode(), SwordFishMessageBucket::new(Ping::category()));
    map.insert(VersionData::opcode(), SwordFishMessageBucket::new(VersionData::category()));
    assert(map@.dom() =~= set![Ping::spec_opcode(), VersionData::spec_opcode()]);
    map
}

} // verus!
