//! The call surface handed to external bindings: the identity record's
//! constructor and field accessors, under the name the binding layers use.
use vstd::prelude::*;
use crate::VersionDataMessage;
use crate::swordfish_messages::padded_uuid;

verus! {

broadcast use vstd::array::group_array_axioms;

impl VersionDataMessage {
    /// Build a record, truncating or zero-padding the identifier to eight
    /// bytes.
    pub fn new(version: u8, subversion: u8, mcu_type: u32, uuid: &[u8]) -> (r: Self)
        ensures
            r.version == version,
            r.subversion == subversion,
            r.mcu_type == mcu_type,
            r.uuid@ == padded_uuid(uuid@),
    {
        let mut r = VersionDataMessage {
            version,
            subversion,
            mcu_type,
            uuid: vstd::array::array_fill_for_copy_types::<u8, 8>(0),
        };
        r.set_uuid(uuid);
        r
    }

    pub fn get_version(&self) -> (r: u8)
        ensures
            r == self.version,
    {
        self.version
    }

    pub fn get_subversion(&self) -> (r: u8)
        ensures
            r == self.subversion,
    {
        self.subversion
    }

    pub fn get_mcu_type(&self) -> (r: u32)
        ensures
            r == self.mcu_type,
    {
        self.mcu_type
    }

    pub fn get_uuid(&self) -> (r: Vec<u8>)
        ensures
            r@ == self.uuid@,
    {
        vstd::slice::slice_to_vec(self.uuid.as_slice())
    }

    pub fn set_version(&mut self, version: u8)
        ensures
            *final(self) == (VersionDataMessage { version, ..*old(self) }),
    {
        self.version = version;
    }

    pub fn set_subversion(&mut self, subversion: u8)
        ensures
            *final(self) == (VersionDataMessage { subversion, ..*old(self) }),
    {
        self.subversion = subversion;
    }

    pub fn set_mcu_type(&mut self, mcu_type: u32)
        ensures
            *final(self) == (VersionDataMessage { mcu_type, ..*old(self) }),
    {
        self.mcu_type = mcu_type;
    }

    /// Replace the identifier, truncating or zero-padding the given slice to
    /// eight bytes.
    pub fn set_uuid(&mut self, uuid: &[u8])
        ensures
            final(self).version == old(self).version,
            final(self).subversion == old(self).subversion,
            final(self).mcu_type == old(self).mcu_type,
            final(self).uuid@ == padded_uuid(uuid@),
    {
        self.uuid = vstd::array::array_fill_for_copy_types::<u8, 8>(0);
        let n = if uuid.len() < 8 {
            uuid.len()
        } else {
            8
        };
        let mut i: usize = 0;
        while i < n
            invariant
                i <= n,
                n <= 8,
                n <= uuid@.len(),
                n == (if uuid@.len() < 8 { uuid@.len() as int } else { 8int }),
                self.version == old(self).version,
                self.subversion == old(self).subversion,
                self.mcu_type == old(self).mcu_type,
                self.uuid@.len() == 8,
                forall|j: int| 0 <= j < i ==> self.uuid@[j] == uuid@[j],
                forall|j: int| i <= j < 8 ==> self.uuid@[j] == 0u8,
            decreases n - i,
        {
            self.uuid[i] = uuid[i];
            i = i + 1;
        }
        assert(self.uuid@ =~= padded_uuid(uuid@));
    }
}

} // verus!
