use vstd::prelude::*;

verus! {

/// A participant's public key, held as its raw 32 bytes.
///
/// The all-zero key is the "no participant" sentinel, which also stands for
/// the automated opponent.
#[derive(Clone, Copy, Debug, Eq)]
pub struct PlayerKey {
    pub bytes: [u8; 32],
}

impl PlayerKey {
    pub fn new(bytes: [u8; 32]) -> (r: PlayerKey)
        ensures
            r.bytes == bytes,
    {
        PlayerKey { bytes }
    }

    /// The sentinel key: every byte zero.
    pub open spec fn is_unassigned(&self) -> bool {
        self.bytes@ == Seq::new(32, |i: int| 0u8)
    }

    pub fn unassigned() -> (r: PlayerKey)
        ensures
            r.is_unassigned(),
    {
        let r = PlayerKey { bytes: [0u8; 32] };
        assert(r.bytes@ =~= Seq::new(32, |i: int| 0u8));
        r
    }

    pub fn to_bytes(&self) -> (r: [u8; 32])
        ensures
            r == self.bytes,
    {
        self.bytes
    }
}

impl PartialEq for PlayerKey {
    fn eq(&self, other: &PlayerKey) -> (r: bool) {
        let mut i: usize = 0;
        while i < 32
            invariant
                0 <= i <= 32,
                forall|j: int| 0 <= j < i ==> self.bytes[j] == other.bytes[j],
            decreases 32 - i,
        {
            if self.bytes[i] != other.bytes[i] {
                return false;
            }
            i = i + 1;
        }
        assert(self.bytes =~= other.bytes);
        true
    }
}

impl vstd::std_specs::cmp::PartialEqSpecImpl for PlayerKey {
    open spec fn obeys_eq_spec() -> bool {
        true
    }

    open spec fn eq_spec(&self, other: &PlayerKey) -> bool {
        *self == *other
    }
}


} // verus!
