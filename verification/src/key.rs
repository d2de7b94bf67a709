//! 32-byte identities: asset ("mint") identities, owner identities, and
//! derived storage addresses are all values of this shape.

use vstd::prelude::*;

verus! {

broadcast use vstd::array::group_array_axioms;

/// The byte length of every identity and address.
pub const KEY_LEN: usize = 32;

/// A 32-byte identity. Owners, assets and derived node addresses are all
/// keys; a key is compared and stored by value.
#[derive(Clone, Copy, Debug)]
pub struct Key {
    pub bytes: [u8; KEY_LEN],
}

impl View for Key {
    type V = Seq<u8>;

    open spec fn view(&self) -> Seq<u8> {
        self.bytes@
    }
}

impl Key {
    /// Builds a key from its 32 raw bytes.
    pub fn new(bytes: [u8; KEY_LEN]) -> (r: Key)
        ensures
            r@ == bytes@,
            r.bytes == bytes,
    {
        Key { bytes }
    }

    /// Byte-for-byte equality of two keys.
    pub fn equals(&self, other: &Key) -> (r: bool)
        ensures
            r == (self@ == other@),
    {
        let mut i: usize = 0;
        while i < KEY_LEN
            invariant
                i <= KEY_LEN,
                forall|j: int| 0 <= j < i ==> self@[j] == other@[j],
            decreases KEY_LEN - i,
        {
            if self.bytes[i] != other.bytes[i] {
                proof {
                    assert(self@[i as int] != other@[i as int]);
                }
                return false;
            }
            i += 1;
        }
        proof {
            assert(self@ =~= other@);
        }
        true
    }
}

/// Two keys with the same bytes are the same key: the view determines the
/// value.
pub proof fn lemma_key_view_injective(a: Key, b: Key)
    ensures
        (a@ == b@) <==> (a == b),
{
    if a@ == b@ {
        assert(a.bytes =~= b.bytes);
    }
}

} // verus!
