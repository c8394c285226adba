//! Opaque caller identities.
//!
//! The host environment authenticates callers and hands every operation an
//! already-verified identity token. The token is opaque to the ledger: the
//! only thing the logic ever does with it is compare it for equality and
//! store it, so it is modelled as a byte string.

use vstd::prelude::*;

verus! {

/// An opaque, externally authenticated caller token, used as a map/set key.
pub struct Identity {
    pub bytes: Vec<u8>,
}

impl View for Identity {
    type V = Seq<u8>;

    open spec fn view(&self) -> Seq<u8> {
        self.bytes@
    }
}

impl Identity {
    /// Wraps the raw bytes the host environment supplies for a caller.
    pub fn from_bytes(bytes: Vec<u8>) -> (r: Identity)
        ensures
            r@ == bytes@,
    {
        Identity { bytes }
    }

    /// Two identities denote the same caller exactly when their bytes agree.
    pub fn same_as(&self, other: &Identity) -> (r: bool)
        ensures
            r == (self@ == other@),
    {
        if self.bytes.len() != other.bytes.len() {
            assert(self@ != other@);
            return false;
        }
        let n: usize = self.bytes.len();
        let mut i: usize = 0;
        while i < n
            invariant
                n == self@.len() == other@.len(),
                0 <= i <= n,
                forall|j: int| 0 <= j < i ==> self@[j] == other@[j],
            decreases n - i,
        {
            if self.bytes[i] != other.bytes[i] {
                return false;
            }
            i += 1;
        }
        assert(self@ =~= other@);
        true
    }
}

impl Clone for Identity {
    /// A cloned identity denotes the same caller.
    fn clone(&self) -> (r: Self)
        ensures
            r@ == self@,
    {
        let mut bytes: Vec<u8> = Vec::new();
        let n: usize = self.bytes.len();
        let mut i: usize = 0;
        while i < n
            invariant
                n == self@.len(),
                0 <= i <= n,
                bytes@ == self@.take(i as int),
            decreases n - i,
        {
            bytes.push(self.bytes[i]);
            assert(bytes@ =~= self@.take(i + 1));
            i += 1;
        }
        assert(bytes@ =~= self@);
        Identity { bytes }
    }
}

} // verus!
