//! Fixed-size account identities ("addresses", public keys).

use vstd::prelude::*;

verus! {

/// Number of bytes in an account identity.
pub const ADDRESS_BYTES: usize = 32;

/// A fixed-size account identity: 32 raw bytes.
#[derive(Debug)]
pub struct Address {
    pub bytes: Vec<u8>,
}

impl View for Address {
    type V = Seq<u8>;

    open spec fn view(&self) -> Seq<u8> {
        self.bytes@
    }
}

impl Address {
    /// An address is well formed when it holds exactly 32 bytes.
    pub open spec fn wf(&self) -> bool {
        self.bytes@.len() == ADDRESS_BYTES
    }

    /// Builds an address from raw bytes; rejects any length other than 32.
    pub fn from_bytes(bytes: Vec<u8>) -> (r: Option<Address>)
        ensures
            match r {
                Some(a) => a.wf() && a@ == bytes@,
                None => bytes@.len() != ADDRESS_BYTES,
            },
    {
        if bytes.len() == ADDRESS_BYTES {
            Some(Address { bytes })
        } else {
            None
        }
    }

    /// Byte-for-byte equality of two addresses.
    pub fn same_as(&self, other: &Address) -> (r: bool)
        ensures
            r == (self@ == other@),
    {
        let r = self.bytes == other.bytes;
        proof {
            if r {
                assert(self.bytes@ =~= other.bytes@);
            }
        }
        r
    }
}

impl Clone for Address {
    fn clone(&self) -> (r: Self)
        ensures
            r@ == self@,
    {
        Address { bytes: copy_bytes(&self.bytes) }
    }
}

/// Copies a byte vector element by element.
pub fn copy_bytes(src: &Vec<u8>) -> (r: Vec<u8>)
    ensures
        r@ == src@,
{
    let mut out: Vec<u8> = Vec::new();
    let n = src.len();
    let mut i: usize = 0;
    while i < n
        invariant
            i <= n,
            n == src@.len(),
            out@ == src@.subrange(0, i as int),
        decreases n - i,
    {
        out.push(src[i]);
        proof {
            assert(out@ =~= src@.subrange(0, i + 1));
        }
        i = i + 1;
    }
    proof {
        assert(out@ =~= src@);
    }
    out
}

} // verus!
