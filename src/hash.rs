//! Content hashes: 20 raw bytes, written as 40 lowercase hex digits.
use vstd::prelude::*;

verus! {

/// The number of bytes in a content hash.
pub const HASH_LEN: usize = 20;

/// The identifier of a stored object.
#[derive(Debug)]
pub struct ContentHash {
    bytes: Vec<u8>,
}

impl View for ContentHash {
    type V = Seq<u8>;

    closed spec fn view(&self) -> Seq<u8> {
        self.bytes@
    }
}

pub open spec fn hex_digit(d: int) -> char {
    "0123456789abcdef"@[d]
}

/// The bytes as hex, two lowercase digits per byte, high digit first.
pub open spec fn hex_of(b: Seq<u8>) -> Seq<char>
    decreases b.len(),
{
    if b.len() == 0 {
        seq![]
    } else {
        hex_of(b.drop_last()) + seq![
            hex_digit(b.last() as int / 16),
            hex_digit(b.last() as int % 16),
        ]
    }
}

impl ContentHash {
    pub closed spec fn wf(&self) -> bool {
        self.bytes@.len() == 20
    }

    /// The hash held in `bytes`; `None` unless there are exactly 20 of them.
    pub fn from_bytes(bytes: &[u8]) -> (r: Option<ContentHash>)
        ensures
            r is Some <==> bytes@.len() == 20,
            r is Some ==> r->Some_0@ == bytes@ && r->Some_0.wf(),
    {
        if bytes.len() != HASH_LEN {
            return None;
        }
        let mut v: Vec<u8> = Vec::with_capacity(HASH_LEN);
        let mut i: usize = 0;
        while i < bytes.len()
            invariant
                i <= bytes@.len(),
                v@ == bytes@.subrange(0, i as int),
            decreases bytes.len() - i,
        {
            v.push(bytes[i]);
            i += 1;
            assert(v@ =~= bytes@.subrange(0, i as int));
        }
        assert(v@ =~= bytes@);
        Some(ContentHash { bytes: v })
    }

    /// A second hash equal to this one.
    pub fn duplicate(&self) -> (r: ContentHash)
        ensures
            r@ == self@,
            r.wf() == self.wf(),
    {
        let bytes = self.bytes.clone();
        assert(bytes@ =~= self.bytes@);
        ContentHash { bytes }
    }

    /// The raw bytes.
    pub fn as_bytes(&self) -> (r: &[u8])
        ensures
            r@ == self@,
    {
        self.bytes.as_slice()
    }

    /// The hash as 40 lowercase hex digits.
    pub fn to_hex(&self) -> (r: String)
        ensures
            r@ == hex_of(self@),
    {
        let digits = "0123456789abcdef";
        proof {
            reveal_strlit("0123456789abcdef");
        }
        let mut s = String::new();
        let mut i: usize = 0;
        while i < self.bytes.len()
            invariant
                i <= self.bytes@.len(),
                digits@ == "0123456789abcdef"@,
                digits@.len() == 16,
                s@ == hex_of(self.bytes@.subrange(0, i as int)),
            decreases self.bytes.len() - i,
        {
            let b = self.bytes[i];
            let hi = (b / 16) as usize;
            let lo = (b % 16) as usize;
            s.append(digits.substring_char(hi, hi + 1));
            s.append(digits.substring_char(lo, lo + 1));
            proof {
                let sub = self.bytes@.subrange(0, i + 1);
                assert(sub.drop_last() =~= self.bytes@.subrange(0, i as int));
                assert(s@ =~= hex_of(sub));
            }
            i += 1;
        }
        assert(self.bytes@.subrange(0, self.bytes@.len() as int) =~= self.bytes@);
        s
    }
}

} // verus!
