//! Line-ending normalization: `\r\n` and a lone `\r` both become `\n`.
use vstd::prelude::*;

verus! {

pub open spec fn cr() -> u8 {
    13u8
}

pub open spec fn lf() -> u8 {
    10u8
}

/// The bytes with every `\r\n` pair and every other `\r` replaced by `\n`.
pub open spec fn normalized(s: Seq<u8>) -> Seq<u8>
    decreases s.len(),
{
    if s.len() == 0 {
        seq![]
    } else if s[0] == cr() && s.len() > 1 && s[1] == lf() {
        seq![lf()] + normalized(s.subrange(2, s.len() as int))
    } else if s[0] == cr() {
        seq![lf()] + normalized(s.subrange(1, s.len() as int))
    } else {
        seq![s[0]] + normalized(s.subrange(1, s.len() as int))
    }
}

/// Replaces every `\r\n` and every lone `\r` by `\n`.
pub fn normalize(item: &[u8]) -> (r: Vec<u8>)
    ensures
        r@ == normalized(item@),
{
    let n = item.len();
    let mut out: Vec<u8> = Vec::with_capacity(n);
    let mut i: usize = 0;
    proof {
        assert(item@.subrange(0, n as int) =~= item@);
        assert(out@ + normalized(item@) =~= normalized(item@));
    }
    while i < n
        invariant
            n == item@.len(),
            i <= n,
            normalized(item@) == out@ + normalized(item@.subrange(i as int, n as int)),
        decreases n - i,
    {
        let ghost rest = item@.subrange(i as int, n as int);
        let b = item[i];
        if b == 13u8 && i + 1 < n && item[i + 1] == 10u8 {
            proof {
                assert(rest.subrange(2, rest.len() as int) =~= item@.subrange(i + 2, n as int));
            }
            out.push(10u8);
            i += 2;
        } else if b == 13u8 {
            proof {
                assert(rest.subrange(1, rest.len() as int) =~= item@.subrange(i + 1, n as int));
            }
            out.push(10u8);
            i += 1;
        } else {
            proof {
                assert(rest.subrange(1, rest.len() as int) =~= item@.subrange(i + 1, n as int));
            }
            out.push(b);
            i += 1;
        }
    }
    proof {
        assert(item@.subrange(n as int, n as int) =~= Seq::<u8>::empty());
        assert(out@ + Seq::<u8>::empty() =~= out@);
    }
    out
}

} // verus!
