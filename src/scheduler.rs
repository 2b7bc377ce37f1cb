//! Splitting a list of content hashes into chunks, and turning one chunk into
//! rows of feature vectors.
use vstd::prelude::*;
use crate::hash::ContentHash;
use crate::search::{regex_match, ContentPattern};
use crate::source::{parse_data, source_text, stats_of_parse};
use crate::stats::Stats;
use crate::tree::Module;

verus! {

/// The number of chunks of at most `batch_size` hashes that `total` hashes
/// make.
pub open spec fn chunk_count_spec(total: int, batch_size: int) -> int {
    total / batch_size + if total % batch_size == 0 {
        0int
    } else {
        1int
    }
}

pub fn chunk_count(total: usize, batch_size: usize) -> (r: usize)
    requires
        batch_size > 0,
    ensures
        r == chunk_count_spec(total as int, batch_size as int),
{
    let whole = total / batch_size;
    if total % batch_size == 0 {
        whole
    } else {
        assert(whole < total) by (nonlinear_arith)
            requires
                whole == total / batch_size,
                batch_size > 0,
                total % batch_size != 0,
        ;
        whole + 1
    }
}

/// The chunks of `0..total`, as `(start, end)` ranges: consecutive, each of
/// `batch_size` hashes but the last, which holds what is left.
pub fn chunk_ranges(total: usize, batch_size: usize) -> (r: Vec<(usize, usize)>)
    requires
        batch_size > 0,
    ensures
        total == 0 ==> r@.len() == 0,
        total > 0 ==> r@.len() > 0 && r@[0].0 == 0 && r@.last().1 == total,
        forall|k: int| 0 <= k < r@.len() ==> #[trigger] r@[k].0 < r@[k].1,
        forall|k: int| 0 <= k < r@.len() ==> #[trigger] r@[k].1 - r@[k].0 <= batch_size,
        forall|k: int| 0 <= k < r@.len() - 1 ==> #[trigger] r@[k].1 == r@[k + 1].0,
        forall|k: int| 0 <= k < r@.len() - 1 ==> #[trigger] r@[k].1 - r@[k].0 == batch_size,
{
    let mut r: Vec<(usize, usize)> = Vec::new();
    let mut start: usize = 0;
    while start < total
        invariant
            batch_size > 0,
            start <= total,
            r@.len() == 0 <==> start == 0,
            r@.len() > 0 ==> r@[0].0 == 0 && r@.last().1 == start,
            forall|k: int| 0 <= k < r@.len() ==> #[trigger] r@[k].0 < r@[k].1,
            forall|k: int| 0 <= k < r@.len() ==> #[trigger] r@[k].1 - r@[k].0 <= batch_size,
            forall|k: int| 0 <= k < r@.len() - 1 ==> #[trigger] r@[k].1 == r@[k + 1].0,
            forall|k: int| 0 <= k < r@.len() - 1 ==> #[trigger] r@[k].1 - r@[k].0 == batch_size,
            r@.len() > 0 && start < total ==> r@.last().1 - r@.last().0 == batch_size,
        decreases total - start,
    {
        let end = if total - start > batch_size {
            start + batch_size
        } else {
            total
        };
        r.push((start, end));
        start = end;
    }
    r
}

/// What reading `oid` and parsing its content may give: `None` where the
/// read fails, else the feature vector of the bytes read.
pub open spec fn oid_outcome<R: Fn(&ContentHash) -> Option<Vec<u8>>, P: Fn(&str) -> Option<Module>>(
    read: R,
    parse: P,
    oid: &ContentHash,
    r: Option<Stats>,
) -> bool {
    exists|res: Option<Vec<u8>>|
        read.ensures((oid,), res) && match res {
            None => r is None,
            Some(bytes) => parsed_from(parse, bytes@, r),
        }
}

/// `r` is what `parse_data` gives for `data` with `parse` as the parser.
pub open spec fn parsed_from<P: Fn(&str) -> Option<Module>>(
    parse: P,
    data: Seq<u8>,
    r: Option<Stats>,
) -> bool {
    &&& source_text(data) is None ==> r is None
    &&& source_text(data) is Some ==> exists|s: &str, m: Option<Module>|
        s@ == source_text(data)->Some_0 && parse.ensures((s,), m) && r == stats_of_parse(m)
}

/// Reads the object `oid` with `read` and computes its feature vector;
/// `None` where it cannot be read, decoded or parsed.
pub fn parse_oid<R: Fn(&ContentHash) -> Option<Vec<u8>>, P: Fn(&str) -> Option<Module>>(
    oid: &ContentHash,
    read: &R,
    parse: &P,
) -> (r: Option<Stats>)
    requires
        forall|h: &ContentHash| read.requires((h,)),
        forall|s: &str| parse.requires((s,)),
    ensures
        oid_outcome(*read, *parse, oid, r),
{
    let res = read(oid);
    match res {
        None => None,
        Some(bytes) => parse_data(bytes.as_slice(), parse),
    }
}

/// The row outcome of one entry of a chunk: no row values where the entry is
/// null or not a 20-byte hash, else what reading and parsing it give.
pub open spec fn chunk_row<R: Fn(&ContentHash) -> Option<Vec<u8>>, P: Fn(&str) -> Option<Module>>(
    read: R,
    parse: P,
    entry: Option<Vec<u8>>,
    r: Option<Stats>,
) -> bool {
    match entry {
        None => r is None,
        Some(b) => if b@.len() != 20 {
            r is None
        } else {
            exists|h: &ContentHash| h@ == b@ && oid_outcome(read, parse, h, r)
        },
    }
}

/// One row per entry of the chunk, in order; a failure on one entry gives a
/// `None` row and processing goes on.
pub fn process_chunk<R: Fn(&ContentHash) -> Option<Vec<u8>>, P: Fn(&str) -> Option<Module>>(
    hashes: &Vec<Option<Vec<u8>>>,
    read: &R,
    parse: &P,
) -> (r: Vec<Option<Stats>>)
    requires
        forall|h: &ContentHash| read.requires((h,)),
        forall|s: &str| parse.requires((s,)),
    ensures
        r@.len() == hashes@.len(),
        forall|i: int| 0 <= i < r@.len() ==> chunk_row(*read, *parse, hashes@[i], #[trigger] r@[i]),
{
    let mut rows: Vec<Option<Stats>> = Vec::with_capacity(hashes.len());
    let mut i: usize = 0;
    while i < hashes.len()
        invariant
            forall|h: &ContentHash| read.requires((h,)),
            forall|s: &str| parse.requires((s,)),
            i <= hashes@.len(),
            rows@.len() == i,
            forall|k: int| 0 <= k < i ==> chunk_row(*read, *parse, hashes@[k], #[trigger] rows@[k]),
        decreases hashes.len() - i,
    {
        let row = match &hashes[i] {
            None => None,
            Some(bytes) => match ContentHash::from_bytes(bytes.as_slice()) {
                None => None,
                Some(oid) => {
                    let row = parse_oid(&oid, read, parse);
                    proof {
                        assert(oid_outcome(*read, *parse, &oid, row));
                    }
                    row
                },
            },
        };
        rows.push(row);
        i += 1;
    }
    rows
}

/// What a search of one entry of a chunk may give: false where the entry is
/// null, not a 20-byte hash, or cannot be read; else whether `pattern`
/// matches the bytes read.
pub open spec fn grep_row<R: Fn(&ContentHash) -> Option<Vec<u8>>>(
    read: R,
    pattern: Seq<char>,
    entry: Option<Vec<u8>>,
    r: bool,
) -> bool {
    match entry {
        None => !r,
        Some(b) => if b@.len() != 20 {
            !r
        } else {
            exists|h: &ContentHash, res: Option<Vec<u8>>|
                h@ == b@ && read.ensures((h,), res) && match res {
                    None => !r,
                    Some(data) => r == regex_match(pattern, data@),
                }
        },
    }
}

/// One flag per entry of the chunk: whether the object's contents match
/// `pattern`.
pub fn grep_chunk<R: Fn(&ContentHash) -> Option<Vec<u8>>>(
    hashes: &Vec<Option<Vec<u8>>>,
    read: &R,
    pattern: &ContentPattern,
) -> (r: Vec<bool>)
    requires
        forall|h: &ContentHash| read.requires((h,)),
    ensures
        r@.len() == hashes@.len(),
        forall|i: int| 0 <= i < r@.len() ==> grep_row(*read, pattern.source(), hashes@[i], #[trigger] r@[i]),
{
    let mut found: Vec<bool> = Vec::with_capacity(hashes.len());
    let mut i: usize = 0;
    while i < hashes.len()
        invariant
            forall|h: &ContentHash| read.requires((h,)),
            i <= hashes@.len(),
            found@.len() == i,
            forall|k: int| 0 <= k < i ==> grep_row(*read, pattern.source(), hashes@[k], #[trigger] found@[k]),
        decreases hashes.len() - i,
    {
        let row = match &hashes[i] {
            None => false,
            Some(bytes) => match ContentHash::from_bytes(bytes.as_slice()) {
                None => false,
                Some(oid) => {
                    let res = read(&oid);
                    let r = match &res {
                        None => false,
                        Some(data) => pattern.is_match(data.as_slice()),
                    };
                    proof {
                        assert(read.ensures((&oid,), res) && match res {
                            None => !r,
                            Some(data) => r == regex_match(pattern.source(), data@),
                        });
                    }
                    r
                },
            },
        };
        found.push(row);
        i += 1;
    }
    found
}

} // verus!
