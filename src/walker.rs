//! The deduplicating walk over a namespace: each content hash is handed on at
//! most once, from the first path that matches.
use vstd::prelude::*;
use crate::hash::ContentHash;

verus! {

#[verifier::external_type_specification]
#[verifier::external_body]
#[verifier::reject_recursive_types(T)]
pub struct ExBloom<T: ?Sized>(bloomfilter::Bloom<T>);

/// The items a Bloom filter reports present: those whose probe bits are all
/// set. Every recorded item is among them, and so are its false positives.
pub uninterp spec fn bloom_items(b: bloomfilter::Bloom<[u8]>) -> Set<Seq<u8>>;

/// Relies on `bloomfilter::Bloom::new`: a filter of `bitmap_size` bytes, all
/// bits clear, for about `items_count` items (at least one probe per item, so
/// no item is reported present), or an error where no random seed could be
/// had. It panics where a size is zero or the size in bits does not
/// fit in a `u64`.
#[verifier::external_body]
fn new_bloom(bitmap_size: usize, items_count: usize) -> (r: Result<
    bloomfilter::Bloom<[u8]>,
    &'static str,
>)
    requires
        0 < bitmap_size <= usize::MAX / 8,
        0 < items_count,
    ensures
        r is Ok ==> bloom_items(r->Ok_0) == Set::<Seq<u8>>::empty(),
{
    bloomfilter::Bloom::new(bitmap_size, items_count)
}

/// Relies on `bloomfilter::Bloom::check_and_set`: returns whether all of the
/// item's probe bits were already set (whether the filter reported it
/// present), then sets them. Bits are only ever set, so what was reported
/// present still is, and now the item too; setting its bits may make other
/// items test present as well.
#[verifier::external_body]
fn bloom_check_and_set(b: &mut bloomfilter::Bloom<[u8]>, item: &[u8]) -> (r: bool)
    ensures
        r == bloom_items(*old(b)).contains(item@),
        bloom_items(*old(b)).insert(item@).subset_of(bloom_items(*final(b))),
{
    b.check_and_set(item)
}

/// The set of hashes already seen in one walk: no false negatives, a bounded
/// rate of false positives.
pub struct DedupFilter {
    bloom: bloomfilter::Bloom<[u8]>,
}

impl DedupFilter {
    /// The hashes the filter reports as seen: every recorded one, and its
    /// false positives.
    pub closed spec fn seen(&self) -> Set<Seq<u8>> {
        bloom_items(self.bloom)
    }

    /// An empty filter of `bitmap_size` bytes sized for `items_count` items;
    /// `None` where no random seed could be had or a size is zero or too large.
    pub fn new(bitmap_size: usize, items_count: usize) -> (r: Option<DedupFilter>)
        ensures
            r is Some ==> r->Some_0.seen() == Set::<Seq<u8>>::empty(),
            (bitmap_size == 0 || items_count == 0 || bitmap_size > usize::MAX / 8) ==> r is None,
    {
        if bitmap_size == 0 || items_count == 0 || bitmap_size > usize::MAX / 8 {
            return None;
        }
        match new_bloom(bitmap_size, items_count) {
            Ok(bloom) => Some(DedupFilter { bloom }),
            Err(_) => None,
        }
    }

    /// Records `item`; returns whether the filter reported it as seen before.
    pub fn check_and_set(&mut self, item: &[u8]) -> (r: bool)
        ensures
            r == old(self).seen().contains(item@),
            old(self).seen().insert(item@).subset_of(final(self).seen()),
    {
        bloom_check_and_set(&mut self.bloom, item)
    }
}

pub enum EntryKind {
    /// A directory and its entries.
    Tree(Vec<Entry>),
    /// A file, by the hash of its content.
    Blob(ContentHash),
}

/// A named entry of a directory.
pub struct Entry {
    pub name: String,
    pub kind: EntryKind,
}

/// A path and the hash of the file found there.
pub type PathHash = (Seq<char>, Seq<u8>);

/// The files under `entries`, in the order of a post-order walk, each with
/// its path below `prefix` (directories joined with `/`).
pub open spec fn files(entries: Seq<Entry>, prefix: Seq<char>) -> Seq<PathHash>
    decreases entries,
{
    if entries.len() == 0 {
        seq![]
    } else {
        files(entries.drop_last(), prefix) + entry_files(entries.last(), prefix)
    }
}

pub open spec fn entry_files(e: Entry, prefix: Seq<char>) -> Seq<PathHash>
    decreases e,
{
    match e.kind {
        EntryKind::Tree(children) => files(children@, prefix + e.name@ + seq!['/']),
        EntryKind::Blob(h) => seq![(prefix + e.name@, h@)],
    }
}

/// The predicate accepts path `p`.
pub open spec fn accepts<F: Fn(&str) -> bool>(f: F, p: Seq<char>) -> bool {
    exists|s: &str| s@ == p && f.ensures((s,), true)
}

/// The hashes of the files in `fs` whose path the predicate accepts.
pub open spec fn accepted_hashes<F: Fn(&str) -> bool>(f: F, fs: Seq<PathHash>) -> Set<Seq<u8>> {
    Set::new(|h: Seq<u8>| exists|i: int| 0 <= i < fs.len() && accepts(f, fs[i].0) && fs[i].1 == h)
}

/// `fs[i]` is accepted, and no accepted file before it has the same hash.
pub open spec fn first_at<F: Fn(&str) -> bool>(f: F, fs: Seq<PathHash>, i: int) -> bool {
    &&& 0 <= i < fs.len()
    &&& accepts(f, fs[i].0)
    &&& forall|j: int| 0 <= j < i ==> !(accepts(f, fs[j].0) && #[trigger] fs[j].1 == fs[i].1)
}

/// The pairs an exact walk hands on: for each accepted hash, the first path
/// at which it is accepted.
pub open spec fn first_accepted<F: Fn(&str) -> bool>(f: F, fs: Seq<PathHash>) -> Set<PathHash> {
    Set::new(|p: PathHash| exists|i: int| first_at(f, fs, i) && fs[i] == p)
}

/// No file of `fs` is accepted.
pub open spec fn none_accepted<F: Fn(&str) -> bool>(f: F, fs: Seq<PathHash>) -> bool {
    forall|j: int| 0 <= j < fs.len() ==> !accepts(f, #[trigger] fs[j].0)
}

/// `fs[i]` is the first file of `fs` that is accepted.
pub open spec fn lead_at<F: Fn(&str) -> bool>(f: F, fs: Seq<PathHash>, i: int) -> bool {
    &&& 0 <= i < fs.len()
    &&& accepts(f, fs[i].0)
    &&& forall|j: int| 0 <= j < i ==> !accepts(f, #[trigger] fs[j].0)
}

/// The predicate gives one answer per path.
pub open spec fn deterministic<F: Fn(&str) -> bool>(f: F) -> bool {
    forall|s1: &str, s2: &str, a: bool, b: bool|
        s1@ == s2@ && f.ensures((s1,), a) && f.ensures((s2,), b) ==> a == b
}

pub open spec fn out_view(out: Seq<(String, ContentHash)>) -> Seq<PathHash> {
    out.map_values(|x: (String, ContentHash)| (x.0@, x.1@))
}

/// Every pair handed on so far is recorded in the filter, and no hash is
/// handed on twice.
pub open spec fn walk_inv(out: Seq<PathHash>, seen: Set<Seq<u8>>) -> bool {
    &&& forall|k: int| 0 <= k < out.len() ==> seen.contains(#[trigger] out[k].1)
    &&& forall|k1: int, k2: int|
        0 <= k1 < k2 < out.len() ==> #[trigger] out[k1].1 != #[trigger] out[k2].1
}

proof fn lemma_accepted_concat<F: Fn(&str) -> bool>(f: F, a: Seq<PathHash>, b: Seq<PathHash>)
    ensures
        accepted_hashes(f, a + b) == accepted_hashes(f, a).union(accepted_hashes(f, b)),
{
    let ab = a + b;
    assert forall|h: Seq<u8>| accepted_hashes(f, ab).contains(h) implies accepted_hashes(
        f,
        a,
    ).union(accepted_hashes(f, b)).contains(h) by {
        let i = choose|i: int| 0 <= i < ab.len() && accepts(f, ab[i].0) && ab[i].1 == h;
        if i >= a.len() {
            assert(b[i - a.len()] == ab[i]);
        }
    }
    assert forall|h: Seq<u8>| accepted_hashes(f, a).union(accepted_hashes(f, b)).contains(h) implies accepted_hashes(
        f,
        ab,
    ).contains(h) by {
        if accepted_hashes(f, a).contains(h) {
            let i = choose|i: int| 0 <= i < a.len() && accepts(f, a[i].0) && a[i].1 == h;
            assert(ab[i] == a[i]);
        } else {
            let i = choose|i: int| 0 <= i < b.len() && accepts(f, b[i].0) && b[i].1 == h;
            assert(ab[i + a.len()] == b[i]);
        }
    }
    assert(accepted_hashes(f, ab) =~= accepted_hashes(f, a).union(accepted_hashes(f, b)));
}

proof fn lemma_files_step(entries: Seq<Entry>, prefix: Seq<char>, i: int)
    requires
        0 <= i < entries.len(),
    ensures
        files(entries.subrange(0, i + 1), prefix) == files(entries.subrange(0, i), prefix)
            + entry_files(entries[i], prefix),
{
    assert(entries.subrange(0, i + 1).drop_last() =~= entries.subrange(0, i));
}

proof fn lemma_first_prefix<F: Fn(&str) -> bool>(f: F, fs: Seq<PathHash>, es: Seq<PathHash>, i: int)
    requires
        first_at(f, fs, i),
    ensures
        first_at(f, fs + es, i),
        (fs + es)[i] == fs[i],
{
    assert forall|j: int| 0 <= j < i implies (fs + es)[j] == fs[j] by {}
}

proof fn lemma_first_suffix<F: Fn(&str) -> bool>(
    f: F,
    fs: Seq<PathHash>,
    es: Seq<PathHash>,
    i: int,
    seen: Set<Seq<u8>>,
)
    requires
        first_at(f, es, i),
        !seen.contains(es[i].1),
        accepted_hashes(f, fs).subset_of(seen),
    ensures
        first_at(f, fs + es, fs.len() + i),
        (fs + es)[fs.len() + i] == es[i],
{
    let all = fs + es;
    let n = fs.len() as int;
    assert(all[n + i] == es[i]);
    assert forall|j: int| 0 <= j < n + i implies !(accepts(f, all[j].0) && #[trigger] all[j].1
        == all[n + i].1) by {
        if j < n {
            assert(all[j] == fs[j]);
            if accepts(f, fs[j].0) && fs[j].1 == es[i].1 {
                assert(accepted_hashes(f, fs).contains(es[i].1));
            }
        } else {
            assert(all[j] == es[j - n]);
        }
    }
}

proof fn lemma_lead_split<F: Fn(&str) -> bool>(f: F, fs: Seq<PathHash>, es: Seq<PathHash>, k: int)
    requires
        lead_at(f, fs + es, k),
    ensures
        k < fs.len() ==> lead_at(f, fs, k) && (fs + es)[k] == fs[k],
        k >= fs.len() ==> none_accepted(f, fs) && lead_at(f, es, k - fs.len()) && (fs + es)[k]
            == es[k - fs.len()],
{
    let all = fs + es;
    if k < fs.len() {
        assert forall|j: int| 0 <= j < k implies !accepts(f, #[trigger] fs[j].0) by {
            assert(all[j] == fs[j]);
        }
    } else {
        assert forall|j: int| 0 <= j < fs.len() implies !accepts(f, #[trigger] fs[j].0) by {
            assert(all[j] == fs[j]);
        }
        assert forall|j: int| 0 <= j < k - fs.len() implies !accepts(f, #[trigger] es[j].0) by {
            assert(all[j + fs.len()] == es[j]);
        }
    }
}

proof fn lemma_none_split<F: Fn(&str) -> bool>(f: F, fs: Seq<PathHash>, es: Seq<PathHash>)
    requires
        none_accepted(f, fs + es),
    ensures
        none_accepted(f, fs),
        none_accepted(f, es),
{
    let all = fs + es;
    assert forall|j: int| 0 <= j < fs.len() implies !accepts(f, #[trigger] fs[j].0) by {
        assert(all[j] == fs[j]);
    }
    assert forall|j: int| 0 <= j < es.len() implies !accepts(f, #[trigger] es[j].0) by {
        assert(all[j + fs.len()] == es[j]);
    }
}

/// Walks `entries` below `prefix`, handing on each accepted file whose hash
/// the filter has not seen.
fn walk_entries<F: Fn(&str) -> bool>(
    entries: &Vec<Entry>,
    prefix: &String,
    matches: &F,
    filter: &mut DedupFilter,
    out: &mut Vec<(String, ContentHash)>,
)
    requires
        forall|s: &str| matches.requires((s,)),
        deterministic(*matches),
        walk_inv(out_view(old(out)@), old(filter).seen()),
    ensures
        walk_inv(out_view(final(out)@), final(filter).seen()),
        final(out)@.len() >= old(out)@.len(),
        final(out)@.subrange(0, old(out)@.len() as int) == old(out)@,
        forall|k: int|
            old(out)@.len() <= k < final(out)@.len() ==> {
                &&& first_accepted(*matches, files(entries@, prefix@)).contains(
                    #[trigger] out_view(final(out)@)[k],
                )
                &&& accepts(*matches, out_view(final(out)@)[k].0)
                &&& !old(filter).seen().contains(out_view(final(out)@)[k].1)
            },
        old(filter).seen().union(accepted_hashes(*matches, files(entries@, prefix@))).subset_of(
            final(filter).seen(),
        ),
        none_accepted(*matches, files(entries@, prefix@)) ==> final(filter).seen() == old(
            filter,
        ).seen() && final(out)@ == old(out)@,
        forall|i: int|
            lead_at(*matches, files(entries@, prefix@), i) && !old(filter).seen().contains(
                files(entries@, prefix@)[i].1,
            ) ==> final(out)@.len() > old(out)@.len() && out_view(final(out)@)[old(out)@.len() as int]
                == files(entries@, prefix@)[i],
    decreases entries,
{
    let ghost out0 = out@;
    let ghost seen0 = filter.seen();
    let mut i: usize = 0;
    proof {
        assert(files(entries@.subrange(0, 0), prefix@) =~= Seq::<PathHash>::empty());
        assert(accepted_hashes(*matches, Seq::<PathHash>::empty()) =~= Set::<Seq<u8>>::empty());
        assert(seen0.union(Set::<Seq<u8>>::empty()) =~= seen0);
        assert(seen0.subset_of(filter.seen()));
        assert(out@.subrange(0, out0.len() as int) =~= out0);
    }
    while i < entries.len()
        invariant
            forall|s: &str| matches.requires((s,)),
            deterministic(*matches),
            i <= entries@.len(),
            walk_inv(out_view(out@), filter.seen()),
            out@.len() >= out0.len(),
            out@.subrange(0, out0.len() as int) == out0,
            forall|k: int|
                out0.len() <= k < out@.len() ==> {
                    &&& first_accepted(*matches, files(entries@.subrange(0, i as int), prefix@)).contains(
                        #[trigger] out_view(out@)[k],
                    )
                    &&& accepts(*matches, out_view(out@)[k].0)
                    &&& !seen0.contains(out_view(out@)[k].1)
                },
            seen0.union(
                accepted_hashes(*matches, files(entries@.subrange(0, i as int), prefix@)),
            ).subset_of(filter.seen()),
            none_accepted(*matches, files(entries@.subrange(0, i as int), prefix@)) ==> filter.seen()
                == seen0 && out@ == out0,
            forall|k: int|
                lead_at(*matches, files(entries@.subrange(0, i as int), prefix@), k)
                    && !seen0.contains(files(entries@.subrange(0, i as int), prefix@)[k].1)
                    ==> out@.len() > out0.len() && out_view(out@)[out0.len() as int] == files(
                    entries@.subrange(0, i as int),
                    prefix@,
                )[k],
        decreases entries.len() - i,
    {
        let ghost fs = files(entries@.subrange(0, i as int), prefix@);
        let ghost es = entry_files(entries@[i as int], prefix@);
        let ghost out_i = out@;
        let ghost seen_i = filter.seen();
        proof {
            lemma_files_step(entries@, prefix@, i as int);
            lemma_accepted_concat(*matches, fs, es);
        }
        let entry = &entries[i];
        match &entry.kind {
            EntryKind::Tree(children) => {
                let mut sub = prefix.clone();
                sub.append(entry.name.as_str());
                sub.append("/");
                proof {
                    reveal_strlit("/");
                    assert(sub@ == prefix@ + entry.name@ + seq!['/']);
                    assert(es == files(children@, sub@));
                }
                walk_entries(children, &sub, matches, filter, out);
                proof {
                    assert forall|k: int| out0.len() <= k < out@.len() implies {
                        &&& first_accepted(*matches, fs + es).contains(#[trigger] out_view(out@)[k])
                        &&& accepts(*matches, out_view(out@)[k].0)
                        &&& !seen0.contains(out_view(out@)[k].1)
                    } by {
                        if k < out_i.len() {
                            assert(out@[k] == out_i[k]);
                            assert(out_view(out@)[k] == out_view(out_i)[k]);
                            let j = choose|j: int| first_at(*matches, fs, j) && fs[j] == out_view(out_i)[k];
                            lemma_first_prefix(*matches, fs, es, j);
                        } else {
                            let j = choose|j: int| first_at(*matches, es, j) && es[j] == out_view(out@)[k];
                            lemma_first_suffix(*matches, fs, es, j, seen_i);
                        }
                    }
                    assert(seen0.union(accepted_hashes(*matches, fs + es)).subset_of(filter.seen()));
                    assert forall|k: int|
                        lead_at(*matches, fs + es, k) && !seen0.contains((fs + es)[k].1) implies out@.len()
                        > out0.len() && out_view(out@)[out0.len() as int] == (fs + es)[k] by {
                        lemma_lead_split(*matches, fs, es, k);
                        if k < fs.len() {
                            assert(out@.subrange(0, out_i.len() as int)[out0.len() as int]
                                == out_i[out0.len() as int]);
                        }
                    }
                    if none_accepted(*matches, fs + es) {
                        lemma_none_split(*matches, fs, es);
                    }
                }
            },
            EntryKind::Blob(h) => {
                let mut path = prefix.clone();
                path.append(entry.name.as_str());
                let p = path.as_str();
                let accepted = matches(p);
                proof {
                    assert(es == seq![(path@, h@)]);
                }
                if accepted {
                    let seen_before = filter.check_and_set(h.as_bytes());
                    proof {
                        assert(p@ == path@ && matches.ensures((p,), true));
                        assert(accepts(*matches, path@));
                        assert(es[0] == (path@, h@));
                        assert(accepted_hashes(*matches, es) =~= set![h@]);
                    }
                    if !seen_before {
                        out.push((path, h.duplicate()));
                        proof {
                            assert(out_view(out@) =~= out_view(out_i).push((path@, h@)));
                            assert((fs + es)[fs.len() as int] == (path@, h@));
                        }
                    }
                    proof {
                        assert forall|k: int| out0.len() <= k < out@.len() implies {
                            &&& first_accepted(*matches, fs + es).contains(#[trigger] out_view(out@)[k])
                            &&& accepts(*matches, out_view(out@)[k].0)
                            &&& !seen0.contains(out_view(out@)[k].1)
                        } by {
                            if k < out_i.len() {
                                assert(out_view(out@)[k] == out_view(out_i)[k]);
                                let j = choose|j: int| first_at(*matches, fs, j) && fs[j] == out_view(out_i)[k];
                                lemma_first_prefix(*matches, fs, es, j);
                            } else {
                                assert(first_at(*matches, es, 0));
                                lemma_first_suffix(*matches, fs, es, 0, seen_i);
                            }
                        }
                        assert(seen0.union(accepted_hashes(*matches, fs + es)).subset_of(filter.seen()));
                        assert forall|k: int|
                            lead_at(*matches, fs + es, k) && !seen0.contains((fs + es)[k].1) implies out@.len()
                            > out0.len() && out_view(out@)[out0.len() as int] == (fs + es)[k] by {
                            lemma_lead_split(*matches, fs, es, k);
                            if k < fs.len() {
                                assert(out@.subrange(0, out_i.len() as int)[out0.len() as int]
                                    == out_i[out0.len() as int]);
                            }
                        }
                        if none_accepted(*matches, fs + es) {
                            lemma_none_split(*matches, fs, es);
                        }
                    }
                } else {
                    proof {
                        assert(accepted_hashes(*matches, es) =~= Set::<Seq<u8>>::empty());
                        assert forall|k: int| out0.len() <= k < out@.len() implies {
                            &&& first_accepted(*matches, fs + es).contains(#[trigger] out_view(out@)[k])
                            &&& accepts(*matches, out_view(out@)[k].0)
                            &&& !seen0.contains(out_view(out@)[k].1)
                        } by {
                            let j = choose|j: int| first_at(*matches, fs, j) && fs[j] == out_view(out@)[k];
                            lemma_first_prefix(*matches, fs, es, j);
                        }
                        assert(seen0.union(accepted_hashes(*matches, fs + es)).subset_of(filter.seen()));
                        assert forall|k: int|
                            lead_at(*matches, fs + es, k) && !seen0.contains((fs + es)[k].1) implies out@.len()
                            > out0.len() && out_view(out@)[out0.len() as int] == (fs + es)[k] by {
                            lemma_lead_split(*matches, fs, es, k);
                            if k < fs.len() {
                                assert(out@.subrange(0, out_i.len() as int)[out0.len() as int]
                                    == out_i[out0.len() as int]);
                            }
                        }
                        if none_accepted(*matches, fs + es) {
                            lemma_none_split(*matches, fs, es);
                        }
                    }
                }
            },
        }
        i += 1;
        proof {
            assert(out@.subrange(0, out0.len() as int) =~= out0);
        }
    }
    proof {
        assert(entries@.subrange(0, entries@.len() as int) =~= entries@);
    }
}

/// Walks the namespace rooted at `root` in post-order and hands on
/// `(path, hash)` for each file whose path `matches` accepts and whose hash
/// `filter` does not report as seen: the first such path of each hash wins,
/// later ones are dropped, and so are the rare hashes the filter wrongly
/// reports as seen. The first accepted file always goes through unless the
/// filter reported its hash before the walk (never, for a fresh filter).
pub fn walk<F: Fn(&str) -> bool>(root: &Vec<Entry>, matches: &F, filter: &mut DedupFilter) -> (r: Vec<
    (String, ContentHash),
>)
    requires
        forall|s: &str| matches.requires((s,)),
        deterministic(*matches),
    ensures
        forall|k: int|
            0 <= k < r@.len() ==> {
                &&& first_accepted(*matches, files(root@, seq![])).contains(#[trigger] out_view(r@)[k])
                &&& accepts(*matches, out_view(r@)[k].0)
                &&& !old(filter).seen().contains(out_view(r@)[k].1)
            },
        forall|k1: int, k2: int|
            0 <= k1 < k2 < r@.len() ==> #[trigger] out_view(r@)[k1].1 != #[trigger] out_view(
                r@,
            )[k2].1,
        old(filter).seen().union(accepted_hashes(*matches, files(root@, seq![]))).subset_of(
            final(filter).seen(),
        ),
        none_accepted(*matches, files(root@, seq![])) ==> r@.len() == 0 && final(filter).seen()
            == old(filter).seen(),
        forall|i: int|
            lead_at(*matches, files(root@, seq![]), i) && !old(filter).seen().contains(
                files(root@, seq![])[i].1,
            ) ==> r@.len() > 0 && out_view(r@)[0] == files(root@, seq![])[i],
{
    let mut out: Vec<(String, ContentHash)> = Vec::new();
    let prefix = String::new();
    proof {
        assert(out_view(out@) =~= Seq::<PathHash>::empty());
        assert(prefix@ =~= Seq::<char>::empty());
    }
    walk_entries(root, &prefix, matches, filter, &mut out);
    proof {
        assert(out@.subrange(0, 0) =~= Seq::<(String, ContentHash)>::empty());
    }
    out
}

/// What a walk of `root` with predicate `f` hands on when its filter reports
/// no false positive: only first accepted occurrences, and every accepted
/// hash.
pub open spec fn exact_walk_output<F: Fn(&str) -> bool>(
    f: F,
    root: Seq<Entry>,
    out: Seq<PathHash>,
) -> bool {
    let fs = files(root, seq![]);
    &&& forall|k: int| 0 <= k < out.len() ==> first_accepted(f, fs).contains(#[trigger] out[k])
    &&& forall|h: Seq<u8>|
        accepted_hashes(f, fs).contains(h) ==> exists|k: int| 0 <= k < out.len() && #[trigger] out[k].1 == h
}

proof fn lemma_first_unique<F: Fn(&str) -> bool>(f: F, fs: Seq<PathHash>, i1: int, i2: int)
    requires
        first_at(f, fs, i1),
        first_at(f, fs, i2),
        fs[i1].1 == fs[i2].1,
    ensures
        i1 == i2,
{
    if i1 < i2 {
        assert(!(accepts(f, fs[i1].0) && fs[i1].1 == fs[i2].1));
    } else if i2 < i1 {
        assert(!(accepts(f, fs[i2].0) && fs[i2].1 == fs[i1].1));
    }
}

/// Two walks of the same namespace with fresh filters, neither of which met
/// a false positive, hand on the same set of pairs: for each accepted hash,
/// the first path at which the predicate accepts it. The hash set recorded
/// by a fresh filter after a walk is that of the namespace alone (see the
/// `ensures` of `walk`), so nothing carries over from one walk to another.
pub proof fn lemma_exact_walks_agree<F: Fn(&str) -> bool>(
    f: F,
    root: Seq<Entry>,
    out1: Seq<PathHash>,
    out2: Seq<PathHash>,
)
    requires
        exact_walk_output(f, root, out1),
        exact_walk_output(f, root, out2),
    ensures
        out1.to_set() == first_accepted(f, files(root, seq![])),
        out1.to_set() == out2.to_set(),
{
    lemma_exact_output_set(f, root, out1);
    lemma_exact_output_set(f, root, out2);
}

proof fn lemma_exact_output_set<F: Fn(&str) -> bool>(f: F, root: Seq<Entry>, out: Seq<PathHash>)
    requires
        exact_walk_output(f, root, out),
    ensures
        out.to_set() == first_accepted(f, files(root, seq![])),
{
    let fs = files(root, seq![]);
    assert forall|p: PathHash| first_accepted(f, fs).contains(p) implies out.to_set().contains(p) by {
        let i = choose|i: int| first_at(f, fs, i) && fs[i] == p;
        assert(accepted_hashes(f, fs).contains(p.1));
        let k = choose|k: int| 0 <= k < out.len() && #[trigger] out[k].1 == p.1;
        assert(first_accepted(f, fs).contains(out[k]));
        let i2 = choose|i2: int| first_at(f, fs, i2) && fs[i2] == out[k];
        lemma_first_unique(f, fs, i, i2);
        assert(out.contains(p));
    }
    assert forall|p: PathHash| out.to_set().contains(p) implies first_accepted(f, fs).contains(p) by {
        let k = choose|k: int| 0 <= k < out.len() && out[k] == p;
    }
    assert(out.to_set() =~= first_accepted(f, fs));
}

} // verus!
