//! Where matched file contents go: one JSON line each on standard output, or
//! one file each under a directory sharded by hash prefix.
use vstd::prelude::*;
use crate::hash::{hex_of, ContentHash};
use crate::line_endings::{normalize, normalized};
use crate::search::{contents_match, contents_wanted, ContentPattern};
use crate::source::utf8_decode;

verus! {

/// The text of `bytes` read as UTF-8, each invalid sequence replaced by
/// U+FFFD.
pub uninterp spec fn utf8_lossy(bytes: Seq<u8>) -> Seq<char>;

/// Relies on `String::from_utf8_lossy`: the bytes as text with each invalid
/// sequence replaced by U+FFFD; valid UTF-8 is taken as it is.
#[verifier::external_body]
fn decode_lossy(bytes: &[u8]) -> (r: String)
    ensures
        r@ == utf8_lossy(bytes@),
        utf8_decode(bytes@) is Some ==> r@ == utf8_decode(bytes@)->Some_0,
{
    String::from_utf8_lossy(bytes).into_owned()
}

/// Bytes of JSON lines held before they are handed out to be written.
pub const BUFFER_SIZE: usize = 52428800;

pub enum OutputMode {
    Json,
    /// The root directory of the sharded layout.
    Directory(String),
}

/// A matched, deduplicated file: its hash in hex, its path, its text.
pub struct Payload {
    pub oid: String,
    pub path: String,
    pub contents: String,
}

/// The payload of a file found at `path`: its hash in hex, and its contents
/// with line endings normalized, as text.
pub fn make_payload(hash: &ContentHash, path: String, contents: &[u8]) -> (r: Payload)
    ensures
        r.oid@ == hex_of(hash@),
        r.path@ == path@,
        r.contents@ == utf8_lossy(normalized(contents@)),
{
    let normalized_bytes = normalize(contents);
    Payload { oid: hash.to_hex(), path, contents: decode_lossy(normalized_bytes.as_slice()) }
}

/// The payload of a file whose raw contents are of interest (see
/// `contents_match`); `None` for one that is not.
pub fn select_payload(
    hash: &ContentHash,
    path: String,
    contents: &[u8],
    search_contents: Option<&ContentPattern>,
) -> (r: Option<Payload>)
    ensures
        r is Some <==> contents_wanted(search_contents, contents@),
        r matches Some(p) ==> {
            &&& p.oid@ == hex_of(hash@)
            &&& p.path@ == path@
            &&& p.contents@ == utf8_lossy(normalized(contents@))
        },
{
    if contents_match(search_contents, contents) {
        Some(make_payload(hash, path, contents))
    } else {
        None
    }
}

/// What the caller must do after a push.
pub enum PushAction {
    /// Nothing: the line was buffered.
    Buffered,
    /// The buffer is full: write out what `flush` hands back.
    Flush,
    /// Create directory `dir`, write the contents to `file` in it, and add
    /// `record` (the hash and the path it was found at) to the side record.
    Write { dir: String, file: String, record: String },
}

pub struct OutputDriver {
    mode: OutputMode,
    buffer: Vec<u8>,
    pub matches: usize,
}

/// `<root>/<hash[0:3]>/<hash[3:5]>`: the directory that holds a file.
pub open spec fn shard_dir(root: Seq<char>, oid: Seq<char>) -> Seq<char> {
    root + seq!['/'] + oid.subrange(0, 3) + seq!['/'] + oid.subrange(3, 5)
}

/// `<root>/<hash[0:3]>/<hash[3:5]>/<hash>`: where a file's contents go.
pub open spec fn shard_file(root: Seq<char>, oid: Seq<char>) -> Seq<char> {
    shard_dir(root, oid) + seq!['/'] + oid
}

/// The side record of a file written out: its hash and the path it was found at,
/// separated by a tab, as one line.
pub open spec fn side_record(oid: Seq<char>, path: Seq<char>) -> Seq<char> {
    oid + seq!['\t'] + path + seq!['\n']
}

/// The directory and file of `oid` under `root`.
pub fn shard_paths(root: &String, oid: &String) -> (r: (String, String))
    requires
        oid@.len() >= 5,
    ensures
        r.0@ == shard_dir(root@, oid@),
        r.1@ == shard_file(root@, oid@),
{
    let sep = "/";
    proof {
        reveal_strlit("/");
    }
    let mut dir = root.clone();
    dir.append(sep);
    dir.append(oid.as_str().substring_char(0, 3));
    dir.append(sep);
    dir.append(oid.as_str().substring_char(3, 5));
    let mut file = dir.clone();
    file.append(sep);
    file.append(oid.as_str());
    assert(dir@ =~= shard_dir(root@, oid@));
    assert(file@ =~= shard_file(root@, oid@));
    (dir, file)
}

impl OutputDriver {
    pub closed spec fn buffered(&self) -> Seq<u8> {
        self.buffer@
    }

    pub closed spec fn count(&self) -> usize {
        self.matches
    }

    pub closed spec fn is_json(&self) -> bool {
        self.mode is Json
    }

    /// In directory mode nothing is ever buffered.
    pub closed spec fn wf(&self) -> bool {
        !(self.mode is Json) ==> self.buffer@.len() == 0
    }

    /// The root directory, in directory mode.
    pub closed spec fn root(&self) -> Seq<char> {
        match self.mode {
            OutputMode::Directory(d) => d@,
            OutputMode::Json => seq![],
        }
    }

    pub fn new(mode: OutputMode) -> (r: OutputDriver)
        ensures
            r.wf(),
            r.buffered().len() == 0,
            r.count() == 0,
            r.is_json() == (mode is Json),
            mode is Directory ==> r.root() == mode->Directory_0@,
    {
        let capacity = match mode {
            OutputMode::Json => BUFFER_SIZE,
            OutputMode::Directory(_) => 0,
        };
        OutputDriver { mode, buffer: Vec::with_capacity(capacity), matches: 0 }
    }

    /// Records one match. In JSON mode `encoded` (the payload as one JSON
    /// value) is buffered as a line; in directory mode the payload's file is
    /// named.
    pub fn push(&mut self, item: &Payload, encoded: &[u8]) -> (r: PushAction)
        requires
            old(self).wf(),
            old(self).count() < usize::MAX,
            old(self).buffered().len() + encoded@.len() + 1 <= usize::MAX,
            !old(self).is_json() ==> item.oid@.len() >= 5,
        ensures
            final(self).wf(),
            final(self).count() == old(self).count() + 1,
            final(self).is_json() == old(self).is_json(),
            final(self).root() == old(self).root(),
            old(self).is_json() ==> {
                &&& final(self).buffered() == old(self).buffered() + encoded@ + seq![10u8]
                &&& (r is Flush <==> final(self).buffered().len() >= BUFFER_SIZE)
                &&& (r is Buffered <==> final(self).buffered().len() < BUFFER_SIZE)
            },
            !old(self).is_json() ==> {
                &&& final(self).buffered().len() == 0
                &&& r is Write
                &&& r->Write_dir@ == shard_dir(old(self).root(), item.oid@)
                &&& r->Write_file@ == shard_file(old(self).root(), item.oid@)
                &&& r->Write_record@ == side_record(item.oid@, item.path@)
            },
    {
        self.matches += 1;
        match &self.mode {
            OutputMode::Json => {
                let ghost before = self.buffer@;
                let ghost count = self.matches;
                let ghost mode = self.mode;
                let mut i: usize = 0;
                while i < encoded.len()
                    invariant
                        i <= encoded@.len(),
                        self.buffer@ == before + encoded@.subrange(0, i as int),
                        self.mode is Json,
                        self.mode == mode,
                        self.matches == count,
                    decreases encoded.len() - i,
                {
                    self.buffer.push(encoded[i]);
                    i += 1;
                    assert(self.buffer@ =~= before + encoded@.subrange(0, i as int));
                }
                assert(encoded@.subrange(0, encoded@.len() as int) =~= encoded@);
                self.buffer.push(10u8);
                if self.buffer.len() >= BUFFER_SIZE {
                    PushAction::Flush
                } else {
                    PushAction::Buffered
                }
            },
            OutputMode::Directory(dir) => {
                let (d, f) = shard_paths(dir, &item.oid);
                let mut record = item.oid.clone();
                record.append("\t");
                record.append(item.path.as_str());
                record.append("\n");
                proof {
                    reveal_strlit("\t");
                    reveal_strlit("\n");
                    assert(record@ =~= side_record(item.oid@, item.path@));
                }
                PushAction::Write { dir: d, file: f, record }
            },
        }
    }

    /// Hands out the buffered JSON lines and empties the buffer.
    pub fn flush(&mut self) -> (r: Vec<u8>)
        ensures
            r@ == old(self).buffered(),
            final(self).wf(),
            final(self).buffered().len() == 0,
            final(self).count() == old(self).count(),
            final(self).is_json() == old(self).is_json(),
            final(self).root() == old(self).root(),
    {
        let mut out: Vec<u8> = Vec::new();
        std::mem::swap(&mut out, &mut self.buffer);
        out
    }
}

} // verus!
