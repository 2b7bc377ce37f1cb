//! From a stored object's bytes to the text handed to the parser, and from
//! the parse to a feature vector.
use vstd::prelude::*;
use crate::line_endings::{normalize, normalized};
use crate::stats::Stats;
use crate::tree::Module;
use crate::visitor::{module_flags, walk_cst};

verus! {

/// The text that `bytes` encode as UTF-8, or `None` where they are not valid
/// UTF-8.
pub uninterp spec fn utf8_decode(bytes: Seq<u8>) -> Option<Seq<char>>;

/// Relies on `std::str::from_utf8`: the text the bytes encode, where they are
/// valid UTF-8; no bytes are the empty text.
#[verifier::external_body]
fn decode_utf8(bytes: &[u8]) -> (r: Option<String>)
    ensures
        match r {
            Some(s) => utf8_decode(bytes@) == Some(s@),
            None => utf8_decode(bytes@) is None,
        },
        bytes@.len() == 0 ==> r is Some && r->Some_0@.len() == 0,
{
    std::str::from_utf8(bytes).ok().map(|s| s.to_string())
}

/// The start of a kind of generated file (GAMS model dumps) whose deep
/// nesting exhausts the parser's stack: `#  MINLP written by GAMS`.
pub open spec fn skip_prefix() -> Seq<u8> {
    seq![35, 32, 32, 77, 73, 78, 76, 80, 32, 119, 114, 105, 116, 116, 101, 110, 32, 98, 121, 32, 71, 65, 77, 83]
}

pub open spec fn has_prefix(s: Seq<u8>, p: Seq<u8>) -> bool {
    p.len() <= s.len() && s.subrange(0, p.len() as int) == p
}

/// The text handed to the parser: the normalized bytes decoded as UTF-8,
/// unless they fail to decode or start with the skipped prefix.
pub open spec fn source_text(data: Seq<u8>) -> Option<Seq<char>> {
    let n = normalized(data);
    if has_prefix(n, skip_prefix()) {
        None
    } else {
        utf8_decode(n)
    }
}

fn skip_prefix_bytes() -> (r: Vec<u8>)
    ensures
        r@ == skip_prefix(),
{
    let r: Vec<u8> = vec![35, 32, 32, 77, 73, 78, 76, 80, 32, 119, 114, 105, 116, 116, 101, 110, 32, 98, 121, 32, 71, 65, 77, 83];
    assert(r@ =~= skip_prefix());
    r
}

fn starts_with(s: &[u8], p: &[u8]) -> (r: bool)
    ensures
        r == has_prefix(s@, p@),
{
    if p.len() > s.len() {
        return false;
    }
    let mut i: usize = 0;
    while i < p.len()
        invariant
            p.len() <= s.len(),
            i <= p.len(),
            forall|j: int| 0 <= j < i ==> s@[j] == p@[j],
        decreases p.len() - i,
    {
        if s[i] != p[i] {
            assert(s@.subrange(0, p.len() as int)[i as int] != p@[i as int]);
            return false;
        }
        i += 1;
    }
    assert(s@.subrange(0, p.len() as int) =~= p@);
    true
}

/// Normalizes line endings, then decodes; `None` where decoding fails or the
/// content starts with the skipped prefix.
pub fn prepare_source(data: &[u8]) -> (r: Option<String>)
    ensures
        match r {
            Some(s) => source_text(data@) == Some(s@),
            None => source_text(data@) is None,
        },
        data@.len() == 0 ==> r is Some && r->Some_0@.len() == 0,
{
    let normalized_bytes = normalize(data);
    let prefix = skip_prefix_bytes();
    if starts_with(normalized_bytes.as_slice(), prefix.as_slice()) {
        return None;
    }
    decode_utf8(normalized_bytes.as_slice())
}

/// The feature vector of a parse: `None` where parsing failed.
pub open spec fn stats_of_parse(m: Option<Module>) -> Option<Stats> {
    match m {
        Some(m) => Some(module_flags(m)),
        None => None,
    }
}

/// The feature vector of a stored object's bytes, with `parse` as the parser;
/// `None` where the bytes fail to decode, are skipped, or fail to parse.
pub fn parse_data<F: Fn(&str) -> Option<Module>>(data: &[u8], parse: F) -> (r: Option<Stats>)
    requires
        forall|s: &str| parse.requires((s,)),
    ensures
        source_text(data@) is None ==> r is None,
        source_text(data@) is Some ==> exists|s: &str, m: Option<Module>|
            s@ == source_text(data@)->Some_0 && parse.ensures((s,), m) && r == stats_of_parse(m),
        data@.len() == 0 ==> exists|s: &str, m: Option<Module>|
            s@.len() == 0 && parse.ensures((s,), m) && r == stats_of_parse(m),
{
    let text = match prepare_source(data) {
        Some(t) => t,
        None => return None,
    };
    let parsed = parse(text.as_str());
    match parsed {
        Some(module) => Some(walk_cst(module)),
        None => None,
    }
}

} // verus!
