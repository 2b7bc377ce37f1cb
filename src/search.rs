//! Which paths of a namespace, and which file contents, are of interest.
//!
//! A pattern keeps the text it was compiled from: what a match answers is a
//! function of that text and the input alone.
use vstd::prelude::*;

verus! {

#[verifier::external_type_specification]
#[verifier::external_body]
pub struct ExPattern(glob::Pattern);

#[verifier::external_type_specification]
#[verifier::external_body]
pub struct ExRegex(regex::bytes::Regex);

/// Whether the glob pattern written `pattern` matches the whole of `path`.
pub uninterp spec fn glob_match(pattern: Seq<char>, path: Seq<char>) -> bool;

/// Whether the regular expression written `pattern` matches somewhere in
/// `haystack`.
pub uninterp spec fn regex_match(pattern: Seq<char>, haystack: Seq<u8>) -> bool;

/// Relies on `glob::Pattern::new`: the compiled pattern, or `None` where the
/// text is not a valid pattern.
#[verifier::external_body]
fn compile_glob(source: &str) -> (r: Option<glob::Pattern>) {
    glob::Pattern::new(source).ok()
}

/// Relies on `regex::bytes::Regex::new`: the compiled expression, or `None`
/// where the text is not a valid expression or is too large.
#[verifier::external_body]
fn compile_regex(source: &str) -> (r: Option<regex::bytes::Regex>) {
    regex::bytes::Regex::new(source).ok()
}

/// A glob pattern and the text it was compiled from.
pub struct GlobPattern {
    source: String,
    compiled: glob::Pattern,
}

/// Relies on `glob::Pattern::matches`, with default options, on the pattern
/// that `GlobPattern::new` compiled from `p`'s text (the only way one is
/// made).
#[verifier::external_body]
fn glob_matches(p: &GlobPattern, path: &str) -> (r: bool)
    ensures
        r == glob_match(p.source@, path@),
{
    p.compiled.matches(path)
}

impl GlobPattern {
    pub closed spec fn source(&self) -> Seq<char> {
        self.source@
    }

    /// The pattern written `source`; `None` where it is not a valid pattern.
    pub fn new(source: &str) -> (r: Option<GlobPattern>)
        ensures
            r matches Some(p) ==> p.source() == source@,
    {
        match compile_glob(source) {
            Some(compiled) => Some(GlobPattern { source: String::from_str(source), compiled }),
            None => None,
        }
    }

    /// Whether the pattern matches the whole of `path`.
    pub fn matches(&self, path: &str) -> (r: bool)
        ensures
            r == glob_match(self.source(), path@),
    {
        glob_matches(self, path)
    }
}

/// A regular expression over bytes and the text it was compiled from.
pub struct ContentPattern {
    source: String,
    compiled: regex::bytes::Regex,
}

/// Relies on `regex::bytes::Regex::is_match` on the expression that
/// `ContentPattern::new` compiled from `p`'s text (the only way one is made).
#[verifier::external_body]
fn regex_is_match(p: &ContentPattern, haystack: &[u8]) -> (r: bool)
    ensures
        r == regex_match(p.source@, haystack@),
{
    p.compiled.is_match(haystack)
}

impl ContentPattern {
    pub closed spec fn source(&self) -> Seq<char> {
        self.source@
    }

    /// The expression written `source`; `None` where it is not valid.
    pub fn new(source: &str) -> (r: Option<ContentPattern>)
        ensures
            r matches Some(p) ==> p.source() == source@,
    {
        match compile_regex(source) {
            Some(compiled) => Some(ContentPattern { source: String::from_str(source), compiled }),
            None => None,
        }
    }

    /// Whether the expression matches somewhere in `haystack`.
    pub fn is_match(&self, haystack: &[u8]) -> (r: bool)
        ensures
            r == regex_match(self.source(), haystack@),
    {
        regex_is_match(self, haystack)
    }
}

/// Whether contents are of interest: all are where no pattern is given.
pub open spec fn contents_wanted(search_contents: Option<&ContentPattern>, contents: Seq<u8>) -> bool {
    match search_contents {
        Some(p) => regex_match(p.source(), contents),
        None => true,
    }
}

/// Whether a file's raw contents are of interest: every file is where no
/// pattern is given, else those in which the pattern matches.
pub fn contents_match(search_contents: Option<&ContentPattern>, contents: &[u8]) -> (r: bool)
    ensures
        r == contents_wanted(search_contents, contents@),
{
    match search_contents {
        Some(pattern) => pattern.is_match(contents),
        None => true,
    }
}

pub enum SearchType {
    /// A shell-style pattern, such as `**/*.py`.
    Glob(GlobPattern),
}

impl SearchType {
    pub open spec fn spec_matches(&self, file_path: Seq<char>) -> bool {
        match self {
            SearchType::Glob(g) => glob_match(g.source(), file_path),
        }
    }

    /// Whether `file_path` is of interest.
    pub fn matches_path(&self, file_path: &str) -> (r: bool)
        ensures
            r == self.spec_matches(file_path@),
    {
        match self {
            SearchType::Glob(g) => g.matches(file_path),
        }
    }
}

} // verus!
