//! Match strategies: literal byte-wise search and regular expressions.
use vstd::prelude::*;
use vstd::string::*;
use vstd::utf8::encode_utf8;

verus! {

/// `needle` occurs in `hay` starting at byte `i`.
pub open spec fn occurs_at(hay: Seq<u8>, needle: Seq<u8>, i: int) -> bool {
    0 <= i && i + needle.len() <= hay.len() && hay.subrange(i, i + needle.len()) == needle
}

/// `needle` occurs somewhere in `hay`.
pub open spec fn contains_bytes(hay: Seq<u8>, needle: Seq<u8>) -> bool {
    exists|i: int| occurs_at(hay, needle, i)
}

/// `i` is the first byte position at which `needle` occurs in `hay`.
pub open spec fn first_occurrence(hay: Seq<u8>, needle: Seq<u8>, i: int) -> bool {
    occurs_at(hay, needle, i) && forall|j: int| 0 <= j < i ==> !occurs_at(hay, needle, j)
}

/// Literal, case-sensitive containment of `pattern` in `text`, byte for byte.
pub open spec fn literal_hit(text: Seq<char>, pattern: Seq<char>) -> bool {
    contains_bytes(encode_utf8(text), encode_utf8(pattern))
}

fn bytes_match_at(hay: &[u8], needle: &[u8], i: usize) -> (r: bool)
    requires
        i + needle@.len() <= hay@.len(),
    ensures
        r == occurs_at(hay@, needle@, i as int),
{
    let hay_len = hay.len();
    let mut j: usize = 0;
    while j < needle.len()
        invariant
            j <= needle@.len(),
            i + needle@.len() <= hay@.len(),
            hay@.len() == hay_len,
            forall|k: int| 0 <= k < j ==> hay@[i + k] == needle@[k],
        decreases needle@.len() - j,
    {
        if hay[i + j] != needle[j] {
            assert(hay@.subrange(i as int, i + needle@.len())[j as int] != needle@[j as int]);
            return false;
        }
        j = j + 1;
    }
    assert(hay@.subrange(i as int, i + needle@.len()) =~= needle@);
    true
}

fn first_match(hay: &[u8], needle: &[u8]) -> (r: Option<usize>)
    ensures
        match r {
            Some(i) => first_occurrence(hay@, needle@, i as int),
            None => !contains_bytes(hay@, needle@),
        },
{
    if needle.len() > hay.len() {
        assert forall|j: int| !occurs_at(hay@, needle@, j) by {}
        return None;
    }
    let last: usize = hay.len() - needle.len();
    let mut i: usize = 0;
    loop
        invariant
            i <= last,
            last + needle@.len() == hay@.len(),
            forall|j: int| 0 <= j < i ==> !occurs_at(hay@, needle@, j),
        decreases last - i,
    {
        if bytes_match_at(hay, needle, i) {
            return Some(i);
        }
        if i == last {
            assert forall|j: int| !occurs_at(hay@, needle@, j) by {
                if 0 <= j < i {
                }
            }
            return None;
        }
        i = i + 1;
    }
}

/// Literal search: whether `search_filter` occurs in `content`.
pub fn find_simple(content: &str, search_filter: &String) -> (r: bool)
    ensures
        r == literal_hit(content@, search_filter@),
{
    find_simple_pos(content, search_filter).is_some()
}

/// Literal search: the byte offset of the first occurrence of `search_filter`
/// in `content`, if any.
pub fn find_simple_pos(content: &str, search_filter: &String) -> (r: Option<usize>)
    ensures
        match r {
            Some(i) => first_occurrence(encode_utf8(content@), encode_utf8(search_filter@), i as int),
            None => !literal_hit(content@, search_filter@),
        },
{
    first_match(content.as_bytes(), search_filter.as_str().as_bytes())
}

#[verifier::external_type_specification]
#[verifier::external_body]
pub struct ExRegex(fancy_regex::Regex);

/// A regular expression, compiled once from its source text.
pub struct CompiledRegex {
    source: String,
    re: fancy_regex::Regex,
}

impl View for CompiledRegex {
    type V = Seq<char>;

    /// The source text the expression was compiled from.
    closed spec fn view(&self) -> Seq<char> {
        self.source@
    }
}

/// Whether `fancy_regex` accepts `pattern` with its default options.
pub uninterp spec fn regex_compiles(pattern: Seq<char>) -> bool;

/// Whether the expression compiled from `pattern` finds a match in `text`
/// without a matcher error.
pub uninterp spec fn regex_hit(pattern: Seq<char>, text: Seq<char>) -> bool;

/// Relies on `fancy_regex::Regex::new`: it compiles `pattern` with default
/// options or fails, depending on the pattern alone.
#[verifier::external_body]
fn compile_regex(pattern: &str) -> (r: Option<CompiledRegex>)
    ensures
        r is Some <==> regex_compiles(pattern@),
        r matches Some(c) ==> c@ == pattern@,
{
    match fancy_regex::Regex::new(pattern) {
        Ok(re) => Some(CompiledRegex { source: pattern.to_string(), re }),
        Err(_) => None,
    }
}

/// Relies on `fancy_regex::Regex::find`: `Ok(Some(_))` when the expression
/// matches somewhere in `text`; a matcher error counts as no match.
#[verifier::external_body]
fn regex_find(c: &CompiledRegex, text: &str) -> (r: bool)
    ensures
        r == regex_hit(c@, text@),
{
    matches!(c.re.find(text), Ok(Some(_)))
}

impl CompiledRegex {
    /// Compiles `pattern`, or `None` where it is not a valid expression.
    pub fn new(pattern: &str) -> (r: Option<CompiledRegex>)
        ensures
            r is Some <==> regex_compiles(pattern@),
            r matches Some(c) ==> c@ == pattern@,
    {
        compile_regex(pattern)
    }
}

/// Regular-expression search: whether `search_filter` matches in `content`.
pub fn find_regex(content: &str, search_filter: &CompiledRegex) -> (r: bool)
    ensures
        r == regex_hit(search_filter@, content@),
{
    regex_find(search_filter, content)
}

/// How a text unit is tested against the search expression.
pub enum Strategy {
    Literal(String),
    Regex(CompiledRegex),
}

/// A match test, as a value: literal containment of a pattern, or a regular
/// expression given by its source text.
pub enum MatchRule {
    Literal(Seq<char>),
    Regex(Seq<char>),
}

/// Whether rule `m` accepts `text`.
pub open spec fn rule_hit(m: MatchRule, text: Seq<char>) -> bool {
    match m {
        MatchRule::Literal(p) => literal_hit(text, p),
        MatchRule::Regex(p) => regex_hit(p, text),
    }
}

impl View for Strategy {
    type V = MatchRule;

    open spec fn view(&self) -> MatchRule {
        match self {
            Strategy::Literal(p) => MatchRule::Literal(p@),
            Strategy::Regex(c) => MatchRule::Regex(c@),
        }
    }
}

impl Strategy {
    /// Tests `text`.
    pub fn matches(&self, text: &str) -> (r: bool)
        ensures
            r == rule_hit(self@, text@),
    {
        match self {
            Strategy::Literal(p) => find_simple(text, p),
            Strategy::Regex(c) => find_regex(text, c),
        }
    }
}

} // verus!
