//! Scanning cleaned text into raw term captures with a regular expression.

use regex::Regex;
use vstd::prelude::*;

verus! {

/// The pattern of one term: a sign, then digits, a variable symbol, a caret
/// and digits, each of them optional.
pub const TERM_PATTERN: &'static str = r"\s*([-+])?\s*(([0-9]*)(\w?)\^?([0-9]*))?";

/// What one match of the term pattern captured, before any validation.
pub struct RawCapture {
    /// The explicit sign, where one was written.
    pub sign: Option<String>,
    /// The whole term without its sign; absent or empty where the term is
    /// missing.
    pub body: Option<String>,
    /// The digits in front of the variable.
    pub coefficient: Option<String>,
    /// The variable symbol; empty where none was written.
    pub variable: Option<String>,
    /// The digits of the exponent.
    pub exponent: Option<String>,
}

/// A capture as plain text.
pub struct Capture {
    pub sign: Option<Seq<char>>,
    pub body: Option<Seq<char>>,
    pub coefficient: Option<Seq<char>>,
    pub variable: Option<Seq<char>>,
    pub exponent: Option<Seq<char>>,
}

impl View for RawCapture {
    type V = Capture;

    open spec fn view(&self) -> Capture {
        Capture {
            sign: self.sign.deep_view(),
            body: self.body.deep_view(),
            coefficient: self.coefficient.deep_view(),
            variable: self.variable.deep_view(),
            exponent: self.exponent.deep_view(),
        }
    }
}

/// The captures of a list as plain text.
pub open spec fn capture_views(captures: Seq<RawCapture>) -> Seq<Capture> {
    captures.map_values(|c: RawCapture| c@)
}

/// The groups of every match of `pattern` in `text`, as `regex` finds them:
/// one entry for each successive match, and in it one entry for each group of
/// the pattern, the whole match first; `None` for a group that took no part.
pub uninterp spec fn regex_groups(pattern: Seq<char>, text: Seq<char>) -> Seq<
    Seq<Option<Seq<char>>>,
>;

/// Compiles the term pattern with `regex::Regex::new` and walks `text` with
/// `Regex::captures_iter`, handing out the text of every group of every match.
/// Nothing is claimed of the result but that it is a function of the two texts.
#[verifier::external_body]
fn capture_groups(pattern: &str, text: &str) -> (groups: Vec<Vec<Option<String>>>)
    requires
        pattern@ == TERM_PATTERN@,
    ensures
        groups.deep_view() == regex_groups(pattern@, text@),
{
    let regex = Regex::new(pattern).expect("valid regex");
    regex.captures_iter(text).map(
        |found| found.iter().map(|group| group.map(|m| m.as_str().to_string())).collect(),
    ).collect()
}

/// The group at `index`, or `None` where the match has no such group.
pub open spec fn group_at(groups: Seq<Option<Seq<char>>>, index: int) -> Option<Seq<char>> {
    if 0 <= index < groups.len() {
        groups[index]
    } else {
        None
    }
}

/// The capture that the groups of one match stand for: the sign is group 1,
/// the body group 2, and its three parts the groups 3 to 5.
pub open spec fn capture_of(groups: Seq<Option<Seq<char>>>) -> Capture {
    Capture {
        sign: group_at(groups, 1),
        body: group_at(groups, 2),
        coefficient: group_at(groups, 3),
        variable: group_at(groups, 4),
        exponent: group_at(groups, 5),
    }
}

/// The captures of `text`: none for empty text, else one for each match of
/// the term pattern.
pub open spec fn scanned(text: Seq<char>) -> Seq<Capture> {
    if text.len() == 0 {
        Seq::empty()
    } else {
        regex_groups(TERM_PATTERN@, text).map_values(
            |groups: Seq<Option<Seq<char>>>| capture_of(groups),
        )
    }
}

fn group(groups: &Vec<Option<String>>, index: usize) -> (text: Option<String>)
    ensures
        text.deep_view() == group_at(groups.deep_view(), index as int),
{
    if index < groups.len() {
        match &groups[index] {
            Some(s) => Some(s.clone()),
            None => None,
        }
    } else {
        None
    }
}

impl RawCapture {
    /// Names the groups of one match.
    pub fn from_groups(groups: &Vec<Option<String>>) -> (capture: RawCapture)
        ensures
            capture@ == capture_of(groups.deep_view()),
    {
        RawCapture {
            sign: group(groups, 1),
            body: group(groups, 2),
            coefficient: group(groups, 3),
            variable: group(groups, 4),
            exponent: group(groups, 5),
        }
    }
}

/// Scans text from which the whitespace has been taken out.
pub fn scan(text: &str) -> (captures: Vec<RawCapture>)
    ensures
        capture_views(captures@) == scanned(text@),
{
    let mut captures: Vec<RawCapture> = Vec::new();
    if text.unicode_len() == 0 {
        assert(capture_views(captures@) == Seq::<Capture>::empty());
        return captures;
    }
    let found = capture_groups(TERM_PATTERN, text);
    let mut i: usize = 0;
    while i < found.len()
        invariant
            i <= found.len(),
            captures@.len() == i,
            forall|k: int|
                0 <= k < i ==> (#[trigger] captures@[k])@ == capture_of(found.deep_view()[k]),
        decreases found.len() - i,
    {
        let capture = RawCapture::from_groups(&found[i]);
        assert(found.deep_view()[i as int] == found@[i as int].deep_view());
        captures.push(capture);
        i = i + 1;
    }
    assert(capture_views(captures@) == found.deep_view().map_values(
        |groups: Seq<Option<Seq<char>>>| capture_of(groups),
    ));
    captures
}

} // verus!
