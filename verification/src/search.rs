//! The search over the notes: a regular expression where the query is one, and a
//! plain text otherwise.

use crate::docs::Note;
use crate::text::{self, count_matches, has, lowercase};
use vstd::prelude::*;

verus! {

/// `regex::Regex`, a compiled regular expression; nothing is said of what is in it.
#[verifier::external_type_specification]
#[verifier::external_body]
pub struct ExRegex(regex::Regex);

/// `regex::Error`, why there is none; nothing is said of what is in it.
#[verifier::external_type_specification]
#[verifier::external_body]
pub struct ExRegexError(regex::Error);

/// The regular expression that `regex::RegexBuilder` builds of a pattern, if it
/// builds one, on a machine with words of so many bits.
pub uninterp spec fn regex_built(pattern: Seq<char>, insensitive: bool, bits: u32) -> Option<
    regex::Regex,
>;

/// Whether a regular expression matches somewhere in a text.
pub uninterp spec fn regex_matches(re: regex::Regex, text: Seq<char>) -> bool;

/// How many matches of a regular expression follow each other in a text without
/// overlap.
pub uninterp spec fn regex_count(re: regex::Regex, text: Seq<char>) -> nat;

/// `regex::RegexBuilder::build`, with or without regard to case: what it builds,
/// and whether it builds anything, depends on the pattern, the case and the word
/// size alone. It refuses what is no regular expression, and what would become too
/// large in memory.
#[verifier::external_body]
fn build(pattern: &str, insensitive: bool) -> (r: Result<regex::Regex, regex::Error>)
    ensures
        match r {
            Ok(re) => regex_built(pattern@, insensitive, usize::BITS) == Some(re),
            Err(_) => regex_built(pattern@, insensitive, usize::BITS) is None,
        },
{
    regex::RegexBuilder::new(pattern).case_insensitive(insensitive).build()
}

/// `regex::Regex::is_match` says whether there is a match anywhere in the text.
pub assume_specification[ regex::Regex::is_match ](re: &regex::Regex, haystack: &str) -> (r: bool)
    ensures
        r == regex_matches(*re, haystack@),
;

/// The number of the matches that `regex::Regex::find_iter` yields.
#[verifier::external_body]
fn count(re: &regex::Regex, text: &str) -> (r: usize)
    ensures
        r == regex_count(*re, text@),
{
    re.find_iter(text).count()
}

/// Where a query was found: in the name, and how often in the content.
#[derive(Clone, Copy)]
pub struct Hits {
    pub in_name: bool,
    pub in_content: u128,
}

/// Where a query is found in a note, given the regular expression that it is, if
/// it is one. The empty query is found in every name.
pub open spec fn hits_by(
    re: Option<regex::Regex>,
    query: Seq<char>,
    name: Seq<char>,
    content: Seq<char>,
) -> (bool, nat) {
    if query.len() == 0 {
        (true, 0)
    } else {
        match re {
            Some(re) => (regex_matches(re, name), regex_count(re, content)),
            None => {
                let needle = text::lowercased(query);
                (
                    text::find(text::lowercased(name), needle) is Some,
                    text::match_count(text::lowercased(content), needle),
                )
            },
        }
    }
}

/// Where a query is found in a note.
pub fn find_by(re: &Option<regex::Regex>, query: &str, name: &str, content: &str) -> (r: Hits)
    ensures
        (r.in_name, r.in_content as nat) == hits_by(*re, query@, name@, content@),
{
    if query.is_empty() {
        return Hits { in_name: true, in_content: 0 };
    }
    match re {
        Some(re) => Hits { in_name: re.is_match(name), in_content: count(re, content) as u128 },
        None => {
            let needle = lowercase(query);
            Hits {
                in_name: has(lowercase(name).as_str(), needle.as_str()),
                in_content: count_matches(lowercase(content).as_str(), needle.as_str()),
            }
        },
    }
}

/// Where a search is found in a note: the search is taken without the spaces at
/// its ends, as a regular expression that does not regard case.
pub open spec fn hits_of(search: Seq<char>, note: crate::docs::NoteView) -> (bool, nat) {
    let query = text::trimmed(search);
    hits_by(
        regex_built(query, true, usize::BITS),
        query,
        crate::docs::shown_name(note.path),
        note.content,
    )
}

/// Where a search is found in each of the notes.
pub fn search_notes(search: &str, notes: &Vec<Note>) -> (r: Vec<Hits>)
    ensures
        r@.len() == notes@.len(),
        forall|i: int|
            0 <= i < notes@.len() ==> ((#[trigger] r@[i]).in_name, r@[i].in_content as nat)
                == hits_of(search@, notes@[i]@),
{
    let query = text::trim(search);
    let re: Option<regex::Regex> = match build(query.as_str(), true) {
        Ok(re) => Some(re),
        Err(_) => None,
    };
    let mut out: Vec<Hits> = Vec::new();
    let mut i: usize = 0;
    while i < notes.len()
        invariant
            i <= notes@.len(),
            out@.len() == i,
            query@ == text::trimmed(search@),
            re == regex_built(query@, true, usize::BITS),
            forall|j: int|
                0 <= j < i ==> ((#[trigger] out@[j]).in_name, out@[j].in_content as nat)
                    == hits_of(search@, notes@[j]@),
        decreases notes@.len() - i,
    {
        let name = notes[i].name();
        out.push(find_by(&re, query.as_str(), name.as_str(), notes[i].content.as_str()));
        i += 1;
    }
    out
}

} // verus!
