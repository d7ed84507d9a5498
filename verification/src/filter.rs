//! Name filtering of listings by a regular-expression pattern.
//!
//! The pattern engine is the `regex` crate; the library holds patterns as
//! plain strings and asks the engine, through the two trusted wrappers here,
//! whether a pattern compiles and whether it matches a name.

use vstd::prelude::*;
use regex::Regex;
use crate::entries::File;
use crate::paths::spec_file_name;

verus! {

/// Whether the regex engine accepts `pattern` as a valid pattern; this
/// depends on the pattern text alone.
pub uninterp spec fn regex_compiles(pattern: Seq<char>) -> bool;

/// Whether the pattern compiled from `pattern` matches somewhere in `text`;
/// this depends on the two strings alone.
pub uninterp spec fn regex_match(pattern: Seq<char>, text: Seq<char>) -> bool;

/// Relies on regex::Regex::new: it returns `Ok` exactly on the patterns the
/// engine accepts, a function of the pattern text alone.
#[verifier::external_body]
pub(crate) fn is_valid_pattern(pattern: &str) -> (r: bool)
    ensures
        r == regex_compiles(pattern@),
{
    Regex::new(pattern).is_ok()
}

/// Relies on regex::Regex::new and regex::Regex::is_match: compilation and
/// matching are functions of the pattern and the haystack alone; an invalid
/// pattern matches nothing.
#[verifier::external_body]
pub(crate) fn regex_accepts(pattern: &str, text: &str) -> (r: bool)
    ensures
        r == (regex_compiles(pattern@) && regex_match(pattern@, text@)),
{
    match Regex::new(pattern) {
        Ok(re) => re.is_match(text),
        Err(_) => false,
    }
}

/// Whether a filter pattern keeps an entry: the entry has a name and the
/// compiled pattern matches that name (never the full path). An entry
/// without a name is kept by no pattern.
pub open spec fn entry_matches(pattern: Seq<char>, f: File) -> bool {
    match spec_file_name(f.spec_path()) {
        Option::Some(n) => regex_compiles(pattern) && regex_match(pattern, n),
        Option::None => false,
    }
}

/// Whether a filter pattern keeps an entry; asks the regex engine.
pub fn entry_matches_pattern(pattern: &String, f: &File) -> (r: bool)
    ensures
        r == entry_matches(pattern@, *f),
{
    let name = f.name();
    if name.as_str().is_empty() {
        proof {
            crate::paths::lemma_last_index_of(f.spec_path(), '/');
            if spec_file_name(f.spec_path()) is Some {
                assert(spec_file_name(f.spec_path()).unwrap().len() > 0);
            }
        }
        false
    } else {
        regex_accepts(pattern.as_str(), name.as_str())
    }
}

/// The sub-listing a pattern keeps: the entries of `s` that match, order
/// kept.
pub open spec fn spec_filtered(pattern: Seq<char>, s: Seq<File>) -> Seq<File>
    decreases s.len(),
{
    if s.len() == 0 {
        Seq::empty()
    } else {
        let rest = spec_filtered(pattern, s.drop_last());
        if entry_matches(pattern, s.last()) {
            rest.push(s.last())
        } else {
            rest
        }
    }
}

/// Filtering narrows strictly: every entry of the filtered listing stands in
/// the unfiltered one, and it matches the pattern.
pub proof fn lemma_filtered_is_sublisting(pattern: Seq<char>, s: Seq<File>)
    ensures
        spec_filtered(pattern, s).len() <= s.len(),
        forall|i: int|
            0 <= i < spec_filtered(pattern, s).len() ==> s.contains(
                #[trigger] spec_filtered(pattern, s)[i],
            ) && entry_matches(pattern, spec_filtered(pattern, s)[i]),
    decreases s.len(),
{
    if s.len() > 0 {
        lemma_filtered_is_sublisting(pattern, s.drop_last());
        let rest = spec_filtered(pattern, s.drop_last());
        assert forall|i: int| 0 <= i < spec_filtered(pattern, s).len() implies s.contains(
            #[trigger] spec_filtered(pattern, s)[i],
        ) && entry_matches(pattern, spec_filtered(pattern, s)[i]) by {
            if i < rest.len() {
                assert(spec_filtered(pattern, s)[i] == rest[i]);
                assert(s.drop_last().contains(rest[i]));
                let k = choose|k: int| 0 <= k < s.drop_last().len() && s.drop_last()[k] == rest[i];
                assert(s[k] == rest[i]);
            } else {
                assert(spec_filtered(pattern, s)[i] == s.last());
                assert(s[s.len() - 1] == s.last());
            }
        }
    }
}

/// Computes the entries of `files` that the pattern keeps, in order.
pub fn filter_entries(pattern: &String, files: &Vec<File>) -> (r: Vec<File>)
    ensures
        r@ == spec_filtered(pattern@, files@),
{
    let mut out: Vec<File> = Vec::new();
    let mut i: usize = 0;
    while i < files.len()
        invariant
            i <= files@.len(),
            out@ == spec_filtered(pattern@, files@.take(i as int)),
        decreases files@.len() - i,
    {
        proof {
            assert(files@.take(i + 1 as int).drop_last() =~= files@.take(i as int));
            assert(files@.take(i + 1 as int).last() == files@[i as int]);
        }
        if entry_matches_pattern(pattern, &files[i]) {
            let f = files[i].clone();
            out.push(f);
        }
        i = i + 1;
    }
    proof {
        assert(files@.take(files@.len() as int) =~= files@);
    }
    out
}

} // verus!
