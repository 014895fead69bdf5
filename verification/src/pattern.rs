//! Regular-expression matching, done by the `regex` crate: names for what
//! its functions return, and the calls that hand their results over as
//! plain values.

use vstd::prelude::*;

use crate::licenses::opt_string;

verus! {

/// The capture groups of one match, group 0 (the whole match) first; a
/// group that did not take part in the match is `None`.
pub type Groups = Seq<Option<Seq<char>>>;

/// What compiling `pattern` with `regex::Regex::new` reports: `None` when it
/// compiles, else the text of the error.
pub uninterp spec fn regex_compile_error(pattern: Seq<char>) -> Option<Seq<char>>;

/// The groups of the leftmost-first match of `pattern` in `text`
/// (`Regex::captures`), or `None` when there is no match.
pub uninterp spec fn regex_captures(pattern: Seq<char>, text: Seq<char>) -> Option<Groups>;

/// The groups of every successive non-overlapping match of `pattern` in
/// `text`, in order (`Regex::captures_iter`).
pub uninterp spec fn regex_captures_iter(pattern: Seq<char>, text: Seq<char>) -> Seq<Groups>;

/// `text` with every match of `pattern` replaced by `replacement`, group
/// references expanded (`Regex::replace_all`).
pub uninterp spec fn regex_replace_all(pattern: Seq<char>, text: Seq<char>, replacement: Seq<char>) -> Seq<char>;

/// The view of the groups of a match.
pub open spec fn groups_view(g: Vec<Option<String>>) -> Groups {
    g@.map_values(|o: Option<String>| opt_string(o))
}

/// The view of an optional match.
pub open spec fn match_view(m: Option<Vec<Option<String>>>) -> Option<Groups> {
    match m {
        Some(g) => Some(groups_view(g)),
        None => None,
    }
}

/// The groups of the first match of `pattern` in `text`: `Regex::new`, then
/// `Regex::captures`. Fails with the compiler's message when the pattern
/// does not compile.
#[verifier::external_body]
pub(crate) fn regex_first(pattern: &str, text: &str) -> (r: Result<Option<Vec<Option<String>>>, String>)
    ensures
        match regex_compile_error(pattern@) {
            Some(m) => r matches Err(e) && e@ == m,
            None => r matches Ok(c) && match_view(c) == regex_captures(pattern@, text@),
        },
{
    let re = regex::Regex::new(pattern).map_err(|e| e.to_string())?;
    Ok(re.captures(text).map(|c| c.iter().map(|m| m.map(|m| m.as_str().to_string())).collect()))
}

/// The groups of the first match of `pattern` in each of `texts`: one
/// `Regex::new`, then `Regex::captures` on each text. Fails with the
/// compiler's message when the pattern does not compile.
#[verifier::external_body]
pub(crate) fn regex_first_each(pattern: &str, texts: &Vec<Vec<char>>) -> (r: Result<Vec<Option<Vec<Option<String>>>>, String>)
    ensures
        match regex_compile_error(pattern@) {
            Some(m) => r matches Err(e) && e@ == m,
            None => r matches Ok(v) && v@.len() == texts@.len() && forall|i: int|
                0 <= i < texts@.len() ==> match_view(#[trigger] v@[i]) == regex_captures(pattern@, texts@[i]@),
        },
{
    let re = regex::Regex::new(pattern).map_err(|e| e.to_string())?;
    Ok(texts.iter().map(|t| {
        let t: String = t.iter().collect();
        re.captures(&t).map(|c| c.iter().map(|m| m.map(|m| m.as_str().to_string())).collect())
    }).collect())
}

/// The groups of every match of `pattern` in `text`: `Regex::new`, then
/// `Regex::captures_iter`. Fails with the compiler's message when the
/// pattern does not compile.
#[verifier::external_body]
pub(crate) fn regex_all(pattern: &str, text: &str) -> (r: Result<Vec<Vec<Option<String>>>, String>)
    ensures
        match regex_compile_error(pattern@) {
            Some(m) => r matches Err(e) && e@ == m,
            None => r matches Ok(v) && v@.map_values(|g: Vec<Option<String>>| groups_view(g))
                == regex_captures_iter(pattern@, text@),
        },
{
    let re = regex::Regex::new(pattern).map_err(|e| e.to_string())?;
    Ok(re.captures_iter(text).map(|c| c.iter().map(|m| m.map(|m| m.as_str().to_string())).collect()).collect())
}

/// `text` with every match of `pattern` replaced: `Regex::new`, then
/// `Regex::replace_all`. Fails with the compiler's message when the pattern
/// does not compile.
#[verifier::external_body]
pub(crate) fn regex_replace(pattern: &str, text: &str, replacement: &str) -> (r: Result<String, String>)
    ensures
        match regex_compile_error(pattern@) {
            Some(m) => r matches Err(e) && e@ == m,
            None => r matches Ok(s) && s@ == regex_replace_all(pattern@, text@, replacement@),
        },
{
    let re = regex::Regex::new(pattern).map_err(|e| e.to_string())?;
    Ok(re.replace_all(text, replacement).into_owned())
}

} // verus!
