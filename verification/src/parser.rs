//! Project discovery: which project roots match a language filter.

use vstd::prelude::*;

use crate::languages::{kind_of, Language, LanguageKind};
use crate::licenses::opt_string;
use crate::text::{eq_str, lowercase, owned, to_chars, to_lower};

verus! {

/// A directory holding a project manifest, and the project's language.
#[derive(Debug)]
pub struct ProjectRoot {
    pub path: std::path::PathBuf,
    pub project_type: Language,
}

/// Whether a language filter (compared lower-cased) names a project's kind:
/// `rust`, `node`, `go`, `python`, `c`, `cpp` or `r`.
pub open spec fn language_matches(k: LanguageKind, filter: Seq<char>) -> bool {
    let f = lowercase(filter);
    ||| k == LanguageKind::Rust && f == "rust"@
    ||| k == LanguageKind::Node && f == "node"@
    ||| k == LanguageKind::Go && f == "go"@
    ||| k == LanguageKind::Python && f == "python"@
    ||| k == LanguageKind::C && f == "c"@
    ||| k == LanguageKind::Cpp && f == "cpp"@
    ||| k == LanguageKind::R && f == "r"@
}

/// Checks whether a project type matches the given language filter.
pub fn matches_language(project_type: Language, language: &str) -> (r: bool)
    ensures
        r == language_matches(kind_of(project_type), language@),
{
    let c = to_chars(language);
    let f = to_lower(c.as_slice());
    let f = f.as_slice();
    match project_type {
        Language::Rust(_) => eq_str(f, "rust"),
        Language::Node(_) => eq_str(f, "node"),
        Language::Go(_) => eq_str(f, "go"),
        Language::Python(_) => eq_str(f, "python"),
        Language::C(_) => eq_str(f, "c"),
        Language::Cpp(_) => eq_str(f, "cpp"),
        Language::R(_) => eq_str(f, "r"),
    }
}

/// Whether a list of file names holds `name`.
pub open spec fn has_file(present: Seq<String>, name: Seq<char>) -> bool {
    exists|k: int| 0 <= k < present.len() && (#[trigger] present[k])@ == name
}

/// Whether a list of file names holds `name`.
fn holds_file(present: &Vec<String>, name: &str) -> (r: bool)
    ensures
        r == has_file(present@, name@),
{
    let n = to_chars(name);
    let mut i: usize = 0;
    while i < present.len()
        invariant
            i <= present@.len(),
            n@ == name@,
            forall|k: int| 0 <= k < i ==> (#[trigger] present@[k])@ != name@,
        decreases present@.len() - i,
    {
        if eq_str(n.as_slice(), present[i].as_str()) {
            return true;
        }
        i = i + 1;
    }
    false
}

/// The Python manifest a project directory uses: the first of
/// `requirements.txt`, `Pipfile.lock`, `pip_freeze.txt` and
/// `pyproject.toml` among its files.
pub open spec fn python_manifest(present: Seq<String>) -> Option<Seq<char>> {
    if has_file(present, "requirements.txt"@) {
        Some("requirements.txt"@)
    } else if has_file(present, "Pipfile.lock"@) {
        Some("Pipfile.lock"@)
    } else if has_file(present, "pip_freeze.txt"@) {
        Some("pip_freeze.txt"@)
    } else if has_file(present, "pyproject.toml"@) {
        Some("pyproject.toml"@)
    } else {
        None
    }
}

/// Which Python manifest a project directory, holding the files `present`,
/// uses (see `python_manifest`).
pub fn check_which_python_file_exists(present: &Vec<String>) -> (r: Option<String>)
    ensures
        opt_string(r) == python_manifest(present@),
{
    if holds_file(present, "requirements.txt") {
        Some(owned("requirements.txt"))
    } else if holds_file(present, "Pipfile.lock") {
        Some(owned("Pipfile.lock"))
    } else if holds_file(present, "pip_freeze.txt") {
        Some(owned("pip_freeze.txt"))
    } else if holds_file(present, "pyproject.toml") {
        Some(owned("pyproject.toml"))
    } else {
        None
    }
}

} // verus!
