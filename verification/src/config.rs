//! Configuration of the analysis: which licenses count as restrictive, which
//! are ignored, how deep dependencies are resolved and which dependencies are
//! skipped, with the validation rules that a loaded configuration must pass.

use vstd::prelude::*;

use crate::text::{
    extend, extend_str, is_ws, join, join_exec, owned, seqs, to_chars, trim, trimmed,
};

verus! {

/// Errors of the analysis.
#[derive(Debug)]
pub enum FeludaError {
    Config(String),
    License(String),
    Parser(String),
    RepositoryClone(String),
    TempDir(String),
    TuiInit(String),
    TuiRuntime(String),
    Serialization(String),
    FileWrite(String),
    InvalidData(String),
    Unknown(String),
}

/// The display text of an error.
pub open spec fn error_text(e: FeludaError) -> Seq<char> {
    match e {
        FeludaError::Config(m) => "Configuration error: "@ + m@,
        FeludaError::License(m) => "License analysis error: "@ + m@,
        FeludaError::Parser(m) => "Parser error: "@ + m@,
        FeludaError::RepositoryClone(m) => "Repository clone error: "@ + m@,
        FeludaError::TempDir(m) => "Temporary directory error: "@ + m@,
        FeludaError::TuiInit(m) => "TUI initialization error: "@ + m@,
        FeludaError::TuiRuntime(m) => "TUI runtime error: "@ + m@,
        FeludaError::Serialization(m) => "Serialization error: "@ + m@,
        FeludaError::FileWrite(m) => "File write error: "@ + m@,
        FeludaError::InvalidData(m) => "Invalid data: "@ + m@,
        FeludaError::Unknown(m) => "Unknown error: "@ + m@,
    }
}

impl FeludaError {
    /// The display text: a prefix naming the kind of error, then its message.
    pub fn to_string(&self) -> (r: String)
        ensures
            r@ == error_text(*self),
    {
        let (prefix, m) = match self {
            FeludaError::Config(m) => ("Configuration error: ", m),
            FeludaError::License(m) => ("License analysis error: ", m),
            FeludaError::Parser(m) => ("Parser error: ", m),
            FeludaError::RepositoryClone(m) => ("Repository clone error: ", m),
            FeludaError::TempDir(m) => ("Temporary directory error: ", m),
            FeludaError::TuiInit(m) => ("TUI initialization error: ", m),
            FeludaError::TuiRuntime(m) => ("TUI runtime error: ", m),
            FeludaError::Serialization(m) => ("Serialization error: ", m),
            FeludaError::FileWrite(m) => ("File write error: ", m),
            FeludaError::InvalidData(m) => ("Invalid data: ", m),
            FeludaError::Unknown(m) => ("Unknown error: ", m),
        };
        let mut out = to_chars(prefix);
        extend_str(&mut out, m.as_str());
        crate::text::from_chars(out.as_slice())
    }
}

/// Main configuration.
#[derive(Debug, Clone)]
pub struct FeludaConfig {
    pub licenses: LicenseConfig,
    pub dependencies: DependencyConfig,
    pub strict: bool,
}

/// License-related settings.
#[derive(Debug, Clone)]
pub struct LicenseConfig {
    /// Licenses considered restrictive (matched as substrings).
    pub restrictive: Vec<String>,
    /// Licenses left out of the analysis (matched as substrings).
    pub ignore: Vec<String>,
}

/// Dependency-related settings.
#[derive(Debug, Clone)]
pub struct DependencyConfig {
    /// Maximum depth of transitive dependency resolution.
    pub max_depth: u32,
    /// Dependencies left out of the scan.
    pub ignore: Vec<IgnoreDependency>,
}

/// A dependency to leave out of the scan.
#[derive(Debug, Clone)]
pub struct IgnoreDependency {
    /// The dependency's name.
    pub name: String,
    /// Its version; empty means every version.
    pub version: String,
    /// Why it is ignored.
    pub reason: String,
}

/// The views of a list of strings.
pub open spec fn strs(v: Seq<String>) -> Seq<Seq<char>> {
    v.map_values(|x: String| x@)
}

/// The default restrictive licenses, in order.
pub open spec fn default_restrictive() -> Seq<Seq<char>> {
    seq![
        "GPL-3.0"@,
        "AGPL-3.0"@,
        "LGPL-3.0"@,
        "MPL-2.0"@,
        "SEE LICENSE IN LICENSE"@,
        "CC-BY-SA-4.0"@,
        "EPL-2.0"@,
    ]
}

/// The default maximum dependency depth.
pub fn default_max_depth() -> (r: u32)
    ensures
        r == 10,
{
    10
}

/// The default list of restrictive licenses.
pub fn default_restrictive_licenses() -> (r: Vec<String>)
    ensures
        strs(r@) == default_restrictive(),
{
    let mut v: Vec<String> = Vec::new();
    v.push(owned("GPL-3.0"));
    v.push(owned("AGPL-3.0"));
    v.push(owned("LGPL-3.0"));
    v.push(owned("MPL-2.0"));
    v.push(owned("SEE LICENSE IN LICENSE"));
    v.push(owned("CC-BY-SA-4.0"));
    v.push(owned("EPL-2.0"));
    assert(strs(v@) =~= default_restrictive());
    v
}

impl Default for LicenseConfig {
    fn default() -> (r: Self)
        ensures
            strs(r.restrictive@) == default_restrictive(),
            r.ignore@.len() == 0,
    {
        LicenseConfig { restrictive: default_restrictive_licenses(), ignore: Vec::new() }
    }
}

impl Default for DependencyConfig {
    fn default() -> (r: Self)
        ensures
            r.max_depth == 10,
            r.ignore@.len() == 0,
    {
        DependencyConfig { max_depth: default_max_depth(), ignore: Vec::new() }
    }
}

impl Default for FeludaConfig {
    fn default() -> (r: Self)
        ensures
            strs(r.licenses.restrictive@) == default_restrictive(),
            r.licenses.ignore@.len() == 0,
            r.dependencies.max_depth == 10,
            r.dependencies.ignore@.len() == 0,
            !r.strict,
    {
        FeludaConfig {
            licenses: LicenseConfig::default(),
            dependencies: DependencyConfig::default(),
            strict: false,
        }
    }
}


/// Whether a string is empty or only whitespace.
pub open spec fn blank(s: Seq<char>) -> bool {
    trim(s).len() == 0
}

/// The entries of `s` that repeat an earlier entry, in order.
pub open spec fn dups<A>(s: Seq<A>) -> Seq<A>
    decreases s.len(),
{
    if s.len() == 0 {
        seq![]
    } else {
        dups(s.drop_last()) + if s.drop_last().contains(s.last()) {
            seq![s.last()]
        } else {
            seq![]
        }
    }
}

/// One more entry of `dups` over a growing prefix.
proof fn lemma_dups_step<A>(s: Seq<A>, i: int)
    requires
        0 <= i < s.len(),
    ensures
        dups(s.take(i + 1)) == dups(s.take(i)) + if s.take(i).contains(s[i]) {
            seq![s[i]]
        } else {
            seq![]
        },
{
    assert(s.take(i + 1).drop_last() =~= s.take(i));
}

/// What is wrong with a list of licenses, if anything: a blank entry, then a
/// repeated entry. `kind` names the list.
pub open spec fn license_list_error(list: Seq<Seq<char>>, kind: Seq<char>) -> Option<Seq<char>> {
    if exists|i: int| 0 <= i < list.len() && blank(#[trigger] list[i]) {
        Some("Empty license string found in "@ + kind + " licenses list"@)
    } else if dups(list).len() > 0 {
        Some("Duplicate licenses found in "@ + kind + " list: "@ + join(dups(list), ", "@))
    } else {
        None
    }
}

/// The validation error of a license configuration: the restrictive list is
/// checked before the ignore list.
pub open spec fn license_config_error(c: LicenseConfig) -> Option<Seq<char>> {
    match license_list_error(strs(c.restrictive@), "restrictive"@) {
        Some(m) => Some(m),
        None => license_list_error(strs(c.ignore@), "ignore"@),
    }
}

/// The (name, version) key of an ignored dependency.
pub open spec fn dep_key(d: IgnoreDependency) -> (Seq<char>, Seq<char>) {
    (d.name@, d.version@)
}

/// `name@version`.
pub open spec fn key_text(k: (Seq<char>, Seq<char>)) -> Seq<char> {
    k.0 + "@"@ + k.1
}

/// The validation error of a dependency configuration.
pub open spec fn dependency_config_error(c: DependencyConfig) -> Option<Seq<char>> {
    let keys = c.ignore@.map_values(|d: IgnoreDependency| dep_key(d));
    if c.max_depth == 0 {
        Some("max_depth must be greater than 0"@)
    } else if c.max_depth > 100 {
        Some("max_depth must be 100 or less to prevent excessive resource usage"@)
    } else if exists|i: int| 0 <= i < c.ignore@.len() && blank(#[trigger] c.ignore@[i].name@) {
        Some("Empty dependency name found in ignore list"@)
    } else if dups(keys).len() > 0 {
        Some(
            "Duplicate dependencies found in ignore list: "@ + join(
                dups(keys).map_values(|k: (Seq<char>, Seq<char>)| key_text(k)),
                ", "@,
            ),
        )
    } else {
        None
    }
}

/// The validation error of a whole configuration: licenses first.
pub open spec fn config_error(c: FeludaConfig) -> Option<Seq<char>> {
    match license_config_error(c.licenses) {
        Some(m) => Some(m),
        None => dependency_config_error(c.dependencies),
    }
}

/// The result that validation owes for a given error, if any.
pub open spec fn validation_result(err: Option<Seq<char>>, r: Result<(), FeludaError>) -> bool {
    match err {
        Some(m) => r matches Err(FeludaError::Config(s)) && s@ == m,
        None => r is Ok,
    }
}

/// Whether a string is blank.
fn is_blank(s: &str) -> (r: bool)
    ensures
        r == blank(s@),
{
    let c = to_chars(s);
    trimmed(c.as_slice()).len() == 0
}

/// Checks one list of licenses; `kind` names it in the message.
fn check_license_list(list: &Vec<String>, kind: &str) -> (r: Option<String>)
    ensures
        match license_list_error(strs(list@), kind@) {
            Some(m) => r matches Some(s) && s@ == m,
            None => r is None,
        },
{
    let ghost l = strs(list@);
    let mut dup: Vec<Vec<char>> = Vec::new();
    let mut i: usize = 0;
    while i < list.len()
        invariant
            i <= list@.len(),
            l == strs(list@),
            forall|k: int| 0 <= k < i ==> !blank(#[trigger] l[k]),
            seqs(dup@) == dups(l.take(i as int)),
        decreases list@.len() - i,
    {
        if is_blank(list[i].as_str()) {
            let mut m = to_chars("Empty license string found in ");
            extend_str(&mut m, kind);
            extend_str(&mut m, " licenses list");
            assert(blank(l[i as int]));
            return Some(crate::text::from_chars(m.as_slice()));
        }
        let mut seen = false;
        let mut j: usize = 0;
        while j < i
            invariant
                j <= i < list@.len(),
                l == strs(list@),
                seen == exists|k: int| 0 <= k < j && l[k] == l[i as int],
            decreases i - j,
        {
            assert(l[j as int] == list@[j as int]@ && l[i as int] == list@[i as int]@);
            if list[j] == list[i] {
                seen = true;
            }
            j = j + 1;
        }
        proof {
            lemma_dups_step(l, i as int);
            if seen {
                let k = choose|k: int| 0 <= k < i && l[k] == l[i as int];
                assert(l.take(i as int)[k] == l[i as int]);
            }
            if l.take(i as int).contains(l[i as int]) {
                let k = choose|k: int| 0 <= k < i && l.take(i as int)[k] == l[i as int];
                assert(l[k] == l[i as int]);
            }
        }
        if seen {
            let ghost before = seqs(dup@);
            dup.push(to_chars(list[i].as_str()));
            assert(seqs(dup@) =~= before + seq![l[i as int]]);
        } else {
            assert(seqs(dup@) =~= seqs(dup@) + Seq::<Seq<char>>::empty());
        }
        i = i + 1;
    }
    assert(l.take(list@.len() as int) =~= l);
    if dup.len() > 0 {
        let mut m = to_chars("Duplicate licenses found in ");
        extend_str(&mut m, kind);
        extend_str(&mut m, " list: ");
        let joined = join_exec(&dup, ", ");
        extend(&mut m, joined.as_slice());
        Some(crate::text::from_chars(m.as_slice()))
    } else {
        None
    }
}

impl LicenseConfig {
    /// Validates the license lists: no blank entry and no repeated entry in
    /// either list, the restrictive list being checked first.
    pub fn validate(&self) -> (r: Result<(), FeludaError>)
        ensures
            validation_result(license_config_error(*self), r),
    {
        match check_license_list(&self.restrictive, "restrictive") {
            Some(m) => return Err(FeludaError::Config(m)),
            None => {},
        }
        match check_license_list(&self.ignore, "ignore") {
            Some(m) => Err(FeludaError::Config(m)),
            None => Ok(()),
        }
    }
}

impl DependencyConfig {
    /// Validates the depth limit (1 to 100) and the ignore list (no blank
    /// name, no repeated name and version).
    pub fn validate(&self) -> (r: Result<(), FeludaError>)
        ensures
            validation_result(dependency_config_error(*self), r),
    {
        if self.max_depth == 0 {
            return Err(FeludaError::Config(owned("max_depth must be greater than 0")));
        }
        if self.max_depth > 100 {
            return Err(
                FeludaError::Config(
                    owned("max_depth must be 100 or less to prevent excessive resource usage"),
                ),
            );
        }
        let mut i: usize = 0;
        while i < self.ignore.len()
            invariant
                i <= self.ignore@.len(),
                1 <= self.max_depth <= 100,
                forall|k: int| 0 <= k < i ==> !blank(#[trigger] self.ignore@[k].name@),
            decreases self.ignore@.len() - i,
        {
            if is_blank(self.ignore[i].name.as_str()) {
                assert(blank(self.ignore@[i as int].name@));
                return Err(FeludaError::Config(owned("Empty dependency name found in ignore list")));
            }
            i = i + 1;
        }
        let ghost keys = self.ignore@.map_values(|d: IgnoreDependency| dep_key(d));
        let mut dup: Vec<Vec<char>> = Vec::new();
        let ghost mut dup_keys: Seq<(Seq<char>, Seq<char>)> = seq![];
        let mut i: usize = 0;
        while i < self.ignore.len()
            invariant
                i <= self.ignore@.len(),
                keys == self.ignore@.map_values(|d: IgnoreDependency| dep_key(d)),
                dup_keys == dups(keys.take(i as int)),
                seqs(dup@) == dup_keys.map_values(|k: (Seq<char>, Seq<char>)| key_text(k)),
            decreases self.ignore@.len() - i,
        {
            let mut seen = false;
            let mut j: usize = 0;
            while j < i
                invariant
                    j <= i < self.ignore@.len(),
                    keys == self.ignore@.map_values(|d: IgnoreDependency| dep_key(d)),
                    seen == exists|k: int| 0 <= k < j && keys[k] == keys[i as int],
                decreases i - j,
            {
                assert(keys[j as int] == dep_key(self.ignore@[j as int]));
                assert(keys[i as int] == dep_key(self.ignore@[i as int]));
                if self.ignore[j].name == self.ignore[i].name
                    && self.ignore[j].version == self.ignore[i].version {
                    seen = true;
                }
                j = j + 1;
            }
            proof {
                lemma_dups_step(keys, i as int);
                if seen {
                    let k = choose|k: int| 0 <= k < i && keys[k] == keys[i as int];
                    assert(keys.take(i as int)[k] == keys[i as int]);
                }
                if keys.take(i as int).contains(keys[i as int]) {
                    let k = choose|k: int| 0 <= k < i && keys.take(i as int)[k] == keys[i as int];
                    assert(keys[k] == keys[i as int]);
                }
            }
            if seen {
                let mut t = to_chars(self.ignore[i].name.as_str());
                extend_str(&mut t, "@");
                extend_str(&mut t, self.ignore[i].version.as_str());
                let ghost before = dup@;
                let ghost old_keys = dup_keys;
                assert(keys[i as int] == dep_key(self.ignore@[i as int]));
                assert(t@ == key_text(keys[i as int]));
                dup.push(t);
                proof {
                    dup_keys = dup_keys + seq![keys[i as int]];
                    assert(dup@ =~= before.push(t));
                    assert(seqs(dup@) =~= seqs(before).push(t@));
                    assert(dup_keys.map_values(|k: (Seq<char>, Seq<char>)| key_text(k))
                        =~= old_keys.map_values(|k: (Seq<char>, Seq<char>)| key_text(k)).push(
                        key_text(keys[i as int]),
                    ));
                }
            } else {
                assert(dup_keys =~= dup_keys + Seq::<(Seq<char>, Seq<char>)>::empty());
            }
            i = i + 1;
        }
        assert(keys.take(self.ignore@.len() as int) =~= keys);
        if dup.len() > 0 {
            let mut m = to_chars("Duplicate dependencies found in ignore list: ");
            let joined = join_exec(&dup, ", ");
            extend(&mut m, joined.as_slice());
            Err(FeludaError::Config(crate::text::from_chars(m.as_slice())))
        } else {
            Ok(())
        }
    }
}

impl FeludaConfig {
    /// Validates the license settings, then the dependency settings.
    pub fn validate(&self) -> (r: Result<(), FeludaError>)
        ensures
            validation_result(config_error(*self), r),
    {
        match self.licenses.validate() {
            Err(e) => return Err(e),
            Ok(()) => {},
        }
        self.dependencies.validate()
    }
}


/// Whether an ignore rule covers a dependency: same name, and the rule's
/// version is empty or equal to the dependency's.
pub open spec fn rule_matches(rule: IgnoreDependency, name: Seq<char>, version: Option<Seq<char>>) -> bool {
    rule.name@ == name && (rule.version@.len() == 0 || version == Some(rule.version@))
}

/// Unicode `Alphabetic` or `Numeric` (Rust's `char::is_alphanumeric`).
pub uninterp spec fn is_alnum(c: char) -> bool;

/// Whether a character is alphanumeric, by `char::is_alphanumeric`.
#[verifier::external_body]
fn char_is_alphanumeric(c: char) -> (r: bool)
    ensures
        r == is_alnum(c),
{
    c.is_alphanumeric()
}

/// Characters allowed in a license identifier.
pub open spec fn id_char(c: char) -> bool {
    is_alnum(c) || c == '.' || c == '-' || c == '+' || c == '(' || c == ')' || c == '_'
}

/// The UTF-8 width of a character (`char::len_utf8`).
pub open spec fn char_width(c: char) -> nat {
    if (c as u32) < 0x80 {
        1
    } else if (c as u32) < 0x800 {
        2
    } else if (c as u32) < 0x10000 {
        3
    } else {
        4
    }
}

/// The UTF-8 byte length of a character sequence (`str::len`).
pub open spec fn utf8_len(t: Seq<char>) -> nat
    decreases t.len(),
{
    if t.len() == 0 {
        0
    } else {
        utf8_len(t.drop_last()) + char_width(t.last())
    }
}

/// The UTF-8 byte length of characters.
pub fn utf8_len_exec(t: &[char]) -> (r: u128)
    ensures
        r == utf8_len(t@),
{
    let mut acc: u128 = 0;
    let mut i: usize = 0;
    while i < t.len()
        invariant
            i <= t@.len(),
            acc == utf8_len(t@.take(i as int)),
            acc <= 4 * i,
        decreases t@.len() - i,
    {
        let c = t[i];
        let w: u128 = if (c as u32) < 0x80 {
            1
        } else if (c as u32) < 0x800 {
            2
        } else if (c as u32) < 0x10000 {
            3
        } else {
            4
        };
        assert(t@.take(i + 1).drop_last() =~= t@.take(i as int));
        acc = acc + w;
        i = i + 1;
    }
    assert(t@.take(t@.len() as int) =~= t@);
    acc
}

/// A plausible license identifier: one of the special forms, or a non-empty
/// run of identifier characters of at most 100 UTF-8 bytes (after trimming).
pub open spec fn valid_license_identifier(s: Seq<char>) -> bool {
    let t = trim(s);
    ||| t == "SEE LICENSE IN LICENSE"@
    ||| t == "UNLICENSED"@
    ||| t == "NOASSERTION"@
    ||| (forall|i: int| 0 <= i < t.len() ==> id_char(#[trigger] t[i])) && t.len() > 0
        && utf8_len(t) <= 100
}

impl LicenseConfig {
    /// Basic validation of a license identifier.
    pub fn is_valid_license_identifier(license: &str) -> (r: bool)
        ensures
            r == valid_license_identifier(license@),
    {
        let c = to_chars(license);
        let t = trimmed(c.as_slice());
        if crate::text::eq_str(t.as_slice(), "SEE LICENSE IN LICENSE")
            || crate::text::eq_str(t.as_slice(), "UNLICENSED")
            || crate::text::eq_str(t.as_slice(), "NOASSERTION") {
            return true;
        }
        let mut i: usize = 0;
        while i < t.len()
            invariant
                i <= t@.len(),
                t@ == trim(license@),
                !(t@ == "SEE LICENSE IN LICENSE"@ || t@ == "UNLICENSED"@ || t@ == "NOASSERTION"@),
                forall|k: int| 0 <= k < i ==> id_char(#[trigger] t@[k]),
            decreases t@.len() - i,
        {
            let ch = t[i];
            if !(char_is_alphanumeric(ch) || ch == '.' || ch == '-' || ch == '+' || ch == '('
                || ch == ')' || ch == '_') {
                assert(!id_char(t@[i as int]));
                return false;
            }
            i = i + 1;
        }
        t.len() > 0 && utf8_len_exec(t.as_slice()) <= 100
    }
}

impl DependencyConfig {
    /// Whether some ignore rule covers the dependency `name` at `version`.
    pub fn should_ignore_dependency(&self, name: &str, version: Option<&str>) -> (r: bool)
        ensures
            r == exists|i: int|
                0 <= i < self.ignore@.len() && rule_matches(
                    #[trigger] self.ignore@[i],
                    name@,
                    match version {
                        Some(v) => Some(v@),
                        None => None,
                    },
                ),
    {
        let ghost ver = match version {
            Some(v) => Some(v@),
            None => None::<Seq<char>>,
        };
        let n = to_chars(name);
        let mut i: usize = 0;
        while i < self.ignore.len()
            invariant
                i <= self.ignore@.len(),
                n@ == name@,
                ver == match version {
                    Some(v) => Some(v@),
                    None => None,
                },
                forall|k: int| 0 <= k < i ==> !rule_matches(#[trigger] self.ignore@[k], name@, ver),
            decreases self.ignore@.len() - i,
        {
            let rule = &self.ignore[i];
            let rn = to_chars(rule.name.as_str());
            if crate::text::eq_exec(rn.as_slice(), n.as_slice()) {
                if rule.version.as_str().is_empty() {
                    proof {
                        assert(rule.version@.len() == 0);
                    }
                    return true;
                }
                match version {
                    Some(v) => {
                        let vc = to_chars(v);
                        let rv = to_chars(rule.version.as_str());
                        if crate::text::eq_exec(vc.as_slice(), rv.as_slice()) {
                            return true;
                        }
                    },
                    None => {},
                }
            }
            i = i + 1;
        }
        false
    }
}


/// A list without repeated entries has no duplicates.
proof fn lemma_dups_empty<A>(s: Seq<A>)
    requires
        dups(s).len() == 0,
    ensures
        s.no_duplicates(),
    decreases s.len(),
{
    if s.len() > 0 {
        lemma_dups_empty(s.drop_last());
        let p = s.drop_last();
        assert(!p.contains(s.last()));
        assert forall|i: int, j: int| 0 <= i < s.len() && 0 <= j < s.len() && i != j implies s[i]
            != s[j] by {
            if i < s.len() - 1 && j < s.len() - 1 {
                assert(p[i] == s[i] && p[j] == s[j]);
            } else if i == s.len() - 1 {
                assert(p[j] == s[j]);
            } else {
                assert(p[i] == s[i]);
            }
        }
    }
}

/// What a configuration that passes validation holds: no blank license in
/// either list, no license twice in a list, a depth limit from 1 to 100, and
/// no ignored dependency without a name or listed twice.
pub proof fn lemma_valid_lists(config: FeludaConfig)
    requires
        config_error(config) is None,
    ensures
        forall|i: int|
            0 <= i < config.licenses.restrictive@.len() ==> !blank(
                #[trigger] strs(config.licenses.restrictive@)[i],
            ),
        forall|i: int|
            0 <= i < config.licenses.ignore@.len() ==> !blank(
                #[trigger] strs(config.licenses.ignore@)[i],
            ),
        strs(config.licenses.restrictive@).no_duplicates(),
        strs(config.licenses.ignore@).no_duplicates(),
        1 <= config.dependencies.max_depth <= 100,
        forall|i: int|
            0 <= i < config.dependencies.ignore@.len() ==> !blank(
                #[trigger] config.dependencies.ignore@[i].name@,
            ),
        config.dependencies.ignore@.map_values(|d: IgnoreDependency| dep_key(d)).no_duplicates(),
{
    lemma_dups_empty(strs(config.licenses.restrictive@));
    lemma_dups_empty(strs(config.licenses.ignore@));
    lemma_dups_empty(config.dependencies.ignore@.map_values(|d: IgnoreDependency| dep_key(d)));
}

/// A configuration that passes validation holds each license at most once
/// per list and no blank license, and its depth limit is between 1 and 100.
pub proof fn law_valid_configuration(config: FeludaConfig)
    requires
        config_error(config) is None,
    ensures
        strs(config.licenses.restrictive@).no_duplicates(),
        strs(config.licenses.ignore@).no_duplicates(),
        forall|i: int|
            0 <= i < config.licenses.ignore@.len() ==> !blank(
                #[trigger] strs(config.licenses.ignore@)[i],
            ),
        1 <= config.dependencies.max_depth <= 100,
{
    lemma_valid_lists(config);
}

/// An ignore rule with an empty version covers every version of its
/// dependency, and a missing version too.
pub proof fn law_empty_version_covers_all(rule: IgnoreDependency, version: Option<Seq<char>>)
    requires
        rule.version@.len() == 0,
    ensures
        rule_matches(rule, rule.name@, version),
{
}

} // verus!
