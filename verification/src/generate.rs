//! Generated compliance files (NOTICE and THIRD_PARTY_LICENSES): their
//! names, their text, the package links they cite, and the choices of the
//! interactive menu that picks one.

use vstd::prelude::*;

use crate::licenses::{LicenseCompatibility, LicenseInfo, license_text, opt_string};
use crate::clock::{current_stamp, stamp_text};
use crate::lists::{keep, lemma_keep_push, lemma_keep_sound};
use crate::order::{lemma_ascending_unique, lemma_lt_asymmetric, lemma_lt_irreflexive, lemma_lt_total, lemma_lt_transitive, lt_str, str_lt};
use crate::text::{
    contains, contains_str, decimal, decimal_exec, ends_with, eq_str, extend, extend_str, from_chars, lowercase, owned,
    pairs, starts_with, starts_with_str, to_chars, to_lower, trim, trimmed,
};

verus! {

/// The files that can be generated.
#[derive(Debug, Clone, Copy, PartialEq, Eq, Structural)]
pub enum GenerateOption {
    Notice,
    ThirdPartyLicenses,
}

/// The name shown for an option.
pub open spec fn display_name_of(o: GenerateOption) -> Seq<char> {
    match o {
        GenerateOption::Notice => "NOTICE file"@,
        GenerateOption::ThirdPartyLicenses => "THIRD_PARTY_LICENSES file"@,
    }
}

/// The file name of an option, without extension.
pub open spec fn filename_of(o: GenerateOption) -> Seq<char> {
    match o {
        GenerateOption::Notice => "NOTICE"@,
        GenerateOption::ThirdPartyLicenses => "THIRD_PARTY_LICENSES"@,
    }
}

/// The file extension of an option.
pub open spec fn extension_of(o: GenerateOption) -> Seq<char> {
    match o {
        GenerateOption::Notice => ""@,
        GenerateOption::ThirdPartyLicenses => ".md"@,
    }
}

impl GenerateOption {
    /// The name shown for the option.
    pub fn display_name(&self) -> (r: &'static str)
        ensures
            r@ == display_name_of(*self),
    {
        match self {
            GenerateOption::Notice => "NOTICE file",
            GenerateOption::ThirdPartyLicenses => "THIRD_PARTY_LICENSES file",
        }
    }

    /// The file name, without extension.
    pub fn filename(&self) -> (r: &'static str)
        ensures
            r@ == filename_of(*self),
    {
        match self {
            GenerateOption::Notice => "NOTICE",
            GenerateOption::ThirdPartyLicenses => "THIRD_PARTY_LICENSES",
        }
    }

    /// The file extension.
    pub fn extension(&self) -> (r: &'static str)
        ensures
            r@ == extension_of(*self),
    {
        match self {
            GenerateOption::Notice => "",
            GenerateOption::ThirdPartyLicenses => ".md",
        }
    }

    /// The file name with its extension.
    pub fn full_filename(&self) -> (r: String)
        ensures
            r@ == filename_of(*self) + extension_of(*self),
    {
        let mut v = to_chars(self.filename());
        extend_str(&mut v, self.extension());
        from_chars(v.as_slice())
    }
}

/// Whether a character is lower case, by `char::is_lowercase` (the Unicode
/// `Lowercase` property).
pub uninterp spec fn is_lower(c: char) -> bool;

/// Whether a character is lower case (`char::is_lowercase`). For ASCII this
/// is exactly the letters `a` to `z`.
#[verifier::external_body]
fn char_is_lowercase(c: char) -> (r: bool)
    ensures
        r == is_lower(c),
        (c as u32) < 128 ==> (r <==> ('a' <= c && c <= 'z')),
{
    c.is_lowercase()
}

/// A name that looks like a Python package: a usual prefix, a well-known
/// package, or lower-case letters and underscores with an underscore.
pub open spec fn python_like(name: Seq<char>) -> bool {
    ||| starts_with(name, "python-"@)
    ||| starts_with(name, "django-"@)
    ||| starts_with(name, "flask-"@)
    ||| starts_with(name, "pytest-"@)
    ||| starts_with(name, "py-"@)
    ||| name == "requests"@
    ||| name == "numpy"@
    ||| name == "pandas"@
    ||| name == "click"@
    ||| name == "boto3"@
    ||| (forall|i: int| 0 <= i < name.len() ==> is_lower(#[trigger] name[i]) || name[i] == '_')
        && contains(name, "_"@)
}

/// A name or version that looks like an npm package's: a usual prefix, a
/// well-known package, or an npm version range or tag.
pub open spec fn npm_like(name: Seq<char>, version: Seq<char>) -> bool {
    ||| starts_with(name, "react-"@)
    ||| starts_with(name, "vue-"@)
    ||| starts_with(name, "angular-"@)
    ||| starts_with(name, "webpack-"@)
    ||| starts_with(name, "babel-"@)
    ||| starts_with(name, "eslint-"@)
    ||| starts_with(name, "express-"@)
    ||| starts_with(name, "node-"@)
    ||| name == "express"@
    ||| name == "lodash"@
    ||| name == "axios"@
    ||| name == "moment"@
    ||| starts_with(version, "^"@)
    ||| starts_with(version, "~"@)
    ||| version == "latest"@
    ||| version == "next"@
}

/// The registry page of a package, guessed from its name and version: Go
/// modules (a path with a dot), scoped npm packages, Python-looking names,
/// npm-looking names or versions, and crates (a version starting with a
/// digit), in that order of precedence.
pub open spec fn package_url(name: Seq<char>, version: Seq<char>) -> Option<Seq<char>> {
    if name.len() == 0 {
        None
    } else if contains(name, "/"@) && contains(name, "."@) {
        Some("https://pkg.go.dev/"@ + name)
    } else if starts_with(name, "@"@) && contains(name, "/"@) {
        Some("https://www.npmjs.com/package/"@ + name)
    } else if python_like(name) {
        Some("https://pypi.org/project/"@ + name + "/"@)
    } else if npm_like(name, version) {
        Some("https://www.npmjs.com/package/"@ + name)
    } else if version.len() > 0 && '0' <= version[0] && version[0] <= '9' {
        Some("https://crates.io/crates/"@ + name)
    } else {
        None
    }
}

/// Whether every character is lower case or an underscore.
fn lower_or_underscore(s: &[char]) -> (r: bool)
    ensures
        r == forall|i: int| 0 <= i < s@.len() ==> is_lower(#[trigger] s@[i]) || s@[i] == '_',
{
    let mut i: usize = 0;
    while i < s.len()
        invariant
            i <= s@.len(),
            forall|k: int| 0 <= k < i ==> is_lower(#[trigger] s@[k]) || s@[k] == '_',
        decreases s@.len() - i,
    {
        if !(char_is_lowercase(s[i]) || s[i] == '_') {
            return false;
        }
        i = i + 1;
    }
    true
}

/// Whether a name looks like a Python package's.
fn is_python_like(n: &[char]) -> (r: bool)
    ensures
        r == python_like(n@),
{
    starts_with_str(n, "python-") || starts_with_str(n, "django-") || starts_with_str(n, "flask-")
        || starts_with_str(n, "pytest-") || starts_with_str(n, "py-") || eq_str(n, "requests")
        || eq_str(n, "numpy") || eq_str(n, "pandas") || eq_str(n, "click") || eq_str(n, "boto3")
        || (lower_or_underscore(n) && contains_str(n, "_"))
}

/// Whether a name or version looks like an npm package's.
fn is_npm_like(n: &[char], v: &[char]) -> (r: bool)
    ensures
        r == npm_like(n@, v@),
{
    starts_with_str(n, "react-") || starts_with_str(n, "vue-") || starts_with_str(n, "angular-")
        || starts_with_str(n, "webpack-") || starts_with_str(n, "babel-") || starts_with_str(
        n,
        "eslint-",
    ) || starts_with_str(n, "express-") || starts_with_str(n, "node-") || eq_str(n, "express")
        || eq_str(n, "lodash") || eq_str(n, "axios") || eq_str(n, "moment") || starts_with_str(
        v,
        "^",
    ) || starts_with_str(v, "~") || eq_str(v, "latest") || eq_str(v, "next")
}

/// `prefix` + `name` + `suffix` as a `String`.
fn url_of(prefix: &str, name: &[char], suffix: &str) -> (r: String)
    ensures
        r@ == prefix@ + name@ + suffix@,
{
    let mut v = to_chars(prefix);
    extend(&mut v, name);
    extend_str(&mut v, suffix);
    from_chars(v.as_slice())
}

/// `prefix` + `name` as a `String`.
fn prefixed(prefix: &str, name: &[char]) -> (r: String)
    ensures
        r@ == prefix@ + name@,
{
    let mut v = to_chars(prefix);
    extend(&mut v, name);
    from_chars(v.as_slice())
}

/// The registry page of a package (see `package_url`).
pub fn generate_package_url(name: &str, version: &str) -> (r: Option<String>)
    ensures
        match package_url(name@, version@) {
            Some(u) => r matches Some(s) && s@ == u,
            None => r is None,
        },
{
    let n = to_chars(name);
    let v = to_chars(version);
    if n.len() == 0 {
        None
    } else if contains_str(n.as_slice(), "/") && contains_str(n.as_slice(), ".") {
        Some(prefixed("https://pkg.go.dev/", n.as_slice()))
    } else if starts_with_str(n.as_slice(), "@") && contains_str(n.as_slice(), "/") {
        Some(prefixed("https://www.npmjs.com/package/", n.as_slice()))
    } else if is_python_like(n.as_slice()) {
        Some(url_of("https://pypi.org/project/", n.as_slice(), "/"))
    } else if is_npm_like(n.as_slice(), v.as_slice()) {
        Some(prefixed("https://www.npmjs.com/package/", n.as_slice()))
    } else if v.len() > 0 && '0' <= v[0] && v[0] <= '9' {
        Some(prefixed("https://crates.io/crates/", n.as_slice()))
    } else {
        None
    }
}

/// A key press in the interactive menu.
#[derive(Debug, Clone, Copy, PartialEq, Eq, Structural)]
pub enum KeyInput {
    Up,
    Down,
    Enter,
    Escape,
    Char(char),
    Unknown,
}

/// The key that a byte read from the terminal stands for; after an escape
/// byte, `tail` holds the two bytes that followed it when two could be read.
/// Arrow keys arrive as escape sequences; `q` quits and `k`/`j` move as in
/// vi.
pub open spec fn key_of(first: u8, tail: Option<(u8, u8)>) -> KeyInput {
    if first == 13 || first == 10 {
        KeyInput::Enter
    } else if first == 27 {
        match tail {
            Some((a, b)) => if a == 91 {
                if b == 65 {
                    KeyInput::Up
                } else if b == 66 {
                    KeyInput::Down
                } else {
                    KeyInput::Escape
                }
            } else {
                KeyInput::Escape
            },
            None => KeyInput::Escape,
        }
    } else if first == 113 || first == 81 {
        KeyInput::Escape
    } else if first == 107 || first == 75 {
        KeyInput::Up
    } else if first == 106 || first == 74 {
        KeyInput::Down
    } else if 32 <= first && first <= 126 {
        KeyInput::Char(first as char)
    } else {
        KeyInput::Unknown
    }
}

/// The key that terminal bytes stand for (see `key_of`).
pub fn decode_key(first: u8, tail: Option<(u8, u8)>) -> (k: KeyInput)
    ensures
        k == key_of(first, tail),
{
    if first == 13 || first == 10 {
        KeyInput::Enter
    } else if first == 27 {
        match tail {
            Some((a, b)) => if a == 91 {
                if b == 65 {
                    KeyInput::Up
                } else if b == 66 {
                    KeyInput::Down
                } else {
                    KeyInput::Escape
                }
            } else {
                KeyInput::Escape
            },
            None => KeyInput::Escape,
        }
    } else if first == 113 || first == 81 {
        KeyInput::Escape
    } else if first == 107 || first == 75 {
        KeyInput::Up
    } else if first == 106 || first == 74 {
        KeyInput::Down
    } else if 32 <= first && first <= 126 {
        KeyInput::Char(first as char)
    } else {
        KeyInput::Unknown
    }
}

/// What the menu does after a key press or a line of input.
#[derive(Debug, Clone, Copy, PartialEq, Eq, Structural)]
pub enum MenuAction {
    /// Show the menu again and wait for more input.
    Stay,
    /// The user chose a file to generate.
    Select(GenerateOption),
    /// The user cancelled.
    Cancel,
    /// Show the help screen, then the menu again.
    Help,
}

/// The menu's lines: the two files, then Cancel at index 2.
pub open spec fn menu_len() -> nat {
    2
}

/// The option at a menu line.
pub open spec fn option_at(i: nat) -> GenerateOption {
    if i == 0 {
        GenerateOption::Notice
    } else {
        GenerateOption::ThirdPartyLicenses
    }
}

/// The menu's next highlighted line and action after a key press: arrows
/// move the highlight, wrapping around through Cancel; Enter picks the
/// highlighted line; `1`, `2` and `0` pick directly; `h` and `?` ask for
/// help; Escape cancels; anything else is ignored.
pub open spec fn menu_next(selected: nat, key: KeyInput) -> (nat, MenuAction) {
    match key {
        KeyInput::Up => (if selected > 0 { (selected - 1) as nat } else { menu_len() }, MenuAction::Stay),
        KeyInput::Down => (if selected < menu_len() { selected + 1 } else { 0 }, MenuAction::Stay),
        KeyInput::Enter => (
            selected,
            if selected < menu_len() {
                MenuAction::Select(option_at(selected))
            } else {
                MenuAction::Cancel
            },
        ),
        KeyInput::Escape => (selected, MenuAction::Cancel),
        KeyInput::Char(c) => (
            selected,
            if c == '1' {
                MenuAction::Select(GenerateOption::Notice)
            } else if c == '2' {
                MenuAction::Select(GenerateOption::ThirdPartyLicenses)
            } else if c == '0' {
                MenuAction::Cancel
            } else if c == 'h' || c == '?' {
                MenuAction::Help
            } else {
                MenuAction::Stay
            },
        ),
        KeyInput::Unknown => (selected, MenuAction::Stay),
    }
}

/// One step of the interactive menu (see `menu_next`).
pub fn menu_step(selected: usize, key: KeyInput) -> (r: (usize, MenuAction))
    requires
        selected <= menu_len(),
    ensures
        (r.0 as nat, r.1) == menu_next(selected as nat, key),
{
    match key {
        KeyInput::Up => (if selected > 0 { selected - 1 } else { 2 }, MenuAction::Stay),
        KeyInput::Down => (if selected < 2 { selected + 1 } else { 0 }, MenuAction::Stay),
        KeyInput::Enter => (
            selected,
            if selected == 0 {
                MenuAction::Select(GenerateOption::Notice)
            } else if selected == 1 {
                MenuAction::Select(GenerateOption::ThirdPartyLicenses)
            } else {
                MenuAction::Cancel
            },
        ),
        KeyInput::Escape => (selected, MenuAction::Cancel),
        KeyInput::Char(c) => (
            selected,
            if c == '1' {
                MenuAction::Select(GenerateOption::Notice)
            } else if c == '2' {
                MenuAction::Select(GenerateOption::ThirdPartyLicenses)
            } else if c == '0' {
                MenuAction::Cancel
            } else if c == 'h' || c == '?' {
                MenuAction::Help
            } else {
                MenuAction::Stay
            },
        ),
        KeyInput::Unknown => (selected, MenuAction::Stay),
    }
}

/// What a line typed at the plain menu chooses, once trimmed and lower-cased:
/// `1` and `2` pick a file, `0`, `q`, `quit` and `exit` cancel, and
/// anything else asks again.
pub open spec fn line_action(line: Seq<char>) -> MenuAction {
    let c = lowercase(trim(line));
    if c == "0"@ {
        MenuAction::Cancel
    } else if c == "1"@ {
        MenuAction::Select(GenerateOption::Notice)
    } else if c == "2"@ {
        MenuAction::Select(GenerateOption::ThirdPartyLicenses)
    } else if c == "q"@ || c == "quit"@ || c == "exit"@ {
        MenuAction::Cancel
    } else {
        MenuAction::Stay
    }
}

/// What a typed line chooses (see `line_action`).
pub fn line_choice(line: &str) -> (r: MenuAction)
    ensures
        r == line_action(line@),
{
    let lc = to_chars(line);
    let t = trimmed(lc.as_slice());
    let c = to_lower(t.as_slice());
    if eq_str(c.as_slice(), "0") {
        MenuAction::Cancel
    } else if eq_str(c.as_slice(), "1") {
        MenuAction::Select(GenerateOption::Notice)
    } else if eq_str(c.as_slice(), "2") {
        MenuAction::Select(GenerateOption::ThirdPartyLicenses)
    } else if eq_str(c.as_slice(), "q") || eq_str(c.as_slice(), "quit") || eq_str(c.as_slice(), "exit") {
        MenuAction::Cancel
    } else {
        MenuAction::Stay
    }
}

/// The highlighted line of the menu stays on one of its lines.
pub proof fn law_menu_selection_in_range(selected: nat, key: KeyInput)
    requires
        selected <= menu_len(),
    ensures
        menu_next(selected, key).0 <= menu_len(),
{
}

/// Moving the highlight up and then down, or down and then up, returns to
/// the line it started on.
pub proof fn law_menu_up_down_undo(selected: nat)
    requires
        selected <= menu_len(),
    ensures
        menu_next(menu_next(selected, KeyInput::Up).0, KeyInput::Down).0 == selected,
        menu_next(menu_next(selected, KeyInput::Down).0, KeyInput::Up).0 == selected,
{
}

/// A listed dependency: its name and version.
pub type Entry = (Seq<char>, Seq<char>);

/// `sorted` with `x` inserted after every entry whose name does not come
/// after `x`'s: a stable insertion by name.
pub open spec fn insert_by_name(sorted: Seq<Entry>, x: Entry) -> Seq<Entry>
    decreases sorted.len(),
{
    if sorted.len() == 0 {
        seq![x]
    } else if str_lt(x.0, sorted.last().0) {
        insert_by_name(sorted.drop_last(), x).push(sorted.last())
    } else {
        sorted.push(x)
    }
}

/// Entries stably sorted by name: entries with equal names keep their order.
pub open spec fn sort_by_name(s: Seq<Entry>) -> Seq<Entry>
    decreases s.len(),
{
    if s.len() == 0 {
        Seq::empty()
    } else {
        insert_by_name(sort_by_name(s.drop_last()), s.last())
    }
}

/// The entry of a dependency.
pub open spec fn entry_of(d: LicenseInfo) -> Entry {
    (d.name@, d.version@)
}

/// Dependencies whose license text is `key`.
pub open spec fn has_license(key: Seq<char>) -> spec_fn(LicenseInfo) -> bool {
    |d: LicenseInfo| license_text(d.license) == key
}

/// The entries of the dependencies under license `key`, in their order.
pub open spec fn entries_with(s: Seq<LicenseInfo>, key: Seq<char>) -> Seq<Entry> {
    keep(s, has_license(key)).map_values(|d: LicenseInfo| entry_of(d))
}

/// `groups` lists the dependencies of `s` by license: each license of a
/// dependency appears once, in ascending order, with the entries of its
/// dependencies stably sorted by name.
pub open spec fn groups_by_license(s: Seq<LicenseInfo>, groups: Seq<(Seq<char>, Seq<Entry>)>) -> bool {
    &&& forall|j: int, k: int|
        #![trigger groups[j], groups[k]]
        0 <= j < k < groups.len() ==> str_lt(groups[j].0, groups[k].0)
    &&& forall|k: int|
        0 <= k < groups.len() ==> #[trigger] groups[k].1 == sort_by_name(entries_with(s, groups[k].0))
            && entries_with(s, groups[k].0).len() > 0
    &&& forall|d: int|
        0 <= d < s.len() ==> exists|k: int|
            0 <= k < groups.len() && groups[k].0 == license_text((#[trigger] s[d]).license)
}

/// The view of license groups.
pub open spec fn group_views(v: Seq<(String, Vec<(String, String)>)>) -> Seq<(Seq<char>, Seq<Entry>)> {
    v.map_values(|g: (String, Vec<(String, String)>)| (g.0@, pairs(g.1@)))
}

/// Inserting at the position found by scanning back over the entries whose
/// names come after `x`'s is the stable insertion.
proof fn lemma_insert_by_name_at(s: Seq<Entry>, x: Entry, p: int)
    requires
        0 <= p <= s.len(),
        forall|j: int| p <= j < s.len() ==> str_lt(x.0, #[trigger] s[j].0),
        p == 0 || !str_lt(x.0, s[p - 1].0),
    ensures
        insert_by_name(s, x) == s.insert(p, x),
    decreases s.len(),
{
    if s.len() == 0 {
        assert(s.insert(p, x) =~= seq![x]);
    } else if p == s.len() {
        assert(s.insert(p, x) =~= s.push(x));
    } else {
        assert(str_lt(x.0, s.last().0));
        lemma_insert_by_name_at(s.drop_last(), x, p);
        assert(s.drop_last().insert(p, x).push(s.last()) =~= s.insert(p, x));
    }
}

/// Inserts `x` into entries sorted by name, after those whose names do not
/// come after `x`'s.
fn insert_entry(v: &mut Vec<(String, String)>, x: (String, String))
    ensures
        pairs(final(v)@) == insert_by_name(pairs(old(v)@), (x.0@, x.1@)),
{
    let mut p: usize = v.len();
    while p > 0 && lt_str(x.0.as_str(), v[p - 1].0.as_str())
        invariant
            p <= v@.len(),
            v@ == old(v)@,
            forall|j: int| p <= j < v@.len() ==> str_lt(x.0@, #[trigger] pairs(v@)[j].0),
        decreases p,
    {
        assert(pairs(v@)[p - 1].0 == v@[p - 1].0@);
        p = p - 1;
    }
    proof {
        if p > 0 {
            assert(pairs(v@)[p - 1].0 == v@[p - 1].0@);
        }
        lemma_insert_by_name_at(pairs(v@), (x.0@, x.1@), p as int);
    }
    let ghost xv = (x.0@, x.1@);
    v.insert(p, x);
    assert(pairs(v@) =~= pairs(old(v)@).insert(p as int, xv));
}

/// The entries under a license for a prefix one dependency longer.
proof fn lemma_entries_step(s: Seq<LicenseInfo>, i: int, key: Seq<char>)
    requires
        0 <= i < s.len(),
    ensures
        entries_with(s.take(i + 1), key) == if license_text(s[i].license) == key {
            entries_with(s.take(i), key).push(entry_of(s[i]))
        } else {
            entries_with(s.take(i), key)
        },
{
    lemma_keep_push(s, i, has_license(key));
    let k0 = keep(s.take(i), has_license(key));
    if license_text(s[i].license) == key {
        assert(k0.push(s[i]).map_values(|d: LicenseInfo| entry_of(d)) =~= k0.map_values(
            |d: LicenseInfo| entry_of(d),
        ).push(entry_of(s[i])));
    }
}

/// An owned copy of a dependency's entry.
fn entry_exec(d: &LicenseInfo) -> (r: (String, String))
    ensures
        (r.0@, r.1@) == entry_of(*d),
{
    (owned(d.name.as_str()), owned(d.version.as_str()))
}

/// Adding a new license group at its place, for the dependency that
/// extends the prefix, keeps the groups a grouping by license.
proof fn lemma_group_added(
    s0: Seq<LicenseInfo>,
    s1: Seq<LicenseInfo>,
    old_groups: Seq<(Seq<char>, Seq<Entry>)>,
    ng: Seq<(Seq<char>, Seq<Entry>)>,
    x: Seq<char>,
    ev: Entry,
    p: int,
)
    requires
        groups_by_license(s0, old_groups),
        s1.len() == s0.len() + 1,
        forall|d: int| 0 <= d < s0.len() ==> #[trigger] s1[d] == s0[d],
        license_text(s1[s0.len() as int].license) == x,
        forall|y: Seq<char>| #[trigger] entries_with(s1, y) == if y == x {
            entries_with(s0, y).push(ev)
        } else {
            entries_with(s0, y)
        },
        0 <= p <= old_groups.len(),
        forall|j: int| 0 <= j < p ==> str_lt(#[trigger] old_groups[j].0, x),
        p < old_groups.len() ==> str_lt(x, old_groups[p].0),
        forall|k: int| 0 <= k < old_groups.len() ==> #[trigger] old_groups[k].0 != x,
        entries_with(s0, x) == Seq::<Entry>::empty(),
        ng == old_groups.insert(p, (x, seq![ev])),
    ensures
        groups_by_license(s1, ng),
{
    assert(sort_by_name(seq![ev]) =~= seq![ev]) by {
        assert(seq![ev].drop_last() =~= Seq::<Entry>::empty());
        assert(sort_by_name(Seq::<Entry>::empty()) =~= Seq::<Entry>::empty());
        assert(insert_by_name(Seq::<Entry>::empty(), ev) =~= seq![ev]);
    }
    assert(entries_with(s1, x) =~= seq![ev]);
    assert forall|j: int, k: int| #![trigger ng[j], ng[k]] 0 <= j < k < ng.len() implies str_lt(ng[j].0, ng[k].0) by {
        if k < p {
        } else if k == p {
        } else if j < p {
            assert(ng[k] == old_groups[k - 1]);
            if k - 1 > p {
                lemma_lt_transitive(x, old_groups[p as int].0, old_groups[k - 1].0);
            }
            lemma_lt_transitive(ng[j].0, x, ng[k].0);
        } else if j == p {
            assert(ng[k] == old_groups[k - 1]);
            if k - 1 > p {
                lemma_lt_transitive(x, old_groups[p as int].0, old_groups[k - 1].0);
            }
        } else {
            assert(ng[j] == old_groups[j - 1]);
            assert(ng[k] == old_groups[k - 1]);
        }
    }
    assert forall|d: int| 0 <= d < s1.len() implies exists|k: int|
        0 <= k < ng.len() && ng[k].0 == license_text((#[trigger] s1[d]).license) by {
        if d < s0.len() {
            assert(s0[d] == s1[d]);
            let k = choose|k: int| 0 <= k < old_groups.len() && old_groups[k].0 == license_text(s0[d].license);
            if k < p {
                assert(ng[k] == old_groups[k]);
            } else {
                assert(ng[k + 1] == old_groups[k]);
            }
        } else {
            assert(ng[p as int].0 == x);
        }
    }
    assert forall|k: int| 0 <= k < ng.len() implies #[trigger] ng[k].1 == sort_by_name(entries_with(s1, ng[k].0))
        && entries_with(s1, ng[k].0).len() > 0 by {
        if k == p {
            assert(ng[k] == (x, seq![ev]));
        } else {
            let q = if k < p { k } else { k - 1 };
            let g = old_groups[q];
            assert(ng[k] == g);
            assert(g.1 == sort_by_name(entries_with(s0, g.0)) && entries_with(s0, g.0).len() > 0);
            assert(g.0 != x);
            assert(entries_with(s1, g.0) == entries_with(s0, g.0));
        }
    }
}

/// The dependencies grouped by license (see `groups_by_license`).
pub fn group_by_license(data: &Vec<LicenseInfo>) -> (groups: Vec<(String, Vec<(String, String)>)>)
    ensures
        groups_by_license(data@, group_views(groups@)),
{
    let mut groups: Vec<(String, Vec<(String, String)>)> = Vec::new();
    let mut i: usize = 0;
    while i < data.len()
        invariant
            i <= data@.len(),
            groups_by_license(data@.take(i as int), group_views(groups@)),
        decreases data@.len() - i,
    {
        let ghost s0 = data@.take(i as int);
        let ghost s1 = data@.take(i + 1);
        let ghost old_groups = group_views(groups@);
        let key = data[i].get_license();
        let ghost x = key@;
        let e = entry_exec(&data[i]);
        let ghost ev = (e.0@, e.1@);
        assert forall|y: Seq<char>| #[trigger] entries_with(s1, y) == if y == x {
            entries_with(s0, y).push(ev)
        } else {
            entries_with(s0, y)
        } by {
            lemma_entries_step(data@, i as int, y);
        }
        assert forall|d: int| 0 <= d < s0.len() implies #[trigger] s1[d] == s0[d] by {}
        let mut p: usize = 0;
        while p < groups.len() && lt_str(groups[p].0.as_str(), key.as_str())
            invariant
                p <= groups@.len(),
                x == key@,
                forall|j: int| 0 <= j < p ==> str_lt(#[trigger] group_views(groups@)[j].0, x),
            decreases groups@.len() - p,
        {
            assert(group_views(groups@)[p as int].0 == groups@[p as int].0@);
            p = p + 1;
        }
        let found = p < groups.len() && eq_str(to_chars(groups[p].0.as_str()).as_slice(), key.as_str());
        if found {
            proof {
                assert forall|k: int| 0 <= k < old_groups.len() && k != p implies #[trigger] old_groups[k].0 != x by {
                    lemma_lt_irreflexive(x);
                    if k > p {
                        lemma_lt_asymmetric(old_groups[p as int].0, old_groups[k].0);
                    }
                }
            }
            let (k, mut es) = groups.remove(p);
            let ghost old_es = pairs(es@);
            insert_entry(&mut es, e);
            groups.insert(p, (k, es));
            proof {
                let ng = group_views(groups@);
                assert forall|k: int| 0 <= k < ng.len() implies #[trigger] ng[k] == if k == p {
                    (x, insert_by_name(old_groups[k].1, ev))
                } else {
                    old_groups[k]
                } by {}
                assert(entries_with(s0, x).push(ev).drop_last() =~= entries_with(s0, x));
                assert(sort_by_name(entries_with(s0, x).push(ev)) == insert_by_name(sort_by_name(entries_with(s0, x)), ev));
                assert forall|d: int| 0 <= d < s1.len() implies exists|k: int|
                    0 <= k < ng.len() && ng[k].0 == license_text((#[trigger] s1[d]).license) by {
                    if d < s0.len() {
                        assert(s0[d] == s1[d]);
                        let k = choose|k: int| 0 <= k < old_groups.len() && old_groups[k].0 == license_text(s0[d].license);
                        assert(ng[k].0 == old_groups[k].0);
                    } else {
                        assert(ng[p as int].0 == x);
                    }
                }
            }
        } else {
            proof {
                assert forall|k: int| 0 <= k < old_groups.len() implies #[trigger] old_groups[k].0 != x by {
                    if k < p {
                        lemma_lt_irreflexive(x);
                    } else {
                        assert(old_groups[p as int].0 != x);
                        lemma_lt_total(old_groups[p as int].0, x);
                        if k > p {
                            lemma_lt_transitive(x, old_groups[p as int].0, old_groups[k].0);
                            lemma_lt_irreflexive(x);
                        }
                    }
                }
                if entries_with(s0, x).len() > 0 {
                    lemma_keep_sound(s0, has_license(x));
                    let dd = keep(s0, has_license(x))[0];
                    assert(s0.contains(dd));
                    let d = choose|d: int| 0 <= d < s0.len() && s0[d] == dd;
                    let k = choose|k: int| 0 <= k < old_groups.len() && old_groups[k].0 == license_text((#[trigger] s0[d]).license);
                    assert(old_groups[k].0 != x);
                }
                assert(entries_with(s0, x) =~= Seq::<Entry>::empty());
                assert(p < old_groups.len() ==> str_lt(x, old_groups[p as int].0)) by {
                    if p < old_groups.len() {
                        lemma_lt_total(old_groups[p as int].0, x);
                    }
                }
            }
            let mut es: Vec<(String, String)> = Vec::new();
            es.push(e);
            assert(pairs(es@) =~= seq![ev]);
            groups.insert(p, (key, es));
            proof {
                let ng = group_views(groups@);
                assert(ng =~= old_groups.insert(p as int, (x, seq![ev])));
                lemma_group_added(s0, s1, old_groups, ng, x, ev, p as int);
            }
        }
        i = i + 1;
    }
    assert(data@.take(data@.len() as int) =~= data@);
    groups
}

/// The current UTC time as generated files record it
/// (`%Y-%m-%d %H:%M:%S UTC`, see `stamp_text`), or `None` when the clock
/// cannot be read; which time depends on the clock.
pub fn generation_stamp() -> (r: Option<String>)
    ensures
        r matches Some(t) ==> stamp_text(t@),
{
    current_stamp()
}

/// What a generated file records when the clock cannot be read.
pub open spec fn unknown_stamp() -> Seq<char> {
    "unknown"@
}

/// The time a generated file records: a stamp of the form `stamp_text`, or
/// `unknown`.
pub open spec fn recorded_stamp(t: Seq<char>) -> bool {
    stamp_text(t) || t == unknown_stamp()
}

/// The opening of a NOTICE file.
pub open spec fn notice_header() -> Seq<char> {
    "NOTICE\n======\n\nThis project includes third-party software components that are subject to separate copyright notices and license terms.\nYour use of the source code for these components is subject to the terms and conditions of the following licenses.\n\n"@
}

/// The closing disclaimer of a NOTICE file.
pub open spec fn notice_disclaimer() -> Seq<char> {
    "DISCLAIMER:\n-----------\nFeluda is still in early stages!\nThe license information may be incomplete, outdated, or incorrect. Users are responsible for:\n• Verifying the accuracy of all license information\n• Ensuring compliance with all applicable license terms\n• Consulting with legal counsel for license compliance matters\n• Checking the official package repositories for the most up-to-date license information\n\nFeluda and its contributors disclaim all warranties and are not liable for any legal issues\narising from the use of this information. Use at your own risk.\n"@
}

/// The lines listing entries: `* name (version)`.
pub open spec fn entry_lines(es: Seq<Entry>) -> Seq<char>
    decreases es.len(),
{
    if es.len() == 0 {
        Seq::empty()
    } else {
        entry_lines(es.drop_last()) + "* "@ + es.last().0 + " ("@ + es.last().1 + ")\n"@
    }
}

/// The section of one license in a NOTICE file.
pub open spec fn group_section(g: (Seq<char>, Seq<Entry>)) -> Seq<char> {
    "## "@ + g.0 + " Licensed Components\n\n"@ + entry_lines(g.1) + "\n"@
}

/// The sections of all licenses, in order.
pub open spec fn group_sections(gs: Seq<(Seq<char>, Seq<Entry>)>) -> Seq<char>
    decreases gs.len(),
{
    if gs.len() == 0 {
        Seq::empty()
    } else {
        group_sections(gs.drop_last()) + group_section(gs.last())
    }
}

/// A NOTICE file for `n` dependencies listed in `groups`, generated at
/// `stamp`.
pub open spec fn notice_text(n: nat, groups: Seq<(Seq<char>, Seq<Entry>)>, stamp: Seq<char>) -> Seq<char> {
    notice_header() + group_sections(groups) + "---\n\nThis NOTICE file contains "@ + decimal(n)
        + " third-party dependencies.\nFor detailed license information, see the THIRD_PARTY_LICENSES file.\nGenerated at: "@
        + stamp + "\nGenerated by: Feluda (https://github.com/anistark/feluda)\n\n"@
        + notice_disclaimer()
}

/// Appends the lines listing entries.
fn push_entry_lines(out: &mut Vec<char>, es: &Vec<(String, String)>)
    ensures
        final(out)@ == old(out)@ + entry_lines(pairs(es@)),
{
    let mut i: usize = 0;
    while i < es.len()
        invariant
            i <= es@.len(),
            out@ == old(out)@ + entry_lines(pairs(es@).take(i as int)),
        decreases es@.len() - i,
    {
        extend_str(out, "* ");
        extend_str(out, es[i].0.as_str());
        extend_str(out, " (");
        extend_str(out, es[i].1.as_str());
        extend_str(out, ")\n");
        assert(pairs(es@).take(i + 1).drop_last() =~= pairs(es@).take(i as int));
        i = i + 1;
    }
    assert(pairs(es@).take(es@.len() as int) =~= pairs(es@));
}

/// The NOTICE file of a list of dependencies, generated at `generated_at`:
/// the dependencies grouped by license in ascending order, each group
/// sorted by name.
pub fn notice_content_at(license_data: &Vec<LicenseInfo>, generated_at: &str) -> (r: String)
    ensures
        exists|g: Seq<(Seq<char>, Seq<Entry>)>|
            groups_by_license(license_data@, g) && r@ == notice_text(
                license_data@.len(),
                g,
                generated_at@,
            ),
{
    let groups = group_by_license(license_data);
    let ghost gv = group_views(groups@);
    let mut out: Vec<char> = Vec::new();
    extend_str(&mut out, "NOTICE\n======\n\nThis project includes third-party software components that are subject to separate copyright notices and license terms.\nYour use of the source code for these components is subject to the terms and conditions of the following licenses.\n\n");
    let mut i: usize = 0;
    while i < groups.len()
        invariant
            i <= groups@.len(),
            gv == group_views(groups@),
            out@ == notice_header() + group_sections(gv.take(i as int)),
        decreases groups@.len() - i,
    {
        extend_str(&mut out, "## ");
        extend_str(&mut out, groups[i].0.as_str());
        extend_str(&mut out, " Licensed Components\n\n");
        push_entry_lines(&mut out, &groups[i].1);
        extend_str(&mut out, "\n");
        assert(gv.take(i + 1).drop_last() =~= gv.take(i as int));
        assert(gv[i as int] == (groups@[i as int].0@, pairs(groups@[i as int].1@)));
        i = i + 1;
    }
    assert(gv.take(gv.len() as int) =~= gv);
    extend_str(&mut out, "---\n\nThis NOTICE file contains ");
    let nd = decimal_exec(license_data.len() as u128);
    extend(&mut out, nd.as_slice());
    extend_str(&mut out, " third-party dependencies.\nFor detailed license information, see the THIRD_PARTY_LICENSES file.\nGenerated at: ");
    extend_str(&mut out, generated_at);
    extend_str(&mut out, "\nGenerated by: Feluda (https://github.com/anistark/feluda)\n\n");
    extend_str(&mut out, "DISCLAIMER:\n-----------\nFeluda is still in early stages!\nThe license information may be incomplete, outdated, or incorrect. Users are responsible for:\n• Verifying the accuracy of all license information\n• Ensuring compliance with all applicable license terms\n• Consulting with legal counsel for license compliance matters\n• Checking the official package repositories for the most up-to-date license information\n\nFeluda and its contributors disclaim all warranties and are not liable for any legal issues\narising from the use of this information. Use at your own risk.\n");
    from_chars(out.as_slice())
}

/// The NOTICE file of a list of dependencies, stamped with the current time,
/// or `unknown` when the clock cannot be read (see `notice_content_at`).
pub fn generate_notice_content(license_data: &Vec<LicenseInfo>) -> (r: String)
    ensures
        exists|stamp: Seq<char>, g: Seq<(Seq<char>, Seq<Entry>)>|
            recorded_stamp(stamp) && groups_by_license(license_data@, g) && r@ == notice_text(
                license_data@.len(),
                g,
                stamp,
            ),
{
    match current_stamp() {
        Some(stamp) => notice_content_at(license_data, stamp.as_str()),
        None => {
            proof {
                reveal_strlit("unknown");
            }
            notice_content_at(license_data, "unknown")
        },
    }
}

/// Entries ordered by name: no name comes before an earlier one.
pub open spec fn ordered_by_name(s: Seq<Entry>) -> bool {
    forall|i: int, j: int| #![trigger s[i], s[j]] 0 <= i < j < s.len() ==> !str_lt(s[j].0, s[i].0)
}

/// The stable insertion keeps entries ordered and adds exactly `x`.
proof fn lemma_insert_by_name(s: Seq<Entry>, x: Entry)
    requires
        ordered_by_name(s),
    ensures
        ordered_by_name(insert_by_name(s, x)),
        insert_by_name(s, x).to_multiset() == s.to_multiset().insert(x),
        insert_by_name(s, x).len() == s.len() + 1,
        insert_by_name(s, x).last() == x || insert_by_name(s, x).last() == s.last(),
    decreases s.len(),
{
    broadcast use vstd::seq_lib::group_to_multiset_ensures;

    if s.len() == 0 {
        assert(seq![x] =~= Seq::<Entry>::empty().push(x));
    } else if str_lt(x.0, s.last().0) {
        let t = s.drop_last();
        assert(ordered_by_name(t));
        lemma_insert_by_name(t, x);
        let it = insert_by_name(t, x);
        let r = it.push(s.last());
        assert(s =~= t.push(s.last()));
        assert forall|i: int, j: int| #![trigger r[i], r[j]] 0 <= i < j < r.len() implies !str_lt(r[j].0, r[i].0) by {
            if j == r.len() - 1 {
                // Every entry of `it` is x or an entry of t, none after s.last().
                let e = r[i];
                assert(it.to_multiset().count(e) > 0) by {
                    assert(it.contains(e));
                }
                if e == x {
                    lemma_lt_asymmetric(x.0, s.last().0);
                } else {
                    assert(t.to_multiset().count(e) > 0);
                    assert(t.contains(e));
                    let k = choose|k: int| 0 <= k < t.len() && t[k] == e;
                    assert(s[k] == e);
                    assert(s[s.len() - 1] == s.last());
                }
            }
        }
    } else {
        let r = s.push(x);
        assert forall|i: int, j: int| #![trigger r[i], r[j]] 0 <= i < j < r.len() implies !str_lt(r[j].0, r[i].0) by {
            if j == r.len() - 1 && i < s.len() - 1 {
                assert(r[i] == s[i]);
                assert(!str_lt(s.last().0, s[i].0));
                if str_lt(x.0, s[i].0) {
                    if s[i].0 == s.last().0 {
                    } else {
                        lemma_lt_total(s[i].0, s.last().0);
                        lemma_lt_transitive(x.0, s[i].0, s.last().0);
                    }
                }
            }
        }
    }
}

/// Sorting by name orders the entries by name and keeps exactly the same
/// entries, each as often as before.
pub proof fn law_sort_by_name(s: Seq<Entry>)
    ensures
        ordered_by_name(sort_by_name(s)),
        sort_by_name(s).to_multiset() == s.to_multiset(),
        sort_by_name(s).len() == s.len(),
    decreases s.len(),
{
    broadcast use vstd::seq_lib::group_to_multiset_ensures;

    if s.len() > 0 {
        law_sort_by_name(s.drop_last());
        lemma_insert_by_name(sort_by_name(s.drop_last()), s.last());
        assert(s =~= s.drop_last().push(s.last()));
    }
}

/// The licenses of a grouping.
pub open spec fn group_keys(g: Seq<(Seq<char>, Seq<Entry>)>) -> Seq<Seq<char>> {
    g.map_values(|x: (Seq<char>, Seq<Entry>)| x.0)
}

/// A list of dependencies has one grouping by license: any two groupings
/// that satisfy `groups_by_license` are the same.
pub proof fn law_groups_unique(s: Seq<LicenseInfo>, g1: Seq<(Seq<char>, Seq<Entry>)>, g2: Seq<(Seq<char>, Seq<Entry>)>)
    requires
        groups_by_license(s, g1),
        groups_by_license(s, g2),
    ensures
        g1 == g2,
{
    let k1 = group_keys(g1);
    let k2 = group_keys(g2);
    assert forall|x: Seq<char>| k1.contains(x) <==> k2.contains(x) by {
        if k1.contains(x) {
            let j = choose|j: int| 0 <= j < k1.len() && k1[j] == x;
            assert(g1[j].0 == x);
            assert(g1[j].1 == sort_by_name(entries_with(s, g1[j].0)));
            assert(entries_with(s, x).len() > 0);
            assert(keep(s, has_license(x)).len() == entries_with(s, x).len());
            lemma_keep_sound(s, has_license(x));
            let dd = keep(s, has_license(x))[0];
            assert(s.contains(dd));
            let d = choose|d: int| 0 <= d < s.len() && s[d] == dd;
            let k = choose|k: int| 0 <= k < g2.len() && g2[k].0 == license_text((#[trigger] s[d]).license);
            assert(k2[k] == x);
        }
        if k2.contains(x) {
            let j = choose|j: int| 0 <= j < k2.len() && k2[j] == x;
            assert(g2[j].0 == x);
            assert(g2[j].1 == sort_by_name(entries_with(s, g2[j].0)));
            assert(entries_with(s, x).len() > 0);
            assert(keep(s, has_license(x)).len() == entries_with(s, x).len());
            lemma_keep_sound(s, has_license(x));
            let dd = keep(s, has_license(x))[0];
            assert(s.contains(dd));
            let d = choose|d: int| 0 <= d < s.len() && s[d] == dd;
            let k = choose|k: int| 0 <= k < g1.len() && g1[k].0 == license_text((#[trigger] s[d]).license);
            assert(k1[k] == x);
        }
    }
    assert forall|j: int, k: int| #![trigger k1[j], k1[k]] 0 <= j < k < k1.len() implies str_lt(k1[j], k1[k]) by {
        assert(k1[j] == g1[j].0 && k1[k] == g1[k].0);
    }
    assert forall|j: int, k: int| #![trigger k2[j], k2[k]] 0 <= j < k < k2.len() implies str_lt(k2[j], k2[k]) by {
        assert(k2[j] == g2[j].0 && k2[k] == g2[k].0);
    }
    lemma_ascending_unique(k1, k2);
    assert forall|k: int| 0 <= k < g1.len() implies #[trigger] g1[k] == g2[k] by {
        assert(k1[k] == k2[k]);
    }
    assert(g1 =~= g2);
}

/// The standard MIT license text.
pub open spec fn mit_text() -> Seq<char> {
    "MIT License

Permission is hereby granted, free of charge, to any person obtaining a copy
of this software and associated documentation files (the \"Software\"), to deal
in the Software without restriction, including without limitation the rights
to use, copy, modify, merge, publish, distribute, sublicense, and/or sell
copies of the Software, and to permit persons to whom the Software is
furnished to do so, subject to the following conditions:

The above copyright notice and this permission notice shall be included in all
copies or substantial portions of the Software.

THE SOFTWARE IS PROVIDED \"AS IS\", WITHOUT WARRANTY OF ANY KIND, EXPRESS OR
IMPLIED, INCLUDING BUT NOT LIMITED TO THE WARRANTIES OF MERCHANTABILITY,
FITNESS FOR A PARTICULAR PURPOSE AND NONINFRINGEMENT. IN NO EVENT SHALL THE
AUTHORS OR COPYRIGHT HOLDERS BE LIABLE FOR ANY CLAIM, DAMAGES OR OTHER
LIABILITY, WHETHER IN AN ACTION OF CONTRACT, TORT OR OTHERWISE, ARISING FROM,
OUT OF OR IN CONNECTION WITH THE SOFTWARE OR THE USE OR OTHER DEALINGS IN THE
SOFTWARE.

"@
}

/// The opening of the Apache 2.0 license, with a pointer to its full text.
pub open spec fn apache_text() -> Seq<char> {
    "Apache License
Version 2.0, January 2004
http://www.apache.org/licenses/

TERMS AND CONDITIONS FOR USE, REPRODUCTION, AND DISTRIBUTION

1. Definitions.

\"License\" shall mean the terms and conditions for use, reproduction,
and distribution as defined by Sections 1 through 9 of this document.

\"Licensor\" shall mean the copyright owner or entity granting the License.

\"Legal Entity\" shall mean the union of the acting entity and all
other entities that control, are controlled by, or are under common
control with that entity.

[License text continues - truncated for brevity]

For the complete Apache 2.0 license text, visit: http://www.apache.org/licenses/LICENSE-2.0

"@
}

/// The standard BSD 3-Clause license text.
pub open spec fn bsd_text() -> Seq<char> {
    "BSD 3-Clause License

Redistribution and use in source and binary forms, with or without
modification, are permitted provided that the following conditions are met:

1. Redistributions of source code must retain the above copyright notice, this
   list of conditions and the following disclaimer.

2. Redistributions in binary form must reproduce the above copyright notice,
   this list of conditions and the following disclaimer in the documentation
   and/or other materials provided with the distribution.

3. Neither the name of the copyright holder nor the names of its
   contributors may be used to endorse or promote products derived from
   this software without specific prior written permission.

THIS SOFTWARE IS PROVIDED BY THE COPYRIGHT HOLDERS AND CONTRIBUTORS \"AS IS\"
AND ANY EXPRESS OR IMPLIED WARRANTIES, INCLUDING, BUT NOT LIMITED TO, THE
IMPLIED WARRANTIES OF MERCHANTABILITY AND FITNESS FOR A PARTICULAR PURPOSE ARE
DISCLAIMED. IN NO EVENT SHALL THE COPYRIGHT HOLDER OR CONTRIBUTORS BE LIABLE
FOR ANY DIRECT, INDIRECT, INCIDENTAL, SPECIAL, EXEMPLARY, OR CONSEQUENTIAL
DAMAGES (INCLUDING, BUT NOT LIMITED TO, PROCUREMENT OF SUBSTITUTE GOODS OR
SERVICES; LOSS OF USE, DATA, OR PROFITS; OR BUSINESS INTERRUPTION) HOWEVER
CAUSED AND ON ANY THEORY OF LIABILITY, WHETHER IN CONTRACT, STRICT LIABILITY,
OR TORT (INCLUDING NEGLIGENCE OR OTHERWISE) ARISING IN ANY WAY OUT OF THE USE
OF THIS SOFTWARE, EVEN IF ADVISED OF THE POSSIBILITY OF SUCH DAMAGE.

"@
}

/// The MIT license template; the same for every package.
pub fn get_mit_license_text(_package_name: &str) -> (r: &'static str)
    ensures
        r@ == mit_text(),
{
    "MIT License

Permission is hereby granted, free of charge, to any person obtaining a copy
of this software and associated documentation files (the \"Software\"), to deal
in the Software without restriction, including without limitation the rights
to use, copy, modify, merge, publish, distribute, sublicense, and/or sell
copies of the Software, and to permit persons to whom the Software is
furnished to do so, subject to the following conditions:

The above copyright notice and this permission notice shall be included in all
copies or substantial portions of the Software.

THE SOFTWARE IS PROVIDED \"AS IS\", WITHOUT WARRANTY OF ANY KIND, EXPRESS OR
IMPLIED, INCLUDING BUT NOT LIMITED TO THE WARRANTIES OF MERCHANTABILITY,
FITNESS FOR A PARTICULAR PURPOSE AND NONINFRINGEMENT. IN NO EVENT SHALL THE
AUTHORS OR COPYRIGHT HOLDERS BE LIABLE FOR ANY CLAIM, DAMAGES OR OTHER
LIABILITY, WHETHER IN AN ACTION OF CONTRACT, TORT OR OTHERWISE, ARISING FROM,
OUT OF OR IN CONNECTION WITH THE SOFTWARE OR THE USE OR OTHER DEALINGS IN THE
SOFTWARE.

"
}

/// The Apache 2.0 license template.
pub fn get_apache_license_text() -> (r: &'static str)
    ensures
        r@ == apache_text(),
{
    "Apache License
Version 2.0, January 2004
http://www.apache.org/licenses/

TERMS AND CONDITIONS FOR USE, REPRODUCTION, AND DISTRIBUTION

1. Definitions.

\"License\" shall mean the terms and conditions for use, reproduction,
and distribution as defined by Sections 1 through 9 of this document.

\"Licensor\" shall mean the copyright owner or entity granting the License.

\"Legal Entity\" shall mean the union of the acting entity and all
other entities that control, are controlled by, or are under common
control with that entity.

[License text continues - truncated for brevity]

For the complete Apache 2.0 license text, visit: http://www.apache.org/licenses/LICENSE-2.0

"
}

/// The BSD 3-Clause license template; the same for every package.
pub fn get_bsd_license_text(_package_name: &str) -> (r: &'static str)
    ensures
        r@ == bsd_text(),
{
    "BSD 3-Clause License

Redistribution and use in source and binary forms, with or without
modification, are permitted provided that the following conditions are met:

1. Redistributions of source code must retain the above copyright notice, this
   list of conditions and the following disclaimer.

2. Redistributions in binary form must reproduce the above copyright notice,
   this list of conditions and the following disclaimer in the documentation
   and/or other materials provided with the distribution.

3. Neither the name of the copyright holder nor the names of its
   contributors may be used to endorse or promote products derived from
   this software without specific prior written permission.

THIS SOFTWARE IS PROVIDED BY THE COPYRIGHT HOLDERS AND CONTRIBUTORS \"AS IS\"
AND ANY EXPRESS OR IMPLIED WARRANTIES, INCLUDING, BUT NOT LIMITED TO, THE
IMPLIED WARRANTIES OF MERCHANTABILITY AND FITNESS FOR A PARTICULAR PURPOSE ARE
DISCLAIMED. IN NO EVENT SHALL THE COPYRIGHT HOLDER OR CONTRIBUTORS BE LIABLE
FOR ANY DIRECT, INDIRECT, INCIDENTAL, SPECIAL, EXEMPLARY, OR CONSEQUENTIAL
DAMAGES (INCLUDING, BUT NOT LIMITED TO, PROCUREMENT OF SUBSTITUTE GOODS OR
SERVICES; LOSS OF USE, DATA, OR PROFITS; OR BUSINESS INTERRUPTION) HOWEVER
CAUSED AND ON ANY THEORY OF LIABILITY, WHETHER IN CONTRACT, STRICT LIABILITY,
OR TORT (INCLUDING NEGLIGENCE OR OTHERWISE) ARISING IN ANY WAY OUT OF THE USE
OF THIS SOFTWARE, EVEN IF ADVISED OF THE POSSIBILITY OF SUCH DAMAGE.

"
}

/// A stable sort of items by a text key: each item is inserted after every
/// item whose key does not come after its own.
pub open spec fn insert_sorted<T>(sorted: Seq<T>, x: T, key: spec_fn(T) -> Seq<char>) -> Seq<T>
    decreases sorted.len(),
{
    if sorted.len() == 0 {
        seq![x]
    } else if str_lt(key(x), key(sorted.last())) {
        insert_sorted(sorted.drop_last(), x, key).push(sorted.last())
    } else {
        sorted.push(x)
    }
}

/// Items stably sorted by a text key.
pub open spec fn sort_stable<T>(s: Seq<T>, key: spec_fn(T) -> Seq<char>) -> Seq<T>
    decreases s.len(),
{
    if s.len() == 0 {
        Seq::empty()
    } else {
        insert_sorted(sort_stable(s.drop_last(), key), s.last(), key)
    }
}

/// The positions `0..n`.
pub open spec fn indices(n: nat) -> Seq<usize> {
    Seq::new(n, |i: int| i as usize)
}

/// The name of the dependency at a position.
pub open spec fn name_at(s: Seq<LicenseInfo>) -> spec_fn(usize) -> Seq<char> {
    |i: usize| s[i as int].name@
}

/// Inserting at the position found by scanning back over the items whose
/// keys come after `x`'s is the stable insertion.
proof fn lemma_insert_sorted_at<T>(s: Seq<T>, x: T, key: spec_fn(T) -> Seq<char>, p: int)
    requires
        0 <= p <= s.len(),
        forall|j: int| p <= j < s.len() ==> str_lt(key(x), key(#[trigger] s[j])),
        p == 0 || !str_lt(key(x), key(s[p - 1])),
    ensures
        insert_sorted(s, x, key) == s.insert(p, x),
    decreases s.len(),
{
    if s.len() == 0 {
        assert(s.insert(p, x) =~= seq![x]);
    } else if p == s.len() {
        assert(s.insert(p, x) =~= s.push(x));
    } else {
        assert(str_lt(key(x), key(s.last())));
        lemma_insert_sorted_at(s.drop_last(), x, key, p);
        assert(s.drop_last().insert(p, x).push(s.last()) =~= s.insert(p, x));
    }
}

/// The positions of the dependencies, stably sorted by name.
pub fn name_order(data: &Vec<LicenseInfo>) -> (order: Vec<usize>)
    ensures
        order@ == sort_stable(indices(data@.len()), name_at(data@)),
        forall|k: int| 0 <= k < order@.len() ==> #[trigger] order@[k] < data@.len(),
{
    let ghost key = name_at(data@);
    let mut order: Vec<usize> = Vec::new();
    let mut i: usize = 0;
    while i < data.len()
        invariant
            i <= data@.len(),
            key == name_at(data@),
            order@ == sort_stable(indices(i as nat), key),
            forall|k: int| 0 <= k < order@.len() ==> #[trigger] order@[k] < i,
        decreases data@.len() - i,
    {
        let mut p: usize = order.len();
        while p > 0 && lt_str(data[i].name.as_str(), data[order[p - 1]].name.as_str())
            invariant
                p <= order@.len(),
                i < data@.len(),
                key == name_at(data@),
                forall|k: int| 0 <= k < order@.len() ==> #[trigger] order@[k] < i,
                forall|j: int| p <= j < order@.len() ==> str_lt(key(i), key(#[trigger] order@[j])),
            decreases p,
        {
            p = p - 1;
        }
        proof {
            lemma_insert_sorted_at(order@, i, key, p as int);
            assert(indices((i + 1) as nat).drop_last() =~= indices(i as nat));
        }
        order.insert(p, i);
        i = i + 1;
    }
    order
}

/// The views of fetched texts.
pub open spec fn fetched_views(v: Seq<Option<String>>) -> Seq<Option<Seq<char>>> {
    v.map_values(|o: Option<String>| opt_string(o))
}

/// The number of texts that were fetched.
pub open spec fn fetched_count(v: Seq<Option<Seq<char>>>) -> nat
    decreases v.len(),
{
    if v.len() == 0 {
        0
    } else {
        fetched_count(v.drop_last()) + if v.last() is Some { 1nat } else { 0nat }
    }
}

/// How many license texts were fetched and how many were not.
pub fn fetch_counts(fetched: &Vec<Option<String>>) -> (r: (usize, usize))
    ensures
        r.0 == fetched_count(fetched_views(fetched@)),
        r.0 + r.1 == fetched@.len(),
{
    let ghost fv = fetched_views(fetched@);
    let mut ok: usize = 0;
    let mut i: usize = 0;
    while i < fetched.len()
        invariant
            i <= fetched@.len(),
            fv == fetched_views(fetched@),
            ok == fetched_count(fv.take(i as int)),
            ok <= i,
        decreases fetched@.len() - i,
    {
        assert(fv.take(i + 1).drop_last() =~= fv.take(i as int));
        if fetched[i].is_some() {
            ok = ok + 1;
        }
        i = i + 1;
    }
    assert(fv.take(fetched@.len() as int) =~= fv);
    (ok, fetched.len() - ok)
}

/// The compatibility line of a dependency's section.
pub open spec fn compatibility_line(c: LicenseCompatibility) -> Seq<char> {
    match c {
        LicenseCompatibility::Compatible => "**Compatibility:** ✅ Compatible\n"@,
        LicenseCompatibility::Incompatible => "**Compatibility:** ⚠️ Potentially Incompatible\n"@,
        LicenseCompatibility::Unknown => "**Compatibility:** ❓ Unknown\n"@,
    }
}

/// The note before the MIT template.
pub open spec fn mit_note() -> Seq<char> {
    "*Note: Could not fetch actual license text. Below is the standard MIT license template:*\n\n"@
}

/// The note before the Apache template.
pub open spec fn apache_note() -> Seq<char> {
    "*Note: Could not fetch actual license text. Below is the standard Apache 2.0 license template:*\n\n"@
}

/// The note before the BSD template.
pub open spec fn bsd_note() -> Seq<char> {
    "*Note: Could not fetch actual license text. Below is the standard BSD 3-Clause license template:*\n\n"@
}

/// What stands in for a license text that could not be fetched: the
/// template of a well-known license (an exact identifier first, then one
/// mentioning MIT or Apache), or else pointers to where the text can be
/// found.
pub open spec fn fallback_text(d: LicenseInfo, url: Option<Seq<char>>) -> Seq<char> {
    let lic = license_text(d.license);
    if lic == "MIT"@ {
        mit_note() + mit_text()
    } else if lic == "Apache-2.0"@ {
        apache_note() + apache_text()
    } else if lic == "BSD-3-Clause"@ {
        bsd_note() + bsd_text()
    } else if contains(lic, "MIT"@) {
        mit_note() + mit_text()
    } else if contains(lic, "Apache"@) {
        apache_note() + apache_text()
    } else {
        "*Could not fetch the actual license text for "@ + d.name@ + ".*\n\n"@
            + "For the full license text of "@ + lic + ", please refer to:\n"@
            + "- The official "@ + lic + " license documentation\n"@ + match url {
            Some(u) => "- The package repository: "@ + u + "\n"@,
            None => Seq::empty(),
        } + "- The dependency's source code or package files\n\n"@
    }
}

/// The opening of a dependency's section: its number, name, version,
/// license and compatibility.
pub open spec fn section_head(num: nat, d: LicenseInfo) -> Seq<char> {
    "## "@ + decimal(num) + ". "@ + d.name@ + " "@ + d.version@ + "\n\n"@ + "**License:** "@
        + license_text(d.license) + "\n"@ + compatibility_line(d.compatibility)
}

/// The notes of a dependency's section: the restrictive warning, the package
/// link, the copyright pointer and the heading of the license text.
pub open spec fn section_notes(d: LicenseInfo, url: Option<Seq<char>>) -> Seq<char> {
    (if d.is_restrictive {
        "**⚠️ Note:** This license may have restrictive terms\n"@
    } else {
        Seq::empty()
    }) + (match url {
        Some(u) => "**Package URL:** "@ + u + "\n"@,
        None => Seq::empty(),
    }) + "**Copyright:** See "@ + d.name@ + " package for copyright information\n"@
        + "\n### License Text\n\n"@
}

/// The license text of a dependency's section: the fetched text in a code
/// block, or what stands in for it.
pub open spec fn section_body(d: LicenseInfo, url: Option<Seq<char>>, fetched: Option<Seq<char>>) -> Seq<char> {
    match fetched {
        Some(c) => "*The following is the actual license text from the dependency's repository:*\n\n"@
            + "```\n"@ + c + "\n```\n"@,
        None => fallback_text(d, url),
    }
}

/// The section of the dependency numbered `num` in a THIRD_PARTY_LICENSES
/// file, with its fetched license text if there is one.
pub open spec fn dependency_section(num: nat, d: LicenseInfo, fetched: Option<Seq<char>>) -> Seq<char> {
    let url = package_url(d.name@, d.version@);
    section_head(num, d) + section_notes(d, url) + section_body(d, url, fetched) + "\n---\n\n"@
}

/// The sections of the dependencies in the given order, numbered from 1.
pub open spec fn dependency_sections(
    s: Seq<LicenseInfo>,
    fetched: Seq<Option<Seq<char>>>,
    order: Seq<usize>,
) -> Seq<char>
    decreases order.len(),
{
    if order.len() == 0 {
        Seq::empty()
    } else {
        dependency_sections(s, fetched, order.drop_last()) + dependency_section(
            order.len(),
            s[order.last() as int],
            fetched[order.last() as int],
        )
    }
}

/// The closing legal notice of a THIRD_PARTY_LICENSES file.
pub open spec fn legal_notice() -> Seq<char> {
    "## Legal Notice & Disclaimer\n\n**IMPORTANT LEGAL DISCLAIMER:**\n\nThis file was automatically generated by [Feluda](https://github.com/anistark/feluda). Feluda is still in early stages of development.\nThe license information contained herein may be incomplete, outdated, or incorrect.\n\n**USER RESPONSIBILITIES:**\n- **Verify Accuracy**: Users must independently verify all license information\n- **Legal Compliance**: Ensure compliance with all applicable license terms and conditions\n- **Legal Counsel**: Consult with qualified legal counsel for license compliance matters\n- **Stay Updated**: Check official package repositories for the most current license information\n- **Due Diligence**: Perform thorough license audits before commercial distribution\n\n**LIMITATION OF LIABILITY:**\nFeluda, its contributors, and maintainers:\n- Disclaim all warranties, express or implied\n- Are not liable for any legal issues, damages, or losses arising from the use of this information\n- Do not guarantee the accuracy, completeness, or reliability of license information\n- Are not responsible for license compliance decisions or their consequences\n\n**USE AT YOUR OWN RISK**\n\nFor the most up-to-date license information, please check the official package repositories.\nThis tool is provided as-is without any warranties or guarantees.\n\n---\n\n*This file was generated using [Feluda](https://github.com/anistark/feluda), an open-source dependency license checker.*\n"@
}

/// The statistics section: how many texts were fetched, with their shares
/// as already formatted percentages.
pub open spec fn fetch_statistics(n: nat, ok: nat, share_ok: Seq<char>, share_failed: Seq<char>) -> Seq<char> {
    let failed = (n - ok) as nat;
    "## License Fetching Statistics\n\n"@ + "**Total Dependencies Processed:** "@ + decimal(n) + "\n"@
        + "**Actual License Texts Fetched:** "@ + decimal(ok) + " ("@ + share_ok + "%)\n"@
        + "**License Texts Not Fetched:** "@ + decimal(failed) + " ("@ + share_failed + "%)\n"@
        + if ok > 0 {
        "\n✅ Successfully fetched actual license texts for "@ + decimal(ok) + " dependencies.\n"@
    } else {
        Seq::empty()
    } + if failed > 0 {
        "\n⚠️ Could not fetch actual license texts for "@ + decimal(failed)
            + " dependencies. Using fallback templates or generic references.\n"@
            + "Consider manually verifying the license information for these dependencies.\n"@
    } else {
        Seq::empty()
    } + "\n"@
}

/// The opening of a THIRD_PARTY_LICENSES file.
pub open spec fn third_party_header(n: nat, stamp: Seq<char>) -> Seq<char> {
    "# Third-Party Licenses\n\nThis project includes third-party libraries licensed under various open source licenses.\nBelow is a list of all dependencies, their versions, and license types.\n\n"@
        + "**Total Dependencies:** "@ + decimal(n) + "\n"@ + "**Generated:** "@ + stamp + "\n\n"@
        + "---\n\n"@
}

/// A THIRD_PARTY_LICENSES file: a header with the number of dependencies
/// and the generation time, a section per dependency in the stable order
/// of their names, the fetching statistics and the legal notice.
pub open spec fn third_party_text(
    s: Seq<LicenseInfo>,
    fetched: Seq<Option<Seq<char>>>,
    stamp: Seq<char>,
    share_ok: Seq<char>,
    share_failed: Seq<char>,
) -> Seq<char> {
    third_party_header(s.len(), stamp) + dependency_sections(
        s,
        fetched,
        sort_stable(indices(s.len()), name_at(s)),
    ) + fetch_statistics(s.len(), fetched_count(fetched), share_ok, share_failed) + legal_notice()
}

/// Appends what stands in for a license text that could not be fetched.
fn push_fallback(out: &mut Vec<char>, d: &LicenseInfo, url: &Option<String>)
    ensures
        final(out)@ == old(out)@ + fallback_text(*d, opt_string(*url)),
{
    let lic = d.get_license();
    let lc = to_chars(lic.as_str());
    if eq_str(lc.as_slice(), "MIT") {
        extend_str(out, "*Note: Could not fetch actual license text. Below is the standard MIT license template:*\n\n");
        extend_str(out, get_mit_license_text(d.name.as_str()));
    } else if eq_str(lc.as_slice(), "Apache-2.0") {
        extend_str(out, "*Note: Could not fetch actual license text. Below is the standard Apache 2.0 license template:*\n\n");
        extend_str(out, get_apache_license_text());
    } else if eq_str(lc.as_slice(), "BSD-3-Clause") {
        extend_str(out, "*Note: Could not fetch actual license text. Below is the standard BSD 3-Clause license template:*\n\n");
        extend_str(out, get_bsd_license_text(d.name.as_str()));
    } else if contains_str(lc.as_slice(), "MIT") {
        extend_str(out, "*Note: Could not fetch actual license text. Below is the standard MIT license template:*\n\n");
        extend_str(out, get_mit_license_text(d.name.as_str()));
    } else if contains_str(lc.as_slice(), "Apache") {
        extend_str(out, "*Note: Could not fetch actual license text. Below is the standard Apache 2.0 license template:*\n\n");
        extend_str(out, get_apache_license_text());
    } else {
        let ghost start = out@;
        extend_str(out, "*Could not fetch the actual license text for ");
        extend_str(out, d.name.as_str());
        extend_str(out, ".*\n\n");
        extend_str(out, "For the full license text of ");
        extend_str(out, lic.as_str());
        extend_str(out, ", please refer to:\n");
        extend_str(out, "- The official ");
        extend_str(out, lic.as_str());
        extend_str(out, " license documentation\n");
        let ghost mid = out@;
        match url {
            Some(u) => {
                extend_str(out, "- The package repository: ");
                extend_str(out, u.as_str());
                extend_str(out, "\n");
            },
            None => {},
        }
        let ghost mid2 = out@;
        extend_str(out, "- The dependency's source code or package files\n\n");
        proof {
            let tail = match opt_string(*url) {
                Some(u) => "- The package repository: "@ + u + "\n"@,
                None => Seq::<char>::empty(),
            };
            assert(mid2 =~= mid + tail);
        }
    }
}

/// The opening of a dependency's section.
fn section_head_exec(num: usize, d: &LicenseInfo) -> (r: Vec<char>)
    ensures
        r@ == section_head(num as nat, *d),
{
    let lic = d.get_license();
    let mut out = to_chars("## ");
    let nd = decimal_exec(num as u128);
    extend(&mut out, nd.as_slice());
    extend_str(&mut out, ". ");
    extend_str(&mut out, d.name.as_str());
    extend_str(&mut out, " ");
    extend_str(&mut out, d.version.as_str());
    extend_str(&mut out, "\n\n");
    extend_str(&mut out, "**License:** ");
    extend_str(&mut out, lic.as_str());
    extend_str(&mut out, "\n");
    match d.compatibility {
        LicenseCompatibility::Compatible => extend_str(&mut out, "**Compatibility:** ✅ Compatible\n"),
        LicenseCompatibility::Incompatible => extend_str(&mut out, "**Compatibility:** ⚠️ Potentially Incompatible\n"),
        LicenseCompatibility::Unknown => extend_str(&mut out, "**Compatibility:** ❓ Unknown\n"),
    }
    out
}

/// The notes of a dependency's section.
fn section_notes_exec(d: &LicenseInfo, url: &Option<String>) -> (r: Vec<char>)
    ensures
        r@ == section_notes(*d, opt_string(*url)),
{
    let mut out: Vec<char> = Vec::new();
    if d.is_restrictive {
        extend_str(&mut out, "**⚠️ Note:** This license may have restrictive terms\n");
    }
    let ghost a = out@;
    match url {
        Some(u) => {
            extend_str(&mut out, "**Package URL:** ");
            extend_str(&mut out, u.as_str());
            extend_str(&mut out, "\n");
        },
        None => {},
    }
    let ghost b = out@;
    extend_str(&mut out, "**Copyright:** See ");
    extend_str(&mut out, d.name.as_str());
    extend_str(&mut out, " package for copyright information\n");
    extend_str(&mut out, "\n### License Text\n\n");
    proof {
        let urlpart = match opt_string(*url) {
            Some(u) => "**Package URL:** "@ + u + "\n"@,
            None => Seq::<char>::empty(),
        };
        assert(b =~= a + urlpart);
        if !d.is_restrictive {
            assert(a =~= Seq::<char>::empty());
        }
    }
    out
}

/// The license text of a dependency's section.
fn section_body_exec(d: &LicenseInfo, url: &Option<String>, fetched: &Option<String>) -> (r: Vec<char>)
    ensures
        r@ == section_body(*d, opt_string(*url), opt_string(*fetched)),
{
    let mut out: Vec<char> = Vec::new();
    match fetched {
        Some(text) => {
            extend_str(&mut out, "*The following is the actual license text from the dependency's repository:*\n\n");
            extend_str(&mut out, "```\n");
            extend_str(&mut out, text.as_str());
            extend_str(&mut out, "\n```\n");
        },
        None => {
            push_fallback(&mut out, d, url);
            assert(out@ =~= fallback_text(*d, opt_string(*url)));
        },
    }
    out
}

/// Appends the section of the dependency numbered `num`.
fn push_dependency_section(out: &mut Vec<char>, num: usize, d: &LicenseInfo, fetched: &Option<String>)
    ensures
        final(out)@ == old(out)@ + dependency_section(num as nat, *d, opt_string(*fetched)),
{
    let url = generate_package_url(d.name.as_str(), d.version.as_str());
    assert(opt_string(url) == package_url(d.name@, d.version@));
    let h = section_head_exec(num, d);
    let n = section_notes_exec(d, &url);
    let b = section_body_exec(d, &url, fetched);
    extend(out, h.as_slice());
    extend(out, n.as_slice());
    extend(out, b.as_slice());
    extend_str(out, "\n---\n\n");
}

/// The opening of a THIRD_PARTY_LICENSES file.
fn third_party_header_exec(n: usize, generated_at: &str) -> (r: Vec<char>)
    ensures
        r@ == third_party_header(n as nat, generated_at@),
{
    let mut out = to_chars("# Third-Party Licenses\n\nThis project includes third-party libraries licensed under various open source licenses.\nBelow is a list of all dependencies, their versions, and license types.\n\n");
    extend_str(&mut out, "**Total Dependencies:** ");
    let nd = decimal_exec(n as u128);
    extend(&mut out, nd.as_slice());
    extend_str(&mut out, "\n");
    extend_str(&mut out, "**Generated:** ");
    extend_str(&mut out, generated_at);
    extend_str(&mut out, "\n\n");
    extend_str(&mut out, "---\n\n");
    out
}

/// The statistics section of a THIRD_PARTY_LICENSES file.
fn fetch_statistics_exec(n: usize, ok: usize, share_ok: &str, share_failed: &str) -> (r: Vec<char>)
    requires
        ok <= n,
    ensures
        r@ == fetch_statistics(n as nat, ok as nat, share_ok@, share_failed@),
{
    let failed = n - ok;
    let mut out = to_chars("## License Fetching Statistics\n\n");
    extend_str(&mut out, "**Total Dependencies Processed:** ");
    let nd = decimal_exec(n as u128);
    extend(&mut out, nd.as_slice());
    extend_str(&mut out, "\n");
    extend_str(&mut out, "**Actual License Texts Fetched:** ");
    let okd = decimal_exec(ok as u128);
    extend(&mut out, okd.as_slice());
    extend_str(&mut out, " (");
    extend_str(&mut out, share_ok);
    extend_str(&mut out, "%)\n");
    extend_str(&mut out, "**License Texts Not Fetched:** ");
    let fd = decimal_exec(failed as u128);
    extend(&mut out, fd.as_slice());
    extend_str(&mut out, " (");
    extend_str(&mut out, share_failed);
    extend_str(&mut out, "%)\n");
    let ghost p1 = out@;
    if ok > 0 {
        extend_str(&mut out, "\n✅ Successfully fetched actual license texts for ");
        extend(&mut out, okd.as_slice());
        extend_str(&mut out, " dependencies.\n");
    }
    let ghost p2 = out@;
    if failed > 0 {
        extend_str(&mut out, "\n⚠️ Could not fetch actual license texts for ");
        extend(&mut out, fd.as_slice());
        extend_str(&mut out, " dependencies. Using fallback templates or generic references.\n");
        extend_str(&mut out, "Consider manually verifying the license information for these dependencies.\n");
    }
    let ghost p3 = out@;
    extend_str(&mut out, "\n");
    proof {
        let okpart = if ok > 0 {
            "\n✅ Successfully fetched actual license texts for "@ + decimal(ok as nat) + " dependencies.\n"@
        } else {
            Seq::<char>::empty()
        };
        let failpart = if failed > 0 {
            "\n⚠️ Could not fetch actual license texts for "@ + decimal(failed as nat)
                + " dependencies. Using fallback templates or generic references.\n"@
                + "Consider manually verifying the license information for these dependencies.\n"@
        } else {
            Seq::<char>::empty()
        };
        assert(p2 =~= p1 + okpart);
        assert(p3 =~= p2 + failpart);
    }
    out
}

/// A THIRD_PARTY_LICENSES file (see `third_party_text`) from the license
/// texts fetched for each dependency (in the order of `license_data`), the
/// generation time and the fetched and not-fetched shares, already
/// formatted as percentages. Returns the text with the numbers of fetched
/// and not-fetched texts.
pub fn third_party_licenses_content(
    license_data: &Vec<LicenseInfo>,
    fetched: &Vec<Option<String>>,
    generated_at: &str,
    share_fetched: &str,
    share_failed: &str,
) -> (r: (String, (usize, usize)))
    requires
        fetched@.len() == license_data@.len(),
    ensures
        r.0@ == third_party_text(
            license_data@,
            fetched_views(fetched@),
            generated_at@,
            share_fetched@,
            share_failed@,
        ),
        r.1.0 == fetched_count(fetched_views(fetched@)),
        r.1.0 + r.1.1 == license_data@.len(),
{
    let ghost s = license_data@;
    let ghost fv = fetched_views(fetched@);
    let mut out = third_party_header_exec(license_data.len(), generated_at);
    let ghost head = out@;
    let order = name_order(license_data);
    let mut k: usize = 0;
    while k < order.len()
        invariant
            k <= order@.len(),
            s == license_data@,
            fv == fetched_views(fetched@),
            fetched@.len() == s.len(),
            forall|j: int| 0 <= j < order@.len() ==> #[trigger] order@[j] < s.len(),
            out@ == head + dependency_sections(s, fv, order@.take(k as int)),
        decreases order@.len() - k,
    {
        let idx = order[k];
        push_dependency_section(&mut out, k + 1, &license_data[idx], &fetched[idx]);
        assert(order@.take(k + 1).drop_last() =~= order@.take(k as int));
        assert(fv[idx as int] == opt_string(fetched@[idx as int]));
        k = k + 1;
    }
    assert(order@.take(order@.len() as int) =~= order@);
    let (ok, failed) = fetch_counts(fetched);
    let st = fetch_statistics_exec(license_data.len(), ok, share_fetched, share_failed);
    extend(&mut out, st.as_slice());
    extend_str(&mut out, "## Legal Notice & Disclaimer\n\n**IMPORTANT LEGAL DISCLAIMER:**\n\nThis file was automatically generated by [Feluda](https://github.com/anistark/feluda). Feluda is still in early stages of development.\nThe license information contained herein may be incomplete, outdated, or incorrect.\n\n**USER RESPONSIBILITIES:**\n- **Verify Accuracy**: Users must independently verify all license information\n- **Legal Compliance**: Ensure compliance with all applicable license terms and conditions\n- **Legal Counsel**: Consult with qualified legal counsel for license compliance matters\n- **Stay Updated**: Check official package repositories for the most current license information\n- **Due Diligence**: Perform thorough license audits before commercial distribution\n\n**LIMITATION OF LIABILITY:**\nFeluda, its contributors, and maintainers:\n- Disclaim all warranties, express or implied\n- Are not liable for any legal issues, damages, or losses arising from the use of this information\n- Do not guarantee the accuracy, completeness, or reliability of license information\n- Are not responsible for license compliance decisions or their consequences\n\n**USE AT YOUR OWN RISK**\n\nFor the most up-to-date license information, please check the official package repositories.\nThis tool is provided as-is without any warranties or guarantees.\n\n---\n\n*This file was generated using [Feluda](https://github.com/anistark/feluda), an open-source dependency license checker.*\n");
    (from_chars(out.as_slice()), (ok, failed))
}

} // verus!
