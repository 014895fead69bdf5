//! License classification: restrictiveness, compatibility, OSI status and
//! identifier normalisation.

use vstd::prelude::*;

use crate::config::{blank, config_error, strs, FeludaConfig};
use crate::documents::{json_string, json_string_at, path0, path1, path2, path3, toml_string, toml_string_at};
use crate::documents::{
    json_is_valid, json_item_strings, json_item_strings_at, json_string_items, json_string_items_at, json_valid,
    opt_strings, present_strings, present_strings_exec,
};
use crate::text::{
    find, occurs_at,
    contains, contains_str, eq_str, from_chars, lookup, lookup_index, owned, pairs, to_chars, to_upper,
    trim, trimmed, uppercase,
};

verus! {

/// Compatibility of a dependency's license with the project license.
#[derive(Debug, Clone, Copy, PartialEq, Eq, Structural)]
pub enum LicenseCompatibility {
    Compatible,
    Incompatible,
    Unknown,
}

/// The display name of a compatibility value.
pub open spec fn compatibility_text(c: LicenseCompatibility) -> Seq<char> {
    match c {
        LicenseCompatibility::Compatible => "Compatible"@,
        LicenseCompatibility::Incompatible => "Incompatible"@,
        LicenseCompatibility::Unknown => "Unknown"@,
    }
}

impl LicenseCompatibility {
    /// The display text: `Compatible`, `Incompatible` or `Unknown`.
    pub fn to_string(&self) -> (r: String)
        ensures
            r@ == compatibility_text(*self),
    {
        match self {
            LicenseCompatibility::Compatible => owned("Compatible"),
            LicenseCompatibility::Incompatible => owned("Incompatible"),
            LicenseCompatibility::Unknown => owned("Unknown"),
        }
    }
}

/// OSI approval status of a license.
#[derive(Debug, Clone, Copy, PartialEq, Eq, Structural)]
pub enum OsiStatus {
    Approved,
    NotApproved,
    Unknown,
}

/// The display name of an OSI status.
pub open spec fn osi_text(s: OsiStatus) -> Seq<char> {
    match s {
        OsiStatus::Approved => "approved"@,
        OsiStatus::NotApproved => "not-approved"@,
        OsiStatus::Unknown => "unknown"@,
    }
}

impl OsiStatus {
    /// The display text: `approved`, `not-approved` or `unknown`.
    pub fn to_string(&self) -> (r: String)
        ensures
            r@ == osi_text(*self),
    {
        match self {
            OsiStatus::Approved => owned("approved"),
            OsiStatus::NotApproved => owned("not-approved"),
            OsiStatus::Unknown => owned("unknown"),
        }
    }
}

/// OSI license information.
#[derive(Debug, Clone)]
pub struct OsiLicenseInfo {
    pub id: String,
    pub name: String,
    pub status: OsiStatus,
}

/// License information of one dependency.
#[derive(Debug, Clone)]
pub struct LicenseInfo {
    /// The name of the software or library.
    pub name: String,
    /// The version of the software or library.
    pub version: String,
    /// The license identifier, when one is known.
    pub license: Option<String>,
    /// Whether the license is restrictive.
    pub is_restrictive: bool,
    /// Compatibility with the project license.
    pub compatibility: LicenseCompatibility,
    /// OSI approval status.
    pub osi_status: OsiStatus,
}

/// The license text of a dependency: its license, or `No License`.
pub open spec fn license_text(l: Option<String>) -> Seq<char> {
    match l {
        Some(s) => s@,
        None => "No License"@,
    }
}

impl LicenseInfo {
    /// The license name, or `No License` when there is none.
    pub fn get_license(&self) -> (r: String)
        ensures
            r@ == license_text(self.license),
    {
        match &self.license {
            Some(license_name) => license_name.clone(),
            None => owned("No License"),
        }
    }

    /// The dependency's name.
    pub fn name(&self) -> (r: &str)
        ensures
            r@ == self.name@,
    {
        self.name.as_str()
    }

    /// The dependency's version.
    pub fn version(&self) -> (r: &str)
        ensures
            r@ == self.version@,
    {
        self.version.as_str()
    }

    /// Whether the license is restrictive.
    pub fn is_restrictive(&self) -> (r: &bool)
        ensures
            *r == self.is_restrictive,
    {
        &self.is_restrictive
    }

    /// Compatibility with the project license.
    pub fn compatibility(&self) -> (r: &LicenseCompatibility)
        ensures
            *r == self.compatibility,
    {
        &self.compatibility
    }

    /// OSI approval status.
    pub fn osi_status(&self) -> (r: &OsiStatus)
        ensures
            *r == self.osi_status,
    {
        &self.osi_status
    }

    /// The OSI view of the license: its identifier doubles as its name.
    pub fn osi_info(&self) -> (r: Option<OsiLicenseInfo>)
        ensures
            match self.license {
                Some(l) => r matches Some(info) && info.id@ == l@ && info.name@ == l@
                    && info.status == self.osi_status,
                None => r is None,
            },
    {
        match &self.license {
            Some(license) => Some(
                OsiLicenseInfo { id: license.clone(), name: license.clone(), status: self.osi_status },
            ),
            None => None,
        }
    }
}

/// A license as described by the GitHub Licenses API.
#[derive(Debug, Clone)]
pub struct License {
    pub key: String,
    pub name: String,
    pub spdx_id: String,
    pub url: String,
    pub html_url: String,
    pub description: String,
    pub implementation: String,
    /// Permissions granted by the license.
    pub permissions: Vec<String>,
    /// Conditions that must be met under the license.
    pub conditions: Vec<String>,
    /// Limitations imposed by the license.
    pub limitations: Vec<String>,
}


/// A string field of a fetched license, or `fallback` when the document
/// has no string there.
pub open spec fn string_or(v: Option<Seq<char>>, fallback: Seq<char>) -> Seq<char> {
    match v {
        Some(s) => s,
        None => fallback,
    }
}

/// The strings among the items of a fetched array; none when there is no
/// array.
pub open spec fn strings_or_none(v: Option<Seq<Option<Seq<char>>>>) -> Seq<Seq<char>> {
    match v {
        Some(items) => present_strings(items),
        None => seq![],
    }
}

/// The string at a key of a JSON document, or `fallback` (see `string_or`).
fn json_field_or(body: &str, key: &str, fallback: &str) -> (r: String)
    ensures
        r@ == string_or(json_string(body@, seq![key@]), fallback@),
{
    match json_string_at(body, &path1(key)) {
        Some(s) => s,
        None => owned(fallback),
    }
}

/// The strings of the array at a key of a JSON document (see
/// `strings_or_none`).
fn json_strings_or_none(body: &str, key: &str) -> (r: Vec<String>)
    ensures
        strs(r@) == strings_or_none(json_string_items(body@, seq![key@])),
{
    match json_string_items_at(body, &path1(key)) {
        Some(items) => present_strings_exec(items),
        None => {
            let v: Vec<String> = Vec::new();
            assert(strs(v@) =~= Seq::<Seq<char>>::empty());
            v
        },
    }
}

/// The keys of the GitHub license list `list_json`: the string `key` of
/// each of its items, in order (items without one are passed over); `None`
/// when the text is no JSON array.
pub fn license_keys_from_list(list_json: &str) -> (r: Option<Vec<String>>)
    ensures
        match json_item_strings(list_json@, seq![], "key"@) {
            Some(items) => r matches Some(keys) && strs(keys@) == present_strings(items),
            None => r is None,
        },
{
    let path = path0();
    assert(string_views(path@) =~= Seq::<Seq<char>>::empty());
    match json_item_strings_at(list_json, &path, "key") {
        Some(items) => Some(present_strings_exec(items)),
        None => None,
    }
}

/// The license described by the GitHub license document `body`, fetched
/// under the list key `license_key`: its key, name and SPDX identifier are
/// the document's strings there, or the list key where it has none; its
/// URLs, description and implementation the document's strings, or empty;
/// its permissions, conditions and limitations the strings of the
/// document's arrays, or none. `None` when `body` is no JSON.
pub fn license_from_json(body: &str, license_key: &str) -> (r: Option<License>)
    ensures
        r is Some <==> json_valid(body@),
        r matches Some(l) ==> {
            &&& l.key@ == string_or(json_string(body@, seq!["key"@]), license_key@)
            &&& l.name@ == string_or(json_string(body@, seq!["name"@]), license_key@)
            &&& l.spdx_id@ == string_or(json_string(body@, seq!["spdx_id"@]), license_key@)
            &&& l.url@ == string_or(json_string(body@, seq!["url"@]), ""@)
            &&& l.html_url@ == string_or(json_string(body@, seq!["html_url"@]), ""@)
            &&& l.description@ == string_or(json_string(body@, seq!["description"@]), ""@)
            &&& l.implementation@ == string_or(json_string(body@, seq!["implementation"@]), ""@)
            &&& strs(l.permissions@) == strings_or_none(json_string_items(body@, seq!["permissions"@]))
            &&& strs(l.conditions@) == strings_or_none(json_string_items(body@, seq!["conditions"@]))
            &&& strs(l.limitations@) == strings_or_none(json_string_items(body@, seq!["limitations"@]))
        },
{
    if !json_is_valid(body) {
        return None;
    }
    Some(
        License {
            key: json_field_or(body, "key", license_key),
            name: json_field_or(body, "name", license_key),
            spdx_id: json_field_or(body, "spdx_id", license_key),
            url: json_field_or(body, "url", ""),
            html_url: json_field_or(body, "html_url", ""),
            description: json_field_or(body, "description", ""),
            implementation: json_field_or(body, "implementation", ""),
            permissions: json_strings_or_none(body, "permissions"),
            conditions: json_strings_or_none(body, "conditions"),
            limitations: json_strings_or_none(body, "limitations"),
        },
    )
}

/// The `id` of each entry of the OSI license list `text`, in order, where it
/// is a string; `None` when the text is no JSON array.
pub fn osi_ids_from_json(text: &str) -> (r: Option<Vec<Option<String>>>)
    ensures
        match json_item_strings(text@, seq![], "id"@) {
            Some(items) => r matches Some(ids) && opt_strings(ids@) == items,
            None => r is None,
        },
{
    let path = path0();
    json_item_strings_at(text, &path, "id")
}

/// The canonical identifier of a license: common spellings of well-known
/// licenses map to their SPDX identifier (compared on the trimmed,
/// upper-cased text); anything else is returned as given.
pub open spec fn normalized(id: Seq<char>) -> Seq<char> {
    let t = uppercase(trim(id));
    if t == "MIT"@ || t == "MIT LICENSE"@ {
        "MIT"@
    } else if t == "ISC"@ || t == "ISC LICENSE"@ {
        "ISC"@
    } else if t == "0BSD"@ || t == "BSD-ZERO-CLAUSE"@ || t == "BSD ZERO CLAUSE"@ {
        "0BSD"@
    } else if t == "UNLICENSE"@ || t == "THE UNLICENSE"@ {
        "Unlicense"@
    } else if t == "WTFPL"@ || t == "DO WHAT THE FUCK YOU WANT TO PUBLIC LICENSE"@ {
        "WTFPL"@
    } else if t == "ZLIB"@ || t == "ZLIB LICENSE"@ {
        "Zlib"@
    } else if t == "CC0"@ || t == "CC0-1.0"@ || t == "CC0 1.0"@ || t == "CREATIVE COMMONS ZERO"@ {
        "CC0-1.0"@
    } else if contains(t, "APACHE"@) && (contains(t, "2.0"@) || contains(t, "2"@)) {
        "Apache-2.0"@
    } else if contains(t, "AGPL"@) && contains(t, "3"@) {
        "AGPL-3.0"@
    } else if contains(t, "AFFERO"@) && contains(t, "GPL"@) && contains(t, "3"@) {
        "AGPL-3.0"@
    } else if contains(t, "GPL"@) && contains(t, "3"@) && !contains(t, "LGPL"@) {
        "GPL-3.0"@
    } else if contains(t, "GPL"@) && contains(t, "2"@) && !contains(t, "LGPL"@) {
        "GPL-2.0"@
    } else if contains(t, "LGPL"@) && contains(t, "3"@) {
        "LGPL-3.0"@
    } else if contains(t, "LGPL"@) && contains(t, "2.1"@) {
        "LGPL-2.1"@
    } else if contains(t, "LGPL"@) && contains(t, "2"@) && !contains(t, "2.1"@) {
        "LGPL-2.1"@
    } else if contains(t, "MPL"@) && contains(t, "2.0"@) {
        "MPL-2.0"@
    } else if contains(t, "BSD"@) && (contains(t, "3"@) || contains(t, "THREE"@)) {
        "BSD-3-Clause"@
    } else if contains(t, "BSD"@) && (contains(t, "2"@) || contains(t, "TWO"@)) {
        "BSD-2-Clause"@
    } else {
        id
    }
}

/// Normalizes a license identifier to a standard form.
pub fn normalize_license_id(license_id: &str) -> (r: String)
    ensures
        r@ == normalized(license_id@),
{
    let c = to_chars(license_id);
    let tr = trimmed(c.as_slice());
    let t = to_upper(tr.as_slice());
    let t = t.as_slice();
    if eq_str(t, "MIT") || eq_str(t, "MIT LICENSE") {
        owned("MIT")
    } else if eq_str(t, "ISC") || eq_str(t, "ISC LICENSE") {
        owned("ISC")
    } else if eq_str(t, "0BSD") || eq_str(t, "BSD-ZERO-CLAUSE") || eq_str(t, "BSD ZERO CLAUSE") {
        owned("0BSD")
    } else if eq_str(t, "UNLICENSE") || eq_str(t, "THE UNLICENSE") {
        owned("Unlicense")
    } else if eq_str(t, "WTFPL") || eq_str(t, "DO WHAT THE FUCK YOU WANT TO PUBLIC LICENSE") {
        owned("WTFPL")
    } else if eq_str(t, "ZLIB") || eq_str(t, "ZLIB LICENSE") {
        owned("Zlib")
    } else if eq_str(t, "CC0") || eq_str(t, "CC0-1.0") || eq_str(t, "CC0 1.0") || eq_str(
        t,
        "CREATIVE COMMONS ZERO",
    ) {
        owned("CC0-1.0")
    } else if contains_str(t, "APACHE") && (contains_str(t, "2.0") || contains_str(t, "2")) {
        owned("Apache-2.0")
    } else if contains_str(t, "AGPL") && contains_str(t, "3") {
        owned("AGPL-3.0")
    } else if contains_str(t, "AFFERO") && contains_str(t, "GPL") && contains_str(t, "3") {
        owned("AGPL-3.0")
    } else if contains_str(t, "GPL") && contains_str(t, "3") && !contains_str(t, "LGPL") {
        owned("GPL-3.0")
    } else if contains_str(t, "GPL") && contains_str(t, "2") && !contains_str(t, "LGPL") {
        owned("GPL-2.0")
    } else if contains_str(t, "LGPL") && contains_str(t, "3") {
        owned("LGPL-3.0")
    } else if contains_str(t, "LGPL") && contains_str(t, "2.1") {
        owned("LGPL-2.1")
    } else if contains_str(t, "LGPL") && contains_str(t, "2") && !contains_str(t, "2.1") {
        owned("LGPL-2.1")
    } else if contains_str(t, "MPL") && contains_str(t, "2.0") {
        owned("MPL-2.0")
    } else if contains_str(t, "BSD") && (contains_str(t, "3") || contains_str(t, "THREE")) {
        owned("BSD-3-Clause")
    } else if contains_str(t, "BSD") && (contains_str(t, "2") || contains_str(t, "TWO")) {
        owned("BSD-2-Clause")
    } else {
        owned(license_id)
    }
}


/// Licenses known to be OSI approved when the OSI list does not name them.
pub open spec fn well_known_osi(n: Seq<char>) -> OsiStatus {
    if n == "MIT"@ || n == "Apache-2.0"@ || n == "BSD-3-Clause"@ || n == "BSD-2-Clause"@ || n
        == "GPL-3.0"@ || n == "GPL-2.0"@ || n == "LGPL-3.0"@ || n == "LGPL-2.1"@ || n == "MPL-2.0"@
        || n == "ISC"@ || n == "0BSD"@ {
        OsiStatus::Approved
    } else if n == "No License"@ {
        OsiStatus::NotApproved
    } else {
        OsiStatus::Unknown
    }
}

/// OSI status of a license given the OSI list: the normalized identifier is
/// looked up first, then the identifier as given, then the well-known table.
pub open spec fn osi_status_of(id: Seq<char>, osi: Seq<(String, OsiStatus)>) -> OsiStatus {
    let n = normalized(id);
    match lookup(osi, n) {
        Some(st) => st,
        None => match lookup(osi, id) {
            Some(st) => st,
            None => well_known_osi(n),
        },
    }
}

/// OSI approval status of a license, given the OSI license list.
pub fn get_osi_status(license_id: &str, osi_licenses: &Vec<(String, OsiStatus)>) -> (r: OsiStatus)
    ensures
        r == osi_status_of(license_id@, osi_licenses@),
{
    let normalized_id = normalize_license_id(license_id);
    let nc = to_chars(normalized_id.as_str());
    match lookup_index(osi_licenses, nc.as_slice()) {
        Some(i) => return osi_licenses[i].1,
        None => {},
    }
    let ic = to_chars(license_id);
    match lookup_index(osi_licenses, ic.as_slice()) {
        Some(i) => return osi_licenses[i].1,
        None => {},
    }
    let n = nc.as_slice();
    if eq_str(n, "MIT") || eq_str(n, "Apache-2.0") || eq_str(n, "BSD-3-Clause") || eq_str(
        n,
        "BSD-2-Clause",
    ) || eq_str(n, "GPL-3.0") || eq_str(n, "GPL-2.0") || eq_str(n, "LGPL-3.0") || eq_str(
        n,
        "LGPL-2.1",
    ) || eq_str(n, "MPL-2.0") || eq_str(n, "ISC") || eq_str(n, "0BSD") {
        OsiStatus::Approved
    } else if eq_str(n, "No License") {
        OsiStatus::NotApproved
    } else {
        OsiStatus::Unknown
    }
}

/// Compatibility of a dependency license with the project license under a
/// compatibility matrix (project license to the licenses usable with it).
/// Both identifiers are normalized; an unlisted project license gives
/// `Unknown`, or `Incompatible` in strict mode.
pub open spec fn compatibility_of(
    dependency: Seq<char>,
    project: Seq<char>,
    strict: bool,
    matrix: Seq<(String, Vec<String>)>,
) -> LicenseCompatibility {
    match lookup(matrix, normalized(project)) {
        Some(list) => if strs(list@).contains(normalized(dependency)) {
            LicenseCompatibility::Compatible
        } else {
            LicenseCompatibility::Incompatible
        },
        None => if strict {
            LicenseCompatibility::Incompatible
        } else {
            LicenseCompatibility::Unknown
        },
    }
}

/// Whether a list of strings holds `x`.
fn holds(list: &Vec<String>, x: &[char]) -> (r: bool)
    ensures
        r == strs(list@).contains(x@),
{
    let mut i: usize = 0;
    while i < list.len()
        invariant
            i <= list@.len(),
            forall|k: int| 0 <= k < i ==> strs(list@)[k] != x@,
        decreases list@.len() - i,
    {
        if eq_str(x, list[i].as_str()) {
            assert(strs(list@)[i as int] == x@);
            return true;
        }
        i = i + 1;
    }
    false
}

/// Checks whether a dependency license is compatible with the project
/// license, under the given compatibility matrix.
pub fn is_license_compatible(
    dependency_license: &str,
    project_license: &str,
    strict: bool,
    matrix: &Vec<(String, Vec<String>)>,
) -> (r: LicenseCompatibility)
    ensures
        r == compatibility_of(dependency_license@, project_license@, strict, matrix@),
{
    let dep = normalize_license_id(dependency_license);
    let proj = normalize_license_id(project_license);
    let pc = to_chars(proj.as_str());
    match lookup_index(matrix, pc.as_slice()) {
        Some(i) => {
            let dc = to_chars(dep.as_str());
            if holds(&matrix[i].1, dc.as_slice()) {
                LicenseCompatibility::Compatible
            } else {
                LicenseCompatibility::Incompatible
            }
        },
        None => if strict {
            LicenseCompatibility::Incompatible
        } else {
            LicenseCompatibility::Unknown
        },
    }
}

/// Whether some pattern of `patterns` occurs in `s`.
pub open spec fn matches_any(s: Seq<char>, patterns: Seq<Seq<char>>) -> bool {
    exists|i: int| 0 <= i < patterns.len() && contains(s, #[trigger] patterns[i])
}

/// Whether some pattern of `patterns` occurs in `s`.
fn matches_any_exec(s: &[char], patterns: &Vec<String>) -> (r: bool)
    ensures
        r == matches_any(s@, strs(patterns@)),
{
    let mut i: usize = 0;
    while i < patterns.len()
        invariant
            i <= patterns@.len(),
            forall|k: int| 0 <= k < i ==> !contains(s@, #[trigger] strs(patterns@)[k]),
        decreases patterns@.len() - i,
    {
        if contains_str(s, patterns[i].as_str()) {
            assert(contains(s@, strs(patterns@)[i as int]));
            return true;
        }
        i = i + 1;
    }
    false
}

/// Whether a license is left out of the analysis: some entry of the ignore
/// list occurs in it. No license is never ignored.
pub open spec fn ignored(license: Option<Seq<char>>, config: FeludaConfig) -> bool {
    match license {
        Some(l) => listed(l, strs(config.licenses.ignore@)),
        None => false,
    }
}

/// Whether `s`, without surrounding whitespace, is an entry of `list`.
pub open spec fn listed(s: Seq<char>, list: Seq<Seq<char>>) -> bool {
    exists|i: int| 0 <= i < list.len() && #[trigger] list[i] == trim(s)
}

/// Whether `s` is in `list` (see `listed`).
fn listed_exec(s: &[char], list: &Vec<String>) -> (r: bool)
    ensures
        r == listed(s@, strs(list@)),
{
    let t = trimmed(s);
    let mut i: usize = 0;
    while i < list.len()
        invariant
            i <= list@.len(),
            t@ == trim(s@),
            forall|k: int| 0 <= k < i ==> #[trigger] strs(list@)[k] != trim(s@),
        decreases list@.len() - i,
    {
        if eq_str(t.as_slice(), list[i].as_str()) {
            assert(strs(list@)[i as int] == list@[i as int]@);
            return true;
        }
        i = i + 1;
    }
    false
}

/// The view of an optional string slice.
pub open spec fn opt_str(o: Option<&str>) -> Option<Seq<char>> {
    match o {
        Some(s) => Some(s@),
        None => None,
    }
}

/// The view of an optional string.
pub open spec fn opt_string(o: Option<String>) -> Option<Seq<char>> {
    match o {
        Some(s) => Some(s@),
        None => None,
    }
}

/// Checks whether a license should be left out of the analysis: whether it,
/// without surrounding whitespace, is an entry of the configured ignore list
/// (see `listed`).
pub fn is_license_ignored(license: Option<&str>, config: &FeludaConfig) -> (r: bool)
    ensures
        r == ignored(opt_str(license), *config),
{
    match license {
        Some(l) => {
            let c = to_chars(l);
            listed_exec(c.as_slice(), &config.licenses.ignore)
        },
        None => false,
    }
}

/// The conditions that make a known license restrictive.
pub open spec fn restrictive_conditions(strict: bool) -> Seq<Seq<char>> {
    if strict {
        seq![
            "source-disclosure"@,
            "network-use-disclosure"@,
            "disclose-source"@,
            "same-license"@,
        ]
    } else {
        seq!["source-disclosure"@, "network-use-disclosure"@]
    }
}

/// Whether a license is restrictive.
///
/// `No License` is restrictive. A license found among the known licenses is
/// restrictive when it has one of the restrictive conditions. Any other
/// license is restrictive when a configured restrictive pattern occurs in it,
/// or, in strict mode, when it contains `Unknown`. A missing license is
/// restrictive only in strict mode.
pub open spec fn restrictive(
    license: Option<Seq<char>>,
    known: Seq<(String, License)>,
    strict: bool,
    config: FeludaConfig,
) -> bool {
    match license {
        Some(l) => if l == "No License"@ {
            true
        } else {
            match lookup(known, l) {
                Some(data) => exists|i: int|
                    0 <= i < restrictive_conditions(strict).len() && strs(
                        data.conditions@,
                    ).contains(#[trigger] restrictive_conditions(strict)[i]),
                None => matches_any(l, strs(config.licenses.restrictive@)) || (strict && contains(
                    l,
                    "Unknown"@,
                )),
            }
        },
        None => strict,
    }
}

/// Whether a known license carries one of the restrictive conditions.
fn has_restrictive_condition(data: &License, strict: bool) -> (r: bool)
    ensures
        r == exists|i: int|
            0 <= i < restrictive_conditions(strict).len() && strs(data.conditions@).contains(
                #[trigger] restrictive_conditions(strict)[i],
            ),
{
    let conds: Vec<&str> = if strict {
        vec!["source-disclosure", "network-use-disclosure", "disclose-source", "same-license"]
    } else {
        vec!["source-disclosure", "network-use-disclosure"]
    };
    assert(conds@.map_values(|s: &str| s@) =~= restrictive_conditions(strict));
    let mut i: usize = 0;
    while i < conds.len()
        invariant
            i <= conds@.len(),
            conds@.map_values(|s: &str| s@) == restrictive_conditions(strict),
            forall|k: int|
                0 <= k < i ==> !strs(data.conditions@).contains(
                    #[trigger] restrictive_conditions(strict)[k],
                ),
        decreases conds@.len() - i,
    {
        let cc = to_chars(conds[i]);
        assert(restrictive_conditions(strict)[i as int] == conds@[i as int]@);
        if holds(&data.conditions, cc.as_slice()) {
            return true;
        }
        i = i + 1;
    }
    false
}

/// Checks whether a license is restrictive, given the known licenses (by
/// identifier), the strictness and the configuration.
pub fn is_license_restrictive(
    license: &Option<String>,
    known_licenses: &Vec<(String, License)>,
    strict: bool,
    config: &FeludaConfig,
) -> (r: bool)
    ensures
        r == restrictive(opt_string(*license), known_licenses@, strict, *config),
{
    match license {
        Some(l) => {
            let lc = to_chars(l.as_str());
            if eq_str(lc.as_slice(), "No License") {
                return true;
            }
            match lookup_index(known_licenses, lc.as_slice()) {
                Some(i) => has_restrictive_condition(&known_licenses[i].1, strict),
                None => {
                    if matches_any_exec(lc.as_slice(), &config.licenses.restrictive) {
                        true
                    } else {
                        strict && contains_str(lc.as_slice(), "Unknown")
                    }
                },
            }
        },
        None => strict,
    }
}


/// Strict mode changes a compatibility verdict only by turning `Unknown`
/// into `Incompatible`.
pub proof fn law_strict_compatibility(
    dependency: Seq<char>,
    project: Seq<char>,
    matrix: Seq<(String, Vec<String>)>,
)
    ensures
        compatibility_of(dependency, project, true, matrix) == if compatibility_of(
            dependency,
            project,
            false,
            matrix,
        ) == LicenseCompatibility::Unknown {
            LicenseCompatibility::Incompatible
        } else {
            compatibility_of(dependency, project, false, matrix)
        },
        compatibility_of(dependency, project, false, matrix) != LicenseCompatibility::Unknown
            ==> lookup(matrix, normalized(project)) is Some,
{
}

/// Whatever is restrictive in normal mode is restrictive in strict mode.
pub proof fn law_strict_is_stricter(
    license: Option<Seq<char>>,
    known: Seq<(String, License)>,
    config: FeludaConfig,
)
    ensures
        restrictive(license, known, false, config) ==> restrictive(license, known, true, config),
{
    if let Some(l) = license {
        if l != "No License"@ {
            if let Some(data) = lookup(known, l) {
                if restrictive(license, known, false, config) {
                    let i = choose|i: int|
                        0 <= i < restrictive_conditions(false).len() && strs(
                            data.conditions@,
                        ).contains(#[trigger] restrictive_conditions(false)[i]);
                    assert(restrictive_conditions(true)[i] == restrictive_conditions(false)[i]);
                }
            }
        }
    }
}

/// A license found among the known licenses is restrictive exactly when
/// its conditions include `source-disclosure` or `network-use-disclosure`,
/// or, in strict mode, `disclose-source` or `same-license`.
pub proof fn law_known_license_conditions(
    license: Seq<char>,
    known: Seq<(String, License)>,
    strict: bool,
    config: FeludaConfig,
)
    requires
        license != "No License"@,
        lookup(known, license) is Some,
    ensures
        ({
            let c = strs(lookup(known, license)->0.conditions@);
            restrictive(Some(license), known, strict, config) <==> (c.contains("source-disclosure"@) || c.contains(
                "network-use-disclosure"@,
            ) || (strict && (c.contains("disclose-source"@) || c.contains("same-license"@))))
        }),
{
    let c = strs(lookup(known, license)->0.conditions@);
    let rc = restrictive_conditions(strict);
    if c.contains("source-disclosure"@) {
        assert(rc[0] == "source-disclosure"@);
    }
    if c.contains("network-use-disclosure"@) {
        assert(rc[1] == "network-use-disclosure"@);
    }
    if strict && c.contains("disclose-source"@) {
        assert(rc[2] == "disclose-source"@);
    }
    if strict && c.contains("same-license"@) {
        assert(rc[3] == "same-license"@);
    }
    if restrictive(Some(license), known, strict, config) {
        let i = choose|i: int| 0 <= i < rc.len() && c.contains(#[trigger] rc[i]);
        assert(i == 0 || i == 1 || (strict && (i == 2 || i == 3)));
    }
}

/// A license file's text is read as GPL-3.0 only when it contains
/// `GNU GENERAL PUBLIC LICENSE`; a text with `GNU LESSER GENERAL PUBLIC
/// LICENSE` and `Version 3` but without that phrase, and without the MIT,
/// Apache-2.0 and BSD-3-Clause phrases, is read as LGPL-3.0.
pub proof fn law_gpl_and_lgpl_texts(t: Seq<char>)
    ensures
        license_in_text(t) == Some("GPL-3.0"@) ==> contains(t, "GNU GENERAL PUBLIC LICENSE"@),
        contains(t, "GNU LESSER GENERAL PUBLIC LICENSE"@) && contains(t, "Version 3"@) && !contains(
            t,
            "GNU GENERAL PUBLIC LICENSE"@,
        ) && !contains(t, "MIT License"@) && !contains(t, "Permission is hereby granted, free of charge"@) && !(
        contains(t, "Apache License"@) && contains(t, "Version 2.0"@)) && !(contains(t, "BSD"@) && contains(
            t,
            "Redistribution and use"@,
        ) && contains(t, "Neither the name"@)) ==> license_in_text(t) == Some("LGPL-3.0"@),
{
    reveal_strlit("GPL-3.0");
    reveal_strlit("MIT");
    reveal_strlit("Apache-2.0");
    reveal_strlit("BSD-3-Clause");
    reveal_strlit("LGPL-3.0");
    reveal_strlit("MPL-2.0");
    // The identifiers differ in length or in their first character.
    assert("MIT"@.len() == 3 && "GPL-3.0"@.len() == 7 && "Apache-2.0"@.len() == 10);
    assert("BSD-3-Clause"@.len() == 12 && "LGPL-3.0"@.len() == 8 && "MPL-2.0"@[0] != "GPL-3.0"@[0]);
}

/// Every spelling listed for a well-known license normalizes to that
/// license's SPDX identifier, whatever its case and surrounding whitespace.
pub proof fn law_listed_spellings_normalize(id: Seq<char>)
    ensures
        ({
            let t = uppercase(trim(id));
            &&& (t == "MIT"@ || t == "MIT LICENSE"@) ==> normalized(id) == "MIT"@
            &&& (t == "ISC"@ || t == "ISC LICENSE"@) ==> normalized(id) == "ISC"@
            &&& (t == "0BSD"@ || t == "BSD-ZERO-CLAUSE"@ || t == "BSD ZERO CLAUSE"@) ==> normalized(id) == "0BSD"@
            &&& (t == "UNLICENSE"@ || t == "THE UNLICENSE"@) ==> normalized(id) == "Unlicense"@
            &&& (t == "WTFPL"@ || t == "DO WHAT THE FUCK YOU WANT TO PUBLIC LICENSE"@) ==> normalized(id)
                == "WTFPL"@
            &&& (t == "ZLIB"@ || t == "ZLIB LICENSE"@) ==> normalized(id) == "Zlib"@
            &&& (t == "CC0"@ || t == "CC0-1.0"@ || t == "CC0 1.0"@ || t == "CREATIVE COMMONS ZERO"@)
                ==> normalized(id) == "CC0-1.0"@
        }),
{
    reveal_strlit("MIT");
    reveal_strlit("MIT LICENSE");
    reveal_strlit("ISC");
    reveal_strlit("ISC LICENSE");
    reveal_strlit("0BSD");
    reveal_strlit("BSD-ZERO-CLAUSE");
    reveal_strlit("BSD ZERO CLAUSE");
    reveal_strlit("UNLICENSE");
    reveal_strlit("THE UNLICENSE");
    reveal_strlit("WTFPL");
    reveal_strlit("DO WHAT THE FUCK YOU WANT TO PUBLIC LICENSE");
    reveal_strlit("ZLIB");
    reveal_strlit("ZLIB LICENSE");
    reveal_strlit("CC0");
    reveal_strlit("CC0-1.0");
    reveal_strlit("CC0 1.0");
    reveal_strlit("CREATIVE COMMONS ZERO");
    // Spellings of different licenses differ in length or in a character.
    assert("MIT"@.len() == 3);
    assert("MIT LICENSE"@.len() == 11);
    assert("ISC"@.len() == 3);
    assert("ISC LICENSE"@.len() == 11);
    assert("0BSD"@.len() == 4);
    assert("BSD-ZERO-CLAUSE"@.len() == 15);
    assert("BSD ZERO CLAUSE"@.len() == 15);
    assert("UNLICENSE"@.len() == 9);
    assert("THE UNLICENSE"@.len() == 13);
    assert("WTFPL"@.len() == 5);
    assert("DO WHAT THE FUCK YOU WANT TO PUBLIC LICENSE"@.len() == 43);
    assert("ZLIB"@.len() == 4);
    assert("ZLIB LICENSE"@.len() == 12);
    assert("CC0"@.len() == 3);
    assert("CC0-1.0"@.len() == 7);
    assert("CC0 1.0"@.len() == 7);
    assert("CREATIVE COMMONS ZERO"@.len() == 21);
    assert("ISC"@[0] != "MIT"@[0]);
    assert("CC0"@[0] != "MIT"@[0]);
    assert("CC0"@[0] != "ISC"@[0]);
    assert("ISC LICENSE"@[0] != "MIT LICENSE"@[0]);
    assert("ZLIB"@[0] != "0BSD"@[0]);
}

/// `No License` is restrictive in every mode, and a dependency without any
/// license information is restrictive exactly in strict mode and never ignored.
pub proof fn law_missing_license(known: Seq<(String, License)>, strict: bool, config: FeludaConfig)
    ensures
        restrictive(Some("No License"@), known, strict, config),
        restrictive(None, known, strict, config) == strict,
        !ignored(None, config),
{
}

/// Under a configuration that passes validation, an empty license is never
/// ignored: every ignore entry has a non-whitespace character.
pub proof fn law_empty_license_not_ignored(config: FeludaConfig)
    requires
        config_error(config) is None,
    ensures
        !ignored(Some(Seq::<char>::empty()), config),
{
    let list = strs(config.licenses.ignore@);
    crate::config::lemma_valid_lists(config);
    assert(trim(Seq::<char>::empty()) =~= Seq::<char>::empty());
    assert forall|i: int| 0 <= i < list.len() implies #[trigger] list[i] != trim(Seq::<char>::empty()) by {
        assert(!blank(list[i]));
    }
}

/// The license a license file's text declares, recognised by the phrases of
/// the well-known licenses, checked in order: MIT, GPL-3.0, Apache-2.0,
/// BSD-3-Clause, LGPL-3.0, MPL-2.0.
pub open spec fn license_in_text(t: Seq<char>) -> Option<Seq<char>> {
    if contains(t, "MIT License"@) || contains(t, "Permission is hereby granted, free of charge"@) {
        Some("MIT"@)
    } else if contains(t, "GNU GENERAL PUBLIC LICENSE"@) && contains(t, "Version 3"@) {
        Some("GPL-3.0"@)
    } else if contains(t, "Apache License"@) && contains(t, "Version 2.0"@) {
        Some("Apache-2.0"@)
    } else if contains(t, "BSD"@) && contains(t, "Redistribution and use"@) && contains(
        t,
        "Neither the name"@,
    ) {
        Some("BSD-3-Clause"@)
    } else if contains(t, "GNU LESSER GENERAL PUBLIC LICENSE"@) && contains(t, "Version 3"@) {
        Some("LGPL-3.0"@)
    } else if contains(t, "Mozilla Public License"@) && contains(t, "Version 2.0"@) {
        Some("MPL-2.0"@)
    } else {
        None
    }
}

/// The license a license file's text declares (see `license_in_text`).
pub fn license_from_text(content: &str) -> (r: Option<String>)
    ensures
        opt_string(r) == license_in_text(content@),
{
    let c = to_chars(content);
    let t = c.as_slice();
    if contains_str(t, "MIT License") || contains_str(t, "Permission is hereby granted, free of charge") {
        Some(owned("MIT"))
    } else if contains_str(t, "GNU GENERAL PUBLIC LICENSE") && contains_str(t, "Version 3") {
        Some(owned("GPL-3.0"))
    } else if contains_str(t, "Apache License") && contains_str(t, "Version 2.0") {
        Some(owned("Apache-2.0"))
    } else if contains_str(t, "BSD") && contains_str(t, "Redistribution and use") && contains_str(
        t,
        "Neither the name",
    ) {
        Some(owned("BSD-3-Clause"))
    } else if contains_str(t, "GNU LESSER GENERAL PUBLIC LICENSE") && contains_str(t, "Version 3") {
        Some(owned("LGPL-3.0"))
    } else if contains_str(t, "Mozilla Public License") && contains_str(t, "Version 2.0") {
        Some(owned("MPL-2.0"))
    } else {
        None
    }
}

/// The license declared by the first license file whose text is
/// recognised.
pub open spec fn first_license_in(files: Seq<Seq<char>>) -> Option<Seq<char>>
    decreases files.len(),
{
    if files.len() == 0 {
        None
    } else {
        match license_in_text(files[0]) {
            Some(l) => Some(l),
            None => first_license_in(files.drop_first()),
        }
    }
}

/// The `license` of a `package.json`.
pub open spec fn package_json_license(content: Seq<char>) -> Option<Seq<char>> {
    json_string(content, seq!["license"@])
}

/// The `license` of the `[package]` table of a `Cargo.toml`.
pub open spec fn cargo_toml_license(content: Seq<char>) -> Option<Seq<char>> {
    toml_string(content, seq!["package"@, "license"@])
}

/// The license of the `[project]` table of a `pyproject.toml`: its
/// `license` when that is a string, else the `text` of its `license` table.
pub open spec fn pyproject_license(content: Seq<char>) -> Option<Seq<char>> {
    match toml_string(content, seq!["project"@, "license"@]) {
        Some(l) => Some(l),
        None => toml_string(content, seq!["project"@, "license"@, "text"@]),
    }
}

/// A project's license: the one a license file declares (in the order the
/// files are searched), else the one of its `package.json`, else that of
/// its `Cargo.toml`, else that of its `pyproject.toml`.
pub open spec fn project_license_of(
    files: Seq<Seq<char>>,
    package_json: Option<Seq<char>>,
    cargo_toml: Option<Seq<char>>,
    pyproject_toml: Option<Seq<char>>,
) -> Option<Seq<char>> {
    let p = match package_json {
        Some(t) => package_json_license(t),
        None => None,
    };
    let c = match cargo_toml {
        Some(t) => cargo_toml_license(t),
        None => None,
    };
    match first_license_in(files) {
        Some(l) => Some(l),
        None => if p is Some {
            p
        } else if c is Some {
            c
        } else {
            match pyproject_toml {
                Some(t) => pyproject_license(t),
                None => None,
            }
        },
    }
}

/// The views of a list of strings.
pub open spec fn string_views(v: Seq<String>) -> Seq<Seq<char>> {
    v.map_values(|s: String| s@)
}

/// A project's license (see `project_license_of`) from the texts of its
/// license files, in search order, and those of its `package.json`,
/// `Cargo.toml` and `pyproject.toml`, where it has them.
pub fn detect_project_license(
    license_files: &Vec<String>,
    package_json: Option<&str>,
    cargo_toml: Option<&str>,
    pyproject_toml: Option<&str>,
) -> (r: Option<String>)
    ensures
        opt_string(r) == project_license_of(
            string_views(license_files@),
            opt_str(package_json),
            opt_str(cargo_toml),
            opt_str(pyproject_toml),
        ),
{
    let ghost fs = string_views(license_files@);
    let mut i: usize = 0;
    assert(fs.skip(0) =~= fs);
    while i < license_files.len()
        invariant
            i <= license_files@.len(),
            fs == string_views(license_files@),
            first_license_in(fs) == first_license_in(fs.skip(i as int)),
        decreases license_files@.len() - i,
    {
        assert(fs.skip(i as int)[0] == license_files@[i as int]@);
        assert(fs.skip(i as int).drop_first() =~= fs.skip(i + 1));
        match license_from_text(license_files[i].as_str()) {
            Some(l) => {
                return Some(l);
            },
            None => {},
        }
        i = i + 1;
    }
    assert(fs.skip(i as int).len() == 0);
    if let Some(c) = package_json {
        if let Some(l) = json_string_at(c, &path1("license")) {
            return Some(l);
        }
    }
    if let Some(c) = cargo_toml {
        if let Some(l) = toml_string_at(c, &path2("package", "license")) {
            return Some(l);
        }
    }
    if let Some(c) = pyproject_toml {
        if let Some(l) = toml_string_at(c, &path2("project", "license")) {
            return Some(l);
        }
        return toml_string_at(c, &path3("project", "license", "text"));
    }
    None
}

/// The license information of a resolved dependency whose license text is
/// known: restrictiveness by `restrictive` under the configuration's strict
/// mode, the OSI status of its license, and an unknown compatibility (the
/// project license is applied later).
pub open spec fn describes(
    d: LicenseInfo,
    dep: (Seq<char>, Seq<char>, Seq<char>),
    known: Seq<(String, License)>,
    osi: Seq<(String, OsiStatus)>,
    config: FeludaConfig,
) -> bool {
    &&& d.name@ == dep.0
    &&& d.version@ == dep.1
    &&& opt_string(d.license) == Some(dep.2)
    &&& d.is_restrictive == restrictive(Some(dep.2), known, config.strict, config)
    &&& d.compatibility == LicenseCompatibility::Unknown
    &&& d.osi_status == osi_status_of(dep.2, osi)
}

/// The views of `(name, version, license)` triples.
pub open spec fn triple_views(v: Seq<(String, String, String)>) -> Seq<(Seq<char>, Seq<char>, Seq<char>)> {
    v.map_values(|t: (String, String, String)| (t.0@, t.1@, t.2@))
}

/// The license information of resolved dependencies, each given with its
/// license text, in order (see `describes`).
pub fn dependency_licenses(
    deps: Vec<(String, String, String)>,
    known_licenses: &Vec<(String, License)>,
    osi_licenses: &Vec<(String, OsiStatus)>,
    config: &FeludaConfig,
) -> (r: Vec<LicenseInfo>)
    ensures
        r@.len() == deps@.len(),
        forall|k: int|
            0 <= k < deps@.len() ==> describes(
                #[trigger] r@[k],
                triple_views(deps@)[k],
                known_licenses@,
                osi_licenses@,
                *config,
            ),
{
    let ghost dv = triple_views(deps@);
    let n = deps.len();
    let mut out: Vec<LicenseInfo> = Vec::new();
    let mut k: usize = 0;
    for t in it: deps.into_iter()
        invariant
            dv == it.seq().map_values(|t: (String, String, String)| (t.0@, t.1@, t.2@)),
            dv.len() == n,
            k == it.index(),
            out@.len() == k,
            forall|j: int|
                0 <= j < k ==> describes(#[trigger] out@[j], dv[j], known_licenses@, osi_licenses@, *config),
    {
        assert(k < n);
        let (name, version, license) = t;
        let osi_status = get_osi_status(license.as_str(), osi_licenses);
        let lic = Some(license);
        let is_restrictive = is_license_restrictive(&lic, known_licenses, config.strict, config);
        out.push(
            LicenseInfo {
                name,
                version,
                license: lic,
                is_restrictive,
                compatibility: LicenseCompatibility::Unknown,
                osi_status,
            },
        );
        k = k + 1;
    }
    out
}

/// The license a table of looked-up licenses gives a dependency: that of
/// its first entry with the same name and version, `Unknown` without one.
pub open spec fn license_in(
    table: Seq<(Seq<char>, Seq<char>, Seq<char>)>,
    name: Seq<char>,
    version: Seq<char>,
) -> Seq<char>
    decreases table.len(),
{
    if table.len() == 0 {
        "Unknown"@
    } else if table[0].0 == name && table[0].1 == version {
        table[0].2
    } else {
        license_in(table.drop_first(), name, version)
    }
}

/// Dependencies with the license a table gives each (see `license_in`).
pub open spec fn licensed(
    deps: Seq<(Seq<char>, Seq<char>)>,
    table: Seq<(Seq<char>, Seq<char>, Seq<char>)>,
) -> Seq<(Seq<char>, Seq<char>, Seq<char>)> {
    deps.map_values(|d: (Seq<char>, Seq<char>)| (d.0, d.1, license_in(table, d.0, d.1)))
}

/// The license a table gives a dependency (see `license_in`).
fn license_lookup(table: &Vec<(String, String, String)>, name: &str, version: &str) -> (r: String)
    ensures
        r@ == license_in(triple_views(table@), name@, version@),
{
    let ghost tv = triple_views(table@);
    assert(tv.subrange(0, tv.len() as int) =~= tv);
    let mut i: usize = 0;
    while i < table.len()
        invariant
            i <= table@.len(),
            tv == triple_views(table@),
            license_in(tv, name@, version@) == license_in(tv.subrange(i as int, tv.len() as int), name@, version@),
        decreases table@.len() - i,
    {
        let ghost rest = tv.subrange(i as int, tv.len() as int);
        assert(rest.drop_first() =~= tv.subrange(i + 1, tv.len() as int));
        if eq_str(to_chars(table[i].0.as_str()).as_slice(), name) && eq_str(
            to_chars(table[i].1.as_str()).as_slice(),
            version,
        ) {
            return owned(table[i].2.as_str());
        }
        i = i + 1;
    }
    owned("Unknown")
}

/// Dependencies with the license a table gives each (see `licensed`).
pub fn with_licenses(deps: &Vec<(String, String)>, table: &Vec<(String, String, String)>) -> (r: Vec<
    (String, String, String),
>)
    ensures
        triple_views(r@) == licensed(pairs(deps@), triple_views(table@)),
{
    let ghost tv = triple_views(table@);
    let mut out: Vec<(String, String, String)> = Vec::new();
    let mut i: usize = 0;
    while i < deps.len()
        invariant
            i <= deps@.len(),
            tv == triple_views(table@),
            triple_views(out@) == licensed(pairs(deps@).take(i as int), tv),
        decreases deps@.len() - i,
    {
        let l = license_lookup(table, deps[i].0.as_str(), deps[i].1.as_str());
        let ghost before = triple_views(out@);
        out.push((owned(deps[i].0.as_str()), owned(deps[i].1.as_str()), l));
        assert(triple_views(out@) =~= before.push((deps@[i as int].0@, deps@[i as int].1@, l@)));
        assert(licensed(pairs(deps@).take(i + 1), tv) =~= licensed(pairs(deps@).take(i as int), tv).push(
            (deps@[i as int].0@, deps@[i as int].1@, license_in(tv, deps@[i as int].0@, deps@[i as int].1@)),
        ));
        i = i + 1;
    }
    assert(pairs(deps@).take(deps@.len() as int) =~= pairs(deps@));
    out
}

/// The OSI statuses of the licenses the OSI lists: each listed identifier is
/// approved; entries without an identifier are skipped.
pub open spec fn osi_entries(ids: Seq<Option<String>>) -> Seq<(Seq<char>, OsiStatus)>
    decreases ids.len(),
{
    if ids.len() == 0 {
        Seq::empty()
    } else {
        let rest = osi_entries(ids.drop_last());
        match ids.last() {
            Some(id) => rest.push((id@, OsiStatus::Approved)),
            None => rest,
        }
    }
}

/// The views of identifier and status pairs.
pub open spec fn status_views(v: Seq<(String, OsiStatus)>) -> Seq<(Seq<char>, OsiStatus)> {
    v.map_values(|p: (String, OsiStatus)| (p.0@, p.1))
}

/// The OSI statuses of the licenses the OSI lists (see `osi_entries`).
pub fn osi_statuses(ids: &Vec<Option<String>>) -> (r: Vec<(String, OsiStatus)>)
    ensures
        status_views(r@) == osi_entries(ids@),
{
    let mut out: Vec<(String, OsiStatus)> = Vec::new();
    let mut i: usize = 0;
    while i < ids.len()
        invariant
            i <= ids@.len(),
            status_views(out@) == osi_entries(ids@.take(i as int)),
        decreases ids@.len() - i,
    {
        assert(ids@.take(i + 1).drop_last() =~= ids@.take(i as int));
        match &ids[i] {
            Some(id) => {
                let ghost before = status_views(out@);
                out.push((owned(id.as_str()), OsiStatus::Approved));
                assert(status_views(out@) =~= before.push((id@, OsiStatus::Approved)));
            },
            None => {},
        }
        i = i + 1;
    }
    assert(ids@.take(ids@.len() as int) =~= ids@);
    out
}

/// The entries of a compatibility matrix that the configuration gives, in
/// order: each license with the licenses compatible with it.
pub open spec fn matrix_entries(es: Seq<(String, Option<Vec<String>>)>) -> Seq<(Seq<char>, Seq<Seq<char>>)>
    decreases es.len(),
{
    if es.len() == 0 {
        Seq::empty()
    } else {
        let rest = matrix_entries(es.drop_last());
        match es.last().1 {
            Some(l) => rest.push((es.last().0@, strs(l@))),
            None => rest,
        }
    }
}

/// The views of a compatibility matrix.
pub open spec fn matrix_views(m: Seq<(String, Vec<String>)>) -> Seq<(Seq<char>, Seq<Seq<char>>)> {
    m.map_values(|e: (String, Vec<String>)| (e.0@, strs(e.1@)))
}

/// A compatibility matrix from the entries of its configuration: the
/// licenses the configuration lists compatible licenses for (see
/// `matrix_entries`).
pub fn compatibility_matrix(entries: Vec<(String, Option<Vec<String>>)>) -> (r: Vec<(String, Vec<String>)>)
    ensures
        matrix_views(r@) == matrix_entries(entries@),
{
    let ghost ev = entries@;
    let n = entries.len();
    let mut out: Vec<(String, Vec<String>)> = Vec::new();
    let mut k: usize = 0;
    for e in it: entries.into_iter()
        invariant
            it.seq() == ev,
            ev.len() == n,
            k == it.index(),
            matrix_views(out@) == matrix_entries(ev.take(k as int)),
    {
        assert(k < n);
        assert(ev.take(k + 1).drop_last() =~= ev.take(k as int));
        let ghost ek = ev[k as int];
        let (key, list) = e;
        match list {
            Some(l) => {
                let ghost before = matrix_views(out@);
                let ghost lv = strs(l@);
                let ghost kv = key@;
                out.push((key, l));
                assert(matrix_views(out@) =~= before.push((kv, lv)));
            },
            None => {},
        }
        k = k + 1;
    }
    assert(ev.take(ev.len() as int) =~= ev);
    out
}

} // verus!
