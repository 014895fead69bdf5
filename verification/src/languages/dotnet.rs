//! .NET dependencies: NuGet package references in project and solution
//! files, the output of `dotnet list package`, and licenses in `.nuspec`
//! manifests.

use vstd::prelude::*;

use crate::config::FeludaConfig;
use crate::languages::c::{compile_failure, dep_views, group, group_exec, matches_view};
use crate::licenses::{
    License, LicenseInfo, OsiStatus, dependency_licenses, describes, opt_str, opt_string,
    triple_views,
};
use crate::pattern::{
    Groups, groups_view, match_view, regex_all, regex_captures, regex_captures_iter,
    regex_compile_error, regex_first,
};
use crate::text::{
    contains, contains_str, eq_exec, eq_str, extend_str, from_chars, owned, replace, replace_exec,
    to_chars, trim, trimmed,
};

verus! {

/// A NuGet package reference.
#[derive(Debug, Clone)]
pub struct NuGetPackage {
    pub name: String,
    pub version: String,
}

/// The views of package references.
pub open spec fn package_views(v: Seq<NuGetPackage>) -> Seq<(Seq<char>, Seq<char>)> {
    v.map_values(|p: NuGetPackage| (p.name@, p.version@))
}

/// `PackageReference` elements of a project file.
pub open spec fn package_reference_pattern() -> Seq<char> {
    r#"<PackageReference\s+Include="([^"]+)"\s+Version="([^"]+)"\s*/?>"#@
}

/// `ProjectReference` elements of a project file.
pub open spec fn project_reference_pattern() -> Seq<char> {
    r#"<ProjectReference\s+Include="([^"]+)"\s*/?>"#@
}

/// `Project` elements of a `.slnx` solution.
pub open spec fn solution_project_pattern() -> Seq<char> {
    r#"<Project\s+Path="([^"]+)""#@
}

/// Package lines of `dotnet list package` output.
pub open spec fn dotnet_list_pattern() -> Seq<char> {
    r">\s+(\S+)\s+(\S+)"@
}

/// The name and version of groups 1 and 2 of each match, in order; a match
/// always has both.
pub open spec fn group_pairs(ms: Seq<Groups>) -> Seq<(Seq<char>, Seq<char>)>
    decreases ms.len(),
{
    if ms.len() == 0 {
        Seq::empty()
    } else {
        let rest = group_pairs(ms.drop_last());
        match (group(ms.last(), 1), group(ms.last(), 2)) {
            (Some(n), Some(v)) => rest.push((n, v)),
            _ => rest,
        }
    }
}

/// The packages of groups 1 and 2 of each match (see `group_pairs`).
pub fn packages_from(ms: &Vec<Vec<Option<String>>>) -> (r: Vec<NuGetPackage>)
    ensures
        package_views(r@) == group_pairs(matches_view(ms@)),
{
    let ghost mv = matches_view(ms@);
    let mut out: Vec<NuGetPackage> = Vec::new();
    let mut i: usize = 0;
    while i < ms.len()
        invariant
            i <= ms@.len(),
            mv == matches_view(ms@),
            package_views(out@) == group_pairs(mv.take(i as int)),
        decreases ms@.len() - i,
    {
        assert(mv.take(i + 1).drop_last() =~= mv.take(i as int));
        assert(mv[i as int] == groups_view(ms@[i as int]));
        match (group_exec(&ms[i], 1), group_exec(&ms[i], 2)) {
            (Some(n), Some(v)) => {
                let ghost before = package_views(out@);
                out.push(NuGetPackage { name: from_chars(n.as_slice()), version: from_chars(v.as_slice()) });
                assert(package_views(out@) =~= before.push((n@, v@)));
            },
            _ => {},
        }
        i = i + 1;
    }
    assert(mv.take(mv.len() as int) =~= mv);
    out
}

/// `prefix` + `m` as a `String`.
fn prefixed(prefix: &str, m: &str) -> (r: String)
    ensures
        r@ == prefix@ + m@,
{
    let mut v = to_chars(prefix);
    extend_str(&mut v, m);
    from_chars(v.as_slice())
}

/// The packages a project file references directly, in order.
pub fn package_references(content: &str) -> (r: Result<Vec<NuGetPackage>, String>)
    ensures
        match compile_failure("Failed to compile regex: "@, package_reference_pattern()) {
            Some(e) => r matches Err(m) && m@ == e,
            None => r matches Ok(v) && package_views(v@) == group_pairs(
                regex_captures_iter(package_reference_pattern(), content@),
            ),
        },
{
    match regex_all(r#"<PackageReference\s+Include="([^"]+)"\s+Version="([^"]+)"\s*/?>"#, content) {
        Err(e) => Err(prefixed("Failed to compile regex: ", e.as_str())),
        Ok(ms) => Ok(packages_from(&ms)),
    }
}

/// A relative path with Windows separators turned into `/`.
pub open spec fn normalized_path(p: Seq<char>) -> Seq<char> {
    replace(p, "\\"@, "/"@)
}

/// The paths of group 1 of each match, normalized.
pub open spec fn group_paths(ms: Seq<Groups>) -> Seq<Seq<char>>
    decreases ms.len(),
{
    if ms.len() == 0 {
        Seq::empty()
    } else {
        let rest = group_paths(ms.drop_last());
        match group(ms.last(), 1) {
            Some(p) => rest.push(normalized_path(p)),
            None => rest,
        }
    }
}

/// The views of a list of strings.
pub open spec fn text_views(v: Seq<String>) -> Seq<Seq<char>> {
    v.map_values(|s: String| s@)
}

/// The normalized paths of group 1 of each match (see `group_paths`).
pub fn paths_from(ms: &Vec<Vec<Option<String>>>) -> (r: Vec<String>)
    ensures
        text_views(r@) == group_paths(matches_view(ms@)),
{
    let ghost mv = matches_view(ms@);
    let mut out: Vec<String> = Vec::new();
    let mut i: usize = 0;
    while i < ms.len()
        invariant
            i <= ms@.len(),
            mv == matches_view(ms@),
            text_views(out@) == group_paths(mv.take(i as int)),
        decreases ms@.len() - i,
    {
        assert(mv.take(i + 1).drop_last() =~= mv.take(i as int));
        assert(mv[i as int] == groups_view(ms@[i as int]));
        match group_exec(&ms[i], 1) {
            Some(p) => {
                proof {
                    reveal_strlit("\\");
                }
                let n = replace_exec(p.as_slice(), "\\", "/");
                let ghost before = text_views(out@);
                out.push(from_chars(n.as_slice()));
                assert(text_views(out@) =~= before.push(n@));
            },
            None => {},
        }
        i = i + 1;
    }
    assert(mv.take(mv.len() as int) =~= mv);
    out
}

/// The projects a project file references, as paths relative to it with
/// `/` separators.
pub fn project_references(content: &str) -> (r: Result<Vec<String>, String>)
    ensures
        match compile_failure("Failed to compile regex: "@, project_reference_pattern()) {
            Some(e) => r matches Err(m) && m@ == e,
            None => r matches Ok(v) && text_views(v@) == group_paths(
                regex_captures_iter(project_reference_pattern(), content@),
            ),
        },
{
    match regex_all(r#"<ProjectReference\s+Include="([^"]+)"\s*/?>"#, content) {
        Err(e) => Err(prefixed("Failed to compile regex: ", e.as_str())),
        Ok(ms) => Ok(paths_from(&ms)),
    }
}

/// The projects of a `.slnx` solution, as paths relative to it with `/`
/// separators.
pub fn solution_projects(content: &str) -> (r: Result<Vec<String>, String>)
    ensures
        match compile_failure("Failed to compile regex: "@, solution_project_pattern()) {
            Some(e) => r matches Err(m) && m@ == e,
            None => r matches Ok(v) && text_views(v@) == group_paths(
                regex_captures_iter(solution_project_pattern(), content@),
            ),
        },
{
    match regex_all(r#"<Project\s+Path="([^"]+)""#, content) {
        Err(e) => Err(prefixed("Failed to compile regex: ", e.as_str())),
        Ok(ms) => Ok(paths_from(&ms)),
    }
}

/// The packages `dotnet list package --include-transitive` prints, in order.
pub fn parse_dotnet_list_output(output: &str) -> (r: Result<Vec<(String, String)>, String>)
    ensures
        match compile_failure("Failed to compile regex: "@, dotnet_list_pattern()) {
            Some(e) => r matches Err(m) && m@ == e,
            None => r matches Ok(v) && dep_views(v@) == group_pairs(
                regex_captures_iter(dotnet_list_pattern(), output@),
            ),
        },
{
    match regex_all(r">\s+(\S+)\s+(\S+)", output) {
        Err(e) => Err(prefixed("Failed to compile regex: ", e.as_str())),
        Ok(ms) => {
            let pkgs = packages_from(&ms);
            Ok(package_pairs(pkgs))
        },
    }
}

/// Name and version pairs of packages.
pub fn package_pairs(pkgs: Vec<NuGetPackage>) -> (r: Vec<(String, String)>)
    ensures
        dep_views(r@) == package_views(pkgs@),
{
    let mut out: Vec<(String, String)> = Vec::new();
    let mut i: usize = 0;
    while i < pkgs.len()
        invariant
            i <= pkgs@.len(),
            dep_views(out@) == package_views(pkgs@).take(i as int),
        decreases pkgs@.len() - i,
    {
        let ghost before = dep_views(out@);
        out.push((owned(pkgs[i].name.as_str()), owned(pkgs[i].version.as_str())));
        assert(dep_views(out@) =~= before.push((pkgs@[i as int].name@, pkgs@[i as int].version@)));
        assert(package_views(pkgs@).take(i + 1) =~= package_views(pkgs@).take(i as int).push(
            (pkgs@[i as int].name@, pkgs@[i as int].version@),
        ));
        i = i + 1;
    }
    assert(package_views(pkgs@).take(pkgs@.len() as int) =~= package_views(pkgs@));
    out
}

/// Whether a list of packages holds `name` at `version`.
pub open spec fn has_package(seen: Seq<(Seq<char>, Seq<char>)>, p: (Seq<char>, Seq<char>)) -> bool {
    seen.contains(p)
}

/// `all` followed by the packages of `more` not yet in it, each once, in
/// order.
pub open spec fn merged(all: Seq<(Seq<char>, Seq<char>)>, more: Seq<(Seq<char>, Seq<char>)>) -> Seq<(Seq<char>, Seq<char>)>
    decreases more.len(),
{
    if more.len() == 0 {
        all
    } else {
        let m = merged(all, more.drop_last());
        if m.contains(more.last()) {
            m
        } else {
            m.push(more.last())
        }
    }
}

/// Adds to `all` the packages of `more` that it does not hold yet (same
/// name and version), in order.
pub fn merge_packages(all: &mut Vec<NuGetPackage>, more: Vec<NuGetPackage>)
    ensures
        package_views(final(all)@) == merged(package_views(old(all)@), package_views(more@)),
{
    let ghost start = package_views(all@);
    let ghost mv = package_views(more@);
    let n = more.len();
    let mut k: usize = 0;
    for p in it: more.into_iter()
        invariant
            mv == it.seq().map_values(|p: NuGetPackage| (p.name@, p.version@)),
            mv.len() == n,
            k == it.index(),
            start == package_views(old(all)@),
            package_views(all@) == merged(start, mv.take(k as int)),
    {
        assert(k < n);
        assert(mv.take(k + 1).drop_last() =~= mv.take(k as int));
        assert(mv[k as int] == (p.name@, p.version@));
        let nc = to_chars(p.name.as_str());
        let vc = to_chars(p.version.as_str());
        let mut found = false;
        let mut j: usize = 0;
        while j < all.len()
            invariant
                j <= all@.len(),
                nc@ == p.name@,
                vc@ == p.version@,
                !found ==> forall|q: int| 0 <= q < j ==> #[trigger] package_views(all@)[q] != (p.name@, p.version@),
                found ==> package_views(all@).contains((p.name@, p.version@)),
            decreases all@.len() - j,
        {
            if eq_str(nc.as_slice(), all[j].name.as_str()) && eq_str(vc.as_slice(), all[j].version.as_str()) {
                assert(package_views(all@)[j as int] == (p.name@, p.version@));
                found = true;
            }
            j = j + 1;
        }
        if !found {
            let ghost before = package_views(all@);
            let ghost pv = (p.name@, p.version@);
            all.push(p);
            assert(package_views(all@) =~= before.push(pv));
        }
        k = k + 1;
    }
    assert(mv.take(mv.len() as int) =~= mv);
}

/// A `license` element of a `.nuspec` manifest.
pub open spec fn nuspec_license_pattern() -> Seq<char> {
    r"<license[^>]*>([^<]+)</license>"@
}

/// A `licenseUrl` element of a `.nuspec` manifest.
pub open spec fn nuspec_license_url_pattern() -> Seq<char> {
    r#"<licenseUrl>([^<]+)</licenseUrl>"#@
}

/// The license a license URL points to: MIT, Apache-2.0, BSD or GPL when
/// the URL mentions one (in that order), else the URL itself.
pub open spec fn license_of_url(url: Seq<char>) -> Seq<char> {
    if contains(url, "MIT"@) {
        "MIT"@
    } else if contains(url, "Apache"@) {
        "Apache-2.0"@
    } else if contains(url, "BSD"@) {
        "BSD"@
    } else if contains(url, "GPL"@) {
        "GPL"@
    } else {
        url
    }
}

/// The license a `.nuspec` manifest declares, from the first match of the
/// `license` pattern and of the `licenseUrl` pattern (`None` where a pattern
/// did not compile): the trimmed `license` element, else the license of the
/// trimmed `licenseUrl`, else nothing.
pub open spec fn nuspec_license(license: Option<Option<Groups>>, url: Option<Option<Groups>>) -> Option<Seq<char>> {
    match license {
        Some(Some(g)) if group(g, 1) is Some => Some(trim(group(g, 1)->0)),
        _ => match url {
            Some(Some(g)) if group(g, 1) is Some => Some(license_of_url(trim(group(g, 1)->0))),
            _ => None,
        },
    }
}

/// The first match of a pattern, or `None` where the pattern did not
/// compile.
pub open spec fn first_match(pattern: Seq<char>, text: Seq<char>) -> Option<Option<Groups>> {
    if regex_compile_error(pattern) is Some {
        None
    } else {
        Some(regex_captures(pattern, text))
    }
}

/// The license of a license URL (see `license_of_url`).
fn license_of_url_exec(url: &[char]) -> (r: String)
    ensures
        r@ == license_of_url(url@),
{
    if contains_str(url, "MIT") {
        owned("MIT")
    } else if contains_str(url, "Apache") {
        owned("Apache-2.0")
    } else if contains_str(url, "BSD") {
        owned("BSD")
    } else if contains_str(url, "GPL") {
        owned("GPL")
    } else {
        from_chars(url)
    }
}

/// The license a `.nuspec` manifest declares (see `nuspec_license`); fails
/// when it declares none.
pub fn parse_license_from_nuspec(content: &str) -> (r: Result<String, String>)
    ensures
        match nuspec_license(
            first_match(nuspec_license_pattern(), content@),
            first_match(nuspec_license_url_pattern(), content@),
        ) {
            Some(l) => r matches Ok(s) && s@ == l,
            None => r matches Err(e) && e@ == "No license found in nuspec"@,
        },
{
    match regex_first(r"<license[^>]*>([^<]+)</license>", content) {
        Ok(Some(g)) => match group_exec(&g, 1) {
            Some(t) => {
                let tt = trimmed(t.as_slice());
                return Ok(from_chars(tt.as_slice()));
            },
            None => {},
        },
        _ => {},
    }
    match regex_first(r#"<licenseUrl>([^<]+)</licenseUrl>"#, content) {
        Ok(Some(g)) => match group_exec(&g, 1) {
            Some(u) => {
                let tu = trimmed(u.as_slice());
                return Ok(license_of_url_exec(tu.as_slice()));
            },
            None => {},
        },
        _ => {},
    }
    Err(owned("No license found in nuspec"))
}

/// What kind of .NET file a project path names, by its extension.
#[derive(Debug, Clone, PartialEq, Eq)]
pub enum ProjectFileKind {
    /// A `.slnx` solution.
    Solution,
    /// A `.csproj`, `.fsproj` or `.vbproj` project.
    Project,
    /// Another extension, which is not supported.
    Unsupported(String),
    /// No extension: look for a `packages.lock.json` beside it.
    NoExtension,
}

/// The kind of a .NET file with the given extension.
pub open spec fn file_kind_ok(ext: Option<Seq<char>>, k: ProjectFileKind) -> bool {
    match ext {
        Some(e) => if e == "slnx"@ {
            k == ProjectFileKind::Solution
        } else if e == "csproj"@ || e == "fsproj"@ || e == "vbproj"@ {
            k == ProjectFileKind::Project
        } else {
            k matches ProjectFileKind::Unsupported(x) && x@ == e
        },
        None => k == ProjectFileKind::NoExtension,
    }
}

/// The kind of a .NET file with the given extension (see `file_kind_ok`).
pub fn project_file_kind(extension: Option<&str>) -> (k: ProjectFileKind)
    ensures
        file_kind_ok(opt_str(extension), k),
{
    match extension {
        Some(e) => {
            let ec = to_chars(e);
            if eq_str(ec.as_slice(), "slnx") {
                ProjectFileKind::Solution
            } else if eq_str(ec.as_slice(), "csproj") || eq_str(ec.as_slice(), "fsproj") || eq_str(
                ec.as_slice(),
                "vbproj",
            ) {
                ProjectFileKind::Project
            } else {
                ProjectFileKind::Unsupported(owned(e))
            }
        },
        None => ProjectFileKind::NoExtension,
    }
}

/// The error for an unsupported .NET file extension.
pub fn unsupported_file_error(extension: &str) -> (r: String)
    ensures
        r@ == "Unsupported .NET file type: "@ + extension@,
{
    prefixed("Unsupported .NET file type: ", extension)
}

/// The dependencies of a .NET project: the direct packages when no deeper
/// resolution is asked for (depth 0) or when `dotnet list` could not list
/// them, else the packages it listed.
pub fn resolve_dotnet_dependencies(
    direct_deps: &Vec<NuGetPackage>,
    max_depth: u32,
    listed: Option<Vec<(String, String)>>,
) -> (r: Vec<(String, String)>)
    ensures
        max_depth == 0 ==> dep_views(r@) == package_views(direct_deps@),
        max_depth != 0 ==> match listed {
            Some(l) => r@ == l@,
            None => dep_views(r@) == package_views(direct_deps@),
        },
{
    if max_depth != 0 {
        match listed {
            Some(l) => {
                return l;
            },
            None => {},
        }
    }
    let mut out: Vec<(String, String)> = Vec::new();
    let mut i: usize = 0;
    while i < direct_deps.len()
        invariant
            i <= direct_deps@.len(),
            dep_views(out@) == package_views(direct_deps@).take(i as int),
        decreases direct_deps@.len() - i,
    {
        let ghost before = dep_views(out@);
        out.push((owned(direct_deps[i].name.as_str()), owned(direct_deps[i].version.as_str())));
        assert(dep_views(out@) =~= before.push((direct_deps@[i as int].name@, direct_deps@[i as int].version@)));
        assert(package_views(direct_deps@).take(i + 1) =~= package_views(direct_deps@).take(i as int).push(
            (direct_deps@[i as int].name@, direct_deps@[i as int].version@),
        ));
        i = i + 1;
    }
    assert(package_views(direct_deps@).take(direct_deps@.len() as int) =~= package_views(direct_deps@));
    out
}

/// An extension that names no .NET project file: neither `slnx` nor
/// `csproj`, `fsproj` or `vbproj` (a missing extension is accepted).
pub open spec fn unsupported_extension(ext: Option<Seq<char>>) -> bool {
    match ext {
        Some(e) => e != "slnx"@ && e != "csproj"@ && e != "fsproj"@ && e != "vbproj"@,
        None => false,
    }
}

/// Whether a file with this extension is read as a .NET project (see
/// `unsupported_extension`).
pub fn dotnet_file_supported(extension: Option<&str>) -> (r: bool)
    ensures
        r == !unsupported_extension(opt_str(extension)),
{
    match project_file_kind(extension) {
        ProjectFileKind::Unsupported(_) => false,
        _ => true,
    }
}

/// The license information of a .NET project file with the given
/// extension, given the packages resolved from it (each with the license
/// found for it, see `describes`). A file whose extension names no .NET
/// project is rejected: it gives no dependency, whatever was passed.
pub fn analyze_dotnet_licenses(
    extension: Option<&str>,
    dependencies: Vec<(String, String, String)>,
    known_licenses: &Vec<(String, License)>,
    osi_licenses: &Vec<(String, OsiStatus)>,
    config: &FeludaConfig,
) -> (r: Vec<LicenseInfo>)
    ensures
        unsupported_extension(opt_str(extension)) ==> r@.len() == 0,
        !unsupported_extension(opt_str(extension)) ==> r@.len() == dependencies@.len() && forall|k: int|
            0 <= k < dependencies@.len() ==> describes(
                #[trigger] r@[k],
                triple_views(dependencies@)[k],
                known_licenses@,
                osi_licenses@,
                *config,
            ),
{
    if !dotnet_file_supported(extension) {
        return Vec::new();
    }
    dependency_licenses(dependencies, known_licenses, osi_licenses, config)
}

} // verus!
