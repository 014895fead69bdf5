//! What a license report shows: which dependencies it lists, in which
//! form, which problems it signals, and the text of the CI formats.

use vstd::prelude::*;

use colored::Colorize;

use crate::config::{utf8_len, utf8_len_exec};
use crate::licenses::{
    LicenseCompatibility, LicenseInfo, OsiStatus, compatibility_of, compatibility_text,
    is_license_compatible, license_text, osi_text,
};
use crate::lists::{
    count, keep, lemma_keep_complete, lemma_keep_idempotent, lemma_keep_push, lemma_keep_sound,
    lemma_masked_keep, select,
};
use crate::order::{lemma_ascending_unique, lemma_lt_asymmetric, lemma_lt_irreflexive, lemma_lt_total, lemma_lt_transitive, lt_str, str_lt};
use crate::text::{
    contains, decimal, decimal_exec, eq_str, extend, extend_str, from_chars, join, join_exec, owned, seqs, to_chars,
};

verus! {

/// Which OSI status a report is restricted to.
#[derive(Debug, Clone, Copy, PartialEq, Eq, Structural)]
pub enum OsiFilter {
    Approved,
    NotApproved,
    Unknown,
}

/// The continuous-integration output formats.
#[derive(Debug, Clone, Copy, PartialEq, Eq, Structural)]
pub enum CiFormat {
    Github,
    Jenkins,
}

/// How a report is produced.
#[derive(Debug)]
pub struct ReportConfig {
    pub json: bool,
    pub yaml: bool,
    pub verbose: bool,
    pub restrictive: bool,
    pub incompatible: bool,
    pub ci_format: Option<CiFormat>,
    pub output_file: Option<String>,
    pub project_license: Option<String>,
    pub gist: bool,
    pub osi: Option<OsiFilter>,
}

impl ReportConfig {
    /// A report configuration from its settings.
    #[allow(clippy::too_many_arguments)]
    pub fn new(
        json: bool,
        yaml: bool,
        verbose: bool,
        restrictive: bool,
        incompatible: bool,
        ci_format: Option<CiFormat>,
        output_file: Option<String>,
        project_license: Option<String>,
        gist: bool,
        osi: Option<OsiFilter>,
    ) -> (r: Self)
        ensures
            r.json == json,
            r.yaml == yaml,
            r.verbose == verbose,
            r.restrictive == restrictive,
            r.incompatible == incompatible,
            r.ci_format == ci_format,
            r.output_file == output_file,
            r.project_license == project_license,
            r.gist == gist,
            r.osi == osi,
    {
        ReportConfig {
            json,
            yaml,
            verbose,
            restrictive,
            incompatible,
            ci_format,
            output_file,
            project_license,
            gist,
            osi,
        }
    }
}

/// Whether a dependency's license is incompatible with the project license.
pub open spec fn incompatible(i: LicenseInfo) -> bool {
    i.compatibility == LicenseCompatibility::Incompatible
}

/// Whether a dependency is one that a restrictive and/or incompatible view
/// lists.
pub open spec fn flagged(i: LicenseInfo, restrictive: bool, incompatible_only: bool) -> bool {
    (restrictive && i.is_restrictive) || (incompatible_only && incompatible(i))
}

/// Whether a dependency's OSI status is the one a filter asks for.
pub open spec fn osi_kept(i: LicenseInfo, f: OsiFilter) -> bool {
    match f {
        OsiFilter::Approved => i.osi_status == OsiStatus::Approved,
        OsiFilter::NotApproved => i.osi_status == OsiStatus::NotApproved,
        OsiFilter::Unknown => i.osi_status == OsiStatus::Unknown,
    }
}

/// The predicate of `flagged`.
pub open spec fn flag_pred(restrictive: bool, incompatible_only: bool) -> spec_fn(LicenseInfo) -> bool {
    |i: LicenseInfo| flagged(i, restrictive, incompatible_only)
}

/// The predicate of `osi_kept`.
pub open spec fn osi_pred(f: OsiFilter) -> spec_fn(LicenseInfo) -> bool {
    |i: LicenseInfo| osi_kept(i, f)
}

/// Restrictive dependencies.
pub open spec fn restrictive_pred() -> spec_fn(LicenseInfo) -> bool {
    |i: LicenseInfo| i.is_restrictive
}

/// Dependencies with a given compatibility.
pub open spec fn compat_pred(c: LicenseCompatibility) -> spec_fn(LicenseInfo) -> bool {
    |i: LicenseInfo| i.compatibility == c
}

/// The dependencies a report lists: with `restrictive` and/or
/// `incompatible`, only those flagged so; then, with an OSI filter, only
/// those of that OSI status; in their original order.
pub open spec fn report_rows(
    s: Seq<LicenseInfo>,
    restrictive: bool,
    incompatible_only: bool,
    osi: Option<OsiFilter>,
) -> Seq<LicenseInfo> {
    let a = if restrictive || incompatible_only {
        keep(s, flag_pred(restrictive, incompatible_only))
    } else {
        s
    };
    match osi {
        Some(f) => keep(a, osi_pred(f)),
        None => a,
    }
}

/// Whether some dependency is restrictive.
pub open spec fn any_restrictive(s: Seq<LicenseInfo>) -> bool {
    exists|k: int| 0 <= k < s.len() && #[trigger] s[k].is_restrictive
}

/// Whether some dependency is incompatible with the project license.
pub open spec fn any_incompatible(s: Seq<LicenseInfo>) -> bool {
    exists|k: int| 0 <= k < s.len() && incompatible(#[trigger] s[k])
}

/// The dependencies of `data` that satisfy `p`, moved out in order.
fn retain_where(data: Vec<LicenseInfo>, Ghost(p): Ghost<spec_fn(LicenseInfo) -> bool>, mask: Vec<bool>) -> (r: Vec<LicenseInfo>)
    requires
        mask@.len() == data@.len(),
        forall|i: int| 0 <= i < data@.len() ==> mask@[i] == p(#[trigger] data@[i]),
    ensures
        r@ == keep(data@, p),
{
    proof {
        lemma_masked_keep(data@, mask@, p);
    }
    select(data, &mask)
}

/// The flags of `flagged` over a list of dependencies.
fn flag_mask(data: &Vec<LicenseInfo>, restrictive: bool, incompatible_only: bool) -> (m: Vec<bool>)
    ensures
        m@.len() == data@.len(),
        forall|i: int| 0 <= i < data@.len() ==> m@[i] == flagged(#[trigger] data@[i], restrictive, incompatible_only),
{
    let mut m: Vec<bool> = Vec::new();
    let mut i: usize = 0;
    while i < data.len()
        invariant
            i <= data@.len(),
            m@.len() == i,
            forall|k: int| 0 <= k < i ==> m@[k] == flagged(#[trigger] data@[k], restrictive, incompatible_only),
        decreases data@.len() - i,
    {
        let d = &data[i];
        let b = (restrictive && d.is_restrictive) || (incompatible_only && match d.compatibility {
            LicenseCompatibility::Incompatible => true,
            _ => false,
        });
        m.push(b);
        i = i + 1;
    }
    m
}

/// The flags of `osi_kept` over a list of dependencies.
fn osi_mask(data: &Vec<LicenseInfo>, f: OsiFilter) -> (m: Vec<bool>)
    ensures
        m@.len() == data@.len(),
        forall|i: int| 0 <= i < data@.len() ==> m@[i] == osi_kept(#[trigger] data@[i], f),
{
    let mut m: Vec<bool> = Vec::new();
    let mut i: usize = 0;
    while i < data.len()
        invariant
            i <= data@.len(),
            m@.len() == i,
            forall|k: int| 0 <= k < i ==> m@[k] == osi_kept(#[trigger] data@[k], f),
        decreases data@.len() - i,
    {
        let b = match (f, data[i].osi_status) {
            (OsiFilter::Approved, OsiStatus::Approved) => true,
            (OsiFilter::NotApproved, OsiStatus::NotApproved) => true,
            (OsiFilter::Unknown, OsiStatus::Unknown) => true,
            _ => false,
        };
        m.push(b);
        i = i + 1;
    }
    m
}

/// The dependencies a report lists (see `report_rows`).
pub fn filter_report_data(
    data: Vec<LicenseInfo>,
    restrictive: bool,
    incompatible_only: bool,
    osi: Option<OsiFilter>,
) -> (r: Vec<LicenseInfo>)
    ensures
        r@ == report_rows(data@, restrictive, incompatible_only, osi),
{
    let a = if restrictive || incompatible_only {
        let m = flag_mask(&data, restrictive, incompatible_only);
        retain_where(data, Ghost(flag_pred(restrictive, incompatible_only)), m)
    } else {
        data
    };
    match osi {
        Some(f) => {
            let m = osi_mask(&a, f);
            retain_where(a, Ghost(osi_pred(f)), m)
        },
        None => a,
    }
}

/// Whether some dependency is restrictive.
pub fn has_restrictive(data: &Vec<LicenseInfo>) -> (r: bool)
    ensures
        r == any_restrictive(data@),
{
    let mut i: usize = 0;
    while i < data.len()
        invariant
            i <= data@.len(),
            forall|k: int| 0 <= k < i ==> !(#[trigger] data@[k]).is_restrictive,
        decreases data@.len() - i,
    {
        if data[i].is_restrictive {
            return true;
        }
        i = i + 1;
    }
    false
}

/// Whether some dependency is incompatible with the project license.
pub fn has_incompatible(data: &Vec<LicenseInfo>) -> (r: bool)
    ensures
        r == any_incompatible(data@),
{
    let mut i: usize = 0;
    while i < data.len()
        invariant
            i <= data@.len(),
            forall|k: int| 0 <= k < i ==> !incompatible(#[trigger] data@[k]),
        decreases data@.len() - i,
    {
        match data[i].compatibility {
            LicenseCompatibility::Incompatible => {
                return true;
            },
            _ => {},
        }
        i = i + 1;
    }
    false
}

/// The number of restrictive dependencies.
pub fn count_restrictive(data: &Vec<LicenseInfo>) -> (r: usize)
    ensures
        r == count(data@, restrictive_pred()),
{
    let mut n: usize = 0;
    let mut i: usize = 0;
    while i < data.len()
        invariant
            i <= data@.len(),
            n == count(data@.take(i as int), restrictive_pred()),
            n <= i,
        decreases data@.len() - i,
    {
        proof {
            lemma_keep_push(data@, i as int, restrictive_pred());
        }
        if data[i].is_restrictive {
            n = n + 1;
        }
        i = i + 1;
    }
    assert(data@.take(data@.len() as int) =~= data@);
    n
}

/// The number of dependencies with a given compatibility.
pub fn count_compatibility(data: &Vec<LicenseInfo>, c: LicenseCompatibility) -> (r: usize)
    ensures
        r == count(data@, compat_pred(c)),
{
    let mut n: usize = 0;
    let mut i: usize = 0;
    while i < data.len()
        invariant
            i <= data@.len(),
            n == count(data@.take(i as int), compat_pred(c)),
            n <= i,
        decreases data@.len() - i,
    {
        proof {
            lemma_keep_push(data@, i as int, compat_pred(c));
        }
        if data[i].compatibility == c {
            n = n + 1;
        }
        i = i + 1;
    }
    assert(data@.take(data@.len() as int) =~= data@);
    n
}

/// The form in which a report is shown.
#[derive(Debug, Clone, Copy, PartialEq, Eq, Structural)]
pub enum ReportView {
    /// The one-screen summary of the whole analysis.
    Gist,
    /// Nothing to list: every dependency passed.
    AllPassed,
    /// GitHub Actions workflow commands.
    Github,
    /// A JUnit XML document for Jenkins.
    Jenkins,
    Json,
    Yaml,
    /// A table of every listed dependency.
    Verbose,
    /// A summary table by license.
    Summary,
}

/// A report ready to be shown: its form, the dependencies it lists and the
/// problems it signals.
#[derive(Debug)]
pub struct ReportPlan {
    pub view: ReportView,
    pub rows: Vec<LicenseInfo>,
    pub has_restrictive: bool,
    pub has_incompatible: bool,
}

/// The form of a report with rows to show: a CI format first, then JSON,
/// YAML, the verbose table and the summary table.
pub open spec fn chosen_view(c: ReportConfig) -> ReportView {
    match c.ci_format {
        Some(CiFormat::Github) => ReportView::Github,
        Some(CiFormat::Jenkins) => ReportView::Jenkins,
        None => if c.json {
            ReportView::Json
        } else if c.yaml {
            ReportView::Yaml
        } else if c.verbose {
            ReportView::Verbose
        } else {
            ReportView::Summary
        },
    }
}

/// Decides what a report shows. A gist shows every dependency and signals
/// the problems found among them. Otherwise the listed dependencies are
/// those of `report_rows`; when there are none, every dependency passed and
/// no problem is signalled; when there are some, they are shown in the
/// chosen form and the problems found among all dependencies are signalled.
pub fn plan_report(data: Vec<LicenseInfo>, config: &ReportConfig) -> (p: ReportPlan)
    ensures
        p.has_restrictive == (any_restrictive(data@) && (config.gist || p.rows@.len() > 0)),
        p.has_incompatible == (any_incompatible(data@) && (config.gist || p.rows@.len() > 0)),
        config.gist ==> p.view == ReportView::Gist && p.rows@ == data@,
        !config.gist ==> p.rows@ == report_rows(
            data@,
            config.restrictive,
            config.incompatible,
            config.osi,
        ),
        !config.gist && p.rows@.len() == 0 ==> p.view == ReportView::AllPassed,
        !config.gist && p.rows@.len() > 0 ==> p.view == chosen_view(*config),
{
    let hr = has_restrictive(&data);
    let hi = has_incompatible(&data);
    if config.gist {
        return ReportPlan { view: ReportView::Gist, rows: data, has_restrictive: hr, has_incompatible: hi };
    }
    let rows = filter_report_data(data, config.restrictive, config.incompatible, config.osi);
    if rows.len() == 0 {
        return ReportPlan { view: ReportView::AllPassed, rows, has_restrictive: false, has_incompatible: false };
    }
    let view = match config.ci_format {
        Some(CiFormat::Github) => ReportView::Github,
        Some(CiFormat::Jenkins) => ReportView::Jenkins,
        None => if config.json {
            ReportView::Json
        } else if config.yaml {
            ReportView::Yaml
        } else if config.verbose {
            ReportView::Verbose
        } else {
            ReportView::Summary
        },
    };
    ReportPlan { view, rows, has_restrictive: hr, has_incompatible: hi }
}

/// The text of `Some` project license, for specifications.
pub open spec fn project_text(p: Option<String>) -> Option<Seq<char>> {
    match p {
        Some(s) => Some(s@),
        None => None,
    }
}

/// `name@version` of a dependency.
pub open spec fn name_at_version(i: LicenseInfo) -> Seq<char> {
    i.name@ + "@"@ + i.version@
}

/// The GitHub Actions commands for one dependency: a warning when its
/// license is restrictive, and, with a project license, an error when it is
/// incompatible.
pub open spec fn github_entry(i: LicenseInfo, project: Option<Seq<char>>) -> Seq<char> {
    let warning = if i.is_restrictive {
        "::warning title=Restrictive License::Dependency '"@ + name_at_version(i)
            + "' has restrictive license: "@ + license_text(i.license) + "\n"@
    } else {
        Seq::empty()
    };
    let error = match project {
        Some(p) => if incompatible(i) {
            "::error title=Incompatible License::Dependency '"@ + name_at_version(i)
                + "' has license "@ + license_text(i.license)
                + " which may be incompatible with project license "@ + p + "\n"@
        } else {
            Seq::empty()
        },
        None => Seq::empty(),
    };
    warning + error
}

/// The GitHub Actions commands for a list of dependencies, in order.
pub open spec fn github_entries(s: Seq<LicenseInfo>, project: Option<Seq<char>>) -> Seq<char>
    decreases s.len(),
{
    if s.len() == 0 {
        Seq::empty()
    } else {
        github_entries(s.drop_last(), project) + github_entry(s.last(), project)
    }
}

/// The number of incompatible dependencies a CI report counts: none without
/// a project license.
pub open spec fn ci_incompatible_count(s: Seq<LicenseInfo>, project: Option<Seq<char>>) -> nat {
    if project is Some {
        count(s, compat_pred(LicenseCompatibility::Incompatible))
    } else {
        0
    }
}

/// The GitHub Actions output of a report: a notice naming the project
/// license, the commands of every dependency, and a summary notice.
pub open spec fn github_text(s: Seq<LicenseInfo>, project: Option<Seq<char>>) -> Seq<char> {
    let head = match project {
        Some(p) => "::notice title=Project License::Project is using "@ + p + " license\n"@,
        None => Seq::empty(),
    };
    let rc = count(s, restrictive_pred());
    let summary = match project {
        Some(p) => "::notice title=License Check Summary::Found "@ + decimal(rc)
            + " dependencies with restrictive licenses and "@ + decimal(
            ci_incompatible_count(s, project),
        ) + " dependencies with incompatible licenses out of "@ + decimal(s.len()) + " total\n"@,
        None => "::notice title=License Check Summary::Found "@ + decimal(rc)
            + " dependencies with restrictive licenses out of "@ + decimal(s.len())
            + " total\n"@,
    };
    head + github_entries(s, project) + summary
}

/// The text of an optional project license.
fn project_chars(project_license: Option<&str>) -> (r: Option<Vec<char>>)
    ensures
        match project_license {
            Some(p) => r matches Some(v) && v@ == p@,
            None => r is None,
        },
{
    match project_license {
        Some(p) => Some(to_chars(p)),
        None => None,
    }
}

/// The view of an optional `&str`.
pub open spec fn opt_view(p: Option<&str>) -> Option<Seq<char>> {
    match p {
        Some(s) => Some(s@),
        None => None,
    }
}

/// Appends `name@version` of a dependency.
fn push_name_at_version(out: &mut Vec<char>, i: &LicenseInfo)
    ensures
        final(out)@ == old(out)@ + name_at_version(*i),
{
    extend_str(out, i.name.as_str());
    extend_str(out, "@");
    extend_str(out, i.version.as_str());
}

/// The GitHub Actions commands of one dependency.
fn github_entry_exec(i: &LicenseInfo, project: &Option<Vec<char>>) -> (r: Vec<char>)
    ensures
        r@ == github_entry(*i, match project { Some(v) => Some(v@), None => None }),
{
    let mut out: Vec<char> = Vec::new();
    let lic = i.get_license();
    if i.is_restrictive {
        extend_str(&mut out, "::warning title=Restrictive License::Dependency '");
        push_name_at_version(&mut out, i);
        extend_str(&mut out, "' has restrictive license: ");
        extend_str(&mut out, lic.as_str());
        extend_str(&mut out, "\n");
    }
    let ghost w = out@;
    match project {
        Some(p) => {
            match i.compatibility {
                LicenseCompatibility::Incompatible => {
                    extend_str(&mut out, "::error title=Incompatible License::Dependency '");
                    push_name_at_version(&mut out, i);
                    extend_str(&mut out, "' has license ");
                    extend_str(&mut out, lic.as_str());
                    extend_str(&mut out, " which may be incompatible with project license ");
                    extend(&mut out, p.as_slice());
                    extend_str(&mut out, "\n");
                },
                _ => {},
            }
        },
        None => {},
    }
    proof {
        let pv = match project { Some(v) => Some(v@), None => None };
        let warning = if i.is_restrictive {
            "::warning title=Restrictive License::Dependency '"@ + name_at_version(*i)
                + "' has restrictive license: "@ + license_text(i.license) + "\n"@
        } else {
            Seq::empty()
        };
        assert(w =~= warning);
        let e = out@.subrange(w.len() as int, out@.len() as int);
        assert(out@ =~= w + e);
    }
    out
}

/// The GitHub Actions output of a report (see `github_text`).
pub fn github_output(license_info: &Vec<LicenseInfo>, project_license: Option<&str>) -> (r: String)
    ensures
        r@ == github_text(license_info@, opt_view(project_license)),
{
    let project = project_chars(project_license);
    let ghost pv = opt_view(project_license);
    let mut out: Vec<char> = Vec::new();
    match &project {
        Some(p) => {
            extend_str(&mut out, "::notice title=Project License::Project is using ");
            extend(&mut out, p.as_slice());
            extend_str(&mut out, " license\n");
        },
        None => {},
    }
    let ghost head = out@;
    let mut i: usize = 0;
    while i < license_info.len()
        invariant
            i <= license_info@.len(),
            match project { Some(v) => pv == Some(v@), None => pv is None },
            out@ == head + github_entries(license_info@.take(i as int), pv),
        decreases license_info@.len() - i,
    {
        let e = github_entry_exec(&license_info[i], &project);
        extend(&mut out, e.as_slice());
        assert(license_info@.take(i + 1).drop_last() =~= license_info@.take(i as int));
        i = i + 1;
    }
    assert(license_info@.take(license_info@.len() as int) =~= license_info@);
    let rc = count_restrictive(license_info);
    let n = license_info.len();
    extend_str(&mut out, "::notice title=License Check Summary::Found ");
    let rcd = decimal_exec(rc as u128);
    extend(&mut out, rcd.as_slice());
    match &project {
        Some(_) => {
            let ic = count_compatibility(license_info, LicenseCompatibility::Incompatible);
            extend_str(&mut out, " dependencies with restrictive licenses and ");
            let icd = decimal_exec(ic as u128);
            extend(&mut out, icd.as_slice());
            extend_str(&mut out, " dependencies with incompatible licenses out of ");
        },
        None => {
            extend_str(&mut out, " dependencies with restrictive licenses out of ");
        },
    }
    let nd = decimal_exec(n as u128);
    extend(&mut out, nd.as_slice());
    extend_str(&mut out, " total\n");
    proof {
        let summary_tail = out@.subrange((head + github_entries(license_info@, pv)).len() as int, out@.len() as int);
        assert(out@ =~= head + github_entries(license_info@, pv) + summary_tail);
    }
    from_chars(out.as_slice())
}

/// The JUnit failure of a restrictive dependency.
pub open spec fn restrictive_failure(i: LicenseInfo) -> Seq<char> {
    "<failure message=\"Restrictive license found\" type=\"restrictive\">\n            Dependency '"@
        + name_at_version(i) + "' has restrictive license: "@ + license_text(i.license)
        + "\n        </failure>"@
}

/// The JUnit failure of a dependency incompatible with project license `p`.
pub open spec fn incompatible_failure(i: LicenseInfo, p: Seq<char>) -> Seq<char> {
    "<failure message=\"Incompatible license found\" type=\"incompatible\">\n            Dependency '"@
        + name_at_version(i) + "' has license "@ + license_text(i.license)
        + " which may be incompatible with project license "@ + p + "\n        </failure>"@
}

/// The JUnit failures of one dependency.
pub open spec fn jenkins_failures(i: LicenseInfo, project: Option<Seq<char>>) -> Seq<Seq<char>> {
    let r = if i.is_restrictive {
        seq![restrictive_failure(i)]
    } else {
        Seq::empty()
    };
    match project {
        Some(p) => if incompatible(i) {
            r.push(incompatible_failure(i, p))
        } else {
            r
        },
        None => r,
    }
}

/// The JUnit test case of one dependency, named `name-version`.
pub open spec fn jenkins_case(i: LicenseInfo, project: Option<Seq<char>>) -> Seq<char> {
    let name = i.name@ + "-"@ + i.version@;
    let f = jenkins_failures(i, project);
    if f.len() == 0 {
        "    <testcase classname=\"feluda.licenses\" name=\""@ + name + "\" time=\"0\" />"@
    } else {
        "    <testcase classname=\"feluda.licenses\" name=\""@ + name + "\" time=\"0\">\n"@
            + join(f, "\n"@) + "\n    </testcase>"@
    }
}

/// The JUnit test case naming the project license.
pub open spec fn project_case(p: Seq<char>) -> Seq<char> {
    "    <testcase classname=\"feluda.project\" name=\"project_license\" time=\"0\">\n        <system-out>Project is using "@
        + p + " license</system-out>\n    </testcase>"@
}

/// The JUnit test cases of a report: the project license's, then one per
/// dependency in order.
pub open spec fn jenkins_cases(s: Seq<LicenseInfo>, project: Option<Seq<char>>) -> Seq<Seq<char>> {
    let head = match project {
        Some(p) => seq![project_case(p)],
        None => Seq::empty(),
    };
    head + Seq::new(s.len(), |k: int| jenkins_case(s[k], project))
}

/// The Jenkins output of a report: a JUnit XML document whose test count
/// includes the project license's case and whose failure count is the
/// number of restrictive dependencies plus, with a project license, the
/// number of incompatible ones.
pub open spec fn jenkins_text(s: Seq<LicenseInfo>, project: Option<Seq<char>>) -> Seq<char> {
    let tests = s.len() + if project is Some { 1nat } else { 0nat };
    let failures = count(s, restrictive_pred()) + ci_incompatible_count(s, project);
    "<?xml version=\"1.0\" encoding=\"UTF-8\"?>\n<testsuites>\n  <testsuite name=\"Feluda License Check\" tests=\""@
        + decimal(tests) + "\" failures=\""@ + decimal(failures)
        + "\" errors=\"0\" skipped=\"0\">\n"@ + join(jenkins_cases(s, project), "\n"@)
        + "\n  </testsuite>\n</testsuites>"@
}

/// The JUnit test case of one dependency.
fn jenkins_case_exec(i: &LicenseInfo, project: &Option<Vec<char>>) -> (r: Vec<char>)
    ensures
        r@ == jenkins_case(*i, match project { Some(v) => Some(v@), None => None }),
{
    let ghost pv = match project { Some(v) => Some(v@), None => None };
    let lic = i.get_license();
    let mut failures: Vec<Vec<char>> = Vec::new();
    if i.is_restrictive {
        let mut f: Vec<char> = Vec::new();
        extend_str(&mut f, "<failure message=\"Restrictive license found\" type=\"restrictive\">\n            Dependency '");
        push_name_at_version(&mut f, i);
        extend_str(&mut f, "' has restrictive license: ");
        extend_str(&mut f, lic.as_str());
        extend_str(&mut f, "\n        </failure>");
        failures.push(f);
    }
    match project {
        Some(p) => {
            match i.compatibility {
                LicenseCompatibility::Incompatible => {
                    let mut f: Vec<char> = Vec::new();
                    extend_str(&mut f, "<failure message=\"Incompatible license found\" type=\"incompatible\">\n            Dependency '");
                    push_name_at_version(&mut f, i);
                    extend_str(&mut f, "' has license ");
                    extend_str(&mut f, lic.as_str());
                    extend_str(&mut f, " which may be incompatible with project license ");
                    extend(&mut f, p.as_slice());
                    extend_str(&mut f, "\n        </failure>");
                    failures.push(f);
                },
                _ => {},
            }
        },
        None => {},
    }
    assert(seqs(failures@) =~= jenkins_failures(*i, pv));
    let mut out: Vec<char> = Vec::new();
    extend_str(&mut out, "    <testcase classname=\"feluda.licenses\" name=\"");
    extend_str(&mut out, i.name.as_str());
    extend_str(&mut out, "-");
    extend_str(&mut out, i.version.as_str());
    if failures.len() == 0 {
        extend_str(&mut out, "\" time=\"0\" />");
    } else {
        extend_str(&mut out, "\" time=\"0\">\n");
        let body = join_exec(&failures, "\n");
        extend(&mut out, body.as_slice());
        extend_str(&mut out, "\n    </testcase>");
    }
    out
}

/// The Jenkins output of a report (see `jenkins_text`).
pub fn jenkins_output(license_info: &Vec<LicenseInfo>, project_license: Option<&str>) -> (r: String)
    ensures
        r@ == jenkins_text(license_info@, opt_view(project_license)),
{
    let project = project_chars(project_license);
    let ghost pv = opt_view(project_license);
    let mut cases: Vec<Vec<char>> = Vec::new();
    match &project {
        Some(p) => {
            let mut c: Vec<char> = Vec::new();
            extend_str(&mut c, "    <testcase classname=\"feluda.project\" name=\"project_license\" time=\"0\">\n        <system-out>Project is using ");
            extend(&mut c, p.as_slice());
            extend_str(&mut c, " license</system-out>\n    </testcase>");
            cases.push(c);
        },
        None => {},
    }
    let ghost head = seqs(cases@);
    assert(head =~= match pv { Some(p) => seq![project_case(p)], None => Seq::<Seq<char>>::empty() });
    let mut i: usize = 0;
    while i < license_info.len()
        invariant
            i <= license_info@.len(),
            match project { Some(v) => pv == Some(v@), None => pv is None },
            seqs(cases@) =~= head + Seq::new(i as nat, |k: int| jenkins_case(license_info@[k], pv)),
        decreases license_info@.len() - i,
    {
        let c = jenkins_case_exec(&license_info[i], &project);
        let ghost before = seqs(cases@);
        let ghost cv = c@;
        cases.push(c);
        assert(seqs(cases@) =~= before.push(cv));
        assert(Seq::new((i + 1) as nat, |k: int| jenkins_case(license_info@[k], pv)) =~= Seq::new(
            i as nat,
            |k: int| jenkins_case(license_info@[k], pv),
        ).push(jenkins_case(license_info@[i as int], pv)));
        i = i + 1;
    }
    assert(seqs(cases@) =~= jenkins_cases(license_info@, pv));
    let rc = count_restrictive(license_info);
    let ic: usize = match &project {
        Some(_) => count_compatibility(license_info, LicenseCompatibility::Incompatible),
        None => 0,
    };
    let n = license_info.len();
    let tests: u128 = match &project {
        Some(_) => n as u128 + 1,
        None => n as u128,
    };
    let mut out: Vec<char> = Vec::new();
    extend_str(&mut out, "<?xml version=\"1.0\" encoding=\"UTF-8\"?>\n<testsuites>\n  <testsuite name=\"Feluda License Check\" tests=\"");
    let td = decimal_exec(tests);
    extend(&mut out, td.as_slice());
    extend_str(&mut out, "\" failures=\"");
    let fd = decimal_exec(rc as u128 + ic as u128);
    extend(&mut out, fd.as_slice());
    extend_str(&mut out, "\" errors=\"0\" skipped=\"0\">\n");
    let body = join_exec(&cases, "\n");
    extend(&mut out, body.as_slice());
    extend_str(&mut out, "\n  </testsuite>\n</testsuites>");
    from_chars(out.as_slice())
}

/// The compatibility a dependency is given in a check: against a known
/// project license, that of its license under the matrix, or, without a
/// license, `Incompatible` in strict mode and `Unknown` otherwise; without a
/// project license, `Unknown`.
pub open spec fn assessed(
    i: LicenseInfo,
    project: Option<Seq<char>>,
    strict: bool,
    matrix: Seq<(String, Vec<String>)>,
) -> LicenseCompatibility {
    match project {
        Some(p) => match i.license {
            Some(l) => compatibility_of(l@, p, strict, matrix),
            None => if strict {
                LicenseCompatibility::Incompatible
            } else {
                LicenseCompatibility::Unknown
            },
        },
        None => LicenseCompatibility::Unknown,
    }
}

/// Sets the compatibility of every dependency against the project license
/// (see `assessed`); nothing else changes.
pub fn assess_compatibility(
    data: &mut Vec<LicenseInfo>,
    project_license: Option<&str>,
    strict: bool,
    matrix: &Vec<(String, Vec<String>)>,
)
    ensures
        final(data)@.len() == old(data)@.len(),
        forall|k: int|
            0 <= k < old(data)@.len() ==> #[trigger] final(data)@[k] == (LicenseInfo {
                compatibility: assessed(old(data)@[k], opt_view(project_license), strict, matrix@),
                ..old(data)@[k]
            }),
{
    let ghost before = data@;
    let mut i: usize = 0;
    while i < data.len()
        invariant
            i <= data@.len(),
            data@.len() == before.len(),
            forall|k: int|
                0 <= k < i ==> #[trigger] data@[k] == (LicenseInfo {
                    compatibility: assessed(before[k], opt_view(project_license), strict, matrix@),
                    ..before[k]
                }),
            forall|k: int| i <= k < data@.len() ==> #[trigger] data@[k] == before[k],
        decreases data@.len() - i,
    {
        let c = match project_license {
            Some(p) => match &data[i].license {
                Some(l) => is_license_compatible(l.as_str(), p, strict, matrix),
                None => if strict {
                    LicenseCompatibility::Incompatible
                } else {
                    LicenseCompatibility::Unknown
                },
            },
            None => LicenseCompatibility::Unknown,
        };
        data[i].compatibility = c;
        i = i + 1;
    }
}

/// The dependencies the interactive view lists: the restrictive and/or
/// incompatible ones only when a project license is known, then those of
/// the requested OSI status.
pub fn filter_tui_data(
    data: Vec<LicenseInfo>,
    restrictive: bool,
    incompatible_only: bool,
    project_known: bool,
    osi: Option<OsiFilter>,
) -> (r: Vec<LicenseInfo>)
    ensures
        r@ == report_rows(data@, restrictive && project_known, incompatible_only && project_known, osi),
{
    filter_report_data(data, restrictive && project_known, incompatible_only && project_known, osi)
}

/// Whether a check ends with a failure status: when restrictive licenses
/// are to fail it and were found, or incompatible ones are and were found.
pub fn should_fail(
    fail_on_restrictive: bool,
    found_restrictive: bool,
    fail_on_incompatible: bool,
    found_incompatible: bool,
) -> (r: bool)
    ensures
        r == ((fail_on_restrictive && found_restrictive) || (fail_on_incompatible
            && found_incompatible)),
{
    (fail_on_restrictive && found_restrictive) || (fail_on_incompatible && found_incompatible)
}

/// Permissive dependencies whose license text is `key`.
pub open spec fn permissive_with(key: Seq<char>) -> spec_fn(LicenseInfo) -> bool {
    |i: LicenseInfo| !i.is_restrictive && license_text(i.license) == key
}

/// The view of summary rows.
pub open spec fn row_views(v: Seq<(String, usize)>) -> Seq<(Seq<char>, nat)> {
    v.map_values(|r: (String, usize)| (r.0@, r.1 as nat))
}

/// `rows` summarizes the permissive dependencies of `s` by license: each
/// license of a permissive dependency appears once, with the number of
/// permissive dependencies under it, and the licenses are in ascending
/// order.
pub open spec fn summarizes(s: Seq<LicenseInfo>, rows: Seq<(Seq<char>, nat)>) -> bool {
    &&& forall|j: int, k: int|
        #![trigger rows[j], rows[k]]
        0 <= j < k < rows.len() ==> str_lt(rows[j].0, rows[k].0)
    &&& forall|k: int|
        0 <= k < rows.len() ==> #[trigger] rows[k].1 == count(s, permissive_with(rows[k].0))
            && rows[k].1 > 0
    &&& forall|d: int|
        0 <= d < s.len() && !(#[trigger] s[d]).is_restrictive ==> exists|k: int|
            0 <= k < rows.len() && rows[k].0 == license_text(s[d].license)
}

/// A permissive dependency counted under a license is one of `s`.
proof fn lemma_counted_dependency(s: Seq<LicenseInfo>, key: Seq<char>)
    requires
        count(s, permissive_with(key)) > 0,
    ensures
        exists|d: int| 0 <= d < s.len() && !(#[trigger] s[d]).is_restrictive && license_text(s[d].license) == key,
{
    lemma_keep_sound(s, permissive_with(key));
    let e = keep(s, permissive_with(key))[0];
    assert(s.contains(e));
    let d = choose|d: int| 0 <= d < s.len() && s[d] == e;
    assert(!s[d].is_restrictive && license_text(s[d].license) == key);
}

/// The summary rows of the permissive dependencies (see `summarizes`).
pub fn summary_rows(data: &Vec<LicenseInfo>) -> (rows: Vec<(String, usize)>)
    ensures
        summarizes(data@, row_views(rows@)),
{
    let mut rows: Vec<(String, usize)> = Vec::new();
    let mut i: usize = 0;
    while i < data.len()
        invariant
            i <= data@.len(),
            summarizes(data@.take(i as int), row_views(rows@)),
            forall|k: int| 0 <= k < rows@.len() ==> #[trigger] rows@[k].1 <= i,
        decreases data@.len() - i,
    {
        let ghost s0 = data@.take(i as int);
        let ghost s1 = data@.take(i + 1);
        let ghost old_rows = row_views(rows@);
        assert forall|key: Seq<char>| #[trigger] count(s1, permissive_with(key)) == count(s0, permissive_with(key))
            + if permissive_with(key)(data@[i as int]) { 1nat } else { 0nat } by {
            lemma_keep_push(data@, i as int, permissive_with(key));
        }
        assert forall|d: int| 0 <= d < s0.len() implies #[trigger] s1[d] == s0[d] by {}
        if !data[i].is_restrictive {
            let key = data[i].get_license();
            let ghost x = key@;
            let mut p: usize = 0;
            while p < rows.len() && lt_str(rows[p].0.as_str(), key.as_str())
                invariant
                    p <= rows@.len(),
                    x == key@,
                    forall|j: int| 0 <= j < p ==> str_lt(#[trigger] row_views(rows@)[j].0, x),
                decreases rows@.len() - p,
            {
                assert(row_views(rows@)[p as int].0 == rows@[p as int].0@);
                p = p + 1;
            }
            let found = p < rows.len() && eq_str(to_chars(rows[p].0.as_str()).as_slice(), key.as_str());
            if found {
                proof {
                    assert forall|k: int| 0 <= k < old_rows.len() && k != p implies #[trigger] old_rows[k].0 != x by {
                        if k < p {
                            lemma_lt_irreflexive(x);
                        } else {
                            lemma_lt_irreflexive(x);
                            lemma_lt_asymmetric(old_rows[p as int].0, old_rows[k].0);
                        }
                    }
                }
                let n = rows[p].1;
                rows[p].1 = n + 1;
                proof {
                    let nr = row_views(rows@);
                    assert forall|k: int| 0 <= k < nr.len() implies #[trigger] nr[k] == if k == p {
                        (old_rows[k].0, old_rows[k].1 + 1)
                    } else {
                        old_rows[k]
                    } by {}
                    assert forall|d: int| 0 <= d < s1.len() && !(#[trigger] s1[d]).is_restrictive implies exists|k: int|
                        0 <= k < nr.len() && nr[k].0 == license_text(s1[d].license) by {
                        if d < s0.len() {
                            assert(s0[d] == s1[d]);
                            let k = choose|k: int| 0 <= k < old_rows.len() && old_rows[k].0 == license_text(s0[d].license);
                            assert(nr[k].0 == old_rows[k].0);
                        } else {
                            assert(nr[p as int].0 == x);
                        }
                    }
                }
            } else {
                proof {
                    // The license is new: no row holds it.
                    assert forall|k: int| 0 <= k < old_rows.len() implies #[trigger] old_rows[k].0 != x by {
                        if k < p {
                            lemma_lt_irreflexive(x);
                        } else {
                            assert(old_rows[p as int].0 != x);
                            lemma_lt_total(old_rows[p as int].0, x);
                            if k > p {
                                lemma_lt_transitive(x, old_rows[p as int].0, old_rows[k].0);
                                lemma_lt_irreflexive(x);
                            }
                        }
                    }
                    if count(s0, permissive_with(x)) > 0 {
                        lemma_counted_dependency(s0, x);
                        let d = choose|d: int| 0 <= d < s0.len() && !(#[trigger] s0[d]).is_restrictive && license_text(s0[d].license) == x;
                        let k = choose|k: int| 0 <= k < old_rows.len() && old_rows[k].0 == license_text(s0[d].license);
                        assert(old_rows[k].0 != x);
                    }
                    assert(p < old_rows.len() ==> str_lt(x, old_rows[p as int].0)) by {
                        if p < old_rows.len() {
                            lemma_lt_total(old_rows[p as int].0, x);
                        }
                    }
                }
                rows.insert(p, (key, 1));
                proof {
                    let nr = row_views(rows@);
                    assert(nr =~= old_rows.insert(p as int, (x, 1nat)));
                    assert forall|j: int, k: int| #![trigger nr[j], nr[k]] 0 <= j < k < nr.len() implies str_lt(nr[j].0, nr[k].0) by {
                        if k < p {
                        } else if k == p {
                        } else if j < p {
                            assert(nr[k] == old_rows[k - 1]);
                            if k - 1 > p {
                                lemma_lt_transitive(x, old_rows[p as int].0, old_rows[k - 1].0);
                            }
                            lemma_lt_transitive(nr[j].0, x, nr[k].0);
                        } else if j == p {
                            assert(nr[k] == old_rows[k - 1]);
                            if k - 1 > p {
                                lemma_lt_transitive(x, old_rows[p as int].0, old_rows[k - 1].0);
                            }
                        } else {
                            assert(nr[j] == old_rows[j - 1]);
                            assert(nr[k] == old_rows[k - 1]);
                        }
                    }
                    assert forall|d: int| 0 <= d < s1.len() && !(#[trigger] s1[d]).is_restrictive implies exists|k: int|
                        0 <= k < nr.len() && nr[k].0 == license_text(s1[d].license) by {
                        if d < s0.len() {
                            assert(s0[d] == s1[d]);
                            let k = choose|k: int| 0 <= k < old_rows.len() && old_rows[k].0 == license_text(s0[d].license);
                            if k < p {
                                assert(nr[k] == old_rows[k]);
                            } else {
                                assert(nr[k + 1] == old_rows[k]);
                            }
                        } else {
                            assert(nr[p as int].0 == x);
                        }
                    }
                    assert forall|k: int| 0 <= k < nr.len() implies #[trigger] nr[k].1 == count(s1, permissive_with(nr[k].0))
                        && nr[k].1 > 0 by {
                        if k < p {
                            assert(nr[k] == old_rows[k]);
                        } else if k > p {
                            assert(nr[k] == old_rows[k - 1]);
                        }
                    }
                }
            }
        } else {
            proof {
                let nr = row_views(rows@);
                assert forall|d: int| 0 <= d < s1.len() && !(#[trigger] s1[d]).is_restrictive implies exists|k: int|
                    0 <= k < nr.len() && nr[k].0 == license_text(s1[d].license) by {
                    assert(s0[d] == s1[d]);
                }
            }
        }
        i = i + 1;
    }
    assert(data@.take(data@.len() as int) =~= data@);
    rows
}

/// The sequence that ends terminal styling.
pub open spec fn reset_sequence() -> Seq<char> {
    seq!['\u{1b}', '[', '0', 'm']
}

/// What a styled rendering of `s` can be: `s` itself when the terminal
/// styling is off, or `s` between a style sequence and the reset sequence.
/// Only a text free of the reset sequence is promised this shape.
pub open spec fn styled_as(s: Seq<char>, r: Seq<char>) -> bool {
    !contains(s, reset_sequence()) ==> (r == s || exists|p: Seq<char>| r == p + s + reset_sequence())
}

/// `s` rendered bold and blue (colored's `bold().blue()`). Whether styling
/// is on depends on the environment, so only the shape of the result is
/// stated.
#[verifier::external_body]
fn bold_blue(s: &str) -> (r: String)
    ensures
        styled_as(s@, r@),
{
    s.bold().blue().to_string()
}

/// `s` rendered red and bold (colored's `red().bold()`); see `bold_blue`.
#[verifier::external_body]
fn red_bold(s: &str) -> (r: String)
    ensures
        styled_as(s@, r@),
{
    s.red().bold().to_string()
}

/// `s` rendered green (colored's `green()`); see `bold_blue`.
#[verifier::external_body]
fn green(s: &str) -> (r: String)
    ensures
        styled_as(s@, r@),
{
    s.green().to_string()
}

/// `n` copies of `c`.
pub open spec fn repeated(c: char, n: nat) -> Seq<char> {
    Seq::new(n, |_i: int| c)
}

/// `s` left-aligned in a field of `w` characters (`{:w$}`).
pub open spec fn padded(s: Seq<char>, w: nat) -> Seq<char> {
    if s.len() >= w {
        s
    } else {
        s + repeated(' ', (w - s.len()) as nat)
    }
}

/// The cells of a row, each padded to its column's width; cells beyond the
/// known columns stay as they are.
pub open spec fn padded_cells(row: Seq<Seq<char>>, widths: Seq<u128>) -> Seq<Seq<char>> {
    Seq::new(
        row.len(),
        |i: int| if i < widths.len() { padded(row[i], widths[i] as nat) } else { row[i] },
    )
}

/// The sum of column widths.
pub open spec fn width_sum(widths: Seq<u128>) -> nat
    decreases widths.len(),
{
    if widths.len() == 0 {
        0
    } else {
        width_sum(widths.drop_last()) + widths.last() as nat
    }
}

/// The inner width of a table: its columns and their separators.
pub open spec fn inner_width(widths: Seq<u128>) -> nat {
    (width_sum(widths) + 3 * widths.len() - 1) as nat
}

/// The views of a list of strings.
pub open spec fn views(v: Seq<String>) -> Seq<Seq<char>> {
    v.map_values(|s: String| s@)
}

/// A text table whose columns are as wide as their widest cell, in UTF-8
/// bytes.
pub struct TableFormatter {
    pub column_widths: Vec<u128>,
    pub headers: Vec<String>,
}

impl TableFormatter {
    /// One width per header.
    pub open spec fn wf(&self) -> bool {
        self.column_widths@.len() == self.headers@.len()
    }

    /// The column widths.
    pub open spec fn widths(&self) -> Seq<u128> {
        self.column_widths@
    }

    /// The header texts.
    pub open spec fn header_views(&self) -> Seq<Seq<char>> {
        views(self.headers@)
    }

    /// A table whose columns are as wide as their headers.
    pub fn new(headers: Vec<String>) -> (t: Self)
        ensures
            t.wf(),
            t.header_views() == views(headers@),
            forall|i: int| 0 <= i < headers@.len() ==> #[trigger] t.widths()[i] == utf8_len(headers@[i]@),
    {
        let mut column_widths: Vec<u128> = Vec::new();
        let mut i: usize = 0;
        while i < headers.len()
            invariant
                i <= headers@.len(),
                column_widths@.len() == i,
                forall|k: int| 0 <= k < i ==> #[trigger] column_widths@[k] == utf8_len(headers@[k]@),
            decreases headers@.len() - i,
        {
            let hc = to_chars(headers[i].as_str());
            column_widths.push(utf8_len_exec(hc.as_slice()));
            i = i + 1;
        }
        TableFormatter { column_widths, headers }
    }

    /// Widens each column to hold the row's cell in it; cells beyond the
    /// columns are ignored.
    pub fn add_row(&mut self, row: &[String])
        requires
            old(self).wf(),
        ensures
            final(self).wf(),
            final(self).header_views() == old(self).header_views(),
            forall|i: int|
                0 <= i < old(self).widths().len() ==> #[trigger] final(self).widths()[i] == if i
                    < row@.len() && old(self).widths()[i] < utf8_len(row@[i]@) {
                    utf8_len(row@[i]@) as u128
                } else {
                    old(self).widths()[i]
                },
    {
        let mut i: usize = 0;
        while i < row.len() && i < self.column_widths.len()
            invariant
                i <= row@.len(),
                i <= self.column_widths@.len(),
                self.wf(),
                self.header_views() == old(self).header_views(),
                self.widths().len() == old(self).widths().len(),
                forall|k: int|
                    0 <= k < old(self).widths().len() ==> #[trigger] self.widths()[k] == if k < i && k
                        < row@.len() && old(self).widths()[k] < utf8_len(row@[k]@) {
                        utf8_len(row@[k]@) as u128
                    } else {
                        old(self).widths()[k]
                    },
            decreases row@.len() - i,
        {
            let rc = to_chars(row[i].as_str());
            let w = utf8_len_exec(rc.as_slice());
            if self.column_widths[i] < w {
                self.column_widths.set(i, w);
            }
            i = i + 1;
        }
    }

    /// The cells of a row padded to the column widths and joined by ` │ `.
    fn row_text(&self, row: &[String]) -> (r: Vec<char>)
        ensures
            r@ == join(padded_cells(views(row@), self.widths()), " │ "@),
    {
        let mut cells: Vec<Vec<char>> = Vec::new();
        let mut i: usize = 0;
        while i < row.len()
            invariant
                i <= row@.len(),
                seqs(cells@) =~= padded_cells(views(row@), self.widths()).take(i as int),
            decreases row@.len() - i,
        {
            let mut c = to_chars(row[i].as_str());
            if i < self.column_widths.len() {
                let w = self.column_widths[i];
                let n = c.len();
                if (n as u128) < w {
                    let mut k: u128 = n as u128;
                    while k < w
                        invariant
                            n as u128 <= k <= w,
                            c@ == row@[i as int]@ + repeated(' ', (k - n) as nat),
                        decreases w - k,
                    {
                        c.push(' ');
                        assert(repeated(' ', (k + 1 - n) as nat) =~= repeated(' ', (k - n) as nat).push(' '));
                        k = k + 1;
                    }
                } else {
                    assert(c@ == row@[i as int]@);
                }
            }
            let ghost before = seqs(cells@);
            let ghost cv = c@;
            cells.push(c);
            assert(seqs(cells@) =~= before.push(cv));
            assert(padded_cells(views(row@), self.widths()).take(i + 1) =~= padded_cells(
                views(row@),
                self.widths(),
            ).take(i as int).push(cv));
            i = i + 1;
        }
        assert(padded_cells(views(row@), self.widths()).take(row@.len() as int) =~= padded_cells(
            views(row@),
            self.widths(),
        ));
        join_exec(&cells, " │ ")
    }

    /// The inner width of the table.
    fn inner_width_exec(&self) -> (r: u128)
        requires
            self.widths().len() > 0,
            width_sum(self.widths()) + 3 * self.widths().len() <= u128::MAX,
        ensures
            r == inner_width(self.widths()),
    {
        let mut sum: u128 = 0;
        let mut i: usize = 0;
        while i < self.column_widths.len()
            invariant
                i <= self.widths().len(),
                sum == width_sum(self.widths().take(i as int)),
                width_sum(self.widths()) + 3 * self.widths().len() <= u128::MAX,
            decreases self.widths().len() - i,
        {
            assert(self.widths().take(i + 1).drop_last() =~= self.widths().take(i as int));
            proof {
                lemma_width_sum_prefix(self.widths(), i + 1);
            }
            sum = sum + self.column_widths[i];
            i = i + 1;
        }
        assert(self.widths().take(self.widths().len() as int) =~= self.widths());
        let n = self.column_widths.len() as u128;
        sum + 3 * n - 1
    }

    /// The top of the table: a border, the styled header row, a separator.
    pub fn render_header(&self) -> (r: String)
        requires
            self.wf(),
            self.widths().len() > 0,
            width_sum(self.widths()) + 3 * self.widths().len() <= u128::MAX,
        ensures
            exists|h: Seq<char>|
                styled_as(join(padded_cells(self.header_views(), self.widths()), " │ "@), h) && r@
                    == "┌"@ + repeated('─', inner_width(self.widths())) + "┐\n│ "@ + h + " │\n├"@
                    + repeated('─', inner_width(self.widths())) + "┤"@,
    {
        let text = self.row_text(self.headers.as_slice());
        assert(views(self.headers@) == self.header_views());
        let ts = from_chars(text.as_slice());
        let h = bold_blue(ts.as_str());
        let w = self.inner_width_exec();
        let line = dash_line(w);
        let mut out: Vec<char> = Vec::new();
        extend_str(&mut out, "┌");
        extend(&mut out, line.as_slice());
        extend_str(&mut out, "┐\n│ ");
        extend_str(&mut out, h.as_str());
        extend_str(&mut out, " │\n├");
        extend(&mut out, line.as_slice());
        extend_str(&mut out, "┤");
        from_chars(out.as_slice())
    }

    /// One row of the table, styled red and bold when problematic and green
    /// otherwise.
    pub fn render_row(&self, row: &[String], is_problematic: bool) -> (r: String)
        ensures
            exists|t: Seq<char>|
                styled_as(join(padded_cells(views(row@), self.widths()), " │ "@), t) && r@ == "│ "@
                    + t + " │"@,
    {
        let text = self.row_text(row);
        let ts = from_chars(text.as_slice());
        let t = if is_problematic {
            red_bold(ts.as_str())
        } else {
            green(ts.as_str())
        };
        let mut out: Vec<char> = Vec::new();
        extend_str(&mut out, "│ ");
        extend_str(&mut out, t.as_str());
        extend_str(&mut out, " │");
        from_chars(out.as_slice())
    }

    /// The bottom border of the table.
    pub fn render_footer(&self) -> (r: String)
        requires
            self.widths().len() > 0,
            width_sum(self.widths()) + 3 * self.widths().len() <= u128::MAX,
        ensures
            r@ == "└"@ + repeated('─', inner_width(self.widths())) + "┘"@,
    {
        let w = self.inner_width_exec();
        let line = dash_line(w);
        let mut out: Vec<char> = Vec::new();
        extend_str(&mut out, "└");
        extend(&mut out, line.as_slice());
        extend_str(&mut out, "┘");
        from_chars(out.as_slice())
    }
}

/// The sum of a prefix of widths is at most the sum of all of them.
proof fn lemma_width_sum_prefix(w: Seq<u128>, i: int)
    requires
        0 <= i <= w.len(),
    ensures
        width_sum(w.take(i)) <= width_sum(w),
    decreases w.len(),
{
    if i < w.len() {
        assert(w.drop_last().take(i) =~= w.take(i));
        lemma_width_sum_prefix(w.drop_last(), i);
    } else {
        assert(w.take(i) =~= w);
    }
}

/// A horizontal line of `n` box-drawing dashes.
fn dash_line(n: u128) -> (r: Vec<char>)
    ensures
        r@ == repeated('─', n as nat),
{
    let mut v: Vec<char> = Vec::new();
    let mut k: u128 = 0;
    while k < n
        invariant
            k <= n,
            v@ == repeated('─', k as nat),
        decreases n - k,
    {
        v.push('─');
        assert(repeated('─', (k + 1) as nat) =~= repeated('─', k as nat).push('─'));
        k = k + 1;
    }
    v
}

/// The display text of a boolean (`true` or `false`).
pub open spec fn bool_text(b: bool) -> Seq<char> {
    if b {
        "true"@
    } else {
        "false"@
    }
}

/// The headers of the verbose table: the compatibility column only with a
/// project license, the OSI status column always.
pub open spec fn verbose_header_texts(project_known: bool) -> Seq<Seq<char>> {
    let base = seq!["Name"@, "Version"@, "License"@, "Restrictive"@];
    if project_known {
        base.push("Compatibility"@).push("OSI Status"@)
    } else {
        base.push("OSI Status"@)
    }
}

/// The cells of a dependency in the verbose table.
pub open spec fn verbose_cells(i: LicenseInfo, project_known: bool) -> Seq<Seq<char>> {
    let base = seq![i.name@, i.version@, license_text(i.license), bool_text(i.is_restrictive)];
    if project_known {
        base.push(compatibility_text(i.compatibility)).push(osi_text(i.osi_status))
    } else {
        base.push(osi_text(i.osi_status))
    }
}

/// The headers of the verbose table.
pub fn verbose_headers(project_known: bool) -> (r: Vec<String>)
    ensures
        views(r@) == verbose_header_texts(project_known),
{
    let mut r: Vec<String> = Vec::new();
    r.push(owned("Name"));
    r.push(owned("Version"));
    r.push(owned("License"));
    r.push(owned("Restrictive"));
    if project_known {
        r.push(owned("Compatibility"));
    }
    r.push(owned("OSI Status"));
    assert(views(r@) =~= verbose_header_texts(project_known));
    r
}

/// The cells of a dependency in the verbose table.
pub fn verbose_row(info: &LicenseInfo, project_known: bool) -> (r: Vec<String>)
    ensures
        views(r@) == verbose_cells(*info, project_known),
{
    let mut r: Vec<String> = Vec::new();
    r.push(owned(info.name.as_str()));
    r.push(owned(info.version.as_str()));
    r.push(info.get_license());
    r.push(if info.is_restrictive { owned("true") } else { owned("false") });
    if project_known {
        r.push(info.compatibility.to_string());
    }
    r.push(info.osi_status.to_string());
    assert(views(r@) =~= verbose_cells(*info, project_known));
    r
}

/// The cells of a dependency in the restrictive and incompatible tables:
/// package, version and license.
pub fn package_row(info: &LicenseInfo) -> (r: Vec<String>)
    ensures
        views(r@) == seq![info.name@, info.version@, license_text(info.license)],
{
    let mut r: Vec<String> = Vec::new();
    r.push(owned(info.name.as_str()));
    r.push(owned(info.version.as_str()));
    r.push(info.get_license());
    assert(views(r@) =~= seq![info.name@, info.version@, license_text(info.license)]);
    r
}

/// Whether a dependency passes a report's filters.
pub open spec fn listed(i: LicenseInfo, restrictive: bool, incompatible_only: bool, osi: Option<OsiFilter>) -> bool {
    &&& (restrictive || incompatible_only) ==> flagged(i, restrictive, incompatible_only)
    &&& osi matches Some(f) ==> osi_kept(i, f)
}

/// A report lists exactly the dependencies that pass its filters: every
/// listed dependency is one of the data and passes them, and every
/// dependency of the data that passes them is listed.
pub proof fn law_report_lists_exactly_the_matches(
    s: Seq<LicenseInfo>,
    restrictive: bool,
    incompatible_only: bool,
    osi: Option<OsiFilter>,
)
    ensures
        forall|k: int|
            0 <= k < report_rows(s, restrictive, incompatible_only, osi).len() ==> s.contains(
                #[trigger] report_rows(s, restrictive, incompatible_only, osi)[k],
            ) && listed(report_rows(s, restrictive, incompatible_only, osi)[k], restrictive, incompatible_only, osi),
        forall|d: int|
            0 <= d < s.len() && listed(#[trigger] s[d], restrictive, incompatible_only, osi)
                ==> report_rows(s, restrictive, incompatible_only, osi).contains(s[d]),
{
    let fp = flag_pred(restrictive, incompatible_only);
    let a = if restrictive || incompatible_only { keep(s, fp) } else { s };
    let r = report_rows(s, restrictive, incompatible_only, osi);
    lemma_keep_sound(s, fp);
    match osi {
        Some(f) => {
            lemma_keep_sound(a, osi_pred(f));
        },
        None => {},
    }
    assert forall|k: int| 0 <= k < r.len() implies s.contains(#[trigger] r[k]) && listed(r[k], restrictive, incompatible_only, osi) by {
        let x = r[k];
        let ai = if osi is Some {
            choose|j: int| 0 <= j < a.len() && a[j] == x
        } else {
            k
        };
        assert(a[ai] == x);
        if restrictive || incompatible_only {
            assert(fp(a[ai]));
            let si = choose|j: int| 0 <= j < s.len() && s[j] == a[ai];
            assert(s[si] == x);
        } else {
            assert(s[ai] == x);
        }
    }
    assert forall|d: int| 0 <= d < s.len() && listed(#[trigger] s[d], restrictive, incompatible_only, osi) implies r.contains(s[d]) by {
        let ai: int = if restrictive || incompatible_only {
            lemma_keep_complete(s, fp, d);
            choose|j: int| 0 <= j < a.len() && a[j] == s[d]
        } else {
            d
        };
        assert(a[ai] == s[d]);
        match osi {
            Some(f) => {
                lemma_keep_complete(a, osi_pred(f), ai);
            },
            None => {
                assert(r[ai] == s[d]);
            },
        }
    }
}

/// With `--restrictive` and/or `--incompatible`, a dependency of the data is
/// listed exactly when it is restrictive and `--restrictive` is on, or it is
/// incompatible and `--incompatible` is on (and it passes the OSI filter
/// when one is given): the two flags select the union, so a restrictive
/// dependency is listed whenever `--restrictive` is on, whatever
/// `--incompatible` is.
pub proof fn law_flag_filters_select_the_union(
    s: Seq<LicenseInfo>,
    restrictive: bool,
    incompatible_only: bool,
    osi: Option<OsiFilter>,
)
    requires
        restrictive || incompatible_only,
    ensures
        forall|k: int|
            0 <= k < s.len() ==> (report_rows(s, restrictive, incompatible_only, osi).contains(#[trigger] s[k]) <==> {
                &&& (restrictive && s[k].is_restrictive) || (incompatible_only && s[k].compatibility
                    == LicenseCompatibility::Incompatible)
                &&& osi matches Some(f) ==> osi_kept(s[k], f)
            }),
{
    law_report_lists_exactly_the_matches(s, restrictive, incompatible_only, osi);
    let r = report_rows(s, restrictive, incompatible_only, osi);
    assert forall|k: int| 0 <= k < s.len() && r.contains(#[trigger] s[k]) implies listed(
        s[k],
        restrictive,
        incompatible_only,
        osi,
    ) by {
        let j = choose|j: int| 0 <= j < r.len() && r[j] == s[k];
        assert(listed(r[j], restrictive, incompatible_only, osi));
    }
}

/// Selecting by two predicates in either order selects the same.
proof fn lemma_keep_commutes(s: Seq<LicenseInfo>, p: spec_fn(LicenseInfo) -> bool, q: spec_fn(LicenseInfo) -> bool)
    ensures
        keep(keep(s, p), q) == keep(keep(s, q), p),
    decreases s.len(),
{
    if s.len() > 0 {
        lemma_keep_commutes(s.drop_last(), p, q);
        let x = s.last();
        let kp = keep(s.drop_last(), p);
        let kq = keep(s.drop_last(), q);
        if p(x) {
            assert(kp.push(x).drop_last() =~= kp);
        }
        if q(x) {
            assert(kq.push(x).drop_last() =~= kq);
        }
    }
}

/// Filtering a report's rows again with the same settings changes nothing.
pub proof fn law_report_filter_idempotent(
    s: Seq<LicenseInfo>,
    restrictive: bool,
    incompatible_only: bool,
    osi: Option<OsiFilter>,
)
    ensures
        report_rows(report_rows(s, restrictive, incompatible_only, osi), restrictive, incompatible_only, osi)
            == report_rows(s, restrictive, incompatible_only, osi),
{
    let fp = flag_pred(restrictive, incompatible_only);
    match osi {
        Some(f) => {
            let op = osi_pred(f);
            if restrictive || incompatible_only {
                lemma_keep_idempotent(s, fp);
                lemma_keep_commutes(keep(s, fp), fp, op);
                lemma_keep_idempotent(keep(s, fp), op);
                lemma_keep_idempotent(keep(keep(s, fp), op), fp);
                lemma_keep_commutes(keep(s, fp), op, fp);
                lemma_keep_idempotent(keep(keep(s, fp), op), op);
            } else {
                lemma_keep_idempotent(s, op);
            }
        },
        None => {
            if restrictive || incompatible_only {
                lemma_keep_idempotent(s, fp);
            }
        },
    }
}

/// The licenses of summary rows.
pub open spec fn row_keys(rows: Seq<(Seq<char>, nat)>) -> Seq<Seq<char>> {
    rows.map_values(|r: (Seq<char>, nat)| r.0)
}

/// The permissive dependencies of a list have one summary: any two row
/// lists that satisfy `summarizes` are the same.
pub proof fn law_summary_unique(s: Seq<LicenseInfo>, r1: Seq<(Seq<char>, nat)>, r2: Seq<(Seq<char>, nat)>)
    requires
        summarizes(s, r1),
        summarizes(s, r2),
    ensures
        r1 == r2,
{
    let k1 = row_keys(r1);
    let k2 = row_keys(r2);
    assert forall|x: Seq<char>| k1.contains(x) <==> k2.contains(x) by {
        if k1.contains(x) {
            let j = choose|j: int| 0 <= j < k1.len() && k1[j] == x;
            assert(r1[j].0 == x);
            assert(r1[j].1 == count(s, permissive_with(r1[j].0)));
            lemma_counted_dependency(s, x);
            let d = choose|d: int| 0 <= d < s.len() && !(#[trigger] s[d]).is_restrictive && license_text(s[d].license) == x;
            let k = choose|k: int| 0 <= k < r2.len() && r2[k].0 == license_text(s[d].license);
            assert(k2[k] == x);
        }
        if k2.contains(x) {
            let j = choose|j: int| 0 <= j < k2.len() && k2[j] == x;
            assert(r2[j].0 == x);
            assert(r2[j].1 == count(s, permissive_with(r2[j].0)));
            lemma_counted_dependency(s, x);
            let d = choose|d: int| 0 <= d < s.len() && !(#[trigger] s[d]).is_restrictive && license_text(s[d].license) == x;
            let k = choose|k: int| 0 <= k < r1.len() && r1[k].0 == license_text(s[d].license);
            assert(k1[k] == x);
        }
    }
    assert forall|j: int, k: int| #![trigger k1[j], k1[k]] 0 <= j < k < k1.len() implies str_lt(k1[j], k1[k]) by {
        assert(k1[j] == r1[j].0 && k1[k] == r1[k].0);
    }
    assert forall|j: int, k: int| #![trigger k2[j], k2[k]] 0 <= j < k < k2.len() implies str_lt(k2[j], k2[k]) by {
        assert(k2[j] == r2[j].0 && k2[k] == r2[k].0);
    }
    lemma_ascending_unique(k1, k2);
    assert forall|k: int| 0 <= k < r1.len() implies #[trigger] r1[k] == r2[k] by {
        assert(k1[k] == k2[k]);
        assert(r1[k].1 == count(s, permissive_with(r1[k].0)));
        assert(r2[k].1 == count(s, permissive_with(r2[k].0)));
    }
    assert(r1 =~= r2);
}

} // verus!
