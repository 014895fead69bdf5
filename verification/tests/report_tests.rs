use feluda::licenses::{LicenseCompatibility, LicenseInfo, OsiStatus};
use feluda::report::{
    assess_compatibility, count_compatibility, count_restrictive, filter_report_data,
    filter_tui_data, github_output, has_incompatible, has_restrictive, jenkins_output,
    package_row, plan_report, should_fail, summary_rows, verbose_headers, verbose_row, CiFormat,
    OsiFilter, ReportConfig, ReportView, TableFormatter,
};

fn info(
    name: &str,
    version: &str,
    license: Option<&str>,
    restrictive: bool,
    compatibility: LicenseCompatibility,
    osi: OsiStatus,
) -> LicenseInfo {
    LicenseInfo {
        name: name.to_string(),
        version: version.to_string(),
        license: license.map(|l| l.to_string()),
        is_restrictive: restrictive,
        compatibility,
        osi_status: osi,
    }
}

fn get_test_data() -> Vec<LicenseInfo> {
    vec![
        info("crate1", "1.0.0", Some("MIT"), false, LicenseCompatibility::Compatible, OsiStatus::Approved),
        info("crate2", "2.0.0", Some("GPL-3.0"), true, LicenseCompatibility::Incompatible, OsiStatus::Approved),
        info("crate3", "3.0.0", Some("Apache-2.0"), false, LicenseCompatibility::Compatible, OsiStatus::Approved),
        info("crate4", "4.0.0", Some("Unknown"), false, LicenseCompatibility::Unknown, OsiStatus::Unknown),
    ]
}

fn get_test_data_with_unknown_compatibility() -> Vec<LicenseInfo> {
    vec![
        info("crate1", "1.0.0", Some("MIT"), false, LicenseCompatibility::Unknown, OsiStatus::Approved),
        info("crate2", "2.0.0", Some("GPL-3.0"), true, LicenseCompatibility::Unknown, OsiStatus::Approved),
    ]
}

fn names(v: &[LicenseInfo]) -> Vec<String> {
    v.iter().map(|i| i.name.clone()).collect()
}

fn config(
    restrictive: bool,
    incompatible: bool,
    ci: Option<CiFormat>,
    project: Option<&str>,
    gist: bool,
    osi: Option<OsiFilter>,
) -> ReportConfig {
    ReportConfig::new(
        false,
        false,
        false,
        restrictive,
        incompatible,
        ci,
        None,
        project.map(|p| p.to_string()),
        gist,
        osi,
    )
}

#[test]
fn test_table_formatter() {
    let headers = vec!["Name".to_string(), "Value".to_string(), "Compatibility".to_string()];
    let mut formatter = TableFormatter::new(headers);

    let row1 = vec!["key1".to_string(), "value1".to_string(), "Compatible".to_string()];
    let row2 = vec!["key2".to_string(), "value2".to_string(), "Incompatible".to_string()];
    let row3 = vec!["key3".to_string(), "value3".to_string(), "Unknown".to_string()];

    formatter.add_row(&row1);
    formatter.add_row(&row2);
    formatter.add_row(&row3);

    let header = formatter.render_header();
    let row1_str = formatter.render_row(&row1, true);
    let row2_str = formatter.render_row(&row2, false);
    let row3_str = formatter.render_row(&row3, false);
    let footer = formatter.render_footer();

    assert!(header.contains("Name"));
    assert!(header.contains("Value"));
    assert!(header.contains("Compatibility"));
    assert!(row1_str.contains("key1"));
    assert!(row2_str.contains("key2"));
    assert!(row3_str.contains("key3"));
    assert!(footer.contains("└"));
}

#[test]
fn test_table_formatter_column_width_calculation() {
    let headers = vec!["A".to_string(), "BB".to_string(), "CCC".to_string()];
    let mut formatter = TableFormatter::new(headers);

    assert_eq!(formatter.column_widths[0], 1);
    assert_eq!(formatter.column_widths[1], 2);
    assert_eq!(formatter.column_widths[2], 3);

    let row = vec!["AAAA".to_string(), "B".to_string(), "CC".to_string()];
    formatter.add_row(&row);

    assert_eq!(formatter.column_widths[0], 4);
    assert_eq!(formatter.column_widths[1], 2);
    assert_eq!(formatter.column_widths[2], 3);
}

#[test]
fn test_report_config_default_values() {
    let config = ReportConfig::new(false, false, false, false, false, None, None, None, false, None);

    assert!(!config.json);
    assert!(!config.yaml);
    assert!(!config.verbose);
    assert!(!config.restrictive);
    assert!(config.ci_format.is_none());
    assert!(config.output_file.is_none());
    assert!(config.project_license.is_none());
}

#[test]
fn test_report_config_debug() {
    let config = ReportConfig::new(
        true,
        false,
        true,
        false,
        false,
        Some(CiFormat::Github),
        Some("test.txt".to_string()),
        Some("MIT".to_string()),
        false,
        None,
    );

    let debug_str = format!("{config:?}");
    assert!(debug_str.contains("ReportConfig"));
    assert!(debug_str.contains("json: true"));
    assert!(debug_str.contains("yaml: false"));
    assert!(debug_str.contains("Github"));
}

#[test]
fn test_ci_format_enum() {
    let github = CiFormat::Github;
    let jenkins = CiFormat::Jenkins;

    assert_ne!(format!("{github:?}"), format!("{:?}", jenkins));

    let github_clone = github.clone();
    assert_eq!(format!("{github:?}"), format!("{:?}", github_clone));
}

#[test]
fn table_cells_are_padded_to_widths() {
    let mut formatter = TableFormatter::new(vec!["Name".to_string(), "V".to_string()]);
    formatter.add_row(&["ab".to_string(), "1.0.0".to_string()]);
    let row = formatter.render_row(&["ab".to_string(), "1".to_string()], false);
    assert!(row.starts_with("│ "));
    assert!(row.ends_with(" │"));
    assert!(row.contains("ab   │ 1    "));
    assert_eq!(formatter.render_footer(), format!("└{}┘", "─".repeat(4 + 5 + 3 * 2 - 1)));
}

#[test]
fn table_width_counts_utf8_bytes() {
    let formatter = TableFormatter::new(vec!["é".to_string()]);
    assert_eq!(formatter.column_widths[0], 2);
}

#[test]
fn empty_report_passes() {
    let plan = plan_report(vec![], &config(false, false, None, None, false, None));
    assert_eq!(plan.view, ReportView::AllPassed);
    assert_eq!((plan.has_restrictive, plan.has_incompatible), (false, false));
}

#[test]
fn report_signals_problems_of_all_data() {
    let plan = plan_report(get_test_data(), &config(false, false, None, Some("MIT"), false, None));
    assert_eq!(plan.view, ReportView::Summary);
    assert_eq!(plan.rows.len(), 4);
    assert_eq!((plan.has_restrictive, plan.has_incompatible), (true, true));

    let plan = plan_report(get_test_data(), &config(true, false, None, Some("MIT"), false, None));
    assert_eq!(names(&plan.rows), vec!["crate2"]);
    assert_eq!((plan.has_restrictive, plan.has_incompatible), (true, true));
}

#[test]
fn report_chooses_its_form() {
    let mut c = config(false, false, Some(CiFormat::Jenkins), None, false, None);
    c.json = true;
    assert_eq!(plan_report(get_test_data(), &c).view, ReportView::Jenkins);
    c.ci_format = None;
    assert_eq!(plan_report(get_test_data(), &c).view, ReportView::Json);
    c.json = false;
    c.yaml = true;
    assert_eq!(plan_report(get_test_data(), &c).view, ReportView::Yaml);
    c.yaml = false;
    c.verbose = true;
    assert_eq!(plan_report(get_test_data(), &c).view, ReportView::Verbose);
}

#[test]
fn gist_lists_everything() {
    let plan = plan_report(get_test_data(), &config(true, true, None, None, true, Some(OsiFilter::Unknown)));
    assert_eq!(plan.view, ReportView::Gist);
    assert_eq!(plan.rows.len(), 4);
    assert_eq!((plan.has_restrictive, plan.has_incompatible), (true, true));
}

#[test]
fn filtered_out_problems_are_not_signalled() {
    // The only restrictive dependency is OSI approved, so the unknown-status
    // view of restrictive dependencies is empty and nothing is signalled.
    let plan = plan_report(get_test_data(), &config(true, false, None, None, false, Some(OsiFilter::Unknown)));
    assert_eq!(plan.view, ReportView::AllPassed);
    assert_eq!((plan.has_restrictive, plan.has_incompatible), (false, false));
}

#[test]
fn report_filters_in_order() {
    let data = get_test_data();
    assert_eq!(names(&filter_report_data(get_test_data(), false, true, None)), vec!["crate2"]);
    assert_eq!(
        names(&filter_report_data(get_test_data(), false, false, Some(OsiFilter::Approved))),
        vec!["crate1", "crate2", "crate3"]
    );
    assert_eq!(
        names(&filter_report_data(get_test_data(), false, false, Some(OsiFilter::NotApproved))),
        Vec::<String>::new()
    );
    assert_eq!(names(&filter_report_data(data, false, false, None)).len(), 4);
}

#[test]
fn report_filter_is_idempotent() {
    let once = filter_report_data(get_test_data(), true, true, Some(OsiFilter::Approved));
    let first = names(&once);
    let twice = filter_report_data(once, true, true, Some(OsiFilter::Approved));
    assert_eq!(first, names(&twice));
}

#[test]
fn tui_filters_only_with_project_license() {
    assert_eq!(filter_tui_data(get_test_data(), true, false, false, None).len(), 4);
    assert_eq!(names(&filter_tui_data(get_test_data(), true, false, true, None)), vec!["crate2"]);
}

#[test]
fn problem_flags_and_counts() {
    let data = get_test_data();
    assert!(has_restrictive(&data));
    assert!(has_incompatible(&data));
    assert!(!has_incompatible(&get_test_data_with_unknown_compatibility()));
    assert_eq!(count_restrictive(&data), 1);
    assert_eq!(count_compatibility(&data, LicenseCompatibility::Compatible), 2);
    assert_eq!(count_compatibility(&data, LicenseCompatibility::Unknown), 1);
}

#[test]
fn failing_status() {
    assert!(should_fail(true, true, false, false));
    assert!(!should_fail(true, false, false, true));
    assert!(should_fail(false, false, true, true));
    assert!(!should_fail(false, true, false, true));
}

#[test]
fn github_output_exact() {
    let out = github_output(&get_test_data(), Some("MIT"));
    assert_eq!(
        out,
        "::notice title=Project License::Project is using MIT license\n\
         ::warning title=Restrictive License::Dependency 'crate2@2.0.0' has restrictive license: GPL-3.0\n\
         ::error title=Incompatible License::Dependency 'crate2@2.0.0' has license GPL-3.0 which may be incompatible with project license MIT\n\
         ::notice title=License Check Summary::Found 1 dependencies with restrictive licenses and 1 dependencies with incompatible licenses out of 4 total\n"
    );
}

#[test]
fn test_github_output_format() {
    let plan = plan_report(get_test_data(), &config(false, false, Some(CiFormat::Github), Some("MIT"), false, None));
    assert_eq!((plan.has_restrictive, plan.has_incompatible), (true, true));
    let content = github_output(&get_test_data(), Some("MIT"));
    assert!(content.contains("::warning title=Restrictive License::"));
    assert!(content.contains("::error title=Incompatible License::"));
    assert!(content.contains("::notice title=Project License::"));
    assert!(content.contains("::notice title=License Check Summary::"));
}

#[test]
fn github_output_without_project_license() {
    let out = github_output(&get_test_data_with_unknown_compatibility(), None);
    assert_eq!(
        out,
        "::warning title=Restrictive License::Dependency 'crate2@2.0.0' has restrictive license: GPL-3.0\n\
         ::notice title=License Check Summary::Found 1 dependencies with restrictive licenses out of 2 total\n"
    );
}

#[test]
fn test_jenkins_output_format() {
    let plan = plan_report(get_test_data(), &config(false, false, Some(CiFormat::Jenkins), Some("MIT"), false, None));
    assert_eq!((plan.has_restrictive, plan.has_incompatible), (true, true));
    let content = jenkins_output(&get_test_data(), Some("MIT"));
    assert!(content.contains("<?xml version=\"1.0\" encoding=\"UTF-8\"?>"));
    assert!(content.contains("<testsuites>"));
    assert!(content.contains("<failure message=\"Restrictive license found\""));
    assert!(content.contains("<failure message=\"Incompatible license found\""));
    assert!(content.contains("Project is using MIT license"));
    assert!(content.contains("tests=\"5\" failures=\"2\""));
}

#[test]
fn test_jenkins_output_format_no_project_license() {
    let plan = plan_report(
        get_test_data_with_unknown_compatibility(),
        &config(false, false, Some(CiFormat::Jenkins), None, false, None),
    );
    assert_eq!((plan.has_restrictive, plan.has_incompatible), (true, false));
    let content = jenkins_output(&get_test_data_with_unknown_compatibility(), None);
    assert!(content.contains("<?xml version=\"1.0\" encoding=\"UTF-8\"?>"));
    assert!(content.contains("<testsuites>"));
    assert!(content.contains("<failure message=\"Restrictive license found\""));
    assert!(!content.contains("<failure message=\"Incompatible license found\""));
    assert!(!content.contains("Project is using"));
    assert!(content.contains("tests=\"2\" failures=\"1\""));
}

#[test]
fn jenkins_output_exact_single() {
    let data = vec![info("a", "1", Some("MIT"), false, LicenseCompatibility::Compatible, OsiStatus::Approved)];
    assert_eq!(
        jenkins_output(&data, None),
        "<?xml version=\"1.0\" encoding=\"UTF-8\"?>\n<testsuites>\n  <testsuite name=\"Feluda License Check\" tests=\"1\" failures=\"0\" errors=\"0\" skipped=\"0\">\n    <testcase classname=\"feluda.licenses\" name=\"a-1\" time=\"0\" />\n  </testsuite>\n</testsuites>"
    );
}

#[test]
fn compatibility_assessed_against_project_license() {
    let matrix = vec![("MIT".to_string(), vec!["MIT".to_string(), "Apache-2.0".to_string()])];
    let mut data = vec![
        info("a", "1", Some("MIT"), false, LicenseCompatibility::Unknown, OsiStatus::Approved),
        info("b", "1", Some("GPL-3.0"), true, LicenseCompatibility::Unknown, OsiStatus::Approved),
        info("c", "1", None, false, LicenseCompatibility::Compatible, OsiStatus::Unknown),
    ];
    assess_compatibility(&mut data, Some("MIT"), false, &matrix);
    assert_eq!(data[0].compatibility, LicenseCompatibility::Compatible);
    assert_eq!(data[1].compatibility, LicenseCompatibility::Incompatible);
    assert_eq!(data[2].compatibility, LicenseCompatibility::Unknown);
    assess_compatibility(&mut data, Some("MIT"), true, &matrix);
    assert_eq!(data[2].compatibility, LicenseCompatibility::Incompatible);
    assess_compatibility(&mut data, None, true, &matrix);
    assert!(data.iter().all(|i| i.compatibility == LicenseCompatibility::Unknown));
    assert_eq!(data[1].name, "b");
}

#[test]
fn summary_rows_sorted_and_counted() {
    let mut data = get_test_data();
    data.push(info("crate5", "5.0.0", Some("MIT"), false, LicenseCompatibility::Compatible, OsiStatus::Approved));
    data.push(info("crate6", "1", None, false, LicenseCompatibility::Unknown, OsiStatus::Unknown));
    let rows = summary_rows(&data);
    assert_eq!(
        rows,
        vec![
            ("Apache-2.0".to_string(), 1),
            ("MIT".to_string(), 2),
            ("No License".to_string(), 1),
            ("Unknown".to_string(), 1),
        ]
    );
}

#[test]
fn table_rows_of_dependencies() {
    let data = get_test_data();
    assert_eq!(
        verbose_headers(true),
        vec!["Name", "Version", "License", "Restrictive", "Compatibility", "OSI Status"]
    );
    assert_eq!(verbose_headers(false), vec!["Name", "Version", "License", "Restrictive", "OSI Status"]);
    assert_eq!(
        verbose_row(&data[1], true),
        vec!["crate2", "2.0.0", "GPL-3.0", "true", "Incompatible", "approved"]
    );
    assert_eq!(verbose_row(&data[3], false), vec!["crate4", "4.0.0", "Unknown", "false", "unknown"]);
    assert_eq!(package_row(&data[0]), vec!["crate1", "1.0.0", "MIT"]);
}

/// What a report signals, as `(restrictive, incompatible)`.
fn signalled(data: Vec<LicenseInfo>, cfg: &ReportConfig) -> (bool, bool) {
    let plan = plan_report(data, cfg);
    (plan.has_restrictive, plan.has_incompatible)
}

fn full_config(json: bool, yaml: bool, verbose: bool, restrictive: bool, project: Option<&str>) -> ReportConfig {
    ReportConfig::new(json, yaml, verbose, restrictive, false, None, None, project.map(|p| p.to_string()), false, None)
}

#[test]
fn test_generate_report_empty_data() {
    let cfg = full_config(false, false, false, false, None);
    assert_eq!(signalled(vec![], &cfg), (false, false));
}

#[test]
fn test_generate_report_non_strict() {
    let cfg = full_config(false, false, false, false, Some("MIT"));
    assert_eq!(signalled(get_test_data(), &cfg), (true, true));
}

#[test]
fn test_generate_report_strict() {
    let cfg = full_config(false, false, false, true, Some("MIT"));
    assert_eq!(signalled(get_test_data(), &cfg), (true, true));
}

#[test]
fn test_generate_report_json() {
    let cfg = full_config(true, false, false, false, Some("MIT"));
    assert_eq!(signalled(get_test_data(), &cfg), (true, true));
    assert_eq!(plan_report(get_test_data(), &cfg).view, ReportView::Json);
}

#[test]
fn test_generate_report_yaml() {
    let cfg = full_config(false, true, false, false, Some("MIT"));
    assert_eq!(signalled(get_test_data(), &cfg), (true, true));
    assert_eq!(plan_report(get_test_data(), &cfg).view, ReportView::Yaml);
}

#[test]
fn test_generate_report_verbose() {
    let cfg = full_config(false, false, true, false, Some("MIT"));
    assert_eq!(signalled(get_test_data(), &cfg), (true, true));
    assert_eq!(plan_report(get_test_data(), &cfg).view, ReportView::Verbose);
}

#[test]
fn test_generate_report_no_project_license() {
    let cfg = full_config(false, false, false, false, None);
    assert_eq!(signalled(get_test_data_with_unknown_compatibility(), &cfg), (true, false));
}

#[test]
fn test_generate_report_all_permissive() {
    let data = vec![
        info("package1", "1.0.0", Some("MIT"), false, LicenseCompatibility::Compatible, OsiStatus::Approved),
        info("package2", "2.0.0", Some("BSD-3-Clause"), false, LicenseCompatibility::Compatible, OsiStatus::Approved),
    ];
    let cfg = full_config(false, false, false, false, Some("MIT"));
    let (has_restrictive, has_incompatible) = signalled(data, &cfg);
    assert!(!has_restrictive);
    assert!(!has_incompatible);
}

#[test]
fn test_generate_report_mixed_licenses() {
    let data = vec![
        info("good_package", "1.0.0", Some("MIT"), false, LicenseCompatibility::Compatible, OsiStatus::Approved),
        info("bad_package", "2.0.0", Some("GPL-3.0"), true, LicenseCompatibility::Incompatible, OsiStatus::Approved),
    ];
    let cfg = full_config(false, false, false, false, Some("MIT"));
    let (has_restrictive, has_incompatible) = signalled(data, &cfg);
    assert!(has_restrictive);
    assert!(has_incompatible);
}

#[test]
fn test_generate_report_strict_mode_filters() {
    let data = vec![
        info("permissive_package", "1.0.0", Some("MIT"), false, LicenseCompatibility::Compatible, OsiStatus::Approved),
        info("restrictive_package", "2.0.0", Some("GPL-3.0"), true, LicenseCompatibility::Incompatible, OsiStatus::Approved),
    ];
    let cfg = full_config(false, false, false, true, Some("MIT"));
    let plan = plan_report(data, &cfg);
    assert!(plan.has_restrictive);
    assert!(plan.has_incompatible);
    assert_eq!(names(&plan.rows), vec!["restrictive_package".to_string()]);
}

#[test]
fn test_generate_report_json_output() {
    let data = vec![info("test_package", "1.0.0", Some("MIT"), false, LicenseCompatibility::Compatible, OsiStatus::Approved)];
    let cfg = full_config(true, false, false, false, None);
    let (has_restrictive, has_incompatible) = signalled(data, &cfg);
    assert!(!has_restrictive);
    assert!(!has_incompatible);
}

#[test]
fn test_generate_report_yaml_output() {
    let data = vec![info("test_package", "1.0.0", Some("MIT"), false, LicenseCompatibility::Compatible, OsiStatus::Approved)];
    let cfg = full_config(false, true, false, false, None);
    let (has_restrictive, has_incompatible) = signalled(data, &cfg);
    assert!(!has_restrictive);
    assert!(!has_incompatible);
}

#[test]
fn test_generate_report_verbose_output() {
    let data = vec![info("test_package", "1.0.0", Some("MIT"), false, LicenseCompatibility::Compatible, OsiStatus::Approved)];
    let cfg = full_config(false, false, true, false, Some("MIT"));
    let (has_restrictive, has_incompatible) = signalled(data, &cfg);
    assert!(!has_restrictive);
    assert!(!has_incompatible);
}

#[test]
fn test_github_output_format_stdout() {
    let data = vec![info("restrictive_package", "1.0.0", Some("GPL-3.0"), true, LicenseCompatibility::Incompatible, OsiStatus::Approved)];
    let cfg = config(false, false, Some(CiFormat::Github), Some("MIT"), false, None);
    let plan = plan_report(data, &cfg);
    assert!(plan.has_restrictive);
    assert!(plan.has_incompatible);
    assert_eq!(plan.view, ReportView::Github);
}
