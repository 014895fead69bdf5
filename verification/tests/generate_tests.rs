use feluda::generate::{
    decode_key, fetch_counts, generate_notice_content, generate_package_url, get_apache_license_text,
    get_bsd_license_text, get_mit_license_text, group_by_license, line_choice, menu_step,
    name_order, notice_content_at, third_party_licenses_content, GenerateOption, KeyInput,
    MenuAction,
};
use feluda::licenses::{LicenseCompatibility, LicenseInfo, OsiStatus};

fn dep(name: &str, version: &str, license: Option<&str>, restrictive: bool) -> LicenseInfo {
    LicenseInfo {
        name: name.to_string(),
        version: version.to_string(),
        license: license.map(|l| l.to_string()),
        is_restrictive: restrictive,
        compatibility: LicenseCompatibility::Compatible,
        osi_status: OsiStatus::Approved,
    }
}

#[test]
fn test_generate_option_display_name() {
    assert_eq!(GenerateOption::Notice.display_name(), "NOTICE file");
    assert_eq!(GenerateOption::ThirdPartyLicenses.display_name(), "THIRD_PARTY_LICENSES file");
}

#[test]
fn test_generate_option_filename() {
    assert_eq!(GenerateOption::Notice.filename(), "NOTICE");
    assert_eq!(GenerateOption::ThirdPartyLicenses.filename(), "THIRD_PARTY_LICENSES");
}

#[test]
fn test_generate_option_full_filename() {
    assert_eq!(GenerateOption::Notice.full_filename(), "NOTICE");
    assert_eq!(GenerateOption::ThirdPartyLicenses.full_filename(), "THIRD_PARTY_LICENSES.md");
}

#[test]
fn test_generate_option_copy() {
    let option1 = GenerateOption::Notice;
    let option2 = option1;
    assert_eq!(option1.display_name(), option2.display_name());
}

#[test]
fn test_generate_option_debug() {
    let option = GenerateOption::ThirdPartyLicenses;
    let debug_str = format!("{option:?}");
    assert!(debug_str.contains("ThirdPartyLicenses"));
}

#[test]
fn test_generate_option_methods() {
    let notice = GenerateOption::Notice;
    let licenses = GenerateOption::ThirdPartyLicenses;

    assert_eq!(notice.display_name(), "NOTICE file");
    assert_eq!(licenses.display_name(), "THIRD_PARTY_LICENSES file");

    assert_eq!(notice.filename(), "NOTICE");
    assert_eq!(licenses.filename(), "THIRD_PARTY_LICENSES");

    assert_eq!(notice.extension(), "");
    assert_eq!(licenses.extension(), ".md");

    assert_eq!(notice.full_filename(), "NOTICE");
    assert_eq!(licenses.full_filename(), "THIRD_PARTY_LICENSES.md");
}

#[test]
fn test_generate_option_copy_clone() {
    let notice1 = GenerateOption::Notice;
    let notice2 = notice1;

    assert_eq!(notice1.display_name(), notice2.display_name());
    assert_eq!(notice1.full_filename(), notice2.full_filename());
}

#[test]
fn test_generate_package_url() {
    assert_eq!(
        generate_package_url("github.com/gorilla/mux", "v1.8.0"),
        Some("https://pkg.go.dev/github.com/gorilla/mux".to_string())
    );
    assert_eq!(
        generate_package_url("@babel/core", "7.0.0"),
        Some("https://www.npmjs.com/package/@babel/core".to_string())
    );
    assert_eq!(
        generate_package_url("python-dateutil", "v2.8.2"),
        Some("https://pypi.org/project/python-dateutil/".to_string())
    );
    assert_eq!(
        generate_package_url("requests", "2.28.1"),
        Some("https://pypi.org/project/requests/".to_string())
    );
    assert_eq!(
        generate_package_url("django-rest-framework", "3.14.0"),
        Some("https://pypi.org/project/django-rest-framework/".to_string())
    );
    assert_eq!(
        generate_package_url("express", "4.18.0"),
        Some("https://www.npmjs.com/package/express".to_string())
    );
    assert_eq!(
        generate_package_url("react-router", "6.0.0"),
        Some("https://www.npmjs.com/package/react-router".to_string())
    );
    assert_eq!(
        generate_package_url("some-package", "^4.18.0"),
        Some("https://www.npmjs.com/package/some-package".to_string())
    );
    assert_eq!(
        generate_package_url("another-pkg", "latest"),
        Some("https://www.npmjs.com/package/another-pkg".to_string())
    );
    assert_eq!(
        generate_package_url("serde", "1.0.0"),
        Some("https://crates.io/crates/serde".to_string())
    );
    assert_eq!(
        generate_package_url("tokio", "1.28.1"),
        Some("https://crates.io/crates/tokio".to_string())
    );
    assert_eq!(generate_package_url("", "1.0.0"), None);
    assert_eq!(generate_package_url("UnknownPackage", "unknown"), None);
}

#[test]
fn package_url_underscore_names() {
    assert_eq!(
        generate_package_url("my_package", "0.1"),
        Some("https://pypi.org/project/my_package/".to_string())
    );
    assert_eq!(
        generate_package_url("My_package", "0.1"),
        Some("https://crates.io/crates/My_package".to_string())
    );
}

#[test]
fn test_license_templates() {
    let mit_license = get_mit_license_text("test_package");
    assert!(mit_license.contains("MIT License"));
    assert!(mit_license.contains("Permission is hereby granted"));
    assert!(mit_license.contains("free of charge"));
    assert!(mit_license.contains("THE SOFTWARE IS PROVIDED \"AS IS\""));

    let apache_license = get_apache_license_text();
    assert!(apache_license.contains("Apache License"));
    assert!(apache_license.contains("Version 2.0"));
    assert!(apache_license.contains("January 2004"));
    assert!(apache_license.contains("http://www.apache.org/licenses/"));

    let bsd_license = get_bsd_license_text("test_package");
    assert!(bsd_license.contains("BSD 3-Clause License"));
    assert!(bsd_license.contains("Redistribution and use"));
    assert!(bsd_license.contains("Neither the name"));
}

#[test]
fn test_generate_notice_content() {
    let test_data = vec![
        dep("package1", "1.0.0", Some("MIT"), false),
        dep("package2", "2.0.0", Some("Apache-2.0"), false),
        dep("package3", "1.5.0", Some("MIT"), false),
    ];

    let content = generate_notice_content(&test_data);

    assert!(content.contains("NOTICE"));
    assert!(content.contains("======"));
    assert!(content.contains("MIT Licensed Components"));
    assert!(content.contains("Apache-2.0 Licensed Components"));
    assert!(content.contains("package1 (1.0.0)"));
    assert!(content.contains("package2 (2.0.0)"));
    assert!(content.contains("package3 (1.5.0)"));
    assert!(content.contains("Generated by: Feluda"));
    assert!(content.contains("DISCLAIMER"));
    assert!(content.contains("Generated at:"));
    assert!(content.contains("3 third-party dependencies"));
}

#[test]
fn test_generate_notice_content_empty() {
    let test_data = vec![];
    let content = generate_notice_content(&test_data);

    assert!(content.contains("NOTICE"));
    assert!(content.contains("0 third-party dependencies"));
    assert!(content.contains("Generated by: Feluda"));
}

#[test]
fn test_generate_notice_content_no_license() {
    let test_data = vec![LicenseInfo {
        name: "unknown_package".to_string(),
        version: "1.0.0".to_string(),
        license: None,
        is_restrictive: true,
        compatibility: LicenseCompatibility::Unknown,
        osi_status: OsiStatus::Unknown,
    }];

    let content = generate_notice_content(&test_data);
    assert!(content.contains("No License Licensed Components"));
    assert!(content.contains("unknown_package (1.0.0)"));
}

#[test]
fn notice_groups_sorted_by_license_then_name() {
    let data = vec![
        dep("zeta", "1", Some("MIT"), false),
        dep("alpha", "2", Some("MIT"), false),
        dep("beta", "3", Some("Apache-2.0"), false),
        dep("alpha", "1", Some("MIT"), false),
    ];
    let content = notice_content_at(&data, "2024-01-01 00:00:00 UTC");
    let apache = content.find("## Apache-2.0 Licensed Components").unwrap();
    let mit = content.find("## MIT Licensed Components").unwrap();
    assert!(apache < mit);
    assert!(content.contains(
        "## MIT Licensed Components\n\n* alpha (2)\n* alpha (1)\n* zeta (1)\n\n---"
    ));
    assert!(content.contains("Generated at: 2024-01-01 00:00:00 UTC\n"));
    assert!(content.starts_with("NOTICE\n======\n\n"));

    let groups = group_by_license(&data);
    assert_eq!(groups.len(), 2);
    assert_eq!(groups[0].0, "Apache-2.0");
    assert_eq!(groups[1].1[2], ("zeta".to_string(), "1".to_string()));
}

#[test]
fn name_order_is_stable() {
    let data = vec![
        dep("b", "1", None, false),
        dep("a", "1", None, false),
        dep("b", "2", None, false),
        dep("a", "2", None, false),
    ];
    assert_eq!(name_order(&data), vec![1, 3, 0, 2]);
}

#[test]
fn third_party_licenses_document() {
    let data = vec![
        dep("zlib-rs", "1.0.0", Some("Zlib"), false),
        dep("anyhow", "1.0.0", Some("MIT"), true),
    ];
    let fetched = vec![None, Some("TEXT".to_string())];
    let (content, (ok, failed)) =
        third_party_licenses_content(&data, &fetched, "STAMP", "50.0", "50.0");
    assert_eq!((ok, failed), (1, 1));
    assert!(content.starts_with("# Third-Party Licenses\n\n"));
    assert!(content.contains("**Total Dependencies:** 2\n**Generated:** STAMP\n\n---\n\n"));
    let first = content.find("## 1. anyhow 1.0.0").unwrap();
    let second = content.find("## 2. zlib-rs 1.0.0").unwrap();
    assert!(first < second);
    assert!(content.contains("**⚠️ Note:** This license may have restrictive terms\n"));
    assert!(content.contains("**Package URL:** https://crates.io/crates/anyhow\n"));
    assert!(content.contains("```\nTEXT\n```\n"));
    assert!(content.contains("*Could not fetch the actual license text for zlib-rs.*"));
    assert!(content.contains("- The official Zlib license documentation\n"));
    assert!(content.contains("**Actual License Texts Fetched:** 1 (50.0%)\n"));
    assert!(content.contains("**License Texts Not Fetched:** 1 (50.0%)\n"));
    assert!(content.contains("## Legal Notice & Disclaimer"));
}

#[test]
fn third_party_fallback_templates() {
    let data = vec![dep("x", "0.1", Some("MIT OR Apache-2.0"), false)];
    let (content, _) = third_party_licenses_content(&data, &vec![None], "S", "0.0", "100.0");
    assert!(content.contains("standard MIT license template"));
    assert!(content.contains("Permission is hereby granted"));
    assert!(!content.contains("Successfully fetched"));
}

#[test]
fn fetched_text_counts() {
    assert_eq!(fetch_counts(&vec![None, Some(String::new()), None]), (1, 2));
}

#[test]
fn keys_from_terminal_bytes() {
    assert_eq!(decode_key(b'\r', None), KeyInput::Enter);
    assert_eq!(decode_key(27, Some((b'[', b'A'))), KeyInput::Up);
    assert_eq!(decode_key(27, Some((b'[', b'B'))), KeyInput::Down);
    assert_eq!(decode_key(27, None), KeyInput::Escape);
    assert_eq!(decode_key(b'q', None), KeyInput::Escape);
    assert_eq!(decode_key(b'j', None), KeyInput::Down);
    assert_eq!(decode_key(b'1', None), KeyInput::Char('1'));
    assert_eq!(decode_key(7, None), KeyInput::Unknown);
}

#[test]
fn menu_navigation_wraps_and_selects() {
    assert_eq!(menu_step(0, KeyInput::Up), (2, MenuAction::Stay));
    assert_eq!(menu_step(2, KeyInput::Down), (0, MenuAction::Stay));
    assert_eq!(menu_step(1, KeyInput::Enter), (1, MenuAction::Select(GenerateOption::ThirdPartyLicenses)));
    assert_eq!(menu_step(2, KeyInput::Enter), (2, MenuAction::Cancel));
    assert_eq!(menu_step(0, KeyInput::Char('2')), (0, MenuAction::Select(GenerateOption::ThirdPartyLicenses)));
    assert_eq!(menu_step(0, KeyInput::Char('?')), (0, MenuAction::Help));
    assert_eq!(menu_step(0, KeyInput::Char('x')), (0, MenuAction::Stay));
    let (s, _) = menu_step(1, KeyInput::Up);
    assert_eq!(menu_step(s, KeyInput::Down).0, 1);
}

#[test]
fn typed_menu_choices() {
    assert_eq!(line_choice(" 1 \n"), MenuAction::Select(GenerateOption::Notice));
    assert_eq!(line_choice("2"), MenuAction::Select(GenerateOption::ThirdPartyLicenses));
    assert_eq!(line_choice("QUIT"), MenuAction::Cancel);
    assert_eq!(line_choice("0"), MenuAction::Cancel);
    assert_eq!(line_choice("3"), MenuAction::Stay);
}

#[test]
fn generation_stamp_has_the_stamp_form() {
    let s: Vec<char> = feluda::generate::generation_stamp().expect("the clock is readable").chars().collect();
    let n = s.len();
    assert!(n >= 23);
    let t: String = s[n - 19..].iter().collect();
    let digit = |c: char| c.is_ascii_digit();
    assert!(s[..n - 19].iter().all(|c| digit(*c)));
    let b: Vec<char> = t.chars().collect();
    assert_eq!((b[0], b[3], b[6], b[9], b[12]), ('-', '-', ' ', ':', ':'));
    for i in [1, 4, 7, 10, 13] {
        assert!(digit(b[i]) && digit(b[i + 1]));
    }
    assert!(t.ends_with(" UTC"));
}
