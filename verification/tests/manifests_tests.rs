use feluda::config::FeludaConfig;
use feluda::languages::c::{analyze_c_licenses, parse_autotools_content, parse_makefile_content};
use feluda::languages::cpp::{
    analyze_cpp_licenses, parse_cmake_content, parse_conanfile_txt, vcpkg_dependencies,
    VcpkgDependency,
};
use feluda::languages::go::{
    extract_license_from_html, get_go_dependencies, go_fetch_step, FetchAction, FetchOutcome,
};
use feluda::languages::python::{
    analyze_python_licenses, pypi_dependencies, pyproject_dependencies,
    pypi_metadata_url, python_license_from_metadata,
};
use feluda::languages::r::{
    analyze_r_licenses, r_license_from_universe, r_universe_package_url,
    r_universe_search_url, renv_packages,
};
use feluda::languages::rust::{analyze_rust_licenses_with_config, get_license_from_manifest, RustPackage};
use feluda::licenses::is_license_restrictive;
use feluda::parser::check_which_python_file_exists;

#[test]
fn test_get_go_dependencies() {
    let content = r#"require (
            github.com/user/repo v1.0.0
            github.com/another/pkg v2.3.4
        )"#;

    let deps = get_go_dependencies(content.to_string());
    assert_eq!(deps.len(), 2);
    assert_eq!(deps[0].name, "github.com/user/repo");
    assert_eq!(deps[0].version, "v1.0.0");
}

#[test]
fn test_get_go_dependencies_single_require() {
    let content = "require github.com/test/pkg v1.0.0".to_string();
    let deps = get_go_dependencies(content);
    assert_eq!(deps.len(), 1);
    assert_eq!(deps[0].name, "github.com/test/pkg");
    assert_eq!(deps[0].version, "v1.0.0");
}

#[test]
fn test_get_go_dependencies_with_comments() {
    let content = r#"require (
    github.com/user/repo v1.0.0 // This is a comment
    github.com/another/pkg v2.0.0 # This is also a comment
)"#
    .to_string();

    let deps = get_go_dependencies(content);
    assert_eq!(deps.len(), 2);
    assert_eq!(deps[0].name, "github.com/user/repo");
    assert_eq!(deps[1].name, "github.com/another/pkg");
}

#[test]
fn test_get_go_dependencies_complex_versions() {
    let content = r#"require (
    github.com/user/repo v1.2.3-beta+build
    github.com/another/pkg v2.0.0-rc.1
    github.com/third/mod v0.1.0-alpha
)"#
    .to_string();

    let deps = get_go_dependencies(content);
    assert_eq!(deps.len(), 3);
    assert_eq!(deps[0].version, "v1.2.3-beta+build");
    assert_eq!(deps[1].version, "v2.0.0-rc.1");
    assert_eq!(deps[2].version, "v0.1.0-alpha");
}

#[test]
fn test_get_go_dependencies_empty_content() {
    let content = "".to_string();
    let deps = get_go_dependencies(content);
    assert!(deps.is_empty());
}

#[test]
fn test_extract_license_from_html() {
    let html_content = r#"
            <html>
                <body>
                    <section class="License">
                        <h2 class="go-textTitle">
                            <div>MIT</div>
                        </h2>
                    </section>
                </body>
            </html>
        "#;

    let license = extract_license_from_html(html_content);
    assert_eq!(license, Some("MIT".to_string()));
}

#[test]
fn test_extract_license_from_html_no_license() {
    let html_content = r#"
            <html>
                <body>
                    <span class="go-Main-headerDetailItem" data-test-id="UnitHeader-licenses">
                    </span>
                </body>
            </html>
        "#;
    let license = extract_license_from_html(html_content);
    assert_eq!(license, None);
}

#[test]
fn html_license_pieces_are_joined_and_trimmed() {
    let html = r#"<section class="License"><h2 class="go-textTitle"><div> BSD-3-Clause <b>x</b> </div></h2></section>"#;
    assert_eq!(extract_license_from_html(html), Some("BSD-3-Clause  x".to_string()));
}

#[test]
fn test_fetch_license_for_go_dependency_error_handling() {
    let (_, action) = go_fetch_step(0, FetchOutcome::Refused);
    assert_eq!(action, FetchAction::Done("Unknown".to_string()));
}

#[test]
fn go_fetch_retries_too_many_requests_up_to_the_limit() {
    assert_eq!(go_fetch_step(0, FetchOutcome::TooManyRequests), (1, FetchAction::Retry(12)));
    assert_eq!(go_fetch_step(5, FetchOutcome::TooManyRequests), (6, FetchAction::Retry(12)));
    assert_eq!(
        go_fetch_step(6, FetchOutcome::TooManyRequests),
        (7, FetchAction::Done("Unknown".to_string()))
    );
    assert_eq!(go_fetch_step(2, FetchOutcome::Failed), (2, FetchAction::Done("Unknown".to_string())));
    assert_eq!(go_fetch_step(1, FetchOutcome::Page(None)), (1, FetchAction::Done("Unknown".to_string())));
}

#[test]
fn go_fetch_reads_the_license_of_a_page() {
    let page = r#"<section class="License"><h2 class="go-textTitle"><div>Apache-2.0</div></h2></section>"#;
    assert_eq!(
        go_fetch_step(3, FetchOutcome::Page(Some(page.to_string()))),
        (3, FetchAction::Done("Apache-2.0".to_string()))
    );
}

#[test]
fn test_parse_autotools_dependencies() {
    let content = r#"AC_INIT([test], [1.0])
PKG_CHECK_MODULES([GLIB], [glib-2.0 >= 2.40])
PKG_CHECK_MODULES([GTK], [gtk+-3.0])
AC_CHECK_LIB([z], [inflate])
AC_CHECK_LIB([ssl], [SSL_new])
"#;
    let result = parse_autotools_content(content);
    assert!(result.is_ok());
}

#[test]
fn test_parse_makefile_dependencies() {
    let makefile_content = r#"
CFLAGS = -Wall -O2
LDFLAGS = -lz -lssl -lpthread
LIBS = `pkg-config --libs gtk+-3.0`

test: test.o
	$(CC) -o test test.o $(LDFLAGS)
"#;

    let result = parse_makefile_content(makefile_content).unwrap();

    assert!(!result.is_empty());
    assert!(result.iter().any(|(name, _)| name == "libz"));
    assert!(result.iter().any(|(name, _)| name == "libssl"));
    assert!(result.iter().any(|(name, _)| name == "libpthread"));
}

#[test]
fn test_analyze_c_licenses_empty() {
    let config = FeludaConfig::default();
    let dependencies = analyze_c_licenses(Vec::new(), &Vec::new(), &Vec::new(), &config);
    assert!(dependencies.len() <= 20);
}

#[test]
fn test_parse_vcpkg_dependencies() {
    let entries = vec![
        VcpkgDependency::Name("boost".to_string()),
        VcpkgDependency::Object { name: Some("opencv".to_string()), version: Some("4.5.0".to_string()) },
    ];
    let result = vcpkg_dependencies(&entries);

    assert_eq!(result.len(), 2);
    assert!(result.iter().any(|(name, _)| name == "boost"));
    assert!(result.iter().any(|(name, version)| name == "opencv" && version == "4.5.0"));
}

#[test]
fn vcpkg_entries_without_name_are_skipped() {
    let entries = vec![
        VcpkgDependency::Other,
        VcpkgDependency::Object { name: None, version: Some("1".to_string()) },
        VcpkgDependency::Object { name: Some("fmt".to_string()), version: None },
    ];
    assert_eq!(vcpkg_dependencies(&entries), vec![("fmt".to_string(), "latest".to_string())]);
}

#[test]
fn test_parse_conanfile_txt() {
    let content = r#"[requires]
boost/1.75.0
openssl/1.1.1k@
zlib/1.2.11

[generators]
cmake
"#;
    let result = parse_conanfile_txt(content);

    assert_eq!(result.len(), 3);
    assert!(result.iter().any(|(name, version)| name == "boost" && version == "1.75.0"));
    assert!(result.iter().any(|(name, version)| name == "openssl" && version == "1.1.1k"));
    assert!(result.iter().any(|(name, version)| name == "zlib" && version == "1.2.11"));
}

#[test]
fn test_parse_cmake_dependencies() {
    let content = r#"cmake_minimum_required(VERSION 3.14)
project(TestProject)

include(FetchContent)
FetchContent_Declare(json
    URL https://github.com/nlohmann/json/releases/download/v3.10.5/json.tar.xz)
FetchContent_MakeAvailable(json)

find_package(Boost 1.70 REQUIRED COMPONENTS system filesystem)
find_package(OpenSSL REQUIRED)
"#;
    let result = parse_cmake_content(content).unwrap();

    assert!(!result.is_empty());
    assert!(result.iter().any(|(name, _)| name == "json"));
    assert!(result.iter().any(|(name, version)| name == "Boost" && version == "1.70"));
    assert!(result.iter().any(|(name, _)| name == "OpenSSL"));
}

#[test]
fn test_analyze_cpp_licenses_empty() {
    let config = FeludaConfig::default();
    let result = analyze_cpp_licenses(Vec::new(), &Vec::new(), &Vec::new(), &config);
    assert!(result.is_empty());
}

#[test]
fn test_analyze_python_licenses_pyproject_toml() {
    let content = r#"[project]
    name = "test-project"
    version = "0.1.0"
    dependencies = [
        "requests>=2.31.0",
        "flask~=2.0.0"
    ]
    "#;
    let deps = pyproject_dependencies(content);
    assert_eq!(
        deps,
        vec![
            ("requests".to_string(), "2.31.0".to_string()),
            ("flask".to_string(), "2.0.0".to_string())
        ]
    );
    let config = FeludaConfig::default();
    let result =
        analyze_python_licenses("pyproject.toml", content, None, &Vec::new(), &Vec::new(), &Vec::new(), &config);
    assert!(!result.is_empty());
    assert!(result.iter().any(|info| info.name == "requests"));
    assert!(result.iter().any(|info| info.name == "flask"));
}

#[test]
fn pyproject_without_dependencies_lists_none() {
    assert!(pyproject_dependencies("[project]\nname = \"x\"\n").is_empty());
    assert!(pyproject_dependencies("not = [toml").is_empty());
    assert_eq!(
        pyproject_dependencies("[project]\ndependencies = [\"numpy\", 3]\n"),
        vec![("numpy".to_string(), "latest".to_string())]
    );
}

#[test]
fn test_analyze_python_licenses_empty_file() {
    let config = FeludaConfig::default();
    let result = analyze_python_licenses("requirements.txt", "", None, &Vec::new(), &Vec::new(), &Vec::new(), &config);
    assert!(result.is_empty());
}

#[test]
fn test_analyze_python_licenses_invalid_format() {
    let config = FeludaConfig::default();
    let result = analyze_python_licenses(
        "requirements.txt",
        "# This is a comment\n\n",
        None,
        &Vec::new(),
        &Vec::new(),
        &Vec::new(),
        &config,
    );
    assert!(result.is_empty());
}

#[test]
fn test_analyze_python_licenses_packages_without_versions() {
    let config = FeludaConfig::default();
    let result = analyze_python_licenses(
        "requirements.txt",
        "requests\nflask\n# This is a comment\nnumpy",
        None,
        &Vec::new(),
        &Vec::new(),
        &Vec::new(),
        &config,
    );
    assert!(!result.is_empty());
    assert!(result.iter().any(|info| info.name == "requests"));
    assert!(result.iter().any(|info| info.name == "flask"));
    assert!(result.iter().any(|info| info.name == "numpy"));
}

#[test]
fn test_fetch_license_for_python_dependency_error_handling() {
    let result = python_license_from_metadata("definitely_nonexistent_package_12345", "1.0.0", None);
    assert!(result.contains("Unknown") || result.contains("nonexistent"));
}

#[test]
fn pypi_metadata_gives_the_license() {
    assert_eq!(pypi_metadata_url("requests", "2.31.0"), "https://pypi.org/pypi/requests/2.31.0/json");
    assert_eq!(
        python_license_from_metadata("requests", "2.31.0", Some(r#"{"info": {"license": "Apache 2.0"}}"#)),
        "Apache 2.0"
    );
    assert_eq!(
        python_license_from_metadata("requests", "2.31.0", Some(r#"{"info": {"license": ""}}"#)),
        "Unknown license for requests: 2.31.0"
    );
    assert_eq!(python_license_from_metadata("requests", "2.31.0", Some("not json")), "Unknown");
}

#[test]
fn test_parse_renv_lock() {
    let content = r#"{"R": {"Version": "4.2.0"}, "Packages": {"dplyr": {"Package": "dplyr", "Version": "1.0.9"}, "ggplot2": {"Package": "ggplot2", "Version": "3.3.6"}}}"#;
    let config = FeludaConfig::default();
    let result = analyze_r_licenses("renv.lock", content, &Vec::new(), &Vec::new(), &Vec::new(), &config);

    assert_eq!(result.len(), 2);
    assert!(result.iter().any(|info| info.name == "dplyr"));
    assert!(result.iter().any(|info| info.name == "ggplot2"));
}

#[test]
fn renv_package_without_version_is_unknown() {
    let entries = vec![("shiny".to_string(), None)];
    assert_eq!(renv_packages(&entries), vec![("shiny".to_string(), "unknown".to_string())]);
}

#[test]
fn test_analyze_r_licenses_description() {
    let desc_content = r#"Package: testpkg
Version: 1.0.0
Imports:
    dplyr (>= 1.0.0),
    ggplot2
"#;
    let config = FeludaConfig::default();
    let result = analyze_r_licenses("DESCRIPTION", desc_content, &Vec::new(), &Vec::new(), &Vec::new(), &config);

    assert!(!result.is_empty());
    assert!(result.iter().any(|info| info.name == "dplyr"));
    assert!(result.iter().any(|info| info.name == "ggplot2"));
}

#[test]
fn test_analyze_r_licenses_empty_description() {
    let config = FeludaConfig::default();
    let result = analyze_r_licenses(
        "DESCRIPTION",
        "Package: testpkg\nVersion: 1.0.0\n",
        &Vec::new(),
        &Vec::new(),
        &Vec::new(),
        &config,
    );
    assert!(result.is_empty());
}

#[test]
fn r_universe_answers_give_the_license() {
    assert_eq!(r_universe_search_url("dplyr"), "https://r-universe.dev/api/search?q=dplyr&limit=1");
    let search = r#"{"results": [{"_user": "cran"}]}"#;
    assert_eq!(
        r_universe_package_url("dplyr", search),
        Some("https://cran.r-universe.dev/api/packages/dplyr".to_string())
    );
    assert_eq!(r_universe_package_url("dplyr", r#"{"results": []}"#), None);
    assert_eq!(
        r_license_from_universe("dplyr", "1.0.9", Some(search), Some(r#"{"License": "MIT + file LICENSE"}"#)),
        "MIT + file LICENSE"
    );
    assert_eq!(
        r_license_from_universe("dplyr", "1.0.9", Some(search), None),
        "Unknown license for dplyr: 1.0.9"
    );
    assert_eq!(r_license_from_universe("dplyr", "1.0.9", Some("<html>"), None), "Unknown");
    assert_eq!(r_license_from_universe("dplyr", "1.0.9", None, None), "Unknown");
}

#[test]
fn test_analyze_rust_licenses_empty() {
    let config = FeludaConfig::default();
    let result = analyze_rust_licenses_with_config(&Vec::new(), &Vec::new(), &Vec::new(), &config, false);
    assert!(result.is_empty());
}

#[test]
fn rust_license_falls_back_to_the_manifest() {
    let config = FeludaConfig::default();
    let packages = vec![
        RustPackage {
            name: "a".to_string(),
            version: "1.0.0".to_string(),
            license: Some("MIT".to_string()),
            manifest_license: Some("GPL-3.0".to_string()),
        },
        RustPackage {
            name: "b".to_string(),
            version: "2.0.0".to_string(),
            license: None,
            manifest_license: Some("GPL-3.0".to_string()),
        },
    ];
    let with_local = analyze_rust_licenses_with_config(&packages, &Vec::new(), &Vec::new(), &config, false);
    assert_eq!(with_local[0].license, Some("MIT".to_string()));
    assert_eq!(with_local[1].license, Some("GPL-3.0".to_string()));
    assert!(with_local[1].is_restrictive);
    let without_local = analyze_rust_licenses_with_config(&packages, &Vec::new(), &Vec::new(), &config, true);
    assert_eq!(without_local[1].license, None);
}

#[test]
fn test_license_restrictive_with_default_config() {
    let config = FeludaConfig::default();
    assert!(is_license_restrictive(&Some("GPL-3.0".to_string()), &Vec::new(), false, &config));
    assert!(!is_license_restrictive(&Some("MIT".to_string()), &Vec::new(), false, &config));
}

#[test]
fn test_license_restrictive_no_license() {
    let config = FeludaConfig::default();
    assert!(is_license_restrictive(&Some("No License".to_string()), &Vec::new(), false, &config));
}

#[test]
fn test_get_license_from_manifest() {
    let manifest_content = r#"[package]
name = "test-crate"
version = "0.1.0"
license = "MIT"
"#;
    assert_eq!(get_license_from_manifest(manifest_content), Some("MIT".to_string()));
}

#[test]
fn test_get_license_from_manifest_apache() {
    let manifest_content = r#"[package]
name = "test-crate"
version = "0.1.0"
license = "Apache-2.0"
"#;
    assert_eq!(get_license_from_manifest(manifest_content), Some("Apache-2.0".to_string()));
}

#[test]
fn test_get_license_from_manifest_missing() {
    let manifest_content = r#"[package]
name = "test-crate"
version = "0.1.0"
"#;
    assert_eq!(get_license_from_manifest(manifest_content), None);
}

#[test]
fn test_get_license_from_manifest_not_found() {
    assert_eq!(get_license_from_manifest(""), None);
}

#[test]
fn test_check_which_python_file_exists() {
    let mut present: Vec<String> = Vec::new();
    assert_eq!(check_which_python_file_exists(&present), None);

    present.push("requirements.txt".to_string());
    assert_eq!(check_which_python_file_exists(&present), Some("requirements.txt".to_string()));

    present.push("pyproject.toml".to_string());
    present.push("Pipfile.lock".to_string());
    assert_eq!(check_which_python_file_exists(&present), Some("requirements.txt".to_string()));
}

#[test]
fn python_manifest_preference_order() {
    let present = vec!["pyproject.toml".to_string(), "pip_freeze.txt".to_string()];
    assert_eq!(check_which_python_file_exists(&present), Some("pip_freeze.txt".to_string()));
}

#[test]
fn pypi_requires_dist_entries() {
    let body = r#"{"info": {"requires_dist": ["charset-normalizer (<4,>=2)", "idna<4,>=2.5", 7]}}"#;
    let deps = pypi_dependencies(body);
    assert_eq!(deps.len(), 2);
    assert_eq!(deps[0].0, "charset-normalizer");
    assert_eq!(deps[1].0, "idna");
    assert!(pypi_dependencies(r#"{"info": {"requires_dist": null}}"#).is_empty());
}
