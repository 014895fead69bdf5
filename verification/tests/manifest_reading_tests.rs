use feluda::config::{FeludaConfig, FeludaError};
use feluda::languages::cpp::registry_license;
use feluda::languages::npm::workspace_patterns;
use feluda::languages::dotnet::{analyze_dotnet_licenses, dotnet_file_supported};
use feluda::languages::python::{analyze_python_licenses, python_direct_dependencies, uv_lock_entries};
use feluda::languages::r::{analyze_r_licenses, r_direct_dependencies, renv_lock_entries};
use feluda::languages::{Language, CPP_PATHS, C_PATHS, PYTHON_PATHS, R_PATHS};
use feluda::licenses::{is_license_compatible, is_license_ignored, normalize_license_id};
use feluda::parser::matches_language;

fn pair(a: &str, b: &str) -> (String, String) {
    (a.to_string(), b.to_string())
}

fn ignoring(list: &[&str]) -> FeludaConfig {
    let mut config = FeludaConfig::default();
    config.licenses.ignore = list.iter().map(|s| s.to_string()).collect();
    config
}

#[test]
fn ignored_license_must_be_in_the_list() {
    let config = ignoring(&["MIT"]);
    assert!(is_license_ignored(Some("MIT"), &config));
    assert!(is_license_ignored(Some("  MIT "), &config));
    assert!(!is_license_ignored(Some("MIT-0"), &config));
    assert!(!is_license_ignored(Some("Apache-2.0"), &config));
    assert!(is_license_ignored(Some("Apache-2.0"), &ignoring(&["MIT", "Apache-2.0"])));
    assert!(!is_license_ignored(Some("MIT"), &ignoring(&[" MIT"])));
}

#[test]
fn language_filter_covers_c_cpp_and_r() {
    assert!(matches_language(Language::C(&C_PATHS), "c"));
    assert!(matches_language(Language::Cpp(&CPP_PATHS), "CPP"));
    assert!(matches_language(Language::R(&R_PATHS), "R"));
    assert!(!matches_language(Language::C(&C_PATHS), "cpp"));
    assert!(!matches_language(Language::R(&R_PATHS), "rust"));
}

#[test]
fn manifest_names_carry_their_lists() {
    assert_eq!(Language::from_file_name("CMakeLists.txt"), Some(Language::Cpp(&CPP_PATHS)));
    assert_eq!(Language::from_file_name("Makefile"), Some(Language::C(&C_PATHS)));
    assert_eq!(Language::from_file_name("pyproject.toml"), Some(Language::Python(&PYTHON_PATHS)));
    assert_eq!(Language::from_file_name("renv.lock"), Some(Language::R(&R_PATHS)));
    assert_eq!(Language::from_file_name("README.md"), None);
}

#[test]
fn requirements_with_only_comments_list_nothing() {
    assert!(python_direct_dependencies("requirements.txt", "# This is a comment\n\n").is_empty());
}

#[test]
fn python_direct_dependencies_by_manifest() {
    assert_eq!(
        python_direct_dependencies("requirements.txt", "requests==2.31.0\n# pinned\nflask>=2.0\n"),
        vec![pair("requests", "2.31.0"), pair("flask", "2.0")]
    );
    let pyproject = "[project]\nname = \"demo\"\ndependencies = [\"requests==2.31.0\", \"numpy\"]\n";
    assert_eq!(
        python_direct_dependencies("pyproject.toml", pyproject),
        vec![pair("requests", "2.31.0"), pair("numpy", "latest")]
    );
}

#[test]
fn uv_lock_entries_read_packages() {
    let lock = "version = 1\n\n[[package]]\nname = \"requests\"\nversion = \"2.31.0\"\n\n[[package]]\nname = \"idna\"\n";
    assert_eq!(
        uv_lock_entries(lock),
        Some(vec![
            (Some("requests".to_string()), Some("2.31.0".to_string())),
            (Some("idna".to_string()), None),
        ])
    );
    assert_eq!(uv_lock_entries("version = 1\n"), Some(vec![]));
    assert_eq!(uv_lock_entries("not = [toml"), None);
}

#[test]
fn renv_lock_and_description_dependencies() {
    let renv = r#"{"R": {"Version": "4.3.0"}, "Packages": {"dplyr": {"Package": "dplyr", "Version": "1.1.2"}, "rlang": {"Package": "rlang"}}}"#;
    assert_eq!(
        renv_lock_entries(renv),
        Some(vec![("dplyr".to_string(), Some("1.1.2".to_string())), ("rlang".to_string(), None)])
    );
    assert_eq!(r_direct_dependencies("renv.lock", renv), vec![pair("dplyr", "1.1.2"), pair("rlang", "unknown")]);
    assert_eq!(renv_lock_entries("{}"), None);
    assert!(r_direct_dependencies("renv.lock", "not json").is_empty());
    let description = "Package: demo\nImports: dplyr\n";
    assert_eq!(r_direct_dependencies("DESCRIPTION", description), vec![pair("dplyr", "latest")]);
    assert!(r_direct_dependencies("requirements.txt", description).is_empty());
}

#[test]
fn workspace_patterns_from_array_or_object() {
    assert_eq!(
        workspace_patterns(r#"{"workspaces": ["packages/*", 3, "apps/web"]}"#),
        vec!["packages/*".to_string(), "apps/web".to_string()]
    );
    assert_eq!(workspace_patterns(r#"{"workspaces": {"packages": ["libs/*"]}}"#), vec!["libs/*".to_string()]);
    assert!(workspace_patterns(r#"{"name": "x"}"#).is_empty());
    assert!(workspace_patterns("nope").is_empty());
}

#[test]
fn registry_license_reads_the_license_field() {
    assert_eq!(registry_license(r#"{"name": "zlib", "license": "Zlib"}"#), Some("Zlib".to_string()));
    assert_eq!(registry_license(r#"{"name": "zlib"}"#), None);
    assert_eq!(registry_license("garbage"), None);
}

#[test]
fn test_feluda_error_variants() {
    let config_error = FeludaError::Config("Invalid config".to_string());
    let parser_error = FeludaError::Parser("Parse failed".to_string());
    let license_error = FeludaError::License("License error".to_string());
    let unknown_error = FeludaError::Unknown("Unknown issue".to_string());
    assert!(config_error.to_string().contains("Configuration error"));
    assert!(parser_error.to_string().contains("Parser error"));
    assert!(license_error.to_string().contains("License analysis error"));
    assert!(unknown_error.to_string().contains("Unknown error"));
}

#[test]
fn normalizing_twice_changes_nothing() {
    for id in ["mit", " Apache 2.0 ", "GPLv3", "lgpl-2.1", "BSD 3-Clause", "The Unlicense", "zlib", "Custom"] {
        let once = normalize_license_id(id);
        assert_eq!(normalize_license_id(&once), once);
    }
}

#[test]
fn compatibility_ignores_prior_normalization() {
    let matrix = vec![("MIT".to_string(), vec!["MIT".to_string(), "Apache-2.0".to_string()])];
    for (d, p) in [("apache 2.0", "mit license"), ("GPLv3", "MIT"), ("mit", "Unknown")] {
        for strict in [false, true] {
            assert_eq!(
                is_license_compatible(&normalize_license_id(d), &normalize_license_id(p), strict, &matrix),
                is_license_compatible(d, p, strict, &matrix)
            );
        }
    }
}

#[test]
fn python_analysis_uses_resolved_packages_and_their_licenses() {
    let config = FeludaConfig::default();
    let table = vec![("requests".to_string(), "2.31.0".to_string(), "Apache-2.0".to_string())];
    let direct = analyze_python_licenses("requirements.txt", "requests==2.31.0\n", None, &table, &vec![], &vec![], &config);
    assert_eq!(direct.len(), 1);
    assert_eq!(direct[0].license.as_deref(), Some("Apache-2.0"));
    let resolved = Some(vec![pair("requests", "2.31.0"), pair("idna", "3.4")]);
    let all = analyze_python_licenses("requirements.txt", "requests==2.31.0\n", resolved, &table, &vec![], &vec![], &config);
    assert_eq!(all.iter().map(|i| i.name.as_str()).collect::<Vec<_>>(), vec!["requests", "idna"]);
    assert_eq!(all[1].license.as_deref(), Some("Unknown"));
}

#[test]
fn r_analysis_reads_only_its_manifests() {
    let config = FeludaConfig::default();
    let description = "Package: demo\nImports: dplyr\n";
    assert!(analyze_r_licenses("requirements.txt", description, &vec![], &vec![], &vec![], &config).is_empty());
    assert_eq!(analyze_r_licenses("DESCRIPTION", description, &vec![], &vec![], &vec![], &config).len(), 1);
}

#[test]
fn dotnet_analysis_rejects_other_files() {
    let config = FeludaConfig::default();
    let deps = vec![("Newtonsoft.Json".to_string(), "13.0.1".to_string(), "MIT".to_string())];
    assert!(!dotnet_file_supported(Some("txt")));
    assert!(dotnet_file_supported(Some("csproj")) && dotnet_file_supported(None));
    assert!(analyze_dotnet_licenses(Some("txt"), deps.clone(), &vec![], &vec![], &config).is_empty());
    assert_eq!(analyze_dotnet_licenses(Some("csproj"), deps, &vec![], &vec![], &config).len(), 1);
}
