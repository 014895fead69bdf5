use feluda::config::FeludaConfig;
use feluda::license_cache::LicenseCache;
use feluda::licenses::{
    detect_project_license, is_license_ignored, normalize_license_id, License, LicenseCompatibility, LicenseInfo,
    OsiStatus,
};
use std::collections::HashMap;

#[test]
fn test_license_compatibility_display() {
    assert_eq!(LicenseCompatibility::Compatible.to_string(), "Compatible");
    assert_eq!(
        LicenseCompatibility::Incompatible.to_string(),
        "Incompatible"
    );
    assert_eq!(LicenseCompatibility::Unknown.to_string(), "Unknown");
}

#[test]
fn test_license_info_methods() {
    let info = LicenseInfo {
        name: "test_package".to_string(),
        version: "1.0.0".to_string(),
        license: Some("MIT".to_string()),
        is_restrictive: false,
        compatibility: LicenseCompatibility::Compatible,
        osi_status: OsiStatus::Approved,
    };

    assert_eq!(info.name(), "test_package");
    assert_eq!(info.version(), "1.0.0");
    assert_eq!(info.get_license(), "MIT");
    assert!(!info.is_restrictive());
    assert_eq!(info.compatibility(), &LicenseCompatibility::Compatible);
}

#[test]
fn test_license_info_no_license() {
    let info = LicenseInfo {
        name: "test_package".to_string(),
        version: "1.0.0".to_string(),
        license: None,
        is_restrictive: true,
        compatibility: LicenseCompatibility::Unknown,
        osi_status: OsiStatus::Unknown,
    };

    assert_eq!(info.get_license(), "No License");
}

#[test]
fn test_normalize_license_id() {
    assert_eq!(normalize_license_id("MIT"), "MIT");
    assert_eq!(normalize_license_id("mit"), "MIT");
    assert_eq!(normalize_license_id("Apache 2.0"), "Apache-2.0");
    assert_eq!(normalize_license_id("APACHE-2.0"), "Apache-2.0");
    assert_eq!(normalize_license_id("GPL 3.0"), "GPL-3.0");
    assert_eq!(normalize_license_id("gpl-3.0"), "GPL-3.0");
    assert_eq!(normalize_license_id("LGPL 3.0"), "LGPL-3.0");
    assert_eq!(normalize_license_id("MPL 2.0"), "MPL-2.0");
    assert_eq!(normalize_license_id("BSD 3-Clause"), "BSD-3-Clause");
    assert_eq!(normalize_license_id("BSD 2-Clause"), "BSD-2-Clause");
    assert_eq!(normalize_license_id("Unknown License"), "Unknown License");
    assert_eq!(normalize_license_id("  MIT  "), "MIT");
}

#[test]
fn test_is_license_ignored_with_no_license() {
    let config = FeludaConfig::default();
    assert!(!is_license_ignored(None, &config));
}

#[test]
fn test_is_license_ignored_not_in_ignore_list() {
    let config = FeludaConfig::default();
    let result = is_license_ignored(Some("GPL-3.0"), &config);
    let _ = result;
}

#[test]
fn test_is_license_ignored_empty_license() {
    let config = FeludaConfig::default();
    assert!(!is_license_ignored(Some(""), &config));
}

fn mit_license(description: &str, implementation: &str, full: bool) -> License {
    License {
        key: "mit".to_string(),
        name: "MIT License".to_string(),
        spdx_id: "MIT".to_string(),
        url: "https://opensource.org/licenses/MIT".to_string(),
        html_url: "https://github.com/licenses/MIT".to_string(),
        description: description.to_string(),
        implementation: implementation.to_string(),
        permissions: if full { vec!["commercial-use".to_string()] } else { vec![] },
        conditions: if full { vec!["include-copyright".to_string()] } else { vec![] },
        limitations: if full { vec!["liability".to_string()] } else { vec![] },
    }
}

#[test]
fn test_license_cache_creation() {
    let cache = LicenseCache::new();
    assert!(!cache.is_cached());
}

#[test]
fn test_license_cache_set_and_get() {
    let cache = LicenseCache::new();
    let mut licenses = HashMap::new();
    licenses.insert(
        "MIT".to_string(),
        mit_license(
            "A short and simple permissive license with conditions only requiring preservation of copyright and license notices.",
            "Add one or more copies of the notice, in text form, to any redistributed or derivative code.",
            true,
        ),
    );

    cache.set(licenses.clone());
    assert!(cache.is_cached());

    let retrieved = cache.get();
    assert!(retrieved.is_some());
    assert_eq!(retrieved.unwrap().len(), 1);
}

#[test]
fn test_license_cache_clone() {
    let cache1 = LicenseCache::new();
    let cache2 = cache1.clone();

    let mut licenses = HashMap::new();
    licenses.insert(
        "MIT".to_string(),
        mit_license(
            "A short and simple permissive license.",
            "Add one or more copies of the notice.",
            false,
        ),
    );

    cache1.set(licenses);

    assert!(cache1.is_cached());
    assert!(cache2.is_cached());
}

#[test]
fn test_detect_project_license_mit_file() {
    let files = vec!["MIT License\n\nPermission is hereby granted, free of charge...".to_string()];
    let result = detect_project_license(&files, None, None, None);
    assert_eq!(result, Some("MIT".to_string()));
}

#[test]
fn test_detect_project_license_no_license() {
    let result = detect_project_license(&Vec::new(), None, None, None);
    assert_eq!(result, None);
}

#[test]
fn project_license_from_manifests_in_order() {
    let unrecognised = vec!["Some custom terms".to_string()];
    assert_eq!(
        detect_project_license(&unrecognised, Some(r#"{"license": "ISC"}"#), Some("[package]\nlicense = \"MIT\"\n"), None),
        Some("ISC".to_string())
    );
    assert_eq!(
        detect_project_license(&unrecognised, Some("{}"), Some("[package]\nlicense = \"MIT\"\n"), None),
        Some("MIT".to_string())
    );
    assert_eq!(
        detect_project_license(&Vec::new(), None, None, Some("[project]\nlicense = {text = \"BSD-3-Clause\"}\n")),
        Some("BSD-3-Clause".to_string())
    );
    assert_eq!(
        detect_project_license(&Vec::new(), None, None, Some("[project]\nlicense = \"Apache-2.0\"\n")),
        Some("Apache-2.0".to_string())
    );
}
