use feluda::config::{
    default_restrictive_licenses, DependencyConfig, FeludaConfig, IgnoreDependency, LicenseConfig,
};

#[test]
fn test_license_config_default() {
    let config = LicenseConfig::default();
    assert_eq!(config.restrictive.len(), 7);
    assert!(config.restrictive.contains(&"GPL-3.0".to_string()));
    assert!(config.restrictive.contains(&"AGPL-3.0".to_string()));
    assert!(config.restrictive.contains(&"LGPL-3.0".to_string()));
    assert!(config.restrictive.contains(&"MPL-2.0".to_string()));
    assert!(config
        .restrictive
        .contains(&"SEE LICENSE IN LICENSE".to_string()));
    assert!(config.restrictive.contains(&"CC-BY-SA-4.0".to_string()));
    assert!(config.restrictive.contains(&"EPL-2.0".to_string()));
}

#[test]
fn test_feluda_config_default() {
    let config = FeludaConfig::default();
    assert_eq!(config.licenses.restrictive.len(), 7);
}

#[test]
fn test_default_restrictive_licenses() {
    let licenses = default_restrictive_licenses();
    assert_eq!(licenses.len(), 7);
    assert!(licenses.contains(&"GPL-3.0".to_string()));
    assert!(licenses.contains(&"AGPL-3.0".to_string()));
    assert!(licenses.contains(&"LGPL-3.0".to_string()));
    assert!(licenses.contains(&"MPL-2.0".to_string()));
    assert!(licenses.contains(&"SEE LICENSE IN LICENSE".to_string()));
    assert!(licenses.contains(&"CC-BY-SA-4.0".to_string()));
    assert!(licenses.contains(&"EPL-2.0".to_string()));
}

#[test]
fn test_config_debug_output() {
    let config = FeludaConfig::default();
    let debug_str = format!("{config:?}");

    assert!(debug_str.contains("FeludaConfig"));
    assert!(debug_str.contains("licenses"));
    assert!(debug_str.contains("restrictive"));
}

#[test]
fn test_license_config_validation_empty_list() {
    let config = LicenseConfig {
        restrictive: vec![],
        ignore: Vec::new(),
    };
    assert!(config.validate().is_ok());
}

#[test]
fn test_license_config_validation_empty_license() {
    let config = LicenseConfig {
        restrictive: vec!["MIT".to_string(), "".to_string(), "GPL-3.0".to_string()],
        ignore: Vec::new(),
    };
    let result = config.validate();
    assert!(result.is_err());
    assert!(result
        .unwrap_err()
        .to_string()
        .contains("Empty license string"));
}

#[test]
fn test_license_config_validation_duplicate_licenses() {
    let config = LicenseConfig {
        restrictive: vec![
            "MIT".to_string(),
            "GPL-3.0".to_string(),
            "MIT".to_string(),
            "Apache-2.0".to_string(),
        ],
        ignore: Vec::new(),
    };
    let result = config.validate();
    assert!(result.is_err());
    let error_msg = result.unwrap_err().to_string();
    assert!(error_msg.contains("Duplicate licenses"));
    assert!(error_msg.contains("MIT"));
}

#[test]
fn test_license_config_validation_valid_licenses() {
    let config = LicenseConfig {
        restrictive: vec![
            "MIT".to_string(),
            "Apache-2.0".to_string(),
            "GPL-3.0".to_string(),
            "SEE LICENSE IN LICENSE".to_string(),
        ],
        ignore: Vec::new(),
    };
    assert!(config.validate().is_ok());
}

#[test]
fn test_license_identifier_validation() {
    assert!(LicenseConfig::is_valid_license_identifier("MIT"));
    assert!(LicenseConfig::is_valid_license_identifier("Apache-2.0"));
    assert!(LicenseConfig::is_valid_license_identifier("GPL-3.0+"));
    assert!(LicenseConfig::is_valid_license_identifier(
        "SEE LICENSE IN LICENSE"
    ));
    assert!(LicenseConfig::is_valid_license_identifier("UNLICENSED"));
    assert!(LicenseConfig::is_valid_license_identifier("NOASSERTION"));

    assert!(!LicenseConfig::is_valid_license_identifier(""));
    assert!(!LicenseConfig::is_valid_license_identifier(
        &"x".repeat(101)
    ));
}

#[test]
fn test_dependency_config_validation_zero_depth() {
    let config = DependencyConfig {
        max_depth: 0,
        ignore: Vec::new(),
    };
    let result = config.validate();
    assert!(result.is_err());
    assert!(result
        .unwrap_err()
        .to_string()
        .contains("must be greater than 0"));
}

#[test]
fn test_dependency_config_validation_excessive_depth() {
    let config = DependencyConfig {
        max_depth: 150,
        ignore: Vec::new(),
    };
    let result = config.validate();
    assert!(result.is_err());
    assert!(result
        .unwrap_err()
        .to_string()
        .contains("must be 100 or less"));
}

#[test]
fn test_dependency_config_validation_high_depth_warning() {
    let config = DependencyConfig {
        max_depth: 75,
        ignore: Vec::new(),
    };
    assert!(config.validate().is_ok());
}

#[test]
fn test_dependency_config_validation_valid_depth() {
    let config = DependencyConfig {
        max_depth: 10,
        ignore: Vec::new(),
    };
    assert!(config.validate().is_ok());
}

#[test]
fn test_feluda_config_validation_success() {
    let config = FeludaConfig {
        strict: false,
        licenses: LicenseConfig {
            restrictive: vec!["MIT".to_string(), "GPL-3.0".to_string()],
            ignore: Vec::new(),
        },
        dependencies: DependencyConfig {
            max_depth: 10,
            ignore: Vec::new(),
        },
    };
    assert!(config.validate().is_ok());
}

#[test]
fn test_feluda_config_validation_license_failure() {
    let config = FeludaConfig {
        strict: false,
        licenses: LicenseConfig {
            restrictive: vec!["".to_string()],
            ignore: Vec::new(),
        },
        dependencies: DependencyConfig {
            max_depth: 10,
            ignore: Vec::new(),
        },
    };
    let result = config.validate();
    assert!(result.is_err());
    assert!(result
        .unwrap_err()
        .to_string()
        .contains("Empty license string"));
}

#[test]
fn test_feluda_config_validation_dependency_failure() {
    let config = FeludaConfig {
        strict: false,
        licenses: LicenseConfig {
            restrictive: vec!["MIT".to_string()],
            ignore: Vec::new(),
        },
        dependencies: DependencyConfig {
            max_depth: 0,
            ignore: Vec::new(),
        },
    };
    let result = config.validate();
    assert!(result.is_err());
    assert!(result
        .unwrap_err()
        .to_string()
        .contains("must be greater than 0"));
}

#[test]
fn test_license_config_validation_ignore_empty_license() {
    let config = LicenseConfig {
        restrictive: vec!["GPL-3.0".to_string()],
        ignore: vec!["MIT".to_string(), "".to_string(), "Apache-2.0".to_string()],
    };
    let result = config.validate();
    assert!(result.is_err());
    assert!(result
        .unwrap_err()
        .to_string()
        .contains("Empty license string"));
}

#[test]
fn test_license_config_validation_ignore_duplicate_licenses() {
    let config = LicenseConfig {
        restrictive: vec!["GPL-3.0".to_string()],
        ignore: vec![
            "MIT".to_string(),
            "Apache-2.0".to_string(),
            "MIT".to_string(),
        ],
    };
    let result = config.validate();
    assert!(result.is_err());
    let error_msg = result.unwrap_err().to_string();
    assert!(error_msg.contains("Duplicate licenses"));
    assert!(error_msg.contains("ignore list"));
}

#[test]
fn test_license_config_validation_ignore_overlap_with_restrictive() {
    let config = LicenseConfig {
        restrictive: vec!["GPL-3.0".to_string(), "MIT".to_string()],
        ignore: vec!["MIT".to_string(), "Apache-2.0".to_string()],
    };
    assert!(config.validate().is_ok());
}

#[test]
fn test_license_config_with_all_fields() {
    let config = LicenseConfig {
        restrictive: vec!["GPL-3.0".to_string(), "AGPL-3.0".to_string()],
        ignore: vec!["MIT".to_string(), "Apache-2.0".to_string()],
    };
    assert_eq!(config.restrictive.len(), 2);
    assert_eq!(config.ignore.len(), 2);
    assert!(config.validate().is_ok());
}

#[test]
fn test_default_ignore_list_is_empty() {
    let config = FeludaConfig::default();
    assert!(config.licenses.ignore.is_empty());
}

#[test]
fn test_dependency_config_ignore_basic() {
    let config = DependencyConfig {
        max_depth: 10,
        ignore: vec![IgnoreDependency {
            name: "lodash".to_string(),
            version: "4.17.21".to_string(),
            reason: "Test reason".to_string(),
        }],
    };
    assert!(config.should_ignore_dependency("lodash", Some("4.17.21")));
    assert!(!config.should_ignore_dependency("lodash", Some("4.17.20")));
    assert!(!config.should_ignore_dependency("underscore", Some("4.17.21")));
}

#[test]
fn test_dependency_config_ignore_all_versions() {
    let config = DependencyConfig {
        max_depth: 10,
        ignore: vec![IgnoreDependency {
            name: "lodash".to_string(),
            version: "".to_string(),
            reason: "Ignore all versions".to_string(),
        }],
    };
    assert!(config.should_ignore_dependency("lodash", Some("4.17.21")));
    assert!(config.should_ignore_dependency("lodash", Some("4.17.20")));
    assert!(config.should_ignore_dependency("lodash", None));
    assert!(!config.should_ignore_dependency("underscore", Some("1.0.0")));
}

#[test]
fn test_dependency_config_should_ignore_dependency_multiple() {
    let config = DependencyConfig {
        max_depth: 10,
        ignore: vec![
            IgnoreDependency {
                name: "lodash".to_string(),
                version: "4.17.21".to_string(),
                reason: "Specific version".to_string(),
            },
            IgnoreDependency {
                name: "underscore".to_string(),
                version: "".to_string(),
                reason: "All versions".to_string(),
            },
        ],
    };
    assert!(config.should_ignore_dependency("lodash", Some("4.17.21")));
    assert!(!config.should_ignore_dependency("lodash", Some("4.17.20")));
    assert!(config.should_ignore_dependency("underscore", Some("1.0.0")));
    assert!(config.should_ignore_dependency("underscore", None));
}

#[test]
fn test_dependency_config_validation_empty_ignore() {
    let config = DependencyConfig {
        max_depth: 10,
        ignore: Vec::new(),
    };
    assert!(config.validate().is_ok());
}

#[test]
fn test_dependency_config_validation_empty_name() {
    let config = DependencyConfig {
        max_depth: 10,
        ignore: vec![IgnoreDependency {
            name: "".to_string(),
            version: "1.0.0".to_string(),
            reason: "Test".to_string(),
        }],
    };
    let result = config.validate();
    assert!(result.is_err());
    assert!(result
        .unwrap_err()
        .to_string()
        .contains("Empty dependency name"));
}

#[test]
fn test_dependency_config_validation_duplicate_dependencies() {
    let config = DependencyConfig {
        max_depth: 10,
        ignore: vec![
            IgnoreDependency {
                name: "lodash".to_string(),
                version: "4.17.21".to_string(),
                reason: "First".to_string(),
            },
            IgnoreDependency {
                name: "lodash".to_string(),
                version: "4.17.21".to_string(),
                reason: "Second".to_string(),
            },
        ],
    };
    let result = config.validate();
    assert!(result.is_err());
    assert!(result
        .unwrap_err()
        .to_string()
        .contains("Duplicate dependencies"));
}

#[test]
fn test_dependency_config_validation_no_reason_warning() {
    let config = DependencyConfig {
        max_depth: 10,
        ignore: vec![IgnoreDependency {
            name: "lodash".to_string(),
            version: "4.17.21".to_string(),
            reason: "".to_string(),
        }],
    };
    assert!(config.validate().is_ok());
}

#[test]
fn test_feluda_config_with_dependency_ignore() {
    let config = FeludaConfig {
        strict: false,
        licenses: LicenseConfig {
            restrictive: vec!["GPL-3.0".to_string()],
            ignore: Vec::new(),
        },
        dependencies: DependencyConfig {
            max_depth: 10,
            ignore: vec![IgnoreDependency {
                name: "lodash".to_string(),
                version: "4.17.21".to_string(),
                reason: "Test".to_string(),
            }],
        },
    };
    assert!(config.validate().is_ok());
    assert!(config
        .dependencies
        .should_ignore_dependency("lodash", Some("4.17.21")));
}

#[test]
fn test_default_dependency_config() {
    let config = DependencyConfig::default();
    assert_eq!(config.max_depth, 10);
    assert!(config.ignore.is_empty());
}

#[test]
fn test_dependency_ignore_empty_version_field() {
    let config = DependencyConfig {
        max_depth: 10,
        ignore: vec![
            IgnoreDependency {
                name: "package1".to_string(),
                version: "".to_string(),
                reason: "Ignore all versions".to_string(),
            },
            IgnoreDependency {
                name: "package2".to_string(),
                version: "1.0.0".to_string(),
                reason: "Ignore specific version".to_string(),
            },
        ],
    };

    assert!(config.should_ignore_dependency("package1", Some("any-version")));
    assert!(config.should_ignore_dependency("package1", None));
    assert!(config.should_ignore_dependency("package2", Some("1.0.0")));
    assert!(!config.should_ignore_dependency("package2", Some("2.0.0")));
}

#[test]
fn test_feluda_error_debug_format() {
    let error = feluda::config::FeludaError::Config("test config error".to_string());
    let debug_str = format!("{error:?}");
    assert!(debug_str.contains("Config"));
    assert!(debug_str.contains("test config error"));
}
