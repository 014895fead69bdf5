use feluda::debug::LogLevel;
use feluda::languages::go::{
    parse_go_mod_graph_output, parse_go_module_version, resolve_go_dependencies, GoPackages,
};
use feluda::languages::python::{parse_pypi_requirement, parse_requirement_line};
use feluda::languages::r::parse_dcf_dependencies;
use feluda::languages::{Language, PYTHON_PATHS};
use feluda::parser::{matches_language, ProjectRoot};

#[test]
fn test_log_level_as_str() {
    assert_eq!(LogLevel::Info.as_str(), "INFO");
    assert_eq!(LogLevel::Warn.as_str(), "WARN");
    assert_eq!(LogLevel::Error.as_str(), "ERROR");
    assert_eq!(LogLevel::Trace.as_str(), "TRACE");
}

#[test]
fn test_log_level_equality() {
    assert_eq!(LogLevel::Info, LogLevel::Info);
    assert_eq!(LogLevel::Warn, LogLevel::Warn);
    assert_eq!(LogLevel::Error, LogLevel::Error);
    assert_eq!(LogLevel::Trace, LogLevel::Trace);

    assert_ne!(LogLevel::Info, LogLevel::Warn);
    assert_ne!(LogLevel::Error, LogLevel::Trace);
}

#[test]
fn test_log_level_debug_format() {
    let info = LogLevel::Info;
    let debug_str = format!("{info:?}");
    assert_eq!(debug_str, "Info");
}

#[test]
fn test_go_packages_debug() {
    let go_package = GoPackages {
        name: "github.com/test/package".to_string(),
        version: "v1.0.0".to_string(),
    };

    let debug_str = format!("{go_package:?}");
    assert!(debug_str.contains("github.com/test/package"));
    assert!(debug_str.contains("v1.0.0"));
}

#[test]
fn test_parse_go_module_version() {
    assert_eq!(
        parse_go_module_version("github.com/user/repo@v1.2.3"),
        Some(("github.com/user/repo".to_string(), "v1.2.3".to_string()))
    );
    assert_eq!(
        parse_go_module_version("github.com/user/repo@v1.2.3-0.20210101000000-abcdef123456"),
        Some((
            "github.com/user/repo".to_string(),
            "v1.2.3-0.20210101000000-abcdef123456".to_string()
        ))
    );
    assert_eq!(
        parse_go_module_version("github.com/user/repo"),
        Some(("github.com/user/repo".to_string(), "unknown".to_string()))
    );
}

#[test]
fn test_parse_go_mod_graph_output() {
    let graph_output = r#"
github.com/myproject@v0.0.0 github.com/gin-gonic/gin@v1.9.1
github.com/myproject@v0.0.0 github.com/golang/protobuf@v1.5.3
github.com/gin-gonic/gin@v1.9.1 github.com/bytedance/sonic@v1.9.1
github.com/gin-gonic/gin@v1.9.1 github.com/chenzhuoyu/base64x@v0.0.0-20221115062448-fe3a3abad311
github.com/bytedance/sonic@v1.9.1 github.com/klauspost/cpuid/v2@v2.0.9
"#;

    let deps = parse_go_mod_graph_output(graph_output, 5);

    assert!(!deps.is_empty());

    let dep_names: Vec<String> = deps.iter().map(|(name, _)| name.clone()).collect();
    assert!(dep_names.contains(&"github.com/gin-gonic/gin".to_string()));
    assert!(dep_names.contains(&"github.com/golang/protobuf".to_string()));
}

#[test]
fn test_parse_go_mod_graph_output_with_depth_limit() {
    let graph_output = r#"github.com/myproject@v0.0.0 github.com/level1@v1.0.0
github.com/level1@v1.0.0 github.com/level2@v1.0.0
github.com/level2@v1.0.0 github.com/level3@v1.0.0"#;

    let deps = parse_go_mod_graph_output(graph_output, 3);
    let dep_names: Vec<String> = deps.iter().map(|(name, _)| name.clone()).collect();

    assert!(dep_names.contains(&"github.com/level1".to_string()));
    assert!(dep_names.contains(&"github.com/level2".to_string()));
    assert!(!dep_names.contains(&"github.com/level3".to_string()));
}

#[test]
fn test_resolve_go_dependencies_fallback() {
    let direct_deps = vec![
        GoPackages {
            name: "github.com/test/pkg1".to_string(),
            version: "v1.0.0".to_string(),
        },
        GoPackages {
            name: "github.com/test/pkg2".to_string(),
            version: "v2.0.0".to_string(),
        },
    ];

    // `go mod graph` cannot run for a project that does not exist: no output.
    let result = resolve_go_dependencies(None, &direct_deps, 5);

    assert_eq!(result.len(), 2);
    assert_eq!(
        result[0],
        ("github.com/test/pkg1".to_string(), "v1.0.0".to_string())
    );
    assert_eq!(
        result[1],
        ("github.com/test/pkg2".to_string(), "v2.0.0".to_string())
    );
}

#[test]
fn test_parse_requirement_line() {
    assert_eq!(
        parse_requirement_line("requests==2.31.0"),
        Some(("requests".to_string(), "2.31.0".to_string()))
    );
    assert_eq!(
        parse_requirement_line("flask>=2.0.0"),
        Some(("flask".to_string(), "2.0.0".to_string()))
    );
    assert_eq!(
        parse_requirement_line("django"),
        Some(("django".to_string(), "latest".to_string()))
    );
}

#[test]
fn test_parse_pypi_requirement() {
    assert_eq!(
        parse_pypi_requirement("requests>=2.20.0"),
        Some(("requests".to_string(), "2.20.0".to_string()))
    );
    assert_eq!(
        parse_pypi_requirement("typing-extensions>=3.7.4; python_version < '3.8'"),
        Some(("typing-extensions".to_string(), "3.7.4".to_string()))
    );
    assert_eq!(
        parse_pypi_requirement("flask"),
        Some(("flask".to_string(), "latest".to_string()))
    );
    assert_eq!(
        parse_pypi_requirement("urllib3 (<3,>=1.21.1)"),
        Some(("urllib3".to_string(), "1.21.1".to_string()))
    );
    assert_eq!(
        parse_pypi_requirement("chardet (<6,>=3.0.2)"),
        Some(("chardet".to_string(), "3.0.2".to_string()))
    );
    assert_eq!(
        parse_pypi_requirement("PySocks (!=1.5.7,>=1.5.6)"),
        Some(("PySocks".to_string(), "1.5.6".to_string()))
    );
}

#[test]
fn test_parse_dcf_dependencies() {
    let content = r#"Package: testpkg
Version: 1.0.0
Imports:
    dplyr (>= 1.0.0),
    ggplot2,
    tidyr (>= 1.2.0)
Suggests:
    testthat,
    knitr
"#;
    let deps = parse_dcf_dependencies(content);
    assert_eq!(deps.len(), 5);
    assert!(deps.iter().any(|(name, _)| name == "dplyr"));
    assert!(deps.iter().any(|(name, _)| name == "ggplot2"));
    assert!(deps.iter().any(|(name, _)| name == "tidyr"));
    assert!(deps.iter().any(|(name, _)| name == "testthat"));
    assert!(deps.iter().any(|(name, _)| name == "knitr"));
}

#[test]
fn test_parse_dcf_dependencies_with_versions() {
    let content = r#"Imports: dplyr (>= 1.0.0), ggplot2 (>= 3.3.0)"#;
    let deps = parse_dcf_dependencies(content);
    assert_eq!(deps.len(), 2);

    let dplyr_dep = deps.iter().find(|(name, _)| name == "dplyr").unwrap();
    assert_eq!(dplyr_dep.1, "1.0.0");

    let ggplot2_dep = deps.iter().find(|(name, _)| name == "ggplot2").unwrap();
    assert_eq!(ggplot2_dep.1, "3.3.0");
}

#[test]
fn test_parse_dcf_dependencies_ignores_r_version() {
    let content = r#"Depends: R (>= 4.0.0), dplyr"#;
    let deps = parse_dcf_dependencies(content);
    assert_eq!(deps.len(), 1);
    assert_eq!(deps[0].0, "dplyr");
}

#[test]
fn test_matches_language() {
    assert!(matches_language(Language::Rust("Cargo.toml"), "rust"));
    assert!(matches_language(Language::Rust("Cargo.toml"), "RUST"));
    assert!(matches_language(Language::Rust("Cargo.toml"), "Rust"));

    assert!(matches_language(Language::Node("package.json"), "node"));
    assert!(matches_language(Language::Node("package.json"), "NODE"));
    assert!(matches_language(Language::Node("package.json"), "Node"));

    assert!(matches_language(Language::Go("go.mod"), "go"));
    assert!(matches_language(Language::Go("go.mod"), "GO"));
    assert!(matches_language(Language::Go("go.mod"), "Go"));

    assert!(matches_language(Language::Python(&PYTHON_PATHS), "python"));
    assert!(matches_language(Language::Python(&PYTHON_PATHS), "PYTHON"));
    assert!(matches_language(Language::Python(&PYTHON_PATHS), "Python"));

    assert!(!matches_language(Language::Rust("Cargo.toml"), "node"));
    assert!(!matches_language(Language::Node("package.json"), "python"));
    assert!(!matches_language(Language::Go("go.mod"), "rust"));
    assert!(!matches_language(Language::Python(&PYTHON_PATHS), "go"));

    assert!(!matches_language(Language::Rust("Cargo.toml"), "java"));
    assert!(!matches_language(Language::Node("package.json"), "cpp"));
}

#[test]
fn test_project_root_debug() {
    let project_root = ProjectRoot {
        path: std::path::PathBuf::from("/test/path"),
        project_type: Language::Rust("Cargo.toml"),
    };

    let debug_str = format!("{:?}", project_root);
    assert!(debug_str.contains("/test/path"));
    assert!(debug_str.contains("Rust"));
    assert!(debug_str.contains("Cargo.toml"));
}
