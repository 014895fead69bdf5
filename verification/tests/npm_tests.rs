use feluda::languages::node::DependencyMap;
use feluda::languages::npm::{
    extract_dependencies_from_json, get_license_from_package_json, npm_lockfile_dependencies,
    npm_parseable_packages, npm_registry_license, npm_registry_urls, npm_view_license,
    npm_view_spec, package_json_license, package_json_places, package_version,
    parse_dependency_lines, parse_registry_metadata, pnpm_lockfile_dependencies, pnpm_store_dir_package,
    registry_metadata_url, pnpm_store_directory, pnpm_store_license,
    parse_pnpm_lockfile_comprehensive, parse_pnpm_lockfile_enhanced, pnpm_why_dependencies,
    yarn_lockfile_dependencies, ListedDependency, LockEntry, NodeListing, PackageJson, RegistryWalk,
};

fn pair(a: &str, b: &str) -> (String, String) {
    (a.to_string(), b.to_string())
}

fn listed(name: &str, version: Option<&str>, deps: Vec<ListedDependency>) -> ListedDependency {
    ListedDependency { name: name.to_string(), version: version.map(|v| v.to_string()), dependencies: deps }
}

fn sorted(mut v: Vec<(String, String)>) -> Vec<(String, String)> {
    v.sort();
    v
}

#[test]
fn all_dependencies_merge_tables_later_overriding() {
    let p = PackageJson {
        dependencies: Some(vec![pair("react", "^18.0.0"), pair("lodash", "4.17.21")]),
        dev_dependencies: Some(vec![pair("jest", "29.0.0")]),
        peer_dependencies: None,
        optional_dependencies: Some(vec![pair("lodash", "4.17.20")]),
    };
    let all = sorted(p.get_all_dependencies());
    assert_eq!(
        all,
        vec![pair("jest", "29.0.0"), pair("lodash", "4.17.20"), pair("react", "^18.0.0")]
    );
}

#[test]
fn tree_output_lines_name_packages() {
    let out = "project@1.0.0 /tmp/p\n├── express@4.18.2\n├── (empty)\n└── lodash@4.17.21\n";
    assert_eq!(
        parse_dependency_lines(out),
        vec![pair("project", "1.0.0 /tmp/p"), pair("express", "4.18.2"), pair("lodash", "4.17.21")]
    );
}

#[test]
fn pnpm_lockfile_package_keys() {
    let content = "lockfileVersion: '6.0'\n\npackages:\n\n  /lodash@4.17.21:\n    resolution: {integrity: x}\n  /@babel/core@7.22.0:\n    dev: true\n";
    assert_eq!(
        pnpm_lockfile_dependencies(content),
        vec![pair("lodash", "4.17.21"), pair("@babel/core", "7.22.0")]
    );
}

#[test]
fn yarn_lockfile_entries() {
    let content = "# yarn lockfile v1\n\n\"lodash@^4.17.21\":\n  version \"4.17.21\"\n  resolved \"https://x\"\n\nreact@^18.0.0, react@^18.2.0:\n  version \"18.2.0\"\n";
    assert_eq!(
        yarn_lockfile_dependencies(content),
        vec![pair("lodash", "4.17.21"), pair("react", "18.2.0")]
    );
}

#[test]
fn yarn_version_without_entry_is_ignored() {
    assert!(yarn_lockfile_dependencies("  version \"1.0.0\"\n").is_empty());
}

#[test]
fn parseable_output_packages() {
    let out = "/p\n/p/node_modules/lodash\n/p/node_modules/@babel/core\n/p/node_modules/a/node_modules/b\n";
    assert_eq!(
        npm_parseable_packages(out),
        vec![
            pair("lodash", "/p/node_modules/lodash"),
            pair("@babel/core", "/p/node_modules/@babel/core"),
            pair("b", "/p/node_modules/a/node_modules/b"),
        ]
    );
}

#[test]
fn package_manifest_fields() {
    assert_eq!(package_version(r#"{"name": "x", "version": "1.2.3"}"#), Some("1.2.3".to_string()));
    assert_eq!(package_version("{}"), None);
    assert_eq!(package_json_license(r#"{"license": "MIT"}"#), Some("MIT".to_string()));
    assert_eq!(
        package_json_license(r#"{"license": "UNLICENSED", "licenses": [{"type": "BSD"}]}"#),
        Some("BSD".to_string())
    );
    assert_eq!(package_json_license(r#"{"license": ""}"#), None);
    assert_eq!(package_json_license("not json"), None);
}

#[test]
fn package_json_places_of_names() {
    let seg = |v: &[&str]| v.iter().map(|s| s.to_string()).collect::<Vec<String>>();
    assert_eq!(
        package_json_places("lodash"),
        vec![
            seg(&["node_modules", "lodash", "package.json"]),
            seg(&["node_modules", ".pnpm", "node_modules", "lodash", "package.json"]),
        ]
    );
    assert_eq!(
        package_json_places("@babel/core"),
        vec![
            seg(&["node_modules", "@babel", "core", "package.json"]),
            seg(&["node_modules", ".pnpm", "node_modules", "@babel", "core", "package.json"]),
        ]
    );
    assert!(package_json_places("@scoped").is_empty());
}

#[test]
fn first_readable_manifest_license() {
    let contents = vec![None, Some("{}".to_string()), Some(r#"{"license": "ISC"}"#.to_string())];
    assert_eq!(get_license_from_package_json(&contents), Some("ISC".to_string()));
    assert_eq!(get_license_from_package_json(&vec![None, None]), None);
}

#[test]
fn npm_view_arguments_and_answers() {
    assert_eq!(npm_view_spec("lodash", "^4.17.21"), "lodash@4.17.21");
    assert_eq!(npm_view_spec("lodash", "latest"), "lodash");
    assert_eq!(npm_view_license("\"MIT\"\n"), Some("MIT".to_string()));
    assert_eq!(npm_view_license("ISC"), Some("ISC".to_string()));
    assert_eq!(npm_view_license("undefined\n"), None);
    assert_eq!(npm_view_license(""), None);
}

#[test]
fn registry_documents_and_licenses() {
    assert_eq!(
        npm_registry_urls("lodash", "4.17.21"),
        vec![
            "https://registry.npmjs.org/lodash/4.17.21".to_string(),
            "https://registry.npmjs.org/lodash".to_string()
        ]
    );
    assert_eq!(npm_registry_urls("lodash", ""), vec!["https://registry.npmjs.org/lodash".to_string()]);
    assert_eq!(npm_registry_license(r#"{"license": "MIT"}"#), Some("MIT".to_string()));
    assert_eq!(
        npm_registry_license(r#"{"license": "", "latest": {"license": "Apache-2.0"}}"#),
        Some("Apache-2.0".to_string())
    );
    assert_eq!(npm_registry_license(r#"{"licenses": [{"type": "MIT"}]}"#), None);
}

#[test]
fn pnpm_store_lookup() {
    let names = vec!["a@1.0.0".to_string(), "lodash@4.17.21_x".to_string(), "lodash@4.17.21".to_string()];
    assert_eq!(pnpm_store_directory(&names, "lodash", "4.17.21"), Some(1));
    assert_eq!(pnpm_store_directory(&names, "react", "18.0.0"), None);
    assert_eq!(pnpm_store_license(r#"{"license": "MIT"}"#), Some("MIT".to_string()));
    assert_eq!(pnpm_store_license(r#"{"license": "UNLICENSED"}"#), None);
}

#[test]
fn pnpm_why_dependents() {
    let froms = vec![Some("express@4.18.2".to_string()), None, Some("noversion".to_string())];
    assert_eq!(pnpm_why_dependencies(&froms), vec![pair("express", "4.18.2")]);
}

#[test]
fn package_lock_entries() {
    let entries = vec![
        LockEntry { path: "".to_string(), name: Some("app".to_string()), version: Some("1.0.0".to_string()) },
        LockEntry { path: "node_modules/lodash".to_string(), name: Some("lodash".to_string()), version: Some("4.17.21".to_string()) },
        LockEntry { path: "packages/x".to_string(), name: Some("x".to_string()), version: Some("0.1.0".to_string()) },
        LockEntry { path: "node_modules/y".to_string(), name: None, version: Some("1.0.0".to_string()) },
    ];
    assert_eq!(npm_lockfile_dependencies(&entries), vec![pair("app", "1.0.0"), pair("lodash", "4.17.21")]);
}

#[test]
fn json_listing_depth_first() {
    let listing = NodeListing {
        dependencies: vec![listed(
            "express",
            Some("4.18.2"),
            vec![listed("accepts", Some("1.3.8"), vec![]), listed("debug", None, vec![listed("ms", Some("2.0.0"), vec![])])],
        )],
        projects: vec![(vec![listed("react", Some("18.2.0"), vec![])], vec![listed("jest", Some("29.0.0"), vec![])])],
        tree_names: vec![Some("left-pad@1.3.0".to_string()), None],
    };
    let mut m = DependencyMap::new();
    m.insert("express".to_string(), "1.0.0".to_string());
    extract_dependencies_from_json(&listing, &mut m);
    let entries = m.into_entries();
    assert_eq!(
        entries,
        vec![
            pair("express", "4.18.2"),
            pair("accepts", "1.3.8"),
            pair("ms", "2.0.0"),
            pair("react", "18.2.0"),
            pair("jest", "29.0.0"),
            pair("left-pad", "1.3.0"),
        ]
    );
}

#[test]
fn registry_walk_depth_first_without_repeats() {
    let mut walk = RegistryWalk::new(vec![pair("a", "^1.0.0"), pair("b", "2.0.0")], 2);
    assert_eq!(walk.next_request(), Some(pair("a", "^1.0.0")));
    walk.record(Some(("1.2.0".to_string(), vec![pair("c", "1.0.0"), pair("a", "1.0.0")])));
    assert_eq!(walk.next_request(), Some(pair("c", "1.0.0")));
    walk.record(Some(("1.0.1".to_string(), vec![pair("d", "1.0.0")])));
    assert_eq!(walk.next_request(), Some(pair("b", "2.0.0")));
    walk.record(None);
    assert_eq!(walk.next_request(), None);
    assert_eq!(
        walk.finish(),
        vec![pair("a", "1.2.0"), pair("c", "1.0.1"), pair("b", "2.0.0")]
    );
}

#[test]
fn registry_walk_with_no_depth_asks_nothing() {
    let mut walk = RegistryWalk::new(vec![pair("a", "1.0.0")], 0);
    assert_eq!(walk.next_request(), None);
    assert!(walk.finish().is_empty());
}

#[test]
fn pnpm_lockfile_full_reading() {
    let content = "dependencies:\n  @types/node: 20.1.0\n  lodash: 4.17.21\npackages:\n  /lodash@4.17.21:\n    resolution: {integrity: x}\n";
    assert_eq!(parse_pnpm_lockfile_comprehensive(content), vec![pair("@types/node", "20.1.0")]);
}

#[test]
fn pnpm_lockfile_by_section() {
    let content = "dependencies:\n  lodash: ^4.17.21\n  react: 18.2.0\npackages:\n  /x@1.0.0:\nsettings:\n  foo@1.2.3: bar\n";
    assert_eq!(
        parse_pnpm_lockfile_enhanced(content),
        vec![pair("lodash", "4.17.21"), pair("react", "18.2.0"), pair("foo", "1.2.3")]
    );
}

#[test]
fn registry_metadata_for_the_walk() {
    assert_eq!(registry_metadata_url("lodash", "^4.17.21"), "https://registry.npmjs.org/lodash/4.17.21");
    assert_eq!(registry_metadata_url("lodash", "latest"), "https://registry.npmjs.org/lodash");
    let doc = r#"{"dist-tags": {"latest": "2.0.0"}, "versions": {"2.0.0": {"dependencies": {"a": "^1.0.0", "b": 3}}}}"#;
    assert_eq!(
        parse_registry_metadata(Some(doc), "latest"),
        Some(("2.0.0".to_string(), vec![pair("a", "^1.0.0"), pair("b", "*")]))
    );
    let version_doc = r#"{"version": "1.2.3", "dependencies": {"c": "1.0.0"}}"#;
    assert_eq!(
        parse_registry_metadata(Some(version_doc), "^1.2.3"),
        Some(("1.2.3".to_string(), vec![pair("c", "1.0.0")]))
    );
    assert_eq!(parse_registry_metadata(Some("oops"), "1.0.0"), None);
    assert_eq!(parse_registry_metadata(None, "1.0.0"), None);
}

#[test]
fn pnpm_store_directory_names() {
    assert_eq!(pnpm_store_dir_package("lodash@4.17.21_abc"), Some(pair("lodash", "4.17.21")));
    assert_eq!(pnpm_store_dir_package("@scope@pkg@1.0.0_hash"), Some(pair("@pkg", "1.0.0")));
    assert_eq!(pnpm_store_dir_package("lodash@4.17.21"), None);
}
