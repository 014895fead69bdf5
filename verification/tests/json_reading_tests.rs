use feluda::languages::cpp::{vcpkg_dependencies, vcpkg_entries_from_json, VcpkgDependency};
use feluda::languages::node::DependencyMap;
use feluda::languages::npm::{
    dependency_requirements, extract_dependencies_from_json, extract_deps_recursive, lock_entries_from_json,
    node_listing_from_json, npm_lockfile_dependencies, pnpm_document_project, pnpm_listing_projects, pnpm_why_froms,
    yarn_tree_listing,
};
use feluda::licenses::{license_from_json, license_keys_from_list, osi_ids_from_json};

fn pairs(v: &[(&str, &str)]) -> Vec<(String, String)> {
    v.iter().map(|(a, b)| (a.to_string(), b.to_string())).collect()
}

fn sorted(mut v: Vec<(String, String)>) -> Vec<(String, String)> {
    v.sort();
    v
}

#[test]
fn license_list_keys_skip_items_without_a_string_key() {
    let list = r#"[{"key": "mit", "name": "MIT"}, {"name": "no key"}, {"key": 3}, {"key": "apache-2.0"}]"#;
    assert_eq!(license_keys_from_list(list), Some(vec!["mit".to_string(), "apache-2.0".to_string()]));
    assert_eq!(license_keys_from_list(r#"{"key": "mit"}"#), None);
    assert_eq!(license_keys_from_list("not json"), None);
    assert_eq!(license_keys_from_list("[]"), Some(vec![]));
}

#[test]
fn fetched_license_reads_fields_and_falls_back_to_the_list_key() {
    let body = r#"{"name": "MIT License", "spdx_id": null, "url": "u",
        "permissions": ["commercial-use", 7, "modifications"], "conditions": "none"}"#;
    let l = license_from_json(body, "mit").unwrap();
    assert_eq!(l.key, "mit");
    assert_eq!(l.name, "MIT License");
    assert_eq!(l.spdx_id, "mit");
    assert_eq!(l.url, "u");
    assert_eq!(l.html_url, "");
    assert_eq!(l.description, "");
    assert_eq!(l.permissions, vec!["commercial-use".to_string(), "modifications".to_string()]);
    assert!(l.conditions.is_empty());
    assert!(l.limitations.is_empty());
}

#[test]
fn fetched_license_keeps_an_empty_name() {
    let l = license_from_json(r#"{"key": "k", "name": "", "spdx_id": "MIT"}"#, "mit").unwrap();
    assert_eq!((l.key.as_str(), l.name.as_str(), l.spdx_id.as_str()), ("k", "", "MIT"));
    assert!(license_from_json("{", "mit").is_none());
}

#[test]
fn osi_ids_are_read_from_each_entry() {
    let ids = osi_ids_from_json(r#"[{"id": "MIT"}, {"name": "x"}, {"id": "Apache-2.0"}]"#).unwrap();
    assert_eq!(ids, vec![Some("MIT".to_string()), None, Some("Apache-2.0".to_string())]);
    assert!(osi_ids_from_json(r#"{"id": "MIT"}"#).is_none());
}

#[test]
fn npm_listing_reads_nested_dependencies() {
    let text = r#"{"dependencies": {"a": {"version": "1.0.0", "dependencies": {"b": {"version": "2.0.0"}}},
        "c": {"dependencies": {"d": {"version": "4.0.0"}}}}}"#;
    let listing = node_listing_from_json(text).unwrap();
    assert_eq!(listing.dependencies.len(), 2);
    assert_eq!(listing.dependencies[0].name, "a");
    assert_eq!(listing.dependencies[0].version.as_deref(), Some("1.0.0"));
    assert_eq!(listing.dependencies[0].dependencies[0].name, "b");
    assert_eq!(listing.dependencies[1].version, None);
    let mut m = DependencyMap::new();
    extract_dependencies_from_json(&listing, &mut m);
    assert_eq!(sorted(m.into_entries()), pairs(&[("a", "1.0.0"), ("b", "2.0.0"), ("d", "4.0.0")]));
    assert!(node_listing_from_json("nope").is_none());
}

#[test]
fn pnpm_listing_reads_each_project() {
    let text = r#"[{"dependencies": {"a": {"version": "1.0.0"}}, "devDependencies": {"b": {"version": "2.0.0"}}},
        {"dependencies": {"c": {"version": "3.0.0"}}}]"#;
    let listing = node_listing_from_json(text).unwrap();
    assert!(listing.dependencies.is_empty());
    assert_eq!(listing.projects.len(), 2);
    let mut m = DependencyMap::new();
    extract_dependencies_from_json(&listing, &mut m);
    assert_eq!(sorted(m.into_entries()), pairs(&[("a", "1.0.0"), ("b", "2.0.0"), ("c", "3.0.0")]));
}

#[test]
fn yarn_tree_lines_are_read_from_their_data() {
    let line = r#"{"type": "tree", "data": {"trees": [{"name": "left-pad@1.3.0"}, {"name": "x"}]}}"#;
    let listing = yarn_tree_listing(line).unwrap();
    assert_eq!(listing.tree_names, vec![Some("left-pad@1.3.0".to_string()), Some("x".to_string())]);
    let mut m = DependencyMap::new();
    extract_dependencies_from_json(&listing, &mut m);
    assert_eq!(m.into_entries(), pairs(&[("left-pad", "1.3.0")]));
    assert!(yarn_tree_listing(r#"{"type": "info", "data": {}}"#).is_none());
    assert!(yarn_tree_listing(r#"{"type": "tree"}"#).is_none());
}

#[test]
fn pnpm_projects_read_four_tables() {
    let text = r#"[{"optionalDependencies": {"o": {"version": "1.0.0"}}, "peerDependencies": {"p": {"version": "2.0.0"}}}]"#;
    let projects = pnpm_listing_projects(text, true).unwrap();
    assert_eq!(projects.len(), 1);
    let mut m = DependencyMap::new();
    extract_deps_recursive(&projects[0].optional_dependencies, &mut m);
    extract_deps_recursive(&projects[0].peer_dependencies, &mut m);
    assert_eq!(sorted(m.into_entries()), pairs(&[("o", "1.0.0"), ("p", "2.0.0")]));
    let object = r#"{"dependencies": {"a": {"version": "1.0.0"}}}"#;
    assert_eq!(pnpm_listing_projects(object, true).unwrap().len(), 0);
    assert_eq!(pnpm_listing_projects(object, false).unwrap()[0].dependencies.len(), 1);
    assert!(pnpm_document_project(text).unwrap().dependencies.is_empty());
}

#[test]
fn pnpm_why_dependents_and_package_requirements() {
    let why = r#"{"dependents": [{"from": "react@18.2.0"}, {"to": "x"}]}"#;
    assert_eq!(pnpm_why_froms(why), vec![Some("react@18.2.0".to_string()), None]);
    assert!(pnpm_why_froms("{}").is_empty());
    let pj = r#"{"dependencies": {"a": "^1.0.0", "b": {"x": 1}}}"#;
    assert_eq!(sorted(dependency_requirements(pj).unwrap()), pairs(&[("a", "^1.0.0"), ("b", "*")]));
    assert_eq!(dependency_requirements("{}"), Some(vec![]));
    assert_eq!(dependency_requirements("{"), None);
}

#[test]
fn package_lock_entries_are_read_from_packages() {
    let lock = r#"{"packages": {"": {"name": "app", "version": "1.0.0"},
        "node_modules/a": {"name": "a", "version": "2.0.0"}, "other/b": {"name": "b", "version": "3.0.0"}}}"#;
    let entries = lock_entries_from_json(lock);
    assert_eq!(entries.len(), 3);
    assert_eq!(sorted(npm_lockfile_dependencies(&entries)), pairs(&[("a", "2.0.0"), ("app", "1.0.0")]));
    assert!(lock_entries_from_json("[]").is_empty());
}

#[test]
fn vcpkg_entries_read_names_objects_and_others() {
    let manifest = r#"{"dependencies": ["fmt", {"name": "boost", "version": "1.83"}, {"name": "zlib"}, 7, {"x": 1}]}"#;
    let entries = vcpkg_entries_from_json(manifest).unwrap();
    assert_eq!(entries.len(), 5);
    assert!(matches!(&entries[0], VcpkgDependency::Name(n) if n == "fmt"));
    assert!(matches!(&entries[3], VcpkgDependency::Other));
    assert!(matches!(&entries[4], VcpkgDependency::Object { name: None, version: None }));
    assert_eq!(
        vcpkg_dependencies(&entries),
        pairs(&[("fmt", "latest"), ("boost", "1.83"), ("zlib", "latest")])
    );
    assert!(vcpkg_entries_from_json("{").is_none());
    assert!(vcpkg_entries_from_json("{}").unwrap().is_empty());
}
