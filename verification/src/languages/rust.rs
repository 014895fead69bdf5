//! Rust dependencies: the packages of a Cargo workspace's metadata.

use vstd::prelude::*;

use crate::config::FeludaConfig;
use crate::licenses::{
    License, LicenseCompatibility, LicenseInfo, OsiStatus, get_osi_status, is_license_restrictive,
    opt_string, osi_status_of, restrictive,
};
use crate::documents::{path2, toml_string_at};
use crate::licenses::cargo_toml_license;
use crate::text::owned;

verus! {

/// A package of a Cargo workspace, as its metadata describes it.
#[derive(Debug, Clone)]
pub struct RustPackage {
    pub name: String,
    pub version: String,
    /// The `license` field of its metadata.
    pub license: Option<String>,
    /// The `license` of the `[package]` table of its manifest, when the
    /// manifest could be read.
    pub manifest_license: Option<String>,
}

/// The license recorded for a package: that of its metadata, else, unless
/// local manifests are not to be read, that of its manifest.
pub open spec fn rust_license(p: RustPackage, no_local: bool) -> Option<Seq<char>> {
    match p.license {
        Some(l) => Some(l@),
        None => if no_local {
            None
        } else {
            opt_string(p.manifest_license)
        },
    }
}

/// The license information of a Rust package: the license of
/// `rust_license`, restrictive by `restrictive`; the OSI status is that of
/// the metadata's license only (unknown without one).
pub open spec fn describes_rust(
    d: LicenseInfo,
    p: RustPackage,
    no_local: bool,
    known: Seq<(String, License)>,
    osi: Seq<(String, OsiStatus)>,
    config: FeludaConfig,
) -> bool {
    &&& d.name@ == p.name@
    &&& d.version@ == p.version@
    &&& opt_string(d.license) == rust_license(p, no_local)
    &&& d.is_restrictive == restrictive(rust_license(p, no_local), known, config.strict, config)
    &&& d.compatibility == LicenseCompatibility::Unknown
    &&& d.osi_status == match p.license {
        Some(l) => osi_status_of(l@, osi),
        None => OsiStatus::Unknown,
    }
}

/// The license information of the packages of a Cargo workspace, in order
/// (see `describes_rust`).
pub fn analyze_rust_licenses_with_config(
    packages: &Vec<RustPackage>,
    known_licenses: &Vec<(String, License)>,
    osi_licenses: &Vec<(String, OsiStatus)>,
    config: &FeludaConfig,
    no_local: bool,
) -> (r: Vec<LicenseInfo>)
    ensures
        r@.len() == packages@.len(),
        forall|k: int|
            0 <= k < packages@.len() ==> describes_rust(
                #[trigger] r@[k],
                packages@[k],
                no_local,
                known_licenses@,
                osi_licenses@,
                *config,
            ),
{
    let mut out: Vec<LicenseInfo> = Vec::new();
    let mut i: usize = 0;
    while i < packages.len()
        invariant
            i <= packages@.len(),
            out@.len() == i,
            forall|k: int|
                0 <= k < i ==> describes_rust(
                    #[trigger] out@[k],
                    packages@[k],
                    no_local,
                    known_licenses@,
                    osi_licenses@,
                    *config,
                ),
        decreases packages@.len() - i,
    {
        let p = &packages[i];
        let license: Option<String> = match &p.license {
            Some(l) => Some(owned(l.as_str())),
            None => if no_local {
                None
            } else {
                match &p.manifest_license {
                    Some(l) => Some(owned(l.as_str())),
                    None => None,
                }
            },
        };
        let is_restrictive = is_license_restrictive(&license, known_licenses, config.strict, config);
        let osi_status = match &p.license {
            Some(l) => get_osi_status(l.as_str(), osi_licenses),
            None => OsiStatus::Unknown,
        };
        out.push(
            LicenseInfo {
                name: owned(p.name.as_str()),
                version: owned(p.version.as_str()),
                license,
                is_restrictive,
                compatibility: LicenseCompatibility::Unknown,
                osi_status,
            },
        );
        i = i + 1;
    }
    out
}

/// The license recorded in the `[package]` table of a crate's manifest
/// (see `cargo_toml_license`).
pub fn get_license_from_manifest(content: &str) -> (r: Option<String>)
    ensures
        opt_string(r) == cargo_toml_license(content@),
{
    toml_string_at(content, &path2("package", "license"))
}

} // verus!
