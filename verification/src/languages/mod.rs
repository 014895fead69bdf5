//! Language-specific manifest parsers, and the mapping from manifest file
//! names to languages.

pub mod c;
pub mod cpp;
pub mod dotnet;
pub mod go;
pub mod node;
pub mod npm;
pub mod python;
pub mod r;
pub mod rust;

use vstd::prelude::*;

use crate::config::FeludaError;
use crate::licenses::LicenseInfo;

verus! {

/// What a parser for one language offers: the license information of a
/// project's dependencies, the language's name and its manifest files.
pub trait LanguageParser {
    /// The license information of the dependencies of the project at
    /// `project_path`.
    fn parse_dependencies(&self, project_path: &str) -> Result<Vec<LicenseInfo>, FeludaError>;

    /// The name of the language.
    fn language_name(&self) -> &'static str;

    /// The manifest files of the language.
    fn supported_files(&self) -> &'static [&'static str];
}

/// Language of a project, with the manifest file names it is recognised by.
#[derive(Debug, PartialEq, Eq, Clone, Copy)]
pub enum Language {
    C(&'static [&'static str]),
    Cpp(&'static [&'static str]),
    Rust(&'static str),
    Node(&'static str),
    Go(&'static str),
    Python(&'static [&'static str]),
    R(&'static [&'static str]),
}

/// C project file patterns.
pub const C_PATHS: [&'static str; 3] = ["configure.ac", "configure.in", "Makefile"];

/// C++ project file patterns.
pub const CPP_PATHS: [&'static str; 5] = [
    "vcpkg.json",
    "conanfile.txt",
    "conanfile.py",
    "CMakeLists.txt",
    "MODULE.bazel",
];

/// Python project file patterns.
pub const PYTHON_PATHS: [&'static str; 4] = [
    "requirements.txt",
    "Pipfile.lock",
    "pip_freeze.txt",
    "pyproject.toml",
];

/// R project file patterns.
pub const R_PATHS: [&'static str; 2] = ["DESCRIPTION", "renv.lock"];

/// The kind of project a manifest file name stands for.
#[derive(Debug, PartialEq, Eq, Clone, Copy, Structural)]
pub enum LanguageKind {
    C,
    Cpp,
    Rust,
    Node,
    Go,
    Python,
    R,
}

/// The kind of a language value.
pub open spec fn kind_of(l: Language) -> LanguageKind {
    match l {
        Language::C(_) => LanguageKind::C,
        Language::Cpp(_) => LanguageKind::Cpp,
        Language::Rust(_) => LanguageKind::Rust,
        Language::Node(_) => LanguageKind::Node,
        Language::Go(_) => LanguageKind::Go,
        Language::Python(_) => LanguageKind::Python,
        Language::R(_) => LanguageKind::R,
    }
}

/// The project kind of a manifest file name, if it is one.
pub open spec fn kind_of_file(f: Seq<char>) -> Option<LanguageKind> {
    if f == "Cargo.toml"@ {
        Some(LanguageKind::Rust)
    } else if f == "package.json"@ {
        Some(LanguageKind::Node)
    } else if f == "go.mod"@ {
        Some(LanguageKind::Go)
    } else if f == "vcpkg.json"@ || f == "conanfile.txt"@ || f == "conanfile.py"@ || f
        == "MODULE.bazel"@ || f == "CMakeLists.txt"@ {
        Some(LanguageKind::Cpp)
    } else if f == "configure.ac"@ || f == "configure.in"@ || f == "Makefile"@ {
        Some(LanguageKind::C)
    } else if f == "requirements.txt"@ || f == "Pipfile.lock"@ || f == "pip_freeze.txt"@ || f
        == "pyproject.toml"@ {
        Some(LanguageKind::Python)
    } else if f == "DESCRIPTION"@ || f == "renv.lock"@ {
        Some(LanguageKind::R)
    } else {
        None
    }
}

impl Language {
    /// The language of a manifest file name, if it is one: Rust, Node and Go
    /// carry their manifest name; the others carry their list of manifests.
    pub fn from_file_name(file_name: &str) -> (r: Option<Self>)
        ensures
            match kind_of_file(file_name@) {
                Some(k) => r matches Some(l) && kind_of(l) == k && match l {
                    Language::Rust(f) => f@ == file_name@,
                    Language::Node(f) => f@ == file_name@,
                    Language::Go(f) => f@ == file_name@,
                    Language::C(p) => p@ == C_PATHS@,
                    Language::Cpp(p) => p@ == CPP_PATHS@,
                    Language::Python(p) => p@ == PYTHON_PATHS@,
                    Language::R(p) => p@ == R_PATHS@,
                },
                None => r is None,
            },
    {
        let f = crate::text::to_chars(file_name);
        let f = f.as_slice();
        if crate::text::eq_str(f, "Cargo.toml") {
            Some(Language::Rust("Cargo.toml"))
        } else if crate::text::eq_str(f, "package.json") {
            Some(Language::Node("package.json"))
        } else if crate::text::eq_str(f, "go.mod") {
            Some(Language::Go("go.mod"))
        } else if crate::text::eq_str(f, "vcpkg.json") || crate::text::eq_str(f, "conanfile.txt")
            || crate::text::eq_str(f, "conanfile.py") || crate::text::eq_str(f, "MODULE.bazel")
            || crate::text::eq_str(f, "CMakeLists.txt") {
            Some(Language::Cpp(&CPP_PATHS))
        } else if crate::text::eq_str(f, "configure.ac") || crate::text::eq_str(f, "configure.in")
            || crate::text::eq_str(f, "Makefile") {
            Some(Language::C(&C_PATHS))
        } else if crate::text::eq_str(f, "requirements.txt") || crate::text::eq_str(
            f,
            "Pipfile.lock",
        ) || crate::text::eq_str(f, "pip_freeze.txt") || crate::text::eq_str(f, "pyproject.toml") {
            Some(Language::Python(&PYTHON_PATHS))
        } else if crate::text::eq_str(f, "DESCRIPTION") || crate::text::eq_str(f, "renv.lock") {
            Some(Language::R(&R_PATHS))
        } else {
            None
        }
    }
}

} // verus!
