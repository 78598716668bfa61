//! The link directives the host build needs for the archive.
//!
//! The output directory is declared a native search path and the archive a
//! static library. On top of that come the platform-conditional system
//! libraries: two security and identity frameworks and a DNS-resolution
//! library on one platform, a math library and a DNS-resolution library on
//! another, and a threading library and a dynamic-loading library everywhere.
//! Rebuild triggers fire on the entry-point source file and its manifest.

use vstd::prelude::*;

verus! {

/// The platform the host build runs on.
#[derive(Clone, Copy, Debug, PartialEq, Eq, Structural)]
pub enum Platform {
    MacOs,
    Linux,
    Other,
}

/// The platform-conditional part of the directive lines.
pub open spec fn platform_lines(p: Platform) -> Seq<Seq<char>> {
    match p {
        Platform::MacOs => seq![
            "cargo:rustc-link-lib=framework=CoreFoundation"@,
            "cargo:rustc-link-lib=framework=Security"@,
            "cargo:rustc-link-lib=dylib=resolv"@,
        ],
        Platform::Linux => seq![
            "cargo:rustc-link-lib=dylib=m"@,
            "cargo:rustc-link-lib=dylib=resolv"@,
        ],
        Platform::Other => Seq::<Seq<char>>::empty(),
    }
}

/// All directive lines for one build: search path and static archive first,
/// the platform-conditional libraries next, the common libraries last.
pub open spec fn directive_lines(p: Platform, out_dir: Seq<char>) -> Seq<Seq<char>> {
    seq!["cargo:rustc-link-search=native="@ + out_dir, "cargo:rustc-link-lib=static=proof"@]
        + platform_lines(p) + seq![
        "cargo:rustc-link-lib=dylib=pthread"@,
        "cargo:rustc-link-lib=dylib=dl"@,
    ]
}

/// Emits the directive lines for one build.
pub fn link_directive_lines(p: Platform, out_dir: &str) -> (v: Vec<String>)
    ensures
        v@.map_values(|s: String| s@) =~= directive_lines(p, out_dir@),
{
    let mut v: Vec<String> = Vec::new();
    v.push(String::from_str("cargo:rustc-link-search=native=").concat(out_dir));
    v.push(String::from_str("cargo:rustc-link-lib=static=proof"));
    match p {
        Platform::MacOs => {
            v.push(String::from_str("cargo:rustc-link-lib=framework=CoreFoundation"));
            v.push(String::from_str("cargo:rustc-link-lib=framework=Security"));
            v.push(String::from_str("cargo:rustc-link-lib=dylib=resolv"));
        },
        Platform::Linux => {
            v.push(String::from_str("cargo:rustc-link-lib=dylib=m"));
            v.push(String::from_str("cargo:rustc-link-lib=dylib=resolv"));
        },
        Platform::Other => {},
    }
    v.push(String::from_str("cargo:rustc-link-lib=dylib=pthread"));
    v.push(String::from_str("cargo:rustc-link-lib=dylib=dl"));
    v
}

/// The rebuild triggers: the build must be re-run when the entry-point source
/// file or its manifest changes, and on nothing outside the entry-point
/// directory.
pub fn rerun_trigger_lines(entry_dir: &str) -> (v: Vec<String>)
    ensures
        v@.map_values(|s: String| s@) =~= seq![
            "cargo:rerun-if-changed="@ + entry_dir@ + "/main.go"@,
            "cargo:rerun-if-changed="@ + entry_dir@ + "/go.mod"@,
        ],
{
    let mut v: Vec<String> = Vec::new();
    v.push(String::from_str("cargo:rerun-if-changed=").concat(entry_dir).concat("/main.go"));
    v.push(String::from_str("cargo:rerun-if-changed=").concat(entry_dir).concat("/go.mod"));
    v
}

} // verus!
