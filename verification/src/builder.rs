//! Compiling the foreign module into a static archive.
//!
//! The compiler is asked for a library build in static-archive mode with
//! symbol-stripping link flags, producing one artifact at a caller-chosen
//! path. Two environment overrides carry the platform minimum-version
//! requirement; on platforms without that requirement they are a no-op and
//! are set regardless. Running the compiler is the surrounding program's
//! work; a non-zero exit is fatal for the whole build.

use vstd::prelude::*;

verus! {

/// One environment assignment for the compiler invocation.
pub struct EnvVar {
    pub name: String,
    pub value: String,
}

/// The compiler argument list: a library build in static-archive mode, with
/// symbol-stripping link flags, into the artifact path.
pub fn build_command_args(artifact: &str) -> (args: Vec<String>)
    ensures
        args@.map_values(|s: String| s@) =~= seq![
            "build"@,
            "-buildmode=c-archive"@,
            "-ldflags"@,
            "-w -s"@,
            "-o"@,
            artifact@,
        ],
{
    let mut args: Vec<String> = Vec::new();
    args.push(String::from_str("build"));
    args.push(String::from_str("-buildmode=c-archive"));
    args.push(String::from_str("-ldflags"));
    args.push(String::from_str("-w -s"));
    args.push(String::from_str("-o"));
    args.push(String::from_str(artifact));
    args
}

/// The environment overrides of the compiler invocation: the compile and link
/// flags that carry the platform minimum-version requirement.
pub fn build_env_overrides() -> (v: Vec<EnvVar>)
    ensures
        v@.len() == 2,
        v@[0].name@ == "CGO_CFLAGS"@,
        v@[0].value@ == "-mmacosx-version-min=11.0"@,
        v@[1].name@ == "CGO_LDFLAGS"@,
        v@[1].value@ == "-mmacosx-version-min=11.0"@,
{
    let mut v: Vec<EnvVar> = Vec::new();
    v.push(
        EnvVar {
            name: String::from_str("CGO_CFLAGS"),
            value: String::from_str("-mmacosx-version-min=11.0"),
        },
    );
    v.push(
        EnvVar {
            name: String::from_str("CGO_LDFLAGS"),
            value: String::from_str("-mmacosx-version-min=11.0"),
        },
    );
    v
}

} // verus!
