//! Resolving the foreign module's own dependencies before compilation.
//!
//! The dependency manifest is looked for in the entry-point directory first
//! and in its parent second; then a download step and a reconcile step run in
//! that order, each fatal on failure. An optional proxy override and an
//! optional transport-credential override are honored; without an override
//! the documented default proxy chain, which itself falls back to a direct
//! fetch, is used.

use vstd::prelude::*;

verus! {

/// Where the dependency manifest is taken from.
#[derive(Clone, Copy, Debug, PartialEq, Eq, Structural)]
pub enum ManifestDir {
    /// The entry-point directory itself.
    EntryPoint,
    /// Its parent directory.
    Parent,
}

/// The directory the manifest is read from: the entry-point directory when it
/// holds one; else the parent when the parent exists and holds one; else the
/// entry-point directory after all.
pub open spec fn manifest_dir_spec(entry_has: bool, parent_has: Option<bool>) -> ManifestDir {
    if entry_has {
        ManifestDir::EntryPoint
    } else if parent_has == Some(true) {
        ManifestDir::Parent
    } else {
        ManifestDir::EntryPoint
    }
}

/// Picks the directory the manifest is read from.
pub fn manifest_dir(entry_has: bool, parent_has: Option<bool>) -> (d: ManifestDir)
    ensures
        d == manifest_dir_spec(entry_has, parent_has),
{
    if entry_has {
        ManifestDir::EntryPoint
    } else {
        match parent_has {
            Some(true) => ManifestDir::Parent,
            _ => ManifestDir::EntryPoint,
        }
    }
}

/// The two resolution steps, in their fixed order.
#[derive(Clone, Copy, Debug, PartialEq, Eq, Structural)]
pub enum ResolveStep {
    /// Download the declared dependencies.
    Download,
    /// Reconcile the manifest against the sources.
    Reconcile,
}

/// The resolution plan: download first, reconcile second; both must succeed.
pub fn resolution_steps() -> (v: Vec<ResolveStep>)
    ensures
        v@ =~= seq![ResolveStep::Download, ResolveStep::Reconcile],
{
    let mut v: Vec<ResolveStep> = Vec::new();
    v.push(ResolveStep::Download);
    v.push(ResolveStep::Reconcile);
    v
}

/// The settings the dependency fetch runs under.
pub struct FetchSettings {
    /// The proxy the fetch goes through.
    pub proxy: String,
    /// The transport-credential command, when the caller overrides it.
    pub credential: Option<String>,
}

/// Computes the fetch settings: an overriding proxy is taken as it is, and
/// without one the default proxy chain, which falls back to a direct fetch,
/// is used; a credential override is passed through untouched.
pub fn fetch_settings(proxy_override: Option<String>, credential_override: Option<String>) -> (s:
    FetchSettings)
    ensures
        proxy_override matches Some(p) ==> s.proxy@ == p@,
        proxy_override is None ==> s.proxy@ == "https://proxy.golang.org,direct"@,
        credential_override matches Some(c) ==> s.credential matches Some(sc) && sc@ == c@,
        credential_override is None ==> s.credential is None,
{
    let proxy = match proxy_override {
        Some(p) => p,
        None => String::from_str("https://proxy.golang.org,direct"),
    };
    FetchSettings { proxy, credential: credential_override }
}

} // verus!
