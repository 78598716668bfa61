use prover_bridge::acquire::{
    choose_transport, clone_command_args, contains_text, plan_acquisition, probe_indicates_auth,
    remote_url, retry_after_failure, AcquireStep, Transport,
};
use prover_bridge::builder::{build_command_args, build_env_overrides};
use prover_bridge::linkage::{link_directive_lines, rerun_trigger_lines, Platform};
use prover_bridge::resolver::{fetch_settings, manifest_dir, resolution_steps, ManifestDir, ResolveStep};

#[test]
fn transport_choice_follows_override_and_probe() {
    assert_eq!(choose_transport(true, false), Transport::Ssh);
    assert_eq!(choose_transport(false, true), Transport::Ssh);
    assert_eq!(choose_transport(true, true), Transport::Ssh);
    assert_eq!(choose_transport(false, false), Transport::Https);
}

#[test]
fn existing_tree_is_used_without_cloning() {
    assert_eq!(plan_acquisition(true, true, true), AcquireStep::UseExisting);
    assert_eq!(plan_acquisition(false, false, false), AcquireStep::CloneVia(Transport::Https));
    assert_eq!(plan_acquisition(false, true, false), AcquireStep::CloneVia(Transport::Ssh));
}

#[test]
fn ssh_failure_earns_one_https_retry_and_https_failure_is_fatal() {
    assert_eq!(retry_after_failure(Transport::Ssh), Some(Transport::Https));
    assert_eq!(retry_after_failure(Transport::Https), None);
}

#[test]
fn probe_text_is_read_for_the_authentication_notice() {
    assert!(probe_indicates_auth("Hi user! You've successfully authenticated, but ..."));
    assert!(!probe_indicates_auth("Permission denied (publickey)."));
    assert!(!probe_indicates_auth(""));
}

#[test]
fn substring_search_is_exact() {
    assert!(contains_text("abcdef", "cde"));
    assert!(contains_text("abcdef", ""));
    assert!(contains_text("abc", "abc"));
    assert!(!contains_text("abc", "abcd"));
    assert!(!contains_text("abcdef", "cdf"));
}

#[test]
fn clone_arguments_are_shallow_and_single_branch() {
    let args = clone_command_args(Transport::Https, "/tmp/out/l0-prover");
    assert_eq!(
        args,
        vec![
            "clone",
            "--branch",
            "main",
            "--depth",
            "1",
            "https://github.com/theparadigmshifters/l0-prover",
            "/tmp/out/l0-prover",
        ]
    );
    let ssh_args = clone_command_args(Transport::Ssh, "dest");
    assert_eq!(ssh_args[5], "git@github.com:theparadigmshifters/l0-prover.git");
    assert_eq!(remote_url(Transport::Ssh), "git@github.com:theparadigmshifters/l0-prover.git");
}

#[test]
fn manifest_directory_prefers_entry_point_then_parent() {
    assert_eq!(manifest_dir(true, Some(true)), ManifestDir::EntryPoint);
    assert_eq!(manifest_dir(false, Some(true)), ManifestDir::Parent);
    assert_eq!(manifest_dir(false, Some(false)), ManifestDir::EntryPoint);
    assert_eq!(manifest_dir(false, None), ManifestDir::EntryPoint);
}

#[test]
fn fetch_settings_honor_overrides_and_default_chain() {
    let s = fetch_settings(None, None);
    assert_eq!(s.proxy, "https://proxy.golang.org,direct");
    assert_eq!(s.credential, None);
    let s2 = fetch_settings(Some("https://proxy.example,direct".to_string()), Some("ssh -i key".to_string()));
    assert_eq!(s2.proxy, "https://proxy.example,direct");
    assert_eq!(s2.credential, Some("ssh -i key".to_string()));
}

#[test]
fn resolution_downloads_then_reconciles() {
    assert_eq!(resolution_steps(), vec![ResolveStep::Download, ResolveStep::Reconcile]);
}

#[test]
fn build_arguments_ask_for_a_stripped_static_archive() {
    let args = build_command_args("/tmp/out/libproof.a");
    assert_eq!(
        args,
        vec!["build", "-buildmode=c-archive", "-ldflags", "-w -s", "-o", "/tmp/out/libproof.a"]
    );
}

#[test]
fn build_environment_carries_the_minimum_version_flags() {
    let env = build_env_overrides();
    assert_eq!(env.len(), 2);
    assert_eq!(env[0].name, "CGO_CFLAGS");
    assert_eq!(env[0].value, "-mmacosx-version-min=11.0");
    assert_eq!(env[1].name, "CGO_LDFLAGS");
    assert_eq!(env[1].value, "-mmacosx-version-min=11.0");
}

#[test]
fn link_directives_cover_each_platform() {
    let mac = link_directive_lines(Platform::MacOs, "/out");
    assert_eq!(
        mac,
        vec![
            "cargo:rustc-link-search=native=/out",
            "cargo:rustc-link-lib=static=proof",
            "cargo:rustc-link-lib=framework=CoreFoundation",
            "cargo:rustc-link-lib=framework=Security",
            "cargo:rustc-link-lib=dylib=resolv",
            "cargo:rustc-link-lib=dylib=pthread",
            "cargo:rustc-link-lib=dylib=dl",
        ]
    );
    let linux = link_directive_lines(Platform::Linux, "/out");
    assert_eq!(
        linux,
        vec![
            "cargo:rustc-link-search=native=/out",
            "cargo:rustc-link-lib=static=proof",
            "cargo:rustc-link-lib=dylib=m",
            "cargo:rustc-link-lib=dylib=resolv",
            "cargo:rustc-link-lib=dylib=pthread",
            "cargo:rustc-link-lib=dylib=dl",
        ]
    );
    let other = link_directive_lines(Platform::Other, "/out");
    assert_eq!(
        other,
        vec![
            "cargo:rustc-link-search=native=/out",
            "cargo:rustc-link-lib=static=proof",
            "cargo:rustc-link-lib=dylib=pthread",
            "cargo:rustc-link-lib=dylib=dl",
        ]
    );
}

#[test]
fn rebuild_triggers_watch_the_entry_point_only() {
    let lines = rerun_trigger_lines("/out/l0-prover/cmd/prover");
    assert_eq!(
        lines,
        vec![
            "cargo:rerun-if-changed=/out/l0-prover/cmd/prover/main.go",
            "cargo:rerun-if-changed=/out/l0-prover/cmd/prover/go.mod",
        ]
    );
}
