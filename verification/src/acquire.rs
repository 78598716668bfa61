//! Acquiring the foreign source tree.
//!
//! An existing local tree is used as it stands. Otherwise the tree is cloned
//! shallowly, over SSH when an override flag asks for it or a lightweight
//! authentication probe against the remote succeeds, over HTTPS otherwise. A
//! failed SSH clone is retried once over HTTPS; a failed HTTPS clone is
//! fatal. The decisions live here; running the probe and the clone is the
//! surrounding program's work.

use vstd::prelude::*;

verus! {

/// The transports the repository can be cloned over.
#[derive(Clone, Copy, Debug, PartialEq, Eq, Structural)]
pub enum Transport {
    Ssh,
    Https,
}

/// The first step of an acquisition.
#[derive(Clone, Copy, Debug, PartialEq, Eq, Structural)]
pub enum AcquireStep {
    /// A local tree already exists and is used without a freshness check.
    UseExisting,
    /// No local tree exists: clone over this transport.
    CloneVia(Transport),
}

/// True when SSH is preferred: the override flag is set or the probe
/// succeeded.
pub open spec fn prefers_ssh(override_set: bool, probe_ok: bool) -> bool {
    override_set || probe_ok
}

/// The transport an acquisition starts with.
pub open spec fn chosen_transport(override_set: bool, probe_ok: bool) -> Transport {
    if prefers_ssh(override_set, probe_ok) {
        Transport::Ssh
    } else {
        Transport::Https
    }
}

/// Chooses the transport for a fresh clone.
pub fn choose_transport(override_set: bool, probe_ok: bool) -> (t: Transport)
    ensures
        t == chosen_transport(override_set, probe_ok),
{
    if override_set || probe_ok {
        Transport::Ssh
    } else {
        Transport::Https
    }
}

/// Plans the acquisition: an existing tree is used as it stands, anything
/// else is cloned over the chosen transport.
pub fn plan_acquisition(repo_exists: bool, override_set: bool, probe_ok: bool) -> (s: AcquireStep)
    ensures
        repo_exists <==> s == AcquireStep::UseExisting,
        !repo_exists ==> s == AcquireStep::CloneVia(chosen_transport(override_set, probe_ok)),
{
    if repo_exists {
        AcquireStep::UseExisting
    } else {
        AcquireStep::CloneVia(choose_transport(override_set, probe_ok))
    }
}

/// After a failed clone attempt: a failed SSH attempt earns exactly one HTTPS
/// retry; a failed HTTPS attempt — primary or fallback — is fatal and earns
/// none.
pub fn retry_after_failure(failed: Transport) -> (r: Option<Transport>)
    ensures
        failed == Transport::Ssh ==> r == Some(Transport::Https),
        failed == Transport::Https ==> r is None,
{
    match failed {
        Transport::Ssh => Some(Transport::Https),
        Transport::Https => None,
    }
}

/// True when `pat` occurs contiguously somewhere in `s`.
pub open spec fn has_substring(s: Seq<char>, pat: Seq<char>) -> bool {
    exists|i: int|
        0 <= i && i + pat.len() <= s.len() && #[trigger] s.subrange(i, i + pat.len()) == pat
}

/// Reports whether `pat` starts at position `i` of `s`.
fn matches_at(s: &str, i: usize, pat: &str, s_len: usize, p_len: usize) -> (r: bool)
    requires
        s_len == s@.len(),
        p_len == pat@.len(),
        i + p_len <= s_len,
    ensures
        r == (s@.subrange(i as int, i + pat@.len()) == pat@),
{
    for k in 0..p_len
        invariant
            s_len == s@.len(),
            p_len == pat@.len(),
            i + p_len <= s_len,
            forall|m: int| 0 <= m < k ==> s@[i + m] == pat@[m],
    {
        if s.get_char(i + k) != pat.get_char(k) {
            proof {
                assert(s@.subrange(i as int, i + pat@.len())[k as int] == s@[i + k]);
            }
            return false;
        }
    }
    proof {
        assert(s@.subrange(i as int, i + pat@.len()) =~= pat@);
    }
    true
}

/// Reports whether `pat` occurs anywhere in `s`.
pub fn contains_text(s: &str, pat: &str) -> (r: bool)
    ensures
        r == has_substring(s@, pat@),
{
    let s_len = s.unicode_len();
    let p_len = pat.unicode_len();
    if p_len == 0 {
        proof {
            assert(s@.subrange(0, 0 + pat@.len() as int) =~= pat@);
        }
        return true;
    }
    if p_len > s_len {
        return false;
    }
    let bound = s_len - p_len;
    let mut i: usize = 0;
    while i <= bound
        invariant
            s_len == s@.len(),
            p_len == pat@.len(),
            1 <= p_len <= s_len,
            bound == s_len - p_len,
            i <= bound + 1,
            forall|j: int| 0 <= j < i ==> #[trigger] s@.subrange(j, j + pat@.len()) != pat@,
        decreases bound + 1 - i,
    {
        if matches_at(s, i, pat, s_len, p_len) {
            return true;
        }
        i = i + 1;
    }
    false
}

/// Reads the authentication probe's diagnostic text: the probe counts as
/// successful exactly when the remote reported a successful authentication.
pub fn probe_indicates_auth(probe_text: &str) -> (r: bool)
    ensures
        r == has_substring(probe_text@, "successfully authenticated"@),
{
    contains_text(probe_text, "successfully authenticated")
}

/// The remote the repository is cloned from, over the given transport.
pub fn remote_url(t: Transport) -> (r: String)
    ensures
        t == Transport::Ssh ==> r@ == "git@github.com:theparadigmshifters/l0-prover.git"@,
        t == Transport::Https ==> r@ == "https://github.com/theparadigmshifters/l0-prover"@,
{
    match t {
        Transport::Ssh => String::from_str("git@github.com:theparadigmshifters/l0-prover.git"),
        Transport::Https => String::from_str("https://github.com/theparadigmshifters/l0-prover"),
    }
}

/// The argument list of a shallow, single-branch clone over the given
/// transport into the destination directory.
pub fn clone_command_args(t: Transport, dest: &str) -> (args: Vec<String>)
    ensures
        args@.map_values(|s: String| s@) =~= seq![
            "clone"@,
            "--branch"@,
            "main"@,
            "--depth"@,
            "1"@,
            if t == Transport::Ssh {
                "git@github.com:theparadigmshifters/l0-prover.git"@
            } else {
                "https://github.com/theparadigmshifters/l0-prover"@
            },
            dest@,
        ],
{
    let mut args: Vec<String> = Vec::new();
    args.push(String::from_str("clone"));
    args.push(String::from_str("--branch"));
    args.push(String::from_str("main"));
    args.push(String::from_str("--depth"));
    args.push(String::from_str("1"));
    args.push(remote_url(t));
    args.push(String::from_str(dest));
    args
}

} // verus!
