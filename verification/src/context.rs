//! The per-build context: the paths one build invocation works with.

use vstd::prelude::*;

verus! {

/// The paths of one build invocation, fixed at construction: the designated
/// output directory, the local repository below it, and the static archive
/// the build produces. The entry-point directory is discovered later by the
/// locator and lives below the repository path.
pub struct BuildContext {
    pub out_dir: String,
    pub repo_dir: String,
    pub archive_path: String,
}

impl BuildContext {
    /// Well-formedness: the repository and the archive lie in the output
    /// directory, under their fixed names.
    pub open spec fn wf(self) -> bool {
        &&& self.repo_dir@ == self.out_dir@ + "/l0-prover"@
        &&& self.archive_path@ == self.out_dir@ + "/libproof.a"@
    }

    /// Builds the context for one invocation from the designated output
    /// directory.
    pub fn new(out_dir: &str) -> (c: BuildContext)
        ensures
            c.wf(),
            c.out_dir@ == out_dir@,
    {
        BuildContext {
            out_dir: String::from_str(out_dir),
            repo_dir: String::from_str(out_dir).concat("/l0-prover"),
            archive_path: String::from_str(out_dir).concat("/libproof.a"),
        }
    }
}

} // verus!
