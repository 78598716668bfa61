//! The structured proving request and the runtime error taxonomy.

use vstd::prelude::*;

verus! {

/// True when no character of `s` is the null character. A request field must
/// satisfy this before it may be embedded in a null-terminated foreign string.
pub open spec fn null_free(s: Seq<char>) -> bool {
    forall|i: int| 0 <= i < s.len() ==> s[i] != '\0'
}

/// A proving request: three indices and five opaque string fields (three
/// signature strings and two hex-encoded binary records). It crosses the
/// foreign boundary as a null-terminated JSON text, so every string field
/// must be free of embedded null characters to be encodable.
pub struct ProofRequest {
    pub idx1: u32,
    pub idx2: u32,
    pub idx3: u32,
    pub sig1: String,
    pub sig2: String,
    pub sig3: String,
    pub cblk: String,
    pub blk: String,
}

impl ProofRequest {
    /// The encodability invariant: every string field is null-free.
    pub open spec fn encodable(self) -> bool {
        &&& null_free(self.sig1@)
        &&& null_free(self.sig2@)
        &&& null_free(self.sig3@)
        &&& null_free(self.cblk@)
        &&& null_free(self.blk@)
    }
}

/// The runtime failures a bridge invocation can report.
#[derive(Clone, Copy, Debug, PartialEq, Eq, Structural)]
pub enum InvocationError {
    /// The request could not be turned into a null-terminated text: a string
    /// field holds an embedded null character.
    Encoding,
    /// The foreign prove call returned a null address; the boundary offers no
    /// further diagnostic.
    ProverFailed,
}

/// Reports whether `s` is free of null characters, the check a string field
/// must pass before encoding.
pub fn str_is_null_free(s: &str) -> (r: bool)
    ensures
        r == null_free(s@),
{
    let len = s.unicode_len();
    for i in 0..len
        invariant
            len == s@.len(),
            forall|j: int| 0 <= j < i ==> s@[j] != '\0',
    {
        if s.get_char(i) == '\0' {
            return false;
        }
    }
    true
}

impl ProofRequest {
    /// Reports whether the request satisfies the encodability invariant.
    pub fn is_encodable(&self) -> (r: bool)
        ensures
            r == self.encodable(),
    {
        str_is_null_free(self.sig1.as_str()) && str_is_null_free(self.sig2.as_str())
            && str_is_null_free(self.sig3.as_str()) && str_is_null_free(self.cblk.as_str())
            && str_is_null_free(self.blk.as_str())
    }
}

} // verus!
