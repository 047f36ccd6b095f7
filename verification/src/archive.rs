//! Path-traversal defense for archive entries.
//!
//! Zip entries are materialized under an isolated extraction directory.
//! An entry whose stored name could escape that directory — one containing
//! a `..` sequence or one that is an absolute path — is rejected before
//! anything is written for it.

use vstd::prelude::*;

verus! {

/// `s` contains two consecutive `.` bytes somewhere.
pub open spec fn contains_dotdot(s: Seq<u8>) -> bool {
    exists|i: int| 0 <= i && i + 2 <= s.len() && #[trigger] s[i] == 46u8 && s[i + 1] == 46u8
}

/// `s` names an absolute path (begins with a path separator).
pub open spec fn is_absolute_name(s: Seq<u8>) -> bool {
    s.len() > 0 && s[0] == 47u8
}

/// An entry name that may be materialized under the extraction directory:
/// neither absolute nor containing any `..` sequence.
pub open spec fn safe_entry_name(s: Seq<u8>) -> bool {
    !contains_dotdot(s) && !is_absolute_name(s)
}

/// Decides whether an archive entry's stored name is safe to extract.
/// Returns `false` exactly for names with a `..` sequence or an absolute
/// path — those entries are skipped, never written.
pub fn is_safe_entry_name(name: &[u8]) -> (r: bool)
    ensures
        r == safe_entry_name(name@),
{
    let n = name.len();
    if n > 0 && name[0] == 47 {
        return false;
    }
    if n >= 2 {
        let mut i: usize = 0;
        while i < n - 1
            invariant
                n == name@.len(),
                0 <= i,
                i + 2 <= n + 1,
                forall|j: int|
                    0 <= j && j + 2 <= i + 1 ==> !(#[trigger] name@[j] == 46u8 && name@[j + 1]
                        == 46u8),
            decreases n - i,
        {
            if name[i] == 46 && name[i + 1] == 46 {
                return false;
            }
            i = i + 1;
        }
    }
    true
}

/// An entry name with a `..` sequence or an absolute path is never safe:
/// such an entry is rejected by `is_safe_entry_name` and so is never
/// materialized under the extraction directory.
pub proof fn lemma_traversal_rejected(name: Seq<u8>)
    requires
        contains_dotdot(name) || is_absolute_name(name),
    ensures
        !safe_entry_name(name),
{
}

} // verus!
