//! The output path allocator: the first output name that is not taken.

use vstd::prelude::*;
use vstd::string::StringExecFns;
use crate::text::{nat_text, push_nat};

verus! {

/// Highest number that is tried after the plain name.
pub const CANDIDATE_CEILING: u32 = 9999;

/// Every candidate up to the ceiling is taken.
#[derive(Debug, Clone, Copy, PartialEq, Eq)]
pub struct PathExhaustedError {
    /// The highest number that was tried.
    pub ceiling: u32,
}

/// Candidate `k`: `export.mp4` for zero, `export (k).mp4` for the rest.
pub open spec fn candidate(k: nat) -> Seq<char> {
    if k == 0 {
        "export.mp4"@
    } else {
        "export ("@ + nat_text(k) + ").mp4"@
    }
}

/// `name` is one of `taken`.
pub open spec fn is_taken(taken: Seq<String>, name: Seq<char>) -> bool {
    exists|i: int| 0 <= i < taken.len() && (#[trigger] taken[i])@ == name
}

/// Candidate `k` is free and every candidate before it is taken.
pub open spec fn is_first_free(taken: Seq<String>, k: nat) -> bool {
    &&& !is_taken(taken, candidate(k))
    &&& forall|j: nat| j < k ==> is_taken(taken, #[trigger] candidate(j))
}

/// Candidate `k`.
pub fn candidate_path(k: u32) -> (path: String)
    ensures
        path@ == candidate(k as nat),
{
    if k == 0 {
        String::from_str("export.mp4")
    } else {
        let mut path = String::from_str("export (");
        push_nat(&mut path, k as u128);
        path.append(").mp4");
        path
    }
}

/// Whether `name` is one of `taken`.
pub fn name_is_taken(taken: &Vec<String>, name: &String) -> (yes: bool)
    ensures
        yes == is_taken(taken@, name@),
{
    let mut i: usize = 0;
    while i < taken.len()
        invariant
            i <= taken.len(),
            forall|j: int| 0 <= j < i ==> (#[trigger] taken@[j])@ != name@,
        decreases taken.len() - i,
    {
        if taken[i] == *name {
            return true;
        }
        i += 1;
    }
    false
}

/// Picks the output path: `export.mp4` if that name is not among `taken`,
/// else the first of `export (1).mp4`, `export (2).mp4`, ... up to
/// `export (9999).mp4` that is not. Fails if all of them are taken.
pub fn allocate_output_path(taken: &Vec<String>) -> (r: Result<String, PathExhaustedError>)
    ensures
        match r {
            Ok(path) => exists|k: nat|
                k <= CANDIDATE_CEILING && is_first_free(taken@, k) && path@ == #[trigger] candidate(
                    k,
                ),
            Err(e) => e.ceiling == CANDIDATE_CEILING && forall|k: nat|
                k <= CANDIDATE_CEILING ==> is_taken(taken@, #[trigger] candidate(k)),
        },
{
    let mut k: u32 = 0;
    while k <= CANDIDATE_CEILING
        invariant
            k <= CANDIDATE_CEILING + 1,
            forall|j: nat| j < k ==> is_taken(taken@, #[trigger] candidate(j)),
        decreases CANDIDATE_CEILING + 1 - k,
    {
        let path = candidate_path(k);
        if !name_is_taken(taken, &path) {
            assert(is_first_free(taken@, k as nat));
            return Ok(path);
        }
        k += 1;
    }
    Err(PathExhaustedError { ceiling: CANDIDATE_CEILING })
}

} // verus!
