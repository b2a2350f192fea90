//! What a job must satisfy before anything is done for it.

use crate::btypes::PreparedStorageView;
use crate::btypes::RunCommandRequest;
use crate::btypes::RunCommandRequestView;
use vstd::prelude::*;
use vstd::string::StringSliceAdditionalSpecFns;
use vstd::utf8::encode_utf8;

verus! {

/// Why a job was turned down before it touched the backend.
#[derive(Clone, Copy, Debug, PartialEq, Eq, Structural)]
pub enum ValidationError {
    /// The job does not say what resources it needs.
    MissingResources,
    /// The mount target of the input with this index leaves its directory.
    PathTraversal(usize),
}

/// Whether the bytes of `path` hold the component `..` from index `i` on:
/// two dots, with a slash or the path's end on either side.
pub open spec fn dot_dot_at(path: Seq<u8>, i: int) -> bool {
    &&& 0 <= i
    &&& i + 2 <= path.len()
    &&& path[i] == 0x2e
    &&& path[i + 1] == 0x2e
    &&& (i == 0 || path[i - 1] == 0x2f)
    &&& (i + 2 == path.len() || path[i + 2] == 0x2f)
}

/// Whether a path, given as its UTF-8 bytes, has a `..` component.
pub open spec fn has_traversal(path: Seq<u8>) -> bool {
    exists|i: int| dot_dot_at(path, i)
}

/// Whether the mount target of input `i` has a `..` component.
pub open spec fn traversal_at(inputs: Seq<PreparedStorageView>, i: int) -> bool {
    has_traversal(encode_utf8(inputs[i].volume.target))
}

/// The inputs of a job; none where it names none.
pub open spec fn inputs_of(job: RunCommandRequestView) -> Seq<PreparedStorageView> {
    match job.inputs {
        Some(v) => v,
        None => Seq::empty(),
    }
}

/// Whether a job passes validation: it names its resources, and no mount
/// target has a `..` component.
pub open spec fn acceptable(job: RunCommandRequestView) -> bool {
    &&& job.resources is Some
    &&& forall|i: int| 0 <= i < inputs_of(job).len() ==> !traversal_at(inputs_of(job), i)
}

/// Whether `e` is the reason for which `job` fails validation: missing
/// resources come first, then the first mount target with a `..` component.
pub open spec fn rejected_for(job: RunCommandRequestView, e: ValidationError) -> bool {
    match e {
        ValidationError::MissingResources => job.resources is None,
        ValidationError::PathTraversal(i) => {
            &&& job.resources is Some
            &&& i < inputs_of(job).len()
            &&& traversal_at(inputs_of(job), i as int)
            &&& forall|j: int| 0 <= j < i ==> !traversal_at(inputs_of(job), j)
        },
    }
}

/// A job fails validation for at most one reason, and for none if it is
/// acceptable.
pub proof fn lemma_rejection_unique(
    job: RunCommandRequestView,
    e1: ValidationError,
    e2: ValidationError,
)
    requires
        rejected_for(job, e1),
    ensures
        !acceptable(job),
        rejected_for(job, e2) ==> e1 == e2,
{
}

/// Whether `path` has a `..` component.
pub fn path_has_traversal(path: &str) -> (found: bool)
    ensures
        found == has_traversal(path.spec_bytes()),
{
    let bytes = path.as_bytes();
    let n = bytes.len();
    let mut i: usize = 0;
    while i < n
        invariant
            n == bytes@.len(),
            bytes@ == path.spec_bytes(),
            0 <= i <= n,
            forall|j: int| 0 <= j < i ==> !dot_dot_at(bytes@, j),
        decreases n - i,
    {
        if n - i >= 2 && bytes[i] == 0x2e && bytes[i + 1] == 0x2e && (i == 0 || bytes[i - 1]
            == 0x2f) && (i + 2 == n || bytes[i + 2] == 0x2f) {
            assert(dot_dot_at(bytes@, i as int));
            return true;
        }
        i = i + 1;
    }
    false
}

/// Checks a job before anything is done for it.
pub fn validate(job: &RunCommandRequest) -> (r: Result<(), ValidationError>)
    ensures
        match r {
            Ok(()) => acceptable(job@),
            Err(e) => rejected_for(job@, e),
        },
{
    if job.resources.is_none() {
        return Err(ValidationError::MissingResources);
    }
    match &job.inputs {
        None => Ok(()),
        Some(inputs) => {
            let mut i: usize = 0;
            while i < inputs.len()
                invariant
                    0 <= i <= inputs.len(),
                    job.inputs == Some(*inputs),
                    job.resources is Some,
                    forall|j: int| 0 <= j < i ==> !traversal_at(inputs_of(job@), j),
                decreases inputs.len() - i,
            {
                assert(inputs_of(job@)[i as int] == inputs[i as int]@);
                if path_has_traversal(inputs[i].volume.target.as_str()) {
                    return Err(ValidationError::PathTraversal(i));
                }
                i = i + 1;
            }
            Ok(())
        },
    }
}

} // verus!
