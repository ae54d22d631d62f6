//! What must happen on the host before a directory is packed.
use vstd::prelude::*;
use crate::error::{ErrorView, ZArchiveError};

verus! {

/// What to do to the output path before the engine packs into it.
#[derive(Debug, Clone, Copy, PartialEq, Eq, Structural)]
pub enum PackPrep {
    /// An old file is there: remove it, since packing always starts afresh.
    RemoveExisting,
    /// The output's directory is missing: create it.
    CreateParent,
    /// Nothing to do.
    Ready,
}

/// Decides how to prepare for packing `input` into `output`, from what the
/// host file system says of the two paths. The input must be an existing
/// directory.
pub fn pack_prep(
    input_exists: bool,
    input_is_dir: bool,
    output_exists: bool,
    output_parent_exists: bool,
) -> (r: Result<PackPrep, ZArchiveError>)
    ensures
        !(input_exists && input_is_dir) <==> r is Err,
        r matches Err(e) ==> e@ == ErrorView::MissingPackInput,
        r matches Ok(p) ==> p == (if output_exists {
            PackPrep::RemoveExisting
        } else if !output_parent_exists {
            PackPrep::CreateParent
        } else {
            PackPrep::Ready
        }),
{
    if !input_exists || !input_is_dir {
        Err(ZArchiveError::MissingPackInput)
    } else if output_exists {
        Ok(PackPrep::RemoveExisting)
    } else if !output_parent_exists {
        Ok(PackPrep::CreateParent)
    } else {
        Ok(PackPrep::Ready)
    }
}

} // verus!
