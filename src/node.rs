use vstd::prelude::*;

verus! {

/// The raw value that the engine uses for "no such node".
pub const INVALID_NODE_RAW: u32 = 0xFFFF_FFFF;

/// Identifies a file or directory node inside one open archive.
#[derive(Debug, Clone, Copy, PartialEq, Eq, Structural, PartialOrd, Ord, Hash)]
pub struct ZArchiveNodeHandle(pub u32);

impl ZArchiveNodeHandle {
    /// Whether this is a real node rather than the engine's "not found" value.
    pub open spec fn spec_is_valid(&self) -> bool {
        self.0 != INVALID_NODE_RAW
    }

    /// Whether this is a real node rather than the engine's "not found" value.
    #[verifier::when_used_as_spec(spec_is_valid)]
    pub fn is_valid(&self) -> (r: bool)
        ensures
            r == self.spec_is_valid(),
    {
        self.0 != INVALID_NODE_RAW
    }

    /// The engine's "not found" value.
    pub fn invalid() -> (r: ZArchiveNodeHandle)
        ensures
            !r.spec_is_valid(),
    {
        ZArchiveNodeHandle(INVALID_NODE_RAW)
    }

    /// The handle as the engine gave it.
    pub fn raw(&self) -> (r: u32)
        ensures
            r == self.0,
    {
        self.0
    }
}


impl View for ZArchiveNodeHandle {
    type V = ZArchiveNodeHandle;

    open spec fn view(&self) -> ZArchiveNodeHandle {
        *self
    }
}

} // verus!
