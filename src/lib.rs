//! Navigation, listing and bounded reading over a ZArchive container.
//!
//! The container engine itself is reached only from outside this crate: every
//! operation here is a small state machine that names the next engine call to
//! make ([`engine::EngineRequest`]) and is resumed with the engine's answer
//! ([`engine::EngineReply`]). The decisions that those machines take are
//! verified; performing the calls, under whatever lock the engine needs, is up
//! to the caller.
//!
//! [`model::ArchiveModel`] describes what a consistent engine answers; the
//! proof functions in [`read`] and [`list`] state what the operations achieve
//! against such an engine.

pub mod engine;
pub mod entry;
pub mod error;
pub mod iter;
pub mod list;
pub mod model;
pub mod node;
pub mod pack;
pub mod parent;
pub mod path;
pub mod read;

pub use entry::DirEntry;
pub use error::ZArchiveError;
pub use node::ZArchiveNodeHandle;
