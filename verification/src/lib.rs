//! An in-memory associative container whose keys are opaque, type-tagged
//! handles minted by the container itself.
//!
//! Storing a value in an [`ErgoMap`] hands back an [`Id`]: the only kind of
//! key the map accepts afterwards. An [`Id`] cannot be built by callers
//! directly, which rules out lookups with keys the map never produced; its
//! type parameter ties it to one value type, which rules out using a handle
//! from a map of one type against a map of another. Values can also be stored
//! under deterministic keys derived from a caller-supplied [`Key`] or, through
//! the [`BuildId`] trait, from the value's own content.

pub mod id;
pub mod laws;
pub mod map;

pub use id::BuildId;
pub use id::Id;
pub use id::Key;
pub use map::ErgoMap;
