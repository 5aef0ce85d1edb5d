//! Asset identifiers, asset paths, the resolver from identifiers to paths and
//! the bookkeeping of loaded textures.

pub mod file;
pub mod id;
pub mod resolver;
pub mod texture;

pub use id::AssetId;
