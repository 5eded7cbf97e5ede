//! Logical names of images, what they are declared as, and what they
//! resolve to.

pub mod data;
pub mod registry;
pub mod resolved;
pub mod resolver;
pub mod table;

pub use data::{ImageDesc, ImageFormat, ImageKeys, ImageSize, Scale};
pub use registry::{AliasError, AliasRegistry, ImageResolveContext, PlannedImage};
pub use resolved::ResolvedRegistry;
pub use resolver::ResourceBacking;
pub use table::AliasTable;
