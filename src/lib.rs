pub mod arena;
pub mod bytes;
pub mod error;
pub mod imports;
pub mod loader;
pub mod policy;
pub mod protect;
pub mod reloc;
pub mod rva;
pub mod structs;
pub mod tls;

pub use error::LoadError;
pub use imports::{image_ordinal, image_snap_by_ordinal};
pub use loader::{LoadedPEFile, Loader};
pub use reloc::ImageBaseRelocation;
