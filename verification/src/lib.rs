//! Reads the display name, bundle identifier, version, build number and icon
//! of a mobile application package.

pub mod archive;
pub mod encoding;
pub mod error;
pub mod extract;
pub mod locator;
pub mod manifest;
pub mod router;
pub mod text;

pub use extract::get_from_path;
pub use locator::{APK_ARSC_PATH, APK_META_PATH};
pub use router::{get_loaders, Loader};
