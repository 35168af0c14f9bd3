//! The decisions behind a web view that lives inside a native window.
//!
//! The search for native libraries is for Unix systems; the rest does not depend
//! on the system.

pub mod data_url;
pub mod engines;
pub mod input;
pub mod native_lib_paths;
pub mod path;
pub mod text;
pub mod util;
pub mod webview;
