//! Create a headless OpenGL context: an OpenGL rendering context bound to an
//! invisible window, for off-screen work without a visible UI.
//!
//! This library holds everything about such a context that is decided on
//! plain values, with proofs: [`GLContextBuilder`] accumulates optional
//! configuration (an OpenGL version string such as `"3.3"`) and resolves it
//! to the version a build will request; [`GLVersion::from_str`] parses
//! version strings, with a contract saying exactly which input yields which
//! version and which error; [`context_config`] fixes the window
//! configuration a headless context uses. Creating the context — the calls
//! into the native windowing library — happens outside the library, driven
//! by these results.

pub mod builder;
pub mod expand;
pub mod version;

pub use builder::{context_config, ContextConfig, GLContextBuilder, GlfwInitError, HeadlessError};
pub use version::{GLVersion, GLVersionError, ParseIntErrorKind};
