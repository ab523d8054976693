//! The context builder: optional configuration gathered before a headless
//! OpenGL context is created, and the errors such a creation can report.
//!
//! Creating the context itself talks to the native windowing library and so
//! stands outside this crate; what is decided here, and proved, is which
//! OpenGL version a build will request — the parsed version string, or 4.6
//! when none was set — and which error a bad version string produces.

use vstd::prelude::*;

use crate::version::{
    is_version_error_for, spec_version_of, version_parse_ok, GLVersion, GLVersionError,
};

verus! {

/// How initializing the native windowing library failed.
#[derive(Clone, Copy, Debug, PartialEq, Eq, Structural)]
pub enum GlfwInitError {
    /// The library was already initialized.
    AlreadyInitialized,
    /// An internal error occurred inside the library.
    Internal,
}

/// Why a headless context could not be built.
#[derive(Clone, Debug)]
pub enum HeadlessError {
    /// The windowing library failed to initialize.
    Uninitialized(GlfwInitError),
    /// The configured version string did not parse.
    InvalidVersionFormat(GLVersionError),
    /// The windowing library returned no window.
    NoWindow,
}

impl From<GLVersionError> for HeadlessError {
    fn from(err: GLVersionError) -> Self {
        HeadlessError::InvalidVersionFormat(err)
    }
}

impl vstd::std_specs::convert::FromSpecImpl<GLVersionError> for HeadlessError {
    open spec fn obeys_from_spec() -> bool {
        true
    }

    open spec fn from_spec(err: GLVersionError) -> Self {
        HeadlessError::InvalidVersionFormat(err)
    }
}

/// The window configuration a headless context is created with: the
/// requested OpenGL version plus the fixed hints that make the window
/// suitable for off-screen work.
#[derive(Clone, Copy, Debug, PartialEq, Eq, Structural)]
pub struct ContextConfig {
    /// Requested OpenGL major version.
    pub major: u32,
    /// Requested OpenGL minor version.
    pub minor: u32,
    /// Request the core profile.
    pub core_profile: bool,
    /// Request forward compatibility.
    pub forward_compat: bool,
    /// Whether the window is shown; a headless window never is.
    pub visible: bool,
    /// Width of the (hidden) window.
    pub width: u32,
    /// Height of the (hidden) window.
    pub height: u32,
}

/// The configuration used to create a headless context for `version`: that
/// version, a core, forward-compatible profile, and an invisible 1280x720
/// window.
pub fn context_config(version: GLVersion) -> (r: ContextConfig)
    ensures
        r == (ContextConfig {
            major: version.0,
            minor: version.1,
            core_profile: true,
            forward_compat: true,
            visible: false,
            width: 1280u32,
            height: 720u32,
        }),
{
    ContextConfig {
        major: version.0,
        minor: version.1,
        core_profile: true,
        forward_compat: true,
        visible: false,
        width: 1280,
        height: 720,
    }
}

/// Accumulates optional configuration — just an OpenGL version string — for
/// a headless context before one is built.
pub struct GLContextBuilder {
    version: Option<&'static str>,
}

impl GLContextBuilder {
    /// The version string this builder was given, if any, as a sequence of
    /// characters.
    pub closed spec fn spec_version(&self) -> Option<Seq<char>> {
        match self.version {
            Some(v) => Some(v@),
            None => None,
        }
    }

    /// A fresh builder with no version set.
    pub fn new() -> (r: Self)
        ensures
            r.spec_version() is None,
    {
        GLContextBuilder { version: None }
    }

    /// Request a specific OpenGL version, as a string like `"3.3"`. The
    /// string is kept as given; it is parsed only when the context is built.
    pub fn set_version_str(&mut self, version: &'static str)
        ensures
            final (self).spec_version() == Some(version@),
    {
        self.version = Some(version);
    }

    /// The version a build of this builder will request: the parsed version
    /// string, or 4.6 when none was set. A version string that does not
    /// parse yields exactly the corresponding [`HeadlessError`].
    pub fn resolve_version(&self) -> (r: Result<GLVersion, HeadlessError>)
        ensures
            self.spec_version() is None ==> r == Ok::<GLVersion, HeadlessError>(
                GLVersion(4u32, 6u32),
            ),
            (self.spec_version() matches Some(cs) && version_parse_ok(cs)) ==> (r matches Ok(v)
                && v == spec_version_of(self.spec_version().unwrap())),
            (self.spec_version() matches Some(cs) && !version_parse_ok(cs)) ==> (r matches Err(e)
                && e matches HeadlessError::InvalidVersionFormat(ve) && is_version_error_for(
                ve,
                self.spec_version().unwrap(),
            )),
    {
        match self.version {
            None => Ok(GLVersion::default()),
            Some(version) => match GLVersion::from_str(version) {
                Ok(parsed) => Ok(parsed),
                Err(err) => Err(HeadlessError::from(err)),
            },
        }
    }
}

} // verus!
