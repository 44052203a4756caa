//! Platform niceties that the renderer itself does not depend on.  Console
//! hiding and file-type registration need platform services that live
//! outside this library; the host program supplies them where its platform
//! offers them, and these entry points report the supported outcome.

use vstd::prelude::*;

verus! {

/// Why registering as the default viewer did not happen.
#[derive(Clone, Copy, Debug, PartialEq, Eq, Structural)]
pub enum RegistrationError {
    /// The running platform offers no per-user file-type registry.
    Unsupported,
}

/// Hides the console window the process was started from.  Platforms
/// without a separate console window need nothing, and this is a no-op.
pub fn hide_console() {
}

/// Registers the program as the default viewer for its document type.
/// File-type registration is a platform-registry operation outside this
/// library; callers that run where one exists perform it themselves, and
/// this reports that nothing was registered.
pub fn register_default_viewer() -> (r: Result<(), RegistrationError>)
    ensures
        r == Err::<(), RegistrationError>(RegistrationError::Unsupported),
{
    Err(RegistrationError::Unsupported)
}

} // verus!
