//! Application-level error reporting. The application shell itself —
//! window creation, the event-polling loop and frame presentation — is
//! platform work outside this library.

use vstd::prelude::*;

verus! {

/// Failure to bring the application up, reported when the platform layer
/// cannot create a window or a graphics context.
#[derive(Debug)]
pub enum ApplicationError {
    InitializationError,
}

} // verus!
