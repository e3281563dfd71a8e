//! Discrete input events consumed by the editor.

use vstd::prelude::*;

verus! {

/// A pointer or window event in pixel coordinates. The platform layer
/// pre-filters pointer positions to those inside the window while it has
/// focus.
#[derive(Clone, Copy, Debug, PartialEq, Eq, Structural)]
pub enum ApplicationEvent {
    WindowResized { width: u32, height: u32 },
    MouseMoved { x: u32, y: u32 },
    MouseLeftButtonPressed,
    MouseLeftButtonReleased,
    MouseRightButtonPressed,
    MouseRightButtonReleased,
    FramebufferResized { width: u32, height: u32 },
}

} // verus!
