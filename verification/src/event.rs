//! Events a window delivers to the application.

use vstd::prelude::*;

verus! {

/// A window or input event.
#[derive(Debug)]
pub enum Event {
    WindowClose,
    WindowResize(i32, i32),
    MouseMove(i32, i32),
    Dummy(String),
}

} // verus!
