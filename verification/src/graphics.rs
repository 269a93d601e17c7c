//! Basic graphics value types shared across the renderer.

use vstd::prelude::*;

verus! {

/// A two-dimensional extent in pixels, as reported by a window or surface.
#[derive(Copy, Clone, Debug)]
pub struct Extent2D {
    pub width: u32,
    pub height: u32,
}

impl Extent2D {
    pub fn new(width: u32, height: u32) -> (e: Extent2D)
        ensures
            e.width == width,
            e.height == height,
    {
        Extent2D { width, height }
    }
}

/// The graphics backends an application may ask for.
#[derive(Debug, Copy, Clone)]
pub enum Api {
    Vulkan,
    OpenGL,
}

/// How a window is presented on screen.
#[derive(Debug, Copy, Clone)]
pub enum WindowMode {
    Windowed,
    Borderless,
    Fullscreen,
}

} // verus!
