//! A real-time renderer core: a reference-counted resource cache with
//! deferred garbage collection, swapchain negotiation policy, and the
//! frame-in-flight synchronization state machine that drives the draw loop.

mod clock;
pub mod descriptors;
pub mod ecs;
pub mod enums;
pub mod error;
pub mod event;
pub mod graphics;
pub mod manager;
pub mod material;
pub mod model;
pub mod pipeline;
pub mod renderer;
pub mod renderpass;
pub mod resources;
pub mod swapchain;
pub mod texture;
pub mod time;
pub mod timer;
pub mod util;
