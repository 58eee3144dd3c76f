//! A damage-tracked compositor core on the integer pixel grid.
//!
//! A layout pass paints quads on a [`Canvas`], which collects them into a
//! stack of clipped layers. A [`history::History`] compares each frame with
//! the one before it and finds the regions that changed. The [`Engine`]
//! plans the instanced draws that repaint exactly those regions; the
//! [`Compositor`] keeps the pixel surface and the clip mask of a target
//! that is drawn in memory. Every function states what it computes over the
//! values of its arguments, and the laws of the whole are proved: no
//! changed pixel is missed, no region is painted twice, an unchanged frame
//! is not drawn, and the instance buffer never shrinks.

pub mod geometry;
pub mod quad;
pub mod layer;
pub mod stack;
pub mod canvas;
pub mod damage;
pub mod history;
pub mod viewport;
pub mod pipeline;
pub mod engine;
pub mod surface;
pub mod compositor;
pub mod convert;
pub mod event;
pub mod event_handler;
pub mod interface;
pub mod layout;
pub mod global;

pub use canvas::Canvas;
pub use compositor::Compositor;
pub use engine::Engine;
pub use interface::Interface;
pub use layer::Layer;
pub use pipeline::Pipeline;
pub use quad::Quad;
pub use surface::Surface;
pub use viewport::Viewport;
