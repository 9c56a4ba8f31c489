//! Frame lifecycle, memoised values, texture bookkeeping and event fan-out
//! for a small OpenGL rendering layer.

pub mod cache;
pub mod event;
pub mod frame;
pub mod id;
pub mod loader;
pub mod main_loop;
pub mod rect;
mod table;
pub mod texture;

pub use cache::Cache;
pub use frame::{FrameError, FrameSlot};
pub use id::Id;
pub use texture::{TextureManager, TextureRef};
