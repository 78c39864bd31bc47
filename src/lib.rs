//! Bring-up layer of a bare-metal kernel: a lock-free bump allocator over a
//! configurable arena, the capability surface it shares with a hosted stand-in,
//! and the small drawing and logging helpers that sit on top of it.

pub mod layout;
pub mod arena;
pub mod heap;
pub mod oom;
pub mod widgets;
pub mod paint;
pub mod font;
pub mod logger;
