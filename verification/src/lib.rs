//! Verified core of the rencan ray tracer: the integer bookkeeping that sizes
//! and schedules the GPU work of a frame, the change-tracking cell that caches
//! GPU resources built for a value, the host-side choices of queue families,
//! presentation mode and swapchain recreation, and the decoding of the noise
//! texture.
pub mod app_info;
pub mod frame;
pub mod lightning;
pub mod noise_texture;
pub mod queue_families;
pub mod ray;
pub mod scene;
pub mod schedule;
pub mod screen;
pub mod setable;
pub mod swapchain;

pub use app_info::AppInfo;
pub use setable::Mutable;
pub use screen::Screen;
