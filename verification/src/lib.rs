//! The core of a Vulkan renderer: it decides what is asked of the device, and in
//! which order, and leaves the asking to its caller. Requests are plain values;
//! objects on the device are known by their position.

pub mod actions;
pub mod agreement;
pub mod descriptors;
pub mod device;
pub mod external;
pub mod fit;
pub mod frame;
pub mod history;
pub mod instance;
pub mod life;
pub mod lifecycle;
pub mod pipeline;
pub mod plans;
pub mod playback;
pub mod ranges;
pub mod raster;
pub mod recording;
pub mod scene;
pub mod targets;
pub mod vulkan;
