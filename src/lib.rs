//! A CPU-writable pixel surface on a display driven through kernel
//! mode-setting: output negotiation, a double-buffered swap chain and page
//! flip requests, over plain values read from the device.

pub mod laws;
pub mod negotiate;
pub mod pixels;
pub mod swapchain;
