//! The display service: the framebuffer lease, the DMA allocator behind the
//! display driver, and pixel and input-event words.
pub mod dma;
pub mod lease;
pub mod pixels;
