pub mod framebuffer;
pub mod raster;
