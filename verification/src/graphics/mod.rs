pub mod pipeline;
pub mod rasterizer;
pub mod triangle;
