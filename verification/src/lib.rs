pub mod distance;
pub mod intersection;
pub mod pixel;
pub mod raster;
pub mod rendering;
pub mod shading;
pub mod texture;
pub mod viewport;
