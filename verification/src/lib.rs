//! Verified integer core of the CMYK Press print-look effect: the fixed
//! random-registration hash, the parameter code tables, the split of a frame
//! into worker row bands, pixel and buffer index arithmetic, and the GPU
//! dispatch sizing that the renderer relies on.
pub mod codes;
pub mod gpu;
pub mod hash;
pub mod tiling;
