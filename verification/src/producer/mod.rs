pub mod naive;
pub mod offset;
pub mod simd;
pub mod threaded;
pub mod zoom;
