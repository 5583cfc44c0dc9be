pub mod aggregate;
pub mod codec;
pub mod flatten;
pub mod sampler;
pub mod structs;
