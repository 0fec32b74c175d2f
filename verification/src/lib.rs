pub mod activation;
pub mod cost;
pub mod fx;
pub mod layer;
pub mod network;
pub mod sampler;
pub mod trainer;
