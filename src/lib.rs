pub mod cache;
pub mod decimal;
pub mod endpoint;
pub mod exposition;
pub mod metrics;
pub mod refresh;
