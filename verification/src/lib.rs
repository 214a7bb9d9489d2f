pub mod assoc;
pub mod cache;
pub mod clock;
pub mod concurrent;
pub mod data;
pub mod laws;
pub mod model;
pub mod strset;

pub use cache::Cache;
pub use cache::CacheError;
