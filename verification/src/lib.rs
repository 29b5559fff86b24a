//! A Bloom filter: a fixed-size bitmap and a family of seeded hash functions
//! that answer "possibly present" or "definitely absent" for byte strings.

pub mod bitmap;
pub mod filter;
pub mod hashing;
pub mod laws;

pub use filter::Bloom;
pub use filter::ConstructionError;
pub use filter::FilterState;
