//! Connection IDs and their generators.

pub mod generator;
pub mod id;

pub use generator::{
    check_cid, ConnectionIdGenerator, ConnectionIdGeneratorAdapter, ConnectionIdMeta, InvalidCid,
    RandConnIdGenerator, RandomIdGenerator,
};
pub use id::{ConnectionId, IdError, MAX_CID_LEN};
