//! Block synchronisation: block storage, the block pipeline and the sync service.
pub mod builder;
pub mod pipeline;
pub mod service;
pub mod storage;
pub mod types;
