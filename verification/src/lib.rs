//! A minimalist markdown pastebin core: paste records, expiration and
//! view-limit policy, the paste store, the lifecycle state machine that
//! decides liveness and lazy eviction, and the rendering pipeline.

pub mod database;
pub mod error;
pub mod lifecycle;
pub mod models;
pub mod policy;
pub mod rendering;
