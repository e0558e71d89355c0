//! Verified core of a tape backup job engine: snapshot selection, media pool
//! and pool-writer state machine, chunk streaming with end-of-medium rotation,
//! and job orchestration with summary bookkeeping.
pub mod acl;
pub mod cloud;
pub mod datastore;
pub mod device;
pub mod job;
pub mod jobs;
pub mod key_derivation;
pub mod maintenance;
pub mod metrics;
pub mod network;
pub mod openid;
pub mod pipeline;
pub mod pool;
pub mod pool_writer;
pub mod progress;
pub mod selection;
pub mod tape;
pub mod text;
