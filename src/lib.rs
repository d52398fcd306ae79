//! A transfer engine for a file-hosting service.
//!
//! The upload path plans single-shot or chunked transfers, sequences chunk requests, retries
//! transport failures with exponential backoff, and schedules batches under a parallelism
//! bound. The download path extracts and normalizes the file listing embedded in album pages
//! and recovers download addresses from the service's time-keyed XOR obfuscation. Network and
//! file I/O stay with the caller: each step here takes the answers it needs as plain values.
pub mod album;
pub mod albums;
pub mod batch;
pub mod config;
pub mod error;
pub mod link;
pub mod outcome;
pub mod plan;
pub mod preprocess;
pub mod retry;
pub mod session;
pub mod size;
pub mod text;
pub mod upload;
