//! Bulk transfer of objects between storage buckets and local folders.
//!
//! The library holds the decisions of the transfer pipeline as plain state
//! machines with verified contracts: destination-key mapping, the multipart
//! threshold, chunking of a payload into ordered parts, the table of completed
//! parts, paginated listing, the bounded worker pool, and the order of a bulk
//! delete. The program around it performs the network and file work.

pub mod b2b;
pub mod cli;
pub mod delete_bucket;
pub mod f2b;
pub mod listing;
pub mod multipart;
pub mod pipeline;
pub mod pool;
pub mod utils;
