//! Clone a subdirectory of a remote GitHub repository without a full clone.
//!
//! The library holds the logic of the tool: parsing repository coordinates
//! out of a URL, expanding a directory subtree into a flat manifest through
//! the remote listing API, the retry and concurrency policy of the download
//! pipeline, the two output sinks, and byte-size formatting. The surrounding
//! binary performs the network and filesystem I/O and drives the state
//! machines defined here.

pub mod archive;
pub mod batch;
pub mod format;
pub mod github;
pub mod pool;
pub mod retry;
pub mod tree;

pub use format::format_size;
