//! Content-addressed manifests of a directory tree: digest every file under a
//! root, record the digests in a sorted manifest, and later reconcile a live
//! tree against such a manifest.
//!
//! The crate holds the hashing and verification engine: the streaming digest
//! state machine, exclusion-pattern filtering, the manifest builder with its
//! sorting invariant, and the three-outcome verification policy. File and
//! terminal I/O stay outside; callers hand in bytes, paths and probe results
//! as plain values.

pub mod algorithm;
pub mod digest;
pub mod exclude;
pub mod manifest;
pub mod pathorder;
pub mod verify;
