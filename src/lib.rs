//! Verified core of a GPU fan controller: its fan curve and colour scale, and
//! the decisions of its self-update (version check, release asset choice,
//! checksum manifest, integrity check and the replacement of the binary).

pub mod text;
pub mod version;
pub mod release;
pub mod checksum;
pub mod fan;
pub mod commit;
pub mod sensors;
