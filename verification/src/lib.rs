//! A verified core for a file-utility belt: archive-format resolution,
//! destination resolution and per-format extraction planning, together with
//! the name and size computations of the surrounding utilities. All
//! filesystem reads and writes stay with the caller; the library turns the
//! bytes and names it is handed into exact, checked plans. A plan carries
//! each entry's full contents, so an archive is decoded in memory as a
//! whole rather than streamed onto disk.

pub mod backup;
pub mod chars;
pub mod cli;
pub mod cln;
pub mod decode;
pub mod error;
pub mod file_keeper;
pub mod format;
pub mod hog;
pub mod plan;
pub mod restore;
pub mod update;
pub mod xtract;
