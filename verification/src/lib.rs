//! Verified core of a parallel directory walker: scheduling order, ordered
//! output matching, directory-record parsing and I/O strategy selection.

pub mod fs_detect;
pub mod lex_order;
pub mod index_path;
pub mod priority;
pub mod priority_buffer;
pub mod weighted;
pub mod ordered;
pub mod ordered_matcher;
pub mod read_dir;
pub mod unix_dirent;
pub mod nt_dirent;
pub mod channel;
pub mod priority_queue;
pub mod ordered_queue;
pub mod io_uring_plan;
pub mod metadata;
pub mod walk;
