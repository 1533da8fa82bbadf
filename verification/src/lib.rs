//! Verified core of the UmaDev terminal assistant: text classifiers, bounded
//! buffers and process supervision (including when a helper's process group
//! may be signalled), Git configuration hardening, program lookup,
//! memory-privacy policy, lock and provenance-key protocols, lifecycle record
//! validation, bounded directory scans and workspace walks, and the clipboard
//! plans, helper protocol and feedback board.

pub mod text;
pub mod permissions;
pub mod live_meta;
pub mod git;
pub mod process;
pub mod process_tree;
pub mod memory;
pub mod numerals;
pub mod run_resume;
pub mod runtime;
pub mod usage_meter;
pub mod config;
pub mod confirmation;
pub mod lock;
pub mod lock_acquire;
pub mod lifecycle;
pub mod read_only_metric;
pub mod backend_probe;
pub mod bounded_text;
pub mod clipboard;
pub mod clipboard_helper;
pub mod clipboard_image;
pub mod dir_scan;
pub mod file_index;
pub mod fs_retry;
pub mod git_commit;
pub mod managed_path;
pub mod privacy;
pub mod supervise;
pub mod tree_walk;
pub mod win_path;
