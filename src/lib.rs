//! Directory-listing core: entry records, a stable multi-key ordering of
//! them, and the text of the grid and long listings.
pub mod display;
pub mod entry;
pub mod filesystem;
pub mod filtering;
pub mod formatting;
pub mod permissions;
pub mod selinux;
pub mod sorting;
pub mod text;
