//! The model behind ptracker, a tracker of freelance projects, file activity and hours.
//!
//! * [`slug`]: how a project name becomes the slug that names its files.
//! * [`storage`]: where a project's files live under `~/.ptracker`.
//! * [`types`]: the records that ptracker keeps (registry entries, projects, sessions).
//! * [`registry`]: the operations on the registry of projects and on a project.
//! * [`watch`]: the decisions that a watch session takes on each file-system event.
pub mod registry;
pub mod slug;
pub mod storage;
pub mod types;
pub mod watch;
