use vstd::prelude::*;

pub mod bilibili;
pub mod config;
pub mod error;
pub mod event;
pub mod http;
pub mod manager;
pub mod ordering;
pub mod task;
pub mod task_id;
pub mod text;
pub mod torrent;
pub mod trackers;
pub mod video;

pub use config::ManagerConfig;
pub use error::NebulaError;
pub use event::{DownloadEvent, Progress};
pub use manager::DownloadManager;
pub use task::{DownloadSource, DownloadTask, TaskId, TaskStatus};

verus! {

} // verus!
