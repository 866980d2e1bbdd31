//! Downloads: the queue that decides what runs, and the rules for files.

pub mod ffmpeg;
pub mod hls;
pub mod naming;
pub mod notify;
pub mod poster;
pub mod process_util;
pub mod queue;
pub mod validate;
pub mod wakelock;
pub mod worker;
