//! A download manager whose bookkeeping is verified: the tracking model,
//! the rules that decide what must be (re)downloaded, the resumable download
//! session, and the text it produces.
pub mod models;
pub mod numbers;
pub mod integrity;
pub mod smart_manager;
pub mod download_manager;
pub mod requests;
pub mod logger;
pub mod progress_bar;
