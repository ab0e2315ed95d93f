//! Verified core of the call-recording desktop app: the rules, plans and
//! text handling that sit between the webview, the SQLite store and the
//! audio pipeline.
pub mod assistant;
pub mod bulk_recap;
pub mod call_detect;
pub mod call_store;
pub mod chunked_setup;
pub mod db;
pub mod error;
pub mod json;
pub mod notify;
pub mod permissions;
pub mod parked_resume;
pub mod recording;
pub mod recovery;
pub mod secrets;
pub mod silence;
pub mod text;
pub mod wav;
pub mod widget;
