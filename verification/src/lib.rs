//! Lapidary's decisions, verified: what a watched folder sends, when a saved file is hashed and
//! what a checkout sends back, what a download is named, which addresses a fetch may reach, what a
//! stored image becomes, how an upload resumes, and how the values people type are tidied before
//! they are kept.

pub mod agent;
pub mod checkout;
pub mod desktop;
pub mod digest;
pub mod download;
pub mod fetch;
pub mod fields;
pub mod filters;
pub mod folder;
pub mod images;
pub mod json;
pub mod link;
pub mod locks;
pub mod moves;
pub mod number;
pub mod order;
pub mod path_map;
pub mod records;
pub mod role;
pub mod server;
pub mod sharing;
pub mod tags;
pub mod text;
pub mod unix_path;
pub mod upload;
pub mod watch;
