//! Privilege decisions, dependency planning and cache policy for a package
//! management front end.

pub mod backup;
pub mod cache;
pub mod counting;
pub mod flags;
pub mod listing;
pub mod orchestrator;
pub mod orphans;
pub mod package;
pub mod resolve;
pub mod retry;
pub mod text;
pub mod version;
pub mod viewer;
