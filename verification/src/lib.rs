//! Verified project and file store: named, owned buckets of files with
//! visibility rules, request quotas, a read-through cache and an optional
//! build container per project.

pub mod cache;
pub mod codec;
pub mod config;
pub mod containers;
pub mod db;
pub mod files;
pub mod hosts;
pub mod identity;
pub mod keys;
pub mod laws;
pub mod model;
pub mod outcome;
pub mod names;
pub mod paths;
pub mod projects;
pub mod quota;
pub mod rows;
pub mod social;
pub mod state;
pub mod steps;
pub mod text;
pub mod views;
pub mod weights;
