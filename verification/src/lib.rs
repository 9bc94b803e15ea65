//! Administration logic of the memebucket server: roles and permissions,
//! the decisions behind the admin endpoints, user records and the daily
//! statistics snapshots, all with machine-checked contracts.

pub mod admin_api;
pub mod calendar;
pub mod errors;
pub mod permissions;
pub mod roles;
pub mod stats;
pub mod stats_api;
pub mod text;
pub mod users;
