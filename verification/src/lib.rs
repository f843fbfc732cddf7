//! Verified core of a terminal tool for browsing a backlog of open code-review
//! requests: a paginated streaming pipeline that turns a cursor-based remote
//! listing into a bounded, backpressured stream of items, and a virtualized,
//! selectable list widget that computes the visible window over items of
//! varying height.

pub mod action;
pub mod application_config;
pub mod config;
pub mod git_pull_requests;
pub mod models;
pub mod pipeline;
pub mod query;
pub mod scripted;
pub mod traits;
pub mod widget_list;
