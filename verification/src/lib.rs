//! Verified domain core of the live workshop tracking backend: process
//! state machine, duration accounting, status aggregation, role based
//! permissions, section tree planning and the text normalisation rules that
//! the HTTP and database layers rely on.

pub mod text;
pub mod ids;
pub mod entities;
pub mod errors;
pub mod process_engine;
pub mod permissions;
pub mod aggregate;
pub mod duration;
pub mod naming;
pub mod render;
pub mod requests;
pub mod config;
pub mod sections;
pub mod section_plan;
pub mod executions;
pub mod matrix;
pub mod reports;
pub mod operations;
pub mod auth;
pub mod work_items;
