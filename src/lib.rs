//! Stacked-diff synchronisation: maps commits on the primary branch onto
//! reviewable pull requests, tracks each one with a persistent record, and
//! retires merged ones.

pub mod branch_naming;
pub mod text;
pub mod metadata;
pub mod classify;
pub mod lifecycle;
pub mod gateway;
pub mod land;
pub mod config;
pub mod pr_body;
pub mod git_utils;
pub mod status;
