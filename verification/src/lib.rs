//! WarpGrid core logic: tenant quotas, team roles, custom domains, API keys,
//! billing plans and usage, header maps and streaming bodies, autoscaling
//! decisions, cluster membership, sprite lifecycles, the dashboard's views
//! and the pages of the console and the admin dashboard.

pub mod admin;
pub mod admin_pages;
pub mod api;
pub mod analytics;
pub mod agent_tokens;
pub mod auth;
pub mod autoscale;
pub mod billing;
pub mod bun;
pub mod cloud_api;
pub mod cluster;
pub mod cluster_server;
pub mod config;
pub mod daemon;
pub mod console;
pub mod console_pages;
pub mod dashboard;
pub mod domains;
pub mod format;
pub mod order;
pub mod http;
pub mod provisioner;
pub mod registry;
pub mod session;
pub mod sprites;
pub mod strmap;
pub mod sync;
pub mod sys;
pub mod teams;
pub mod tenants;
pub mod usage;
pub mod views;
pub mod watcher;
pub mod text;
