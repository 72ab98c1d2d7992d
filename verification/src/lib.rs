//! Flatline: an uptime monitor. This crate holds the decisions that the
//! monitor engine, the HTTP API and the dashboard make, with their contracts.

// Shared data and text.
pub mod model;
pub mod text;
pub mod strings;
pub mod ids;

// The monitor engine: checks, alerting, notifications.
pub mod checks;
pub mod monitor_state;
pub mod notify;

// The HTTP API: settings, errors, sessions, storage rules, status pages.
pub mod config;
pub mod error;
pub mod auth;
pub mod repository;
pub mod store;
pub mod status_pages;
pub mod downtime;
pub mod web;

// The dashboard: formatting, forms, views and live updates.
pub mod format;
pub mod channels;
pub mod forms;
pub mod dashboard;
pub mod summary;
pub mod status_views;
pub mod live;
pub mod routes;
