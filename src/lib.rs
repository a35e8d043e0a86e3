//! Keystroke statistics: chord capture, an event store with derived
//! counters, time-window resolution, analytics and a health-risk scorer.
pub mod text;
pub mod clock;
pub mod keys;
pub mod capture;
pub mod counts;
pub mod store;
pub mod window;
pub mod health;
pub mod analytics;
pub mod analyzer;
pub mod export;
pub mod config;
pub mod logger;
pub mod event;
