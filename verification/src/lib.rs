//! A rate-limit decision service.
//!
//! The decision pipeline matches a request's descriptors against a
//! hot-swappable snapshot of rules, increments one counter per matched
//! rule-config key in an external store, and answers over-limit as soon as
//! one counter has reached its effective limit.

pub mod configs;
pub mod db;
pub mod decimal;
pub mod decision;
pub mod evaluation;
pub mod keys;
pub mod rate_limits;
pub mod refresher;
pub mod request;
pub mod response;
pub mod service;
