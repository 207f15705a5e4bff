pub mod admin;
pub mod authentication;
pub mod configuration;
pub mod domain;
pub mod idempotency;
pub mod login;
pub mod newsletters;
pub mod startup;
pub mod subscriptions;
