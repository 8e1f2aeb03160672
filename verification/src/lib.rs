//! Verified core of a session-based login template: account policy, role
//! handling, CSRF tokens, login throttling, route guards, the administration
//! and account pages' rules, seeding, and the server's environment settings.

pub mod text;
pub mod roles;
pub mod admin;
pub mod password;
pub mod auth;
pub mod csrf;
pub mod auth_state;
pub mod login;
pub mod account;
pub mod seed;
pub mod config;
pub mod paths;
pub mod demo;
pub mod messages;
pub mod user_cards;
