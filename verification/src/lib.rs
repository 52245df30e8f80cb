//! A food-recommendation engine: it builds a natural-language prompt from a
//! layered user profile and rolling rules, frames a single-turn chat request
//! for a selected AI provider, interprets the reply, and falls back to a
//! uniform random pick from a deduplicated food catalog when the AI path is
//! unavailable.

pub mod ambient;
pub mod chat;
pub mod config;
pub mod prompt;
pub mod random;
pub mod recommend;
pub mod text;
