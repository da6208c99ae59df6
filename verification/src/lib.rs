//! A Twitch chat adapter for the Cockatiel engine.
//!
//! The library decides; the program around it reads, writes and waits. What
//! comes in is handed over as a plain value, and what is to be done comes back
//! as one.
pub mod chat;
pub mod engine;
pub mod json;
pub mod moderation;
pub mod oauth;
pub mod prompt;
pub mod session;
pub mod settings;
pub mod setup;
pub mod text;
