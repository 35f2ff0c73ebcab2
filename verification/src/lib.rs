//! Watches a chat gateway for private-server links and joins the servers they lead to.

pub mod biome;
pub mod gateway;
pub mod json;
pub mod link;
pub mod pattern;
pub mod session;
pub mod settings;
pub mod sniper;
pub mod text;
pub mod watch;
pub mod webhook;
