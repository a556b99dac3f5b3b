//! Verified core of a Discord music bot: the track queue, command routing,
//! message parsing and the text that the bot shows.

pub mod text;
pub mod model;
pub mod errors;
pub mod embeds;
pub mod scheduler;
pub mod config;
pub mod microservice;
pub mod encoder;
pub mod args;
pub mod commands;
pub mod replies;
pub mod bot;
pub mod sessions;
