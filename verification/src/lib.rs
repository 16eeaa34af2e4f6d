//! The core of a Discord bot that follows players' ranked stats.
//!
//! The stats come from a profile page that fills itself in the browser:
//! the bot opens the page in a real browser, watches the requests that the
//! page makes, and takes the answer to the one that carries the profile.
//! This crate holds what the bot decides and computes on the way:
//!
//! - [`scraper`]: one scrape attempt as a state machine over the events of
//!   a browser session, and the gathering of the attempts of a cycle;
//! - [`player_store`]: who is registered and what was scraped last, with the
//!   registration, refresh and lookup operations;
//! - [`database`]: the store as a JSON document, and back;
//! - [`model`]: the stats payload and its layout in JSON;
//! - [`json`]: JSON documents as plain values;
//! - [`discord`], [`server`], [`config`]: the answers of the bot, the check
//!   of the administrative key, and the settings;
//! - [`text`]: comparing, searching, reading and writing text.
//!
//! Driving the browser, the chat and the file system is left to the
//! program that uses the crate.

pub mod config;
pub mod database;
pub mod discord;
pub mod json;
pub mod model;
pub mod player_store;
pub mod scraper;
pub mod server;
pub mod text;
