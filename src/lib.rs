//! Counters managed through commands, events and a projected read model.

pub mod error;
pub mod ids;
pub mod counter;
pub mod command;
pub mod event;
pub mod aggregate;
pub mod projection;
pub mod read_model;
pub mod consumer;
pub mod query;
pub mod text;
pub mod payload;
pub mod event_store;
pub mod cqrs;
pub mod laws;
pub mod service;
pub mod config;
pub mod params;
