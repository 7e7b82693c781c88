//! Verified core of a stock-quote pipeline: a scraper that turns a quotes
//! page into per-stock Kafka records, and a web server that forwards the
//! records of the stocks a client subscribed to.
pub mod text;
pub mod html;
pub mod scraper;
pub mod kafka;
pub mod web;
pub mod consumer;
pub mod server;
pub mod errors;
pub mod schedule;
pub mod cli;
