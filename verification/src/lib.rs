//! The rules of an automated Figgie table: dealing, order matching, scoring, and the text
//! formats spoken to the event log and to an external bot.

pub mod cli;
pub mod json;
pub mod logger;
pub mod match_maker;
pub mod models;
pub mod numbers;
pub mod player;
pub mod rng;
pub mod text;
pub mod words;
