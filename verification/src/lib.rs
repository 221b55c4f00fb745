//! The decision logic of an options trading desk.
pub mod auth;
pub mod broker;
pub mod clock;
pub mod config;
pub mod decide;
pub mod decimal;
pub mod desk;
pub mod domain;
pub mod execute;
pub mod gateway;
pub mod ingest;
pub mod login;
pub mod manual;
pub mod orders;
pub mod paper;
pub mod report;
pub mod scrips;
pub mod settle;
pub mod sizing;
pub mod startup;
pub mod sync;
pub mod text;
pub mod tick;
