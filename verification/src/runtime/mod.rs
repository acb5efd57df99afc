//! Runtime decisions: which venue to assemble, what the strategy generator
//! asks for and accepts. The loops, the transport and the storage around
//! them are the application's.

pub mod assembly;
pub mod backfill;
pub mod control;
pub mod demo;
pub mod session;
pub mod strategy_codegen;
pub mod pages;
pub mod rows;
pub mod web;
