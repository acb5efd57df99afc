//! Automated trading core for Korean equities: exact prices, orders and
//! their lifecycle, portfolio accounting, pre-trade risk checks, strategies
//! and backtesting.

pub mod decimal;
pub mod text;
pub mod types;
pub mod symbol_map;
pub mod symbol_table;
pub mod domain;
pub mod execution;
pub mod broker;
pub mod config;
pub mod risk;
pub mod history;
pub mod features;
pub mod strategy;
pub mod strategies;
pub mod strategies2;
pub mod strategy_registry;
pub mod backtest;
pub mod backtest_optimize;
pub mod marketdata;
pub mod storage;
pub mod kis;
pub mod runtime;
pub mod analysis;
