//! Coordination and execution core of a distributed algorithmic-trading
//! platform: the command/response codec, the command-bus correlation logic,
//! the backtest engine's control plane, the time-weighted moving average,
//! and the instance supervisor's decision logic.

pub mod backtest;
pub mod bus;
pub mod codec;
pub mod commands;
pub mod definitions;
pub mod ids;
pub mod json;
pub mod messages;
pub mod wire;
pub mod registry;
pub mod roundtrip;
pub mod sma;
pub mod spawner;
pub mod strutil;
pub mod tick;

pub use ids::Uid;
pub use tick::Tick;
