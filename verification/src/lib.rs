//! Verified core of the Cortex OS runtime: permission policy, sandbox output
//! handling, agent discovery, the agent and workflow state machines, the swarm
//! bookkeeping, the secrets vault and the gateway rate limiter.

pub mod text;
pub mod keyed;
pub mod json;
pub mod hexcode;
pub mod permissions;
pub mod sandbox;
pub mod nats_bus;
pub mod squad;
pub mod registry;
pub mod tools;
pub mod agent;
pub mod workflow;
pub mod vault;
pub mod swarm;
pub mod health;
pub mod gateway;
pub mod repl;
pub mod tui;

