pub mod config;
pub mod orchestrator;
pub mod planner;
pub mod probe;
pub mod scheduler;
pub mod store;
