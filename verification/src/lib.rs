pub mod text;
pub mod keyed;
pub mod ids;
pub mod base;
pub mod capability;
pub mod planner;
pub mod policy;
pub mod approval;
pub mod policy_approval;
pub mod approval_review;
pub mod intent;
pub mod config;
pub mod hardware;
pub mod lifecycle;
pub mod bootstrap;
pub mod migrations;
pub mod observation;
pub mod graph;
pub mod provider;
pub mod provenance;
pub mod protocol;
pub mod estimate;
pub mod preview;
pub mod review;
pub mod compile;
pub mod managed;
pub mod converge;
pub mod integrity;
pub mod schema;
pub mod cli;
pub mod bus;
pub mod wire;
pub mod observation_control;
pub mod testkit;
pub mod agents;
