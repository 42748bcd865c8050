//! An intent orchestration engine: admission rules, disassembly into
//! sub-intents, load-aware routing, completion tracking and the resource
//! registry, written as plain state transitions that a transport layer drives.

pub mod disassembler;
pub mod errort;
pub mod idgen;
pub mod intent;
pub mod message;
pub mod monitor;
pub mod preprocess;
pub mod registry;
pub mod request;
pub mod resource;
pub mod router;
pub mod rserver;
pub mod rule;
pub mod schedule;
pub mod seeker;
pub mod staticrule;
pub mod text;
pub mod vetting;
pub mod waiter;
