//! Verified core of the FutureAero engineering workspace: the project graph
//! and its command log, plugin hosting, safety interlocks, robot cell
//! control and simulation traces, sketch and assembly rules, integration
//! stubs, commissioning, optimization and perception checks, the local AI
//! runtime rules, the project context and structured explanations given by
//! the assistant, the layout of a saved project, and the desktop session.

pub mod floatbits;
pub mod geometry;
pub mod text;
pub mod json;
pub mod keyed;
pub mod types;
pub mod plugin_host;
pub mod safety;
pub mod signals;
pub mod robotics;
pub mod ai;
pub mod assembly;
pub mod sim;
pub mod workspace;
pub mod project;
pub mod assembly_edits;
pub mod integration;
pub mod commissioning;
pub mod optimization;
pub mod perception;
pub mod assistant;
pub mod storage;
pub mod snapshot;
pub mod session;
pub mod properties;
pub mod cell_support;
pub mod safety_report;
pub mod explain;
