//! The decisions of a supervisor that owns a tree of agent processes.
//!
//! What is decided here is decided from plain values: the replayed journal, the tables of nodes,
//! panes and connections, and what the outside answered to the step before. Clocks, entropy, files,
//! sockets and processes are the caller's; each step says what is to be done next, and takes back
//! what came of it.
pub mod attach;
pub mod cache;
pub mod caller;
pub mod display;
pub mod error;
pub mod handle;
pub mod input;
pub mod journal;
pub mod launch;
pub mod model;
pub mod native;
pub mod nodes;
pub mod order;
pub mod pane_laws;
pub mod pane_step_laws;
pub mod panes;
pub mod paths;
pub mod project;
pub mod quit;
pub mod quit_laws;
pub mod records;
pub mod residency;
pub mod resume;
pub mod spawn;
pub mod sweep;
pub mod table;
pub mod text;
pub mod token;
pub mod tree;
