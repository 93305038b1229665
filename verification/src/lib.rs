//! An in-process actor runtime core: actor handles, their lifecycle status,
//! their ports, and the supervision tree that links them.

pub mod actor_cell;
pub mod actor_set;
pub mod cascade;
pub mod messages;
pub mod port;
pub mod rpc;
pub mod status;
pub mod supervision;
pub mod text;
pub mod time;
