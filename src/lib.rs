//! Local process execution: the decisions behind running a command in a
//! fresh sandbox, from the directories and mounts it needs, through the
//! supervision of the child and its time limit, to which outputs are
//! captured and how a preserved sandbox can be rerun.

pub mod cache;
pub mod outputs;
pub mod path;
pub mod sandbox;
pub mod script;
pub mod supervisor;
