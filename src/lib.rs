//! A high-availability cluster resource manager: the resource model, the
//! per-tick corrective-action policy of the control loop, and the command
//! plane that toggles whether a resource is managed, and the flattening of
//! nodeset expressions into host names.

pub mod cluster;
pub mod commands;
pub mod hosts;
pub mod laws;
pub mod manager;
pub mod resource;
