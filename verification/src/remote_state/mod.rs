//! What is known of a remote endpoint, and the paths to it.

pub mod actor;
pub mod address_effects;
pub mod authorization;
pub mod causes;
pub mod connection;
pub mod effects;
pub mod events;
pub mod fx_map;
pub mod holepunch;
pub mod laws;
pub mod lookup;
pub mod path_effects;
pub mod paths;
pub mod run;
pub mod selection;
