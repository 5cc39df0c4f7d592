//! The runner of a flow: identities of what runs and the decisions taken
//! between the steps that do outside work.
pub mod case;
pub mod step;
pub mod task;
pub mod render;
pub mod arg;
pub mod machine;
