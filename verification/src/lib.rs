//! A runner of test flows: flow documents and their validation, template
//! helpers and rendering, the loading of CSV data a page at a time, and the
//! decisions a runner takes between the steps that do outside work.
pub mod pattern;
pub mod text;
pub mod value;
pub mod flow;
pub mod action;
pub mod step;
pub mod case;
pub mod run;
pub mod task;
pub mod helper;
pub mod error;
pub mod point;
pub mod load;
pub mod conf;
pub mod job;
