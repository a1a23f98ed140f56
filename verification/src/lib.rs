//! Verified core of a small static-site builder: text and path helpers,
//! the submodule configuration format and its synchronisation protocol,
//! the directory walk used to copy trees, and the small decisions that the
//! command-line driver makes.

pub mod cli;
pub mod paths;
pub mod process;
pub mod render;
pub mod site;
pub mod submodule;
pub mod sync;
pub mod template;
pub mod text;
