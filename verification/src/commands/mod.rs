//! The decisions behind each command of the tool.  The command-line front
//! end performs the file, network and terminal work around them.
pub mod add;
pub mod allow;
pub mod audit;
pub mod check;
pub mod setup;
pub mod status;
