//! The rules of the command-line commands that add and edit entities.
pub mod add;
pub mod edit;
