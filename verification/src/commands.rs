//! What the commands of the front end compute before anything is printed.

pub mod list;
