//! An inspector's view of a Brickadia world file: the virtual tree of folders
//! and files that the container holds, paths resolved against it, listings of
//! what they name, and files rendered by their type.

pub mod text;
pub mod path;
pub mod node;
pub mod traverse;
pub mod listing;
pub mod render;
pub mod cli;
