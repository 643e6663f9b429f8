//! What the operations are for, stated over what goes into them and what comes out:
//! channels by their names, points by their numbers, panels by their slots. Nothing
//! here is used by the library.
pub mod channels;
pub mod colors;
pub mod commands;
pub mod edits;
pub mod labels;
pub mod layouts;
pub mod links;
pub mod merges;
pub mod plots;
pub mod samples;
pub mod sessions;
pub mod statuses;
pub mod trails;
