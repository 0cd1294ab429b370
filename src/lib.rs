//! A personal task list: tasks, projects and display groups held in one
//! store, the operations that change it, and the grouped listing.
pub mod command;
pub mod laws;
pub mod listing;
pub mod model;
pub mod store;
pub mod text;
