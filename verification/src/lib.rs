//! Staging of tabular data for a relational database.
//!
//! A delimited file is loaded into a grid of cells, the tables of the
//! target database are listed and described, the fields of a table are
//! mapped to columns of the grid, every cell is validated against the
//! declared type of its field, and the rows are inserted in one
//! transaction that is committed or rolled back at the end.
//!
//! The library decides; it does not read files or talk to the database.
//! `backend::backend_manager::BackendManger::listen` takes what has
//! happened and answers with what is to be done next.

pub mod backend;
pub mod decimal;
pub mod text;
