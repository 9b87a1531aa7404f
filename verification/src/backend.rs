//! The grid, the catalog, the validation engine, the mapper and the
//! command processor.

pub mod backend_manager;
pub mod calendar;
pub mod csv_handler;
pub mod database_handler;
pub mod grid_laws;
pub mod parser;
pub mod processor_laws;
pub mod protocol;
pub mod table_grid;
