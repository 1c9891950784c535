//! Vacancy records, toy records and the small text toolkit they are read with.
pub mod agency;
pub mod agency_ext;
pub mod console;
pub mod generic_container;
pub mod order;
pub mod pattern;
pub mod text;
pub mod toys;
pub mod utils;
