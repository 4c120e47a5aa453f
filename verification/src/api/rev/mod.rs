pub mod routes;
pub mod index;
pub mod rows;
pub mod records;
pub mod facts;
pub mod fill;
pub mod data;
pub mod columns;
pub mod lookup;
