//! Filesystem usage reports: parsing the tabular output of a disk-usage
//! tool into records, and rendering those records as aligned, colour-coded
//! text or as a JSON document.
pub mod command;
pub mod json;
pub mod record;
pub mod render;
pub mod text;
pub mod usage;
