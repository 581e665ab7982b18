//! Compiles an in-memory spreadsheet description into the XML parts of an
//! Office Open XML workbook package.
pub mod text;
pub mod xml_writer;
pub mod util;
pub mod escape;
pub mod db;
pub mod model;
pub mod int_map;
pub mod term;
pub mod error;
pub mod style;
pub mod cell;
pub mod workbook;
pub mod decode;
pub mod wb_compiler;
pub mod worksheet;
pub mod xml_templates;
pub mod xl_styles;
pub mod wb_writer;
