pub mod commands;
pub mod commandtable;
pub mod decode;
pub mod errors;
pub mod json;
pub mod laws;
pub mod normalize;
pub mod parse;
pub mod ps;
pub mod reparse;
pub mod schema;
pub mod text;
