pub mod token;
pub mod classinfo;
pub mod parse;
pub mod output;
pub mod class;
pub mod laws;
