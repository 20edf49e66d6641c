pub mod normalize;
pub mod parser;
pub mod types;
