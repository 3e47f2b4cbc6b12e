pub mod arguments;
pub mod generator;
pub mod generators;
pub mod mocker;
pub mod parser;
pub mod provider;
pub mod providers;
pub mod random;
pub mod registry;
pub mod text;
