pub mod engine;
pub mod markup;
pub mod page_builder;
pub mod templating;
pub mod text;
pub mod website_parser;
