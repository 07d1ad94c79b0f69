pub mod assembler;
pub mod document;
pub mod grammar;
pub mod line;
pub mod parser;
pub mod record;
pub mod rules;
pub mod scan;
pub mod tag;
pub mod text;
pub mod tokenizer;

pub use assembler::Assembler;
pub use assembler::AssemblyError;
pub use document::Document;
pub use line::Line;
pub use parser::ParseError;
pub use parser::Parser;
pub use record::Record;
pub use tag::Tag;
pub use tag::UnknownTag;
pub use tokenizer::Tokenizer;
pub use tokenizer::TokenizerError;
