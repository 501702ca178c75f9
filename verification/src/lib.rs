//! Character-set utilities and the dictionary pipeline of a Han-character
//! drilling application: the decisions of the dataset cache, decompression,
//! strict parsing of the dictionary, the character sets derived from it, and
//! the quiz over the characters of a text.

pub mod cache;
pub mod decode;
pub mod document;
pub mod elements;
pub mod error;
pub mod han;
pub mod lexical;
pub mod literal;
pub mod parser;
pub mod projection;
pub mod quiz;
pub mod schema;
pub mod strict;
pub mod xml;

pub use document::Dict2;
pub use error::Error;
pub use han::is_chinese_character;
pub use lexical::sort_kanji;
pub use literal::vec_string_to_vec_char;
pub use literal::StringToCharError;
