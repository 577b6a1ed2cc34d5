//! A streaming tokenizer: bytes go into an elastic buffer, a delimiter
//! pattern splits them into tokens, and tokens can be read as text, as
//! whole lines, or as integers in a chosen radix.
pub mod elastic_queue;
pub mod numeric;
pub mod pattern;
pub mod scanner;

pub use elastic_queue::ElasticQueue;
pub use numeric::{parse_int, strip_commas, ScanInt};
pub use scanner::{Scanner, Step};
