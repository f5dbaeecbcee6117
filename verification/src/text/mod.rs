//! Text as sequences of characters: the vocabulary that every contract of the
//! library is written in, and the executable functions that compute it.
pub mod chars;
pub mod lines;
pub mod numbers;
pub mod utf8;
pub mod order;
pub mod pairs;
