//! Stateless recognizers for the annotation grammar and structural tokens.
//!
//! Each recognizer is a pure function of the input and a character position:
//! it either matches a phrase starting exactly at that position, reporting
//! the number of characters consumed, or reports no match. None of them
//! looks behind the current position.

pub mod chars;
pub mod new_line;
pub mod ruby;
pub mod white_space;
