//! Summarises archive members holding named JSON records as 16-bit Bloom
//! filters over one configured field.

pub mod bloom;
pub mod hash;
pub mod error;
pub mod container;
pub mod lines;
pub mod json;
pub mod record;
pub mod scan;
