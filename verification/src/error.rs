//! Diagnostics as plain data. Rendering them belongs to the embedding.

use vstd::prelude::*;
use crate::token::Span;

verus! {

/// One diagnostic: the source it points into, the file's name, the
/// message, the offending span, and an optional help note (empty when
/// there is none).
#[derive(Debug, Clone)]
pub struct Error {
    pub source: String,
    pub file_name: String,
    pub message: String,
    pub span: Span,
    pub help: String,
}

} // verus!
