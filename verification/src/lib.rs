//! A SIP header toolkit: a typed model of the recognized message headers,
//! a parser from wire-format lines into that model, and a serializer that
//! is the parser's inverse.
use vstd::prelude::*;

pub mod scan;
pub mod tags;
pub mod vocab;
pub mod model;
pub mod parse;
pub mod write;
pub mod headers;
pub mod laws;
pub mod client;

verus! {

/// How a header line can fail to be understood.
///
/// `GrammarMismatch`: a recognized header's payload did not match its grammar
/// (wrong character class, missing delimiter or line terminator, or a token
/// outside a closed vocabulary).
/// `FormatError`: the payload characters were of the right class but did not
/// convert to a value (a digit run exceeding the numeric range, or a malformed
/// decimal literal).
/// `NoMatchingHeader`: the line does not begin with a recognized header tag
/// followed by a colon.
/// `HeaderAbsent`: a typed lookup found no header of the requested variant.
#[derive(Clone, Copy, Debug, PartialEq, Eq, Structural)]
pub enum SipError {
    GrammarMismatch,
    FormatError,
    NoMatchingHeader,
    HeaderAbsent,
}

} // verus!
