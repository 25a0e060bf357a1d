//! What can go wrong while a page is constructed or served.

use crate::outside::{debug_quote, debug_quoted, io_error_debug};
use vstd::prelude::*;
use vstd::string::*;

verus! {

/// A failure at request time.
#[derive(Debug)]
pub enum Error {
    /// Reading or writing failed while a page was constructed.
    Io(std::io::Error),
    /// A failure described in words.
    String(String),
    /// The server could not listen.
    Tide(std::io::Error),
}

impl From<std::io::Error> for Error {
    fn from(e: std::io::Error) -> (r: Self) {
        Self::Io(e)
    }
}

impl vstd::std_specs::convert::FromSpecImpl<std::io::Error> for Error {
    open spec fn obeys_from_spec() -> bool {
        true
    }

    open spec fn from_spec(e: std::io::Error) -> Self {
        Error::Io(e)
    }
}

impl From<String> for Error {
    fn from(s: String) -> (r: Self) {
        Self::String(s)
    }
}

impl vstd::std_specs::convert::FromSpecImpl<String> for Error {
    open spec fn obeys_from_spec() -> bool {
        true
    }

    open spec fn from_spec(s: String) -> Self {
        Error::String(s)
    }
}

impl Error {
    /// `detail` is a text that describes the error: the name of the variant
    /// and, in brackets, what it holds. For a failure described in words
    /// that is the words, quoted; for an I/O error the text is whatever the
    /// system says of it.
    pub open spec fn described_by(self, detail: Seq<char>) -> bool {
        match self {
            Error::Io(_) => exists|inner: Seq<char>| detail == "Io("@ + inner + ")"@,
            Error::String(s) => detail == "String("@ + debug_quoted(s@) + ")"@,
            Error::Tide(_) => exists|inner: Seq<char>| detail == "Tide("@ + inner + ")"@,
        }
    }

    /// The text that describes an error of the variant `variant` that holds
    /// what `inner` describes.
    pub fn framed(variant: &str, inner: &str) -> (r: String)
        ensures
            r@ == variant@ + "("@ + inner@ + ")"@,
    {
        let mut out = String::from_str(variant);
        out.append("(");
        out.append(inner);
        out.append(")");
        assert(out@ =~= variant@ + "("@ + inner@ + ")"@);
        out
    }

    /// The text that describes the error in a response.
    pub fn detail(&self) -> (r: String)
        ensures
            self.described_by(r@),
    {
        match self {
            Error::Io(e) => {
                let inner = io_error_debug(e);
                let r = Error::framed("Io", inner.as_str());
                assert(r@ =~= "Io("@ + inner@ + ")"@) by {
                    reveal_strlit("Io");
                    reveal_strlit("Io(");
                    reveal_strlit("(");
                }
                r
            },
            Error::String(s) => {
                let inner = debug_quote(s.as_str());
                let r = Error::framed("String", inner.as_str());
                assert(r@ =~= "String("@ + inner@ + ")"@) by {
                    reveal_strlit("String");
                    reveal_strlit("String(");
                    reveal_strlit("(");
                }
                r
            },
            Error::Tide(e) => {
                let inner = io_error_debug(e);
                let r = Error::framed("Tide", inner.as_str());
                assert(r@ =~= "Tide("@ + inner@ + ")"@) by {
                    reveal_strlit("Tide");
                    reveal_strlit("Tide(");
                    reveal_strlit("(");
                }
                r
            },
        }
    }
}

} // verus!
