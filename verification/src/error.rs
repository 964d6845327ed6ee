//! What can go wrong while a table site is read.

use vstd::prelude::*;

verus! {

/// Why a table site could not be read.
#[derive(Debug, Clone, Copy, PartialEq, Eq, Structural)]
pub enum MyError {
    /// The page could not be parsed.
    XmlParse,
    /// No XPath context could be made for the page.
    ContextInit,
    /// An XPath expression could not be evaluated.
    XPathEval,
    /// The page could not be fetched.
    HttpError,
}

impl MyError {
    /// A line of text for a log.
    pub fn message(&self) -> (text: &'static str)
        ensures
            text@ == match *self {
                MyError::XmlParse => "XML parse error: got null pointer"@,
                MyError::ContextInit => "failed to create xpath context"@,
                MyError::XPathEval => "failed to evaluate xpath"@,
                MyError::HttpError => "http error"@,
            },
    {
        match self {
            MyError::XmlParse => "XML parse error: got null pointer",
            MyError::ContextInit => "failed to create xpath context",
            MyError::XPathEval => "failed to evaluate xpath",
            MyError::HttpError => "http error",
        }
    }
}

} // verus!
