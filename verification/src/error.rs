//! Failure kinds of the crawl pipeline.

use vstd::prelude::*;

verus! {

/// Why a URL does not carry a node key.
#[derive(Clone, Copy, Debug, PartialEq, Eq, Structural)]
pub enum IdentifierFault {
    /// The URL holds no path separator, so it has no tail.
    NoSeparator,
    /// The tail does not have the length that the key's position demands.
    WrongLength,
    /// The characters at the key's position are not a numeral worth more
    /// than zero.
    NotNumeric,
}

/// A URL that does not follow the positional convention for node keys.
#[derive(Clone, Debug, PartialEq, Eq)]
pub struct MalformedIdentifier {
    /// The offending URL.
    pub url: String,
    /// What is wrong with it.
    pub fault: IdentifierFault,
}

impl IdentifierFault {
    /// A one-line description for operators.
    pub fn describe(&self) -> (text: &'static str)
        ensures
            text@ == self.describe_spec(),
    {
        match self {
            IdentifierFault::NoSeparator => "the URL has no '/' to split at",
            IdentifierFault::WrongLength => "the last path segment has the wrong length",
            IdentifierFault::NotNumeric => "the key is not a decimal number above zero",
        }
    }
}

/// A malformed identifier as contracts see it.
pub struct MalformedView {
    pub url: Seq<char>,
    pub fault: IdentifierFault,
}

impl View for MalformedIdentifier {
    type V = MalformedView;

    open spec fn view(&self) -> MalformedView {
        MalformedView { url: self.url@, fault: self.fault }
    }
}

/// Why a crawl stopped.
#[derive(Clone, Debug, PartialEq, Eq)]
pub enum CrawlError {
    /// A discovered URL does not carry the key it should.
    MalformedIdentifier(MalformedIdentifier),
    /// A selector of the extraction rules does not compile.
    SelectorCompile { selector: String },
    /// A page could not be fetched.
    FetchFailed { url: String },
    /// A page is too long to be parsed.
    PageTooLarge,
}

/// A crawl error as contracts see it.
pub enum CrawlErrorView {
    MalformedIdentifier(MalformedView),
    SelectorCompile { selector: Seq<char> },
    FetchFailed { url: Seq<char> },
    PageTooLarge,
}

impl View for CrawlError {
    type V = CrawlErrorView;

    open spec fn view(&self) -> CrawlErrorView {
        match *self {
            CrawlError::MalformedIdentifier(e) => CrawlErrorView::MalformedIdentifier(e@),
            CrawlError::SelectorCompile { selector } => CrawlErrorView::SelectorCompile {
                selector: selector@,
            },
            CrawlError::FetchFailed { url } => CrawlErrorView::FetchFailed { url: url@ },
            CrawlError::PageTooLarge => CrawlErrorView::PageTooLarge,
        }
    }
}

impl MalformedIdentifier {
    /// The diagnostic shown to the operator: the fault, a colon, the URL.
    pub fn message(&self) -> (text: String)
        ensures
            text@ == self.fault.describe_spec() + ": "@ + self.url@,
    {
        let mut text = String::from_str(self.fault.describe());
        text.append(": ");
        text.append(self.url.as_str());
        text
    }
}

impl IdentifierFault {
    /// The text of [`describe`](Self::describe), as a sequence of characters.
    pub open spec fn describe_spec(self) -> Seq<char> {
        match self {
            IdentifierFault::NoSeparator => "the URL has no '/' to split at"@,
            IdentifierFault::WrongLength => "the last path segment has the wrong length"@,
            IdentifierFault::NotNumeric => "the key is not a decimal number above zero"@,
        }
    }
}

} // verus!
