//! The errors of a scrape, each holding the description of its cause.
use vstd::prelude::*;
use crate::text::owned;

verus! {

/// What can go wrong during a scrape. Each variant holds the description of
/// the underlying error.
#[derive(Debug)]
pub enum ScraperError {
    /// Reading the page failed.
    Io(String),
    /// The parsing task could not be joined.
    Join(String),
    /// Kafka failed.
    Kafka(String),
    /// The HTTP request failed.
    Reqwest(String),
    /// A record could not be delivered.
    Send(String),
}

/// The label that a message starts with, for each kind of error.
pub open spec fn error_label(e: ScraperError) -> Seq<char> {
    match e {
        ScraperError::Io(_) => "IO error: "@,
        ScraperError::Join(_) => "Join error: "@,
        ScraperError::Kafka(_) => "Kafka error: "@,
        ScraperError::Reqwest(_) => "Reqwest error: "@,
        ScraperError::Send(_) => "Kafka send error: "@,
    }
}

/// The description of the underlying error.
pub open spec fn error_cause(e: ScraperError) -> Seq<char> {
    match e {
        ScraperError::Io(c) => c@,
        ScraperError::Join(c) => c@,
        ScraperError::Kafka(c) => c@,
        ScraperError::Reqwest(c) => c@,
        ScraperError::Send(c) => c@,
    }
}

/// The message of an error: its label, then the description of its cause.
pub open spec fn error_message(e: ScraperError) -> Seq<char> {
    error_label(e) + error_cause(e)
}

/// The message of an error as the scraper program prints it, where a failed
/// delivery reads "Send error".
pub open spec fn short_error_message(e: ScraperError) -> Seq<char> {
    match e {
        ScraperError::Send(c) => "Send error: "@ + c@,
        _ => error_message(e),
    }
}

impl ScraperError {
    /// The description of the underlying error.
    pub fn cause(&self) -> (r: &String)
        ensures
            r@ == error_cause(*self),
    {
        match self {
            ScraperError::Io(c) => c,
            ScraperError::Join(c) => c,
            ScraperError::Kafka(c) => c,
            ScraperError::Reqwest(c) => c,
            ScraperError::Send(c) => c,
        }
    }

    /// The message of the error: its label, then the description of its cause.
    pub fn message(&self) -> (r: String)
        ensures
            r@ == error_message(*self),
    {
        let mut r = match self {
            ScraperError::Io(_) => owned("IO error: "),
            ScraperError::Join(_) => owned("Join error: "),
            ScraperError::Kafka(_) => owned("Kafka error: "),
            ScraperError::Reqwest(_) => owned("Reqwest error: "),
            ScraperError::Send(_) => owned("Kafka send error: "),
        };
        r.append(self.cause().as_str());
        r
    }

    /// The message of the error as the scraper program prints it.
    pub fn short_message(&self) -> (r: String)
        ensures
            r@ == short_error_message(*self),
    {
        match self {
            ScraperError::Send(c) => {
                let mut r = owned("Send error: ");
                r.append(c.as_str());
                r
            },
            _ => self.message(),
        }
    }
}

} // verus!
