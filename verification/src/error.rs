//! Errors of a lookup.
use vstd::prelude::*;

verus! {

/// Errors produced by a lookup.
#[derive(Debug, PartialEq, Eq)]
pub enum LookupError {
    /// The DHT actor is gone.
    Shutdown,
    /// The DHT holds no record.
    NotFound,
    /// The record is not an encoding of endpoint data. Holds what the decoder
    /// said of it.
    Decode(String),
    /// The record holds a field that is not valid.
    BadRecord(&'static str),
}

/// A [`LookupError`], by its contents.
pub enum LookupErrorView {
    Shutdown,
    NotFound,
    Decode(Seq<char>),
    BadRecord(Seq<char>),
}

impl View for LookupError {
    type V = LookupErrorView;

    open spec fn view(&self) -> LookupErrorView {
        match *self {
            LookupError::Shutdown => LookupErrorView::Shutdown,
            LookupError::NotFound => LookupErrorView::NotFound,
            LookupError::Decode(text) => LookupErrorView::Decode(text@),
            LookupError::BadRecord(text) => LookupErrorView::BadRecord(text@),
        }
    }
}

impl LookupErrorView {
    /// What went wrong, for people.
    pub open spec fn text(self) -> Seq<char> {
        match self {
            LookupErrorView::Shutdown => "dht actor shut down"@,
            LookupErrorView::NotFound => "no record found"@,
            LookupErrorView::Decode(text) => "failed to decode record: "@ + text,
            LookupErrorView::BadRecord(text) => "bad record: "@ + text,
        }
    }
}

impl LookupError {
    /// What went wrong, for people.
    pub fn message(&self) -> (text: String)
        ensures
            text@ == self@.text(),
    {
        match self {
            LookupError::Shutdown => "dht actor shut down".to_owned(),
            LookupError::NotFound => "no record found".to_owned(),
            LookupError::Decode(text) => "failed to decode record: ".to_owned().concat(
                text.as_str(),
            ),
            LookupError::BadRecord(text) => "bad record: ".to_owned().concat(text),
        }
    }
}

/// The text of an error ends with the whole text that the error holds.
pub proof fn error_text_ends_with_the_cause(cause: Seq<char>)
    ensures
        LookupErrorView::Decode(cause).text() == "failed to decode record: "@ + cause,
        LookupErrorView::BadRecord(cause).text() == "bad record: "@ + cause,
        LookupErrorView::Shutdown.text() == "dht actor shut down"@,
        LookupErrorView::NotFound.text() == "no record found"@,
{
}

/// An error holds the whole text that it was made with.
pub proof fn error_shows_its_cause(error: LookupError)
    ensures
        match error {
            LookupError::Shutdown => error@ is Shutdown,
            LookupError::NotFound => error@ is NotFound,
            LookupError::Decode(text) => error@ == LookupErrorView::Decode(text@),
            LookupError::BadRecord(text) => error@ == LookupErrorView::BadRecord(text@),
        },
{
}

} // verus!
