//! Resolving: from an endpoint id and what the DHT answers to endpoint data.
use vstd::prelude::*;

use crate::blinding::InvalidKey;
use crate::encryption::{open, opened_record, SealError};
use crate::endpoint::{EndpointData, EndpointDataView};
use crate::error::{LookupError, LookupErrorView};
use crate::wire::{decoded, endpoint_of, text_views, WireData};

verus! {

/// What the DHT answers when it is asked for the most recent item under a key.
#[derive(Debug, PartialEq, Eq)]
pub enum DhtReply {
    /// The DHT actor is gone.
    Shutdown,
    /// There is no item.
    Missing,
    /// The value and the sequence number of the item.
    Found { value: Vec<u8>, seq: i64 },
}

/// Why an endpoint could not be resolved.
#[derive(Debug, PartialEq, Eq)]
pub enum ResolveError {
    /// The endpoint id is not a key.
    Key(InvalidKey),
    /// The record does not open.
    Seal(SealError),
    /// There is no record, or none that can be read.
    Lookup(LookupError),
}

/// A [`ResolveError`], by its contents.
pub enum ResolveErrorView {
    Key(InvalidKey),
    Seal(SealError),
    Lookup(LookupErrorView),
}

impl View for ResolveError {
    type V = ResolveErrorView;

    open spec fn view(&self) -> ResolveErrorView {
        match *self {
            ResolveError::Key(error) => ResolveErrorView::Key(error),
            ResolveError::Seal(error) => ResolveErrorView::Seal(error),
            ResolveError::Lookup(error) => ResolveErrorView::Lookup(error@),
        }
    }
}

impl ResolveErrorView {
    /// What went wrong, for people.
    pub open spec fn text(self) -> Seq<char> {
        match self {
            ResolveErrorView::Key(error) => error.text(),
            ResolveErrorView::Seal(error) => error.text(),
            ResolveErrorView::Lookup(error) => error.text(),
        }
    }
}

impl ResolveError {
    /// What went wrong, for people.
    pub fn message(&self) -> (text: String)
        ensures
            text@ == self@.text(),
    {
        match self {
            ResolveError::Key(error) => error.message(),
            ResolveError::Seal(error) => error.message(),
            ResolveError::Lookup(error) => error.message(),
        }
    }
}

/// The result of reading a record, among the results of a lookup.
pub open spec fn lookup_result(read: Result<EndpointDataView, LookupErrorView>) -> Result<
    EndpointDataView,
    ResolveErrorView,
> {
    match read {
        Ok(data) => Ok(data),
        Err(error) => Err(ResolveErrorView::Lookup(error)),
    }
}

/// What the value of an item says of the endpoint with the given id: it is
/// opened, decoded and read, and the first of these that fails gives the error.
pub open spec fn resolution(endpoint_id: Seq<u8>, context: Seq<u8>, value: Seq<u8>) -> Result<
    EndpointDataView,
    ResolveErrorView,
> {
    match opened_record(endpoint_id, context, value) {
        Err(error) => Err(ResolveErrorView::Seal(error)),
        Ok(plaintext) => match decoded(plaintext) {
            Err(error) => Err(ResolveErrorView::Lookup(error)),
            Ok(wire) => lookup_result(endpoint_of(wire)),
        },
    }
}

/// The relay URLs of an item that opens and decodes, as they are spelled in it.
pub open spec fn spelled_relay_urls(
    endpoint_id: Seq<u8>,
    context: Seq<u8>,
    value: Seq<u8>,
) -> Seq<Seq<char>> {
    decoded(opened_record(endpoint_id, context, value)->Ok_0)->Ok_0.relay_urls
}

/// Reads the value of an item: the endpoint data, and the relay URLs as they are
/// spelled in the item.
pub fn read_value(endpoint_id: &[u8; 32], context: &[u8], value: &[u8]) -> (read: Result<
    (EndpointData, Vec<String>),
    ResolveError,
>)
    ensures
        match read {
            Ok((data, relay_texts)) => {
                &&& resolution(endpoint_id@, context@, value@) == Ok::<
                    EndpointDataView,
                    ResolveErrorView,
                >(data@)
                &&& text_views(relay_texts@) == spelled_relay_urls(endpoint_id@, context@, value@)
            },
            Err(e) => resolution(endpoint_id@, context@, value@) == Err::<
                EndpointDataView,
                ResolveErrorView,
            >(e@),
        },
{
    let plaintext = match open(endpoint_id, context, value) {
        Ok(plaintext) => plaintext,
        Err(error) => {
            return Err(ResolveError::Seal(error));
        },
    };
    let wire = match WireData::decode(&plaintext) {
        Ok(wire) => wire,
        Err(error) => {
            return Err(ResolveError::Lookup(error));
        },
    };
    let relay_texts = wire.relay_urls.clone();
    assert(text_views(relay_texts@) =~= wire@.relay_urls);
    match wire.into_endpoint_data() {
        Ok(data) => Ok((data, relay_texts)),
        Err(error) => Err(ResolveError::Lookup(error)),
    }
}

/// When a record was published, in microseconds since the Unix epoch: its
/// sequence number counts seconds. A negative one gives no time.
pub open spec fn publish_time(seq: i64) -> Option<int> {
    if seq < 0 {
        None
    } else {
        Some(seq * 1_000_000)
    }
}

/// A record that was found in the DHT.
#[derive(Debug, PartialEq, Eq)]
pub struct Resolved {
    pub data: EndpointData,
    /// The relay URLs as the record spells them. The data has them as they are
    /// printed, and a printed URL need not parse to itself.
    pub relay_texts: Vec<String>,
    pub seq: i64,
}

impl Resolved {
    /// When the record was published, in microseconds since the Unix epoch.
    pub fn last_updated(&self) -> (micros: Option<u64>)
        requires
            self.seq * 1_000_000 <= u64::MAX,
        ensures
            match micros {
                Some(t) => publish_time(self.seq) == Some(t as int),
                None => publish_time(self.seq) is None,
            },
    {
        if self.seq < 0 {
            None
        } else {
            Some(self.seq as u64 * 1_000_000)
        }
    }
}

/// The value of an item is opened, then decoded, then read: what comes of it is the
/// endpoint data that it reads as, or the error of the first step that fails.
pub proof fn resolution_takes_the_steps_in_order(
    endpoint_id: Seq<u8>,
    context: Seq<u8>,
    value: Seq<u8>,
)
    ensures
        match opened_record(endpoint_id, context, value) {
            Err(error) => resolution(endpoint_id, context, value) == Err::<
                EndpointDataView,
                ResolveErrorView,
            >(ResolveErrorView::Seal(error)),
            Ok(plaintext) => match decoded(plaintext) {
                Err(error) => resolution(endpoint_id, context, value) == Err::<
                    EndpointDataView,
                    ResolveErrorView,
                >(ResolveErrorView::Lookup(error)),
                Ok(wire) => {
                    &&& spelled_relay_urls(endpoint_id, context, value) == wire.relay_urls
                    &&& match endpoint_of(wire) {
                        Err(error) => resolution(endpoint_id, context, value) == Err::<
                            EndpointDataView,
                            ResolveErrorView,
                        >(ResolveErrorView::Lookup(error)),
                        Ok(data) => resolution(endpoint_id, context, value) == Ok::<
                            EndpointDataView,
                            ResolveErrorView,
                        >(data),
                    }
                },
            },
        },
{
}

/// The publish time is the sequence number in millions, and there is none where the
/// sequence number is negative.
pub proof fn publish_time_is_in_microseconds(seq: i64)
    ensures
        seq < 0 ==> publish_time(seq) is None,
        seq >= 0 ==> publish_time(seq) == Some(1_000_000 * seq),
{
}

/// An error is, and says, what its cause is and says.
pub proof fn resolve_error_shows_its_cause(error: ResolveError)
    ensures
        match error {
            ResolveError::Key(cause) => error@ == ResolveErrorView::Key(cause) && error@.text()
                == cause.text(),
            ResolveError::Seal(cause) => error@ == ResolveErrorView::Seal(cause) && error@.text()
                == cause.text(),
            ResolveError::Lookup(cause) => error@ == ResolveErrorView::Lookup(cause@)
                && error@.text() == cause@.text(),
        },
{
}

} // verus!
