//! The lookup and its builder.
use core::time::Duration;
use vstd::prelude::*;
use vstd::utf8::encode_utf8;

use crate::blinding::{
    blind_public_key, blinded_prefix, blinded_public_key, blinded_secret_scalar, blinding_scalar,
    InvalidKey,
};
use crate::bytes::copy;
use crate::curve::{has_small_order, is_edwards_point, scales_as_base_multiple};
use crate::endpoint::EndpointDataView;
use crate::error::{LookupError, LookupErrorView};
use crate::keys::SecretKey;
use crate::publisher::PublisherKeys;
use crate::resolve::{
    read_value, resolution, spelled_relay_urls, DhtReply, ResolveError, ResolveErrorView, Resolved,
};
use crate::wire::text_views;

verus! {

/// Provenance string for items produced by this lookup.
pub const PROVENANCE: &'static str = "blinded-mainline";

/// Default blinding context. This is a wire-format constant: all publishers and
/// resolvers must agree on it, and changing it re-keys every pseudonym.
pub const DEFAULT_CONTEXT: &'static str = "iroh-blinded-lookup/v1";

/// Default interval for republishing to the DHT, in seconds (mainline nodes drop
/// mutable items after a couple of hours).
pub const DEFAULT_REPUBLISH_SECS: u64 = 60 * 60;

/// The duration of a number of seconds.
pub uninterp spec fn duration_of_secs(secs: u64) -> Duration;

/// Trusted: `Duration::from_secs`, which makes a duration of whole seconds. The
/// duration is a function of their number and named [`duration_of_secs`].
pub assume_specification[ Duration::from_secs ](secs: u64) -> (duration: Duration)
    ensures
        duration == duration_of_secs(secs),
;

/// Trusted: `From` between a type and itself, which std documents to return its
/// argument unchanged.
pub assume_specification<T>[ <T as From<T>>::from ](value: T) -> (same: T)
    ensures
        same == value,
;

/// Builder for [`BlindedLookup`].
#[derive(Debug)]
pub struct Builder {
    bootstrap: Option<Vec<String>>,
    context: Vec<u8>,
    republish_interval: Duration,
}

/// A [`Builder`], by its contents.
pub struct BuilderView {
    pub bootstrap: Option<Seq<Seq<char>>>,
    pub context: Seq<u8>,
    pub republish_interval: Duration,
}

impl View for Builder {
    type V = BuilderView;

    closed spec fn view(&self) -> BuilderView {
        BuilderView {
            bootstrap: match self.bootstrap {
                Some(nodes) => Some(text_views(nodes@)),
                None => None,
            },
            context: self.context@,
            republish_interval: self.republish_interval,
        }
    }
}

impl Clone for Builder {
    fn clone(&self) -> (copied: Builder)
        ensures
            copied@ == self@,
    {
        let bootstrap = match &self.bootstrap {
            Some(nodes) => {
                let copied_nodes = nodes.clone();
                assert(text_views(copied_nodes@) =~= text_views(nodes@));
                Some(copied_nodes)
            },
            None => None,
        };
        Builder {
            bootstrap,
            context: copy(&self.context),
            republish_interval: self.republish_interval,
        }
    }
}

impl Default for Builder {
    fn default() -> (builder: Builder)
        ensures
            builder@ == (BuilderView {
                bootstrap: None,
                context: encode_utf8(DEFAULT_CONTEXT@),
                republish_interval: duration_of_secs(DEFAULT_REPUBLISH_SECS),
            }),
    {
        let builder = Builder {
            bootstrap: None,
            context: Vec::new(),
            republish_interval: Duration::from_secs(DEFAULT_REPUBLISH_SECS),
        };
        builder.context(copy(DEFAULT_CONTEXT.as_bytes()))
    }
}

impl Builder {
    /// Overrides the DHT bootstrap nodes (e.g. for a testnet).
    pub fn bootstrap(self, bootstrap: Vec<String>) -> (builder: Builder)
        ensures
            builder@ == (BuilderView { bootstrap: Some(text_views(bootstrap@)), ..self@ }),
    {
        Builder {
            bootstrap: Some(bootstrap),
            context: self.context,
            republish_interval: self.republish_interval,
        }
    }

    /// Overrides the blinding context with what `context` converts to.
    pub fn context<C: Into<Vec<u8>>>(self, context: C) -> (builder: Builder)
        ensures
            exists|bytes: Vec<u8>| #[trigger]
                call_ensures(C::into, (context,), bytes) && builder@ == (BuilderView {
                    context: bytes@,
                    ..self@
                }),
    {
        Builder {
            bootstrap: self.bootstrap,
            context: context.into(),
            republish_interval: self.republish_interval,
        }
    }

    /// Overrides the republish interval.
    pub fn republish_interval(self, interval: Duration) -> (builder: Builder)
        ensures
            builder@ == (BuilderView { republish_interval: interval, ..self@ }),
    {
        Builder {
            bootstrap: self.bootstrap,
            context: self.context,
            republish_interval: interval,
        }
    }

    /// The DHT bootstrap nodes, if they are overridden.
    pub fn bootstrap_nodes(&self) -> (nodes: &Option<Vec<String>>)
        ensures
            match nodes {
                Some(n) => self@.bootstrap == Some(text_views(n@)),
                None => self@.bootstrap is None,
            },
    {
        &self.bootstrap
    }

    /// How often an unchanged record is published again.
    pub fn interval(&self) -> (interval: Duration)
        ensures
            interval == self@.republish_interval,
    {
        self.republish_interval
    }

    /// Builds a resolve-only lookup.
    pub fn build(self) -> (lookup: BlindedLookup)
        ensures
            lookup.context() == self@.context,
            lookup.keys() is None,
    {
        BlindedLookup { context: self.context, publisher: None }
    }

    /// Builds a lookup that also publishes, signing under the blinded key
    /// derived from `secret_key`.
    pub fn build_with_secret_key(self, secret_key: &SecretKey) -> (lookup: BlindedLookup)
        ensures
            lookup.context() == self@.context,
            lookup.keys() matches Some(keys) && {
                &&& keys.master_key() == secret_key.public_key()
                &&& keys.context() == self@.context
                &&& keys.secret_scalar() == blinded_secret_scalar(
                    secret_key.seed(),
                    self@.context,
                )
                &&& keys.prefix() == blinded_prefix(secret_key.seed(), self@.context)
                &&& blinded_public_key(secret_key.public_key(), self@.context) == Some(
                    keys.pseudonym(),
                )
                &&& blinding_scalar(secret_key.public_key(), self@.context) != 1
                    ==> keys.pseudonym() != secret_key.public_key()
                &&& is_edwards_point(keys.pseudonym())
                &&& keys.secret_scalar() != 0
                &&& scales_as_base_multiple(keys.pseudonym(), keys.secret_scalar())
                &&& !has_small_order(keys.pseudonym())
            },
    {
        let keys = PublisherKeys::new(secret_key, &self.context);
        BlindedLookup { context: self.context, publisher: Some(keys) }
    }
}

/// An address lookup that stores postcard-encoded endpoint data as BEP44 mutable
/// items on the mainline DHT, keyed by a blinded endpoint key.
///
/// What asks the DHT is not part of it: it says which key to ask for and what the
/// answer means.
pub struct BlindedLookup {
    context: Vec<u8>,
    publisher: Option<PublisherKeys>,
}

impl BlindedLookup {
    /// The blinding context.
    pub closed spec fn context(&self) -> Seq<u8> {
        self.context@
    }

    /// The keys that it publishes with, if it does.
    pub closed spec fn keys(&self) -> Option<PublisherKeys> {
        self.publisher
    }

    /// Returns a builder.
    pub fn builder() -> (builder: Builder)
        ensures
            builder@ == (BuilderView {
                bootstrap: None,
                context: encode_utf8(DEFAULT_CONTEXT@),
                republish_interval: duration_of_secs(DEFAULT_REPUBLISH_SECS),
            }),
    {
        Builder::default()
    }

    /// The keys to publish with. A resolve-only lookup has none.
    pub fn publisher(&self) -> (keys: &Option<PublisherKeys>)
        ensures
            *keys == self.keys(),
    {
        &self.publisher
    }

    /// The key under which the DHT holds the record of an endpoint.
    pub fn target(&self, endpoint_id: &[u8; 32]) -> (key: Result<[u8; 32], ResolveError>)
        ensures
            match key {
                Ok(k) => {
                    &&& blinded_public_key(endpoint_id@, self.context()) == Some(k@)
                    &&& is_edwards_point(k@)
                },
                Err(e) => {
                    &&& e@ == ResolveErrorView::Key(InvalidKey)
                    &&& blinded_public_key(endpoint_id@, self.context()) is None
                },
            },
    {
        match blind_public_key(endpoint_id, &self.context) {
            Ok(key) => Ok(key),
            Err(error) => Err(ResolveError::Key(error)),
        }
    }

    /// What the answer of the DHT says of an endpoint.
    pub fn resolve(&self, endpoint_id: &[u8; 32], reply: DhtReply) -> (resolved: Result<
        Resolved,
        ResolveError,
    >)
        ensures
            match reply {
                DhtReply::Shutdown => resolved matches Err(e) && e@ == ResolveErrorView::Lookup(
                    LookupErrorView::Shutdown,
                ),
                DhtReply::Missing => resolved matches Err(e) && e@ == ResolveErrorView::Lookup(
                    LookupErrorView::NotFound,
                ),
                DhtReply::Found { value, seq } => match resolved {
                    Ok(r) => {
                        &&& resolution(endpoint_id@, self.context(), value@) == Ok::<
                            EndpointDataView,
                            ResolveErrorView,
                        >(r.data@)
                        &&& text_views(r.relay_texts@) == spelled_relay_urls(
                            endpoint_id@,
                            self.context(),
                            value@,
                        )
                        &&& r.seq == seq
                    },
                    Err(e) => resolution(endpoint_id@, self.context(), value@) == Err::<
                        EndpointDataView,
                        ResolveErrorView,
                    >(e@),
                },
            },
    {
        match reply {
            DhtReply::Shutdown => Err(ResolveError::Lookup(LookupError::Shutdown)),
            DhtReply::Missing => Err(ResolveError::Lookup(LookupError::NotFound)),
            DhtReply::Found { value, seq } => match read_value(
                endpoint_id,
                &self.context,
                &value,
            ) {
                Ok((data, relay_texts)) => Ok(Resolved { data, relay_texts, seq }),
                Err(error) => Err(error),
            },
        }
    }
}

} // verus!
