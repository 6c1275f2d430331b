//! Fetching through the cache, one step at a time: what to do next, given
//! what the cache or the network gave.

use vstd::prelude::*;
use crate::chars;
use crate::registry::{RegistryError, RegistryErrorView};
use crate::types::option_view;

verus! {

/// The validators that the registry sent with a cached body.
#[derive(Clone, Debug, PartialEq, Eq)]
pub struct HttpCacheMetadata {
    pub etag: Option<String>,
    pub last_modified: Option<String>,
}

impl HttpCacheMetadata {
    /// No validators.
    pub fn new() -> (r: Self)
        ensures
            r.etag is None,
            r.last_modified is None,
    {
        HttpCacheMetadata { etag: None, last_modified: None }
    }

    /// Whether there is nothing to store: such metadata is removed from
    /// the cache, not written.
    pub fn is_empty(&self) -> (r: bool)
        ensures
            r == (self.etag is None && self.last_modified is None),
    {
        self.etag.is_none() && self.last_modified.is_none()
    }
}

/// The headers that make a request conditional on the stored validators.
pub open spec fn conditional_headers(metadata: HttpCacheMetadata) -> Seq<(Seq<char>, Seq<char>)> {
    (match metadata.etag {
        Some(tag) => seq![("if-none-match"@, tag@)],
        None => seq![],
    }) + (match metadata.last_modified {
        Some(date) => seq![("if-modified-since"@, date@)],
        None => seq![],
    })
}

/// The headers that make a request conditional on the stored validators.
pub fn request_headers(metadata: &HttpCacheMetadata) -> (r: Vec<(String, String)>)
    ensures
        crate::plan::pair_views(r@) == conditional_headers(*metadata),
{
    let mut headers: Vec<(String, String)> = Vec::new();
    if let Some(tag) = &metadata.etag {
        headers.push(("if-none-match".to_owned(), tag.clone()));
    }
    if let Some(date) = &metadata.last_modified {
        headers.push(("if-modified-since".to_owned(), date.clone()));
    }
    assert(crate::plan::pair_views(headers@) =~= conditional_headers(*metadata));
    headers
}

/// Where a fetch stands.
#[derive(Clone, Debug, PartialEq, Eq)]
pub enum FetchState {
    /// Nothing done yet.
    Start,
    /// Waiting for the fresh copy of the cache.
    AwaitFresh,
    /// Waiting for the stored validators.
    AwaitMetadata,
    /// Waiting for the registry.
    AwaitResponse,
    /// The registry did not deliver; waiting for a stale copy of the
    /// cache, with the error to report where there is none.
    AwaitStale(RegistryError),
    /// Over.
    Done,
}

/// What happened since the last step.
#[derive(Clone, Debug, PartialEq, Eq)]
pub enum FetchEvent {
    /// The fetch begins.
    Begin,
    /// The cache was read as asked: the copy, or none.
    CacheRead(Option<String>),
    /// The stored validators were loaded.
    MetadataLoaded(HttpCacheMetadata),
    /// The registry answered that its copy has not changed.
    NotModified,
    /// The registry answered with a status that is no success.
    Rejected(String),
    /// The registry delivered a body, with its validators.
    Delivered { body: String, etag: Option<String>, last_modified: Option<String> },
    /// The registry answered, but the body could not be read.
    BodyFailed(String),
    /// The registry could not be reached.
    Unreachable(String),
}

/// What to do next.
#[derive(Clone, Debug, PartialEq, Eq)]
pub enum FetchAction {
    /// Read the cache, accepting only a copy within its time to live.
    ReadFresh,
    /// Load the stored validators.
    LoadMetadata,
    /// Ask the registry, with these headers.
    Send(Vec<(String, String)>),
    /// Read the cache, accepting a copy of any age.
    ReadStale,
    /// Store the body and its validators in the cache, and serve the body.
    StoreAndServe { body: String, metadata: HttpCacheMetadata },
    /// Serve this text.
    Serve(String),
    /// Fail with this error.
    Fail(RegistryError),
    /// The event does not belong here: nothing to do.
    Ignore,
}

/// The error of a registry that says "not modified" about an entry that
/// the cache does not hold.
pub open spec fn missing_entry_error() -> RegistryErrorView {
    RegistryErrorView::Network("registry returned 304 but cache entry is missing"@)
}

/// The error of a registry that answers with the status `status`.
pub open spec fn rejected_error(status: Seq<char>) -> RegistryErrorView {
    RegistryErrorView::Network("registry request failed with status "@ + status)
}

/// The step of a fetch. A fresh copy of the cache is served without a
/// request. Else the registry is asked, conditionally on the stored
/// validators. What it delivers is stored and served. Where it says "not
/// modified", rejects the request, fails to deliver the body or cannot be
/// reached, a stale copy of the cache is served if there is one, and the
/// error is reported if there is none.
pub fn fetch_step(state: FetchState, event: FetchEvent) -> (r: (FetchState, FetchAction))
    ensures
        match (state, event) {
            (FetchState::Start, FetchEvent::Begin) => r.0 is AwaitFresh && r.1 is ReadFresh,
            (FetchState::AwaitFresh, FetchEvent::CacheRead(Some(text))) => {
                &&& r.0 is Done
                &&& r.1 matches FetchAction::Serve(served)
                &&& served@ == text@
            },
            (FetchState::AwaitFresh, FetchEvent::CacheRead(None)) => r.0 is AwaitMetadata
                && r.1 is LoadMetadata,
            (FetchState::AwaitMetadata, FetchEvent::MetadataLoaded(metadata)) => {
                &&& r.0 is AwaitResponse
                &&& r.1 matches FetchAction::Send(headers)
                &&& crate::plan::pair_views(headers@) == conditional_headers(metadata)
            },
            (FetchState::AwaitResponse, FetchEvent::NotModified) => {
                &&& r.1 is ReadStale
                &&& r.0 matches FetchState::AwaitStale(error)
                &&& error@ == missing_entry_error()
            },
            (FetchState::AwaitResponse, FetchEvent::Rejected(status)) => {
                &&& r.1 is ReadStale
                &&& r.0 matches FetchState::AwaitStale(error)
                &&& error@ == rejected_error(status@)
            },
            (FetchState::AwaitResponse, FetchEvent::BodyFailed(reason)) => {
                &&& r.1 is ReadStale
                &&& r.0 matches FetchState::AwaitStale(error)
                &&& error@ == RegistryErrorView::Network(reason@)
            },
            (FetchState::AwaitResponse, FetchEvent::Unreachable(reason)) => {
                &&& r.1 is ReadStale
                &&& r.0 matches FetchState::AwaitStale(error)
                &&& error@ == RegistryErrorView::Network(reason@)
            },
            (FetchState::AwaitResponse, FetchEvent::Delivered { body, etag, last_modified }) => {
                &&& r.0 is Done
                &&& r.1 matches FetchAction::StoreAndServe { body: stored, metadata }
                &&& stored@ == body@
                &&& option_view(metadata.etag) == option_view(etag)
                &&& option_view(metadata.last_modified) == option_view(last_modified)
            },
            (FetchState::AwaitStale(error), FetchEvent::CacheRead(Some(text))) => {
                &&& r.0 is Done
                &&& r.1 matches FetchAction::Serve(served)
                &&& served@ == text@
            },
            (FetchState::AwaitStale(error), FetchEvent::CacheRead(None)) => {
                &&& r.0 is Done
                &&& r.1 matches FetchAction::Fail(reported)
                &&& reported@ == error@
            },
            (before, _) => r.0 == before && r.1 is Ignore,
        },
{
    match (state, event) {
        (FetchState::Start, FetchEvent::Begin) => (FetchState::AwaitFresh, FetchAction::ReadFresh),
        (FetchState::AwaitFresh, FetchEvent::CacheRead(Some(text))) => (
            FetchState::Done,
            FetchAction::Serve(text),
        ),
        (FetchState::AwaitFresh, FetchEvent::CacheRead(None)) => (
            FetchState::AwaitMetadata,
            FetchAction::LoadMetadata,
        ),
        (FetchState::AwaitMetadata, FetchEvent::MetadataLoaded(metadata)) => (
            FetchState::AwaitResponse,
            FetchAction::Send(request_headers(&metadata)),
        ),
        (FetchState::AwaitResponse, FetchEvent::NotModified) => (
            FetchState::AwaitStale(
                RegistryError::Network(
                    "registry returned 304 but cache entry is missing".to_owned(),
                ),
            ),
            FetchAction::ReadStale,
        ),
        (FetchState::AwaitResponse, FetchEvent::Rejected(status)) => {
            let mut reason = chars::chars_of("registry request failed with status ");
            chars::append(&mut reason, &chars::chars_of(status.as_str()));
            (
                FetchState::AwaitStale(RegistryError::Network(chars::string_of(&reason))),
                FetchAction::ReadStale,
            )
        },
        (FetchState::AwaitResponse, FetchEvent::BodyFailed(reason)) => (
            FetchState::AwaitStale(RegistryError::Network(reason)),
            FetchAction::ReadStale,
        ),
        (FetchState::AwaitResponse, FetchEvent::Unreachable(reason)) => (
            FetchState::AwaitStale(RegistryError::Network(reason)),
            FetchAction::ReadStale,
        ),
        (FetchState::AwaitResponse, FetchEvent::Delivered { body, etag, last_modified }) => (
            FetchState::Done,
            FetchAction::StoreAndServe { body, metadata: HttpCacheMetadata { etag, last_modified } },
        ),
        (FetchState::AwaitStale(_), FetchEvent::CacheRead(Some(text))) => (
            FetchState::Done,
            FetchAction::Serve(text),
        ),
        (FetchState::AwaitStale(error), FetchEvent::CacheRead(None)) => (
            FetchState::Done,
            FetchAction::Fail(error),
        ),
        (before, _) => (before, FetchAction::Ignore),
    }
}

} // verus!
