//! Entries of the model cache, and when one may be used.

use vstd::prelude::*;

use crate::model::infos;
use crate::model::ModelInfo;
use crate::model::ModelInfoView;
use crate::text::opt_text;
use crate::text::same_text;

verus! {

/// The name of the cache file in the program's home directory.
pub const MODEL_CACHE_FILE: &'static str = "models_cache.json";

/// How long an entry stays fresh, in seconds.
pub const DEFAULT_MODEL_CACHE_TTL_SECONDS: i64 = 300;

/// A catalog as it was last fetched.
#[derive(Debug)]
pub struct CachedModels {
    /// When it was fetched or last confirmed, in seconds since the epoch.
    pub fetched_at: i64,
    pub etag: Option<String>,
    /// The version of the program that fetched it, where it is known.
    pub client_version: Option<String>,
    /// The provider, base URL and sign-in that it was fetched with, where they are known.
    pub provider_scope: Option<String>,
    pub models: Vec<ModelInfo>,
}

/// What a [`CachedModels`] holds.
pub ghost struct CachedView {
    pub fetched_at: i64,
    pub etag: Option<Seq<char>>,
    pub client_version: Option<Seq<char>>,
    pub provider_scope: Option<Seq<char>>,
    pub models: Seq<ModelInfoView>,
}

impl View for CachedModels {
    type V = CachedView;

    open spec fn view(&self) -> CachedView {
        CachedView {
            fetched_at: self.fetched_at,
            etag: opt_text(self.etag),
            client_version: opt_text(self.client_version),
            provider_scope: opt_text(self.provider_scope),
            models: infos(self.models@),
        }
    }
}

/// What an optional entry holds.
pub open spec fn opt_entry(entry: Option<CachedModels>) -> Option<CachedView> {
    match entry {
        Some(cached) => Some(cached@),
        None => None,
    }
}

/// Whether an entry is no older than `ttl` seconds; with no lifetime at all none is fresh.
pub open spec fn is_fresh(entry: CachedView, now: i64, ttl: i64) -> bool {
    ttl > 0 && now - entry.fetched_at <= ttl
}

/// Whether an entry may serve a session: it is fresh, and was fetched by the same version for the
/// same provider, base URL and sign-in.
pub open spec fn may_serve(
    entry: CachedView,
    now: i64,
    ttl: i64,
    client_version: Seq<char>,
    scope: Seq<char>,
) -> bool {
    &&& entry.client_version == Some(client_version)
    &&& entry.provider_scope == Some(scope)
    &&& is_fresh(entry, now, ttl)
}

impl CachedModels {
    /// Whether the entry is no older than `ttl` seconds.
    pub fn is_fresh(&self, now: i64, ttl: i64) -> (r: bool)
        ensures
            r == is_fresh(self@, now, ttl),
    {
        ttl > 0 && (now as i128) - (self.fetched_at as i128) <= ttl as i128
    }

    /// Whether the entry may serve a session of the given version and scope.
    pub fn may_serve(&self, now: i64, ttl: i64, client_version: &str, scope: &str) -> (r: bool)
        ensures
            r == may_serve(self@, now, ttl, client_version@, scope@),
    {
        let same_version = match &self.client_version {
            Some(version) => same_text(version.as_str(), client_version),
            None => false,
        };
        let same_scope = match &self.provider_scope {
            Some(known) => same_text(known.as_str(), scope),
            None => false,
        };
        same_version && same_scope && self.is_fresh(now, ttl)
    }
}

} // verus!
