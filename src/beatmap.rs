//! Resolution of beatmap ids through the bounded cache, with loading from
//! local storage left to the caller.

use vstd::prelude::*;
use vstd::string::StringExecFns;
use crate::cache::{BeatmapCache, after_insert, lemma_lookup_after_insert, lookup};
use crate::config::Config;
use crate::error::AppError;
use crate::text::{int_text, int_to_text};

verus! {

/// The name of the file that holds beatmap `id`.
pub open spec fn beatmap_file_name_spec(id: i32) -> Seq<char> {
    int_text(id as int) + ".osu"@
}

/// The prefix of the message for a beatmap whose bytes do not parse.
pub open spec fn parse_failure_prefix() -> Seq<char> {
    "failed to parse beatmap: "@
}

/// The name of the file that holds beatmap `id`.
pub fn beatmap_file_name(id: i32) -> (r: String)
    ensures
        r@ == beatmap_file_name_spec(id),
{
    let mut name = int_to_text(id as i64);
    proof {
        reveal_strlit(".osu");
    }
    name.append(".osu");
    name
}

/// Why loading a beatmap that was not cached failed.
#[derive(Debug, Clone, PartialEq, Eq)]
pub enum LoadFailure {
    /// Its file could not be read.
    Missing,
    /// Its bytes did not parse; the parser's message.
    Malformed(String),
}

/// Where the beatmap for an id comes from.
#[derive(Debug)]
pub enum BeatmapLookup<'a, V> {
    /// It is cached.
    Cached(&'a V),
    /// It must be loaded from the file with this name and then stored.
    Load(String),
}

/// The beatmap cache of the service, sized by its configuration.
pub struct BeatmapService<V> {
    config: Config,
    cache: BeatmapCache<V>,
}

impl<V> BeatmapService<V> {
    /// The cached entries, oldest first.
    pub closed spec fn entries(&self) -> Seq<(i32, V)> {
        self.cache@
    }

    pub closed spec fn spec_config(&self) -> Config {
        self.config
    }

    pub closed spec fn wf(&self) -> bool {
        self.cache.wf() && self.cache.bound() == self.config.cache_size
    }

    pub fn new(config: Config) -> (r: Self)
        ensures
            r.wf(),
            r.entries() == Seq::<(i32, V)>::empty(),
            r.spec_config() == config,
    {
        let bound = config.cache_size;
        BeatmapService { config, cache: BeatmapCache::new(bound) }
    }

    pub fn config(&self) -> (r: &Config)
        ensures
            *r == self.spec_config(),
    {
        &self.config
    }

    /// The cached beatmap for `id`, or the file to load it from.
    pub fn get_beatmap(&self, id: i32) -> (r: BeatmapLookup<'_, V>)
        requires
            self.wf(),
        ensures
            match r {
                BeatmapLookup::Cached(v) => lookup(self.entries(), id) == Some(*v),
                BeatmapLookup::Load(name) => lookup(self.entries(), id) is None && name@
                    == beatmap_file_name_spec(id),
            },
    {
        match self.cache.get(id) {
            Some(v) => BeatmapLookup::Cached(v),
            None => BeatmapLookup::Load(beatmap_file_name(id)),
        }
    }

    /// Records the outcome of loading beatmap `id`: a parsed beatmap is
    /// cached, evicting the oldest entries beyond the configured size; a
    /// missing file and a parse failure are reported and cache nothing.
    pub fn store_beatmap(&mut self, id: i32, loaded: Result<V, LoadFailure>) -> (r: Result<(), AppError>)
        requires
            old(self).wf(),
        ensures
            final(self).wf(),
            final(self).spec_config() == old(self).spec_config(),
            match loaded {
                Ok(v) => r is Ok && final(self).entries() == after_insert(
                    old(self).entries(),
                    id,
                    v,
                    old(self).spec_config().cache_size as nat,
                ),
                Err(LoadFailure::Missing) => r == Err::<(), AppError>(AppError::BeatmapNotFound(id))
                    && final(self).entries() == old(self).entries(),
                Err(LoadFailure::Malformed(m)) => (r matches Err(AppError::Internal(t)) && t@
                    == parse_failure_prefix() + m@) && final(self).entries() == old(
                    self,
                ).entries(),
            },
    {
        match loaded {
            Ok(v) => {
                self.cache.insert(id, v);
                Ok(())
            },
            Err(LoadFailure::Missing) => Err(AppError::BeatmapNotFound(id)),
            Err(LoadFailure::Malformed(m)) => {
                proof {
                    reveal_strlit("failed to parse beatmap: ");
                }
                let mut text = "failed to parse beatmap: ".to_string();
                text.append(m.as_str());
                Err(AppError::Internal(text))
            },
        }
    }
}


/// Once a loaded beatmap has been stored, resolving the same id finds it in
/// the cache, so it is not loaded or parsed again; this holds whenever the
/// configured cache size is not zero.
pub proof fn lemma_store_then_hit<V>(service: &BeatmapService<V>, id: i32, v: V)
    requires
        service.wf(),
        service.spec_config().cache_size > 0,
    ensures
        lookup(after_insert(service.entries(), id, v, service.spec_config().cache_size as nat), id)
            == Some(v),
{
    lemma_lookup_after_insert(service.entries(), id, v, service.spec_config().cache_size as nat);
}

} // verus!
