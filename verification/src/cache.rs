//! Time-bounded response cache keyed by normalized request parameters.
//!
//! Two independent key spaces hold search responses and page contents. Keys
//! are pure functions of the normalized inputs; the query is case-folded.
//! Entries expire after a time-to-live and the store is capped: when full,
//! the oldest entry leaves first. A disabled cache reads as empty and
//! ignores writes.

use crate::clock;
use crate::text;
use crate::types::{page_eq, resp_eq, PageContent, SearchResponse};
use vstd::prelude::*;

verus! {

/// Default time-to-live for cached entries, in milliseconds.
pub const DEFAULT_CACHE_TTL_MS: u64 = 300000;

/// Default maximum number of entries per kind.
pub const DEFAULT_MAX_ENTRIES: u64 = 1000;

/// Configuration for the cache.
#[derive(Debug, Clone)]
pub struct CacheConfig {
    /// Time-to-live for cached entries, in milliseconds.
    pub ttl_ms: u64,
    /// Maximum number of entries of each kind.
    pub max_entries: u64,
    /// Whether caching is enabled.
    pub enabled: bool,
}

impl Default for CacheConfig {
    /// Five-minute time-to-live, a thousand entries, enabled.
    fn default() -> (r: CacheConfig)
        ensures
            r.ttl_ms == DEFAULT_CACHE_TTL_MS,
            r.max_entries == DEFAULT_MAX_ENTRIES,
            r.enabled,
    {
        CacheConfig { ttl_ms: DEFAULT_CACHE_TTL_MS, max_entries: DEFAULT_MAX_ENTRIES, enabled: true }
    }
}

/// One cached value under its normalized key, with its expiry time.
pub struct CacheEntry<V> {
    /// The normalized key.
    pub key: String,
    /// The cached value.
    pub value: V,
    /// Time after which the entry no longer answers, in Unix milliseconds.
    pub expires_ms: i64,
}

/// No two entries share a key.
pub open spec fn keys_unique<V>(es: Seq<CacheEntry<V>>) -> bool {
    forall|i: int, j: int| 0 <= i < j < es.len() ==> #[trigger] es[i].key@ != #[trigger] es[j].key@
}

/// Index of the first entry with the given key, or -1.
pub open spec fn find_key<V>(es: Seq<CacheEntry<V>>, key: Seq<char>) -> int
    decreases es.len(),
{
    if es.len() == 0 {
        -1
    } else if es[0].key@ == key {
        0
    } else {
        let r = find_key(es.drop_first(), key);
        if r >= 0 {
            r + 1
        } else {
            -1
        }
    }
}

/// The entries with the given key removed, order preserved.
pub open spec fn remove_key<V>(es: Seq<CacheEntry<V>>, key: Seq<char>) -> Seq<CacheEntry<V>>
    decreases es.len(),
{
    if es.len() == 0 {
        es
    } else if es[0].key@ == key {
        remove_key(es.drop_first(), key)
    } else {
        seq![es[0]] + remove_key(es.drop_first(), key)
    }
}

/// The expiry written for an entry stored at `now`: the time-to-live later,
/// saturating at the largest representable time.
pub open spec fn spec_expiry(now: i64, ttl_ms: u64) -> int {
    if ttl_ms > i64::MAX {
        i64::MAX as int
    } else if now + ttl_ms <= i64::MAX {
        now + ttl_ms
    } else {
        i64::MAX as int
    }
}

/// The search-cache key: the case-folded query joined with region and
/// safe-search level, in its own key space.
pub open spec fn spec_search_key(query: Seq<char>, region: Seq<char>, safe: Seq<char>) -> Seq<
    char,
> {
    "search:"@ + text::lower_of(query) + ":"@ + region + ":"@ + safe
}

/// The page-cache key: the exact URL, with the selector appended only when
/// present, in its own key space.
pub open spec fn spec_page_key(url: Seq<char>, selector: Option<Seq<char>>) -> Seq<char> {
    match selector {
        Some(sel) => "page:"@ + url + ":"@ + sel,
        None => "page:"@ + url,
    }
}

/// Cache for search responses and page contents.
pub struct SearchCache {
    /// Cached search responses.
    search_entries: Vec<CacheEntry<SearchResponse>>,
    /// Cached page contents.
    page_entries: Vec<CacheEntry<PageContent>>,
    /// Time-to-live applied to new entries, in milliseconds.
    ttl_ms: u64,
    /// Maximum number of entries of each kind.
    max_entries: u64,
    /// Whether caching is enabled.
    enabled: bool,
}

impl SearchCache {
    /// Well-formed: unique keys and bounded size in both key spaces.
    pub closed spec fn wf(&self) -> bool {
        &&& keys_unique(self.search_entries@)
        &&& keys_unique(self.page_entries@)
        &&& self.search_entries@.len() <= self.max_entries
        &&& self.page_entries@.len() <= self.max_entries
    }

    /// The entries of the search key space.
    pub closed spec fn search_model(&self) -> Seq<CacheEntry<SearchResponse>> {
        self.search_entries@
    }

    /// The entries of the page key space.
    pub closed spec fn page_model(&self) -> Seq<CacheEntry<PageContent>> {
        self.page_entries@
    }

    /// Whether caching is enabled.
    pub closed spec fn spec_enabled(&self) -> bool {
        self.enabled
    }

    /// The configured time-to-live in milliseconds.
    pub closed spec fn spec_ttl_ms(&self) -> u64 {
        self.ttl_ms
    }

    /// The configured capacity per kind.
    pub closed spec fn spec_max_entries(&self) -> u64 {
        self.max_entries
    }

    /// Create a cache with the given configuration; it starts empty.
    pub fn new(config: CacheConfig) -> (r: SearchCache)
        ensures
            r.wf(),
            r.search_model().len() == 0,
            r.page_model().len() == 0,
            r.spec_enabled() == config.enabled,
            r.spec_ttl_ms() == config.ttl_ms,
            r.spec_max_entries() == config.max_entries,
    {
        SearchCache {
            search_entries: Vec::new(),
            page_entries: Vec::new(),
            ttl_ms: config.ttl_ms,
            max_entries: config.max_entries,
            enabled: config.enabled,
        }
    }

    /// Create a cache with the default configuration.
    pub fn with_defaults() -> (r: SearchCache)
        ensures
            r.wf(),
            r.search_model().len() == 0,
            r.page_model().len() == 0,
            r.spec_enabled(),
            r.spec_ttl_ms() == DEFAULT_CACHE_TTL_MS,
            r.spec_max_entries() == DEFAULT_MAX_ENTRIES,
    {
        SearchCache::new(CacheConfig::default())
    }

    /// Create a disabled cache: reads empty, ignores writes.
    pub fn disabled() -> (r: SearchCache)
        ensures
            r.wf(),
            r.search_model().len() == 0,
            r.page_model().len() == 0,
            !r.spec_enabled(),
    {
        SearchCache::new(
            CacheConfig {
                enabled: false,
                ttl_ms: DEFAULT_CACHE_TTL_MS,
                max_entries: DEFAULT_MAX_ENTRIES,
            },
        )
    }

    /// The normalized key for a search request.
    fn search_key(query: &str, region: &str, safe_search: &str) -> (r: String)
        ensures
            r@ == spec_search_key(query@, region@, safe_search@),
    {
        String::from_str("search:").concat(text::to_lower(query).as_str()).concat(":").concat(
            region,
        ).concat(":").concat(safe_search)
    }

    /// The normalized key for a page request.
    fn page_key(url: &str, selector: Option<&str>) -> (r: String)
        ensures
            r@ == spec_page_key(url@, match selector {
                Some(s) => Some(s@),
                None => None,
            }),
    {
        match selector {
            Some(sel) => String::from_str("page:").concat(url).concat(":").concat(sel),
            None => String::from_str("page:").concat(url),
        }
    }

    /// Get a cached search response, judged against the given time.
    pub fn get_search_at(&self, query: &str, region: &str, safe_search: &str, now_ms: i64) -> (r:
        Option<SearchResponse>)
        ensures
            ({
                let k = spec_search_key(query@, region@, safe_search@);
                let i = find_key(self.search_model(), k);
                if self.spec_enabled() && i >= 0 && now_ms < self.search_model()[i].expires_ms {
                    r matches Some(v) && resp_eq(v, self.search_model()[i].value)
                } else {
                    r is None
                }
            }),
    {
        if !self.enabled {
            return None;
        }
        let key = SearchCache::search_key(query, region, safe_search);
        match find_search_entry(&self.search_entries, &key) {
            Some(i) => {
                if now_ms < self.search_entries[i].expires_ms {
                    Some(self.search_entries[i].value.duplicate())
                } else {
                    None
                }
            },
            None => None,
        }
    }

    /// Get a cached search response that has not yet expired. A hit carries
    /// exactly the stored value; a stale or missing key reads as absent.
    pub fn get_search(&self, query: &str, region: &str, safe_search: &str) -> (r: Option<
        SearchResponse,
    >)
        ensures
            !self.spec_enabled() ==> r is None,
            r matches Some(v) ==> ({
                let i = find_key(
                    self.search_model(),
                    spec_search_key(query@, region@, safe_search@),
                );
                i >= 0 && resp_eq(v, self.search_model()[i].value)
            }),
    {
        let now = clock::now_unix_ms();
        self.get_search_at(query, region, safe_search, now)
    }

    /// Cache a search response under the given time.
    pub fn set_search_at(
        &mut self,
        query: &str,
        region: &str,
        safe_search: &str,
        response: SearchResponse,
        now_ms: i64,
    )
        requires
            old(self).wf(),
        ensures
            final(self).wf(),
            final(self).spec_enabled() == old(self).spec_enabled(),
            final(self).spec_ttl_ms() == old(self).spec_ttl_ms(),
            final(self).spec_max_entries() == old(self).spec_max_entries(),
            final(self).page_model() == old(self).page_model(),
            !(old(self).spec_enabled() && old(self).spec_max_entries() > 0) ==> final(self).search_model() == old(self).search_model(),
            old(self).spec_enabled() && old(self).spec_max_entries() > 0 ==> ({
                let k = spec_search_key(query@, region@, safe_search@);
                let without = remove_key(old(self).search_model(), k);
                let kept = if without.len() >= old(self).spec_max_entries() {
                    without.drop_first()
                } else {
                    without
                };
                let es = final(self).search_model();
                &&& es.len() == kept.len() + 1
                &&& es.subrange(0, kept.len() as int) == kept
                &&& es[kept.len() as int].key@ == k
                &&& resp_eq(es[kept.len() as int].value, response)
                &&& es[kept.len() as int].expires_ms == spec_expiry(
                    now_ms,
                    old(self).spec_ttl_ms(),
                )
            }),
    {
        if !self.enabled || self.max_entries == 0 {
            return ;
        }
        let key = SearchCache::search_key(query, region, safe_search);
        let ghost k = key@;
        let ghost es0 = self.search_entries@;
        match find_search_entry(&self.search_entries, &key) {
            Some(i) => {
                self.search_entries.remove(i);
                proof {
                    lemma_remove_key_at(es0, k, i as int);
                }
            },
            None => {
                proof {
                    lemma_remove_key_absent(es0, k);
                }
            },
        }
        let ghost without = self.search_entries@;
        assert(without == remove_key(es0, k));
        proof {
            lemma_remove_key_unique(es0, k);
            lemma_remove_key_len(es0, k);
        }
        if self.search_entries.len() as u64 >= self.max_entries {
            self.search_entries.remove(0);
            assert(self.search_entries@ =~= without.drop_first());
        }
        let expires = expiry_at(now_ms, self.ttl_ms);
        let entry = CacheEntry { key, value: response, expires_ms: expires };
        let ghost kept = self.search_entries@;
        self.search_entries.push(entry);
        proof {
            assert(self.search_entries@.subrange(0, kept.len() as int) =~= kept);
            lemma_remove_key_gone(es0, k);
            assert forall|i: int, j: int|
                0 <= i < j < self.search_entries@.len() implies #[trigger] self.search_entries@[i].key@
                != #[trigger] self.search_entries@[j].key@ by {
                if j < self.search_entries@.len() - 1 {
                    lemma_drop_prefix_unique(without, kept);
                } else {
                    lemma_drop_prefix_unique(without, kept);
                    assert(kept[i] == self.search_entries@[i]);
                }
            }
        }
    }

    /// Cache a search response: a no-op when disabled, else the response is
    /// stored under the normalized key, replacing any entry for that key.
    pub fn set_search(
        &mut self,
        query: &str,
        region: &str,
        safe_search: &str,
        response: SearchResponse,
    )
        requires
            old(self).wf(),
        ensures
            final(self).wf(),
            final(self).spec_enabled() == old(self).spec_enabled(),
            final(self).spec_ttl_ms() == old(self).spec_ttl_ms(),
            final(self).spec_max_entries() == old(self).spec_max_entries(),
            final(self).page_model() == old(self).page_model(),
            !old(self).spec_enabled() ==> final(self).search_model() == old(self).search_model(),
            old(self).spec_enabled() && old(self).spec_max_entries() > 0 ==> ({
                let k = spec_search_key(query@, region@, safe_search@);
                let es = final(self).search_model();
                let i = find_key(es, k);
                i >= 0 && resp_eq(es[i].value, response)
            }),
    {
        let now = clock::now_unix_ms();
        let ghost es0 = self.search_entries@;
        self.set_search_at(query, region, safe_search, response, now);
        proof {
            if self.enabled && self.max_entries > 0 {
                let k = spec_search_key(query@, region@, safe_search@);
                let es = self.search_entries@;
                lemma_find_key_last(es, k);
            }
        }
    }

    /// Get cached page content, judged against the given time.
    pub fn get_page_at(&self, url: &str, selector: Option<&str>, now_ms: i64) -> (r: Option<
        PageContent,
    >)
        ensures
            ({
                let k = spec_page_key(url@, match selector {
                    Some(s) => Some(s@),
                    None => None,
                });
                let i = find_key(self.page_model(), k);
                if self.spec_enabled() && i >= 0 && now_ms < self.page_model()[i].expires_ms {
                    r matches Some(v) && page_eq(v, self.page_model()[i].value)
                } else {
                    r is None
                }
            }),
    {
        if !self.enabled {
            return None;
        }
        let key = SearchCache::page_key(url, selector);
        match find_page_entry(&self.page_entries, &key) {
            Some(i) => {
                if now_ms < self.page_entries[i].expires_ms {
                    Some(self.page_entries[i].value.duplicate())
                } else {
                    None
                }
            },
            None => None,
        }
    }

    /// Get cached page content that has not yet expired.
    pub fn get_page(&self, url: &str, selector: Option<&str>) -> (r: Option<PageContent>)
        ensures
            !self.spec_enabled() ==> r is None,
            r matches Some(v) ==> ({
                let i = find_key(self.page_model(), spec_page_key(url@, match selector {
                    Some(s) => Some(s@),
                    None => None,
                }));
                i >= 0 && page_eq(v, self.page_model()[i].value)
            }),
    {
        let now = clock::now_unix_ms();
        self.get_page_at(url, selector, now)
    }

    /// Cache page content under the given time.
    pub fn set_page_at(
        &mut self,
        url: &str,
        selector: Option<&str>,
        content: PageContent,
        now_ms: i64,
    )
        requires
            old(self).wf(),
        ensures
            final(self).wf(),
            final(self).spec_enabled() == old(self).spec_enabled(),
            final(self).spec_ttl_ms() == old(self).spec_ttl_ms(),
            final(self).spec_max_entries() == old(self).spec_max_entries(),
            final(self).search_model() == old(self).search_model(),
            !(old(self).spec_enabled() && old(self).spec_max_entries() > 0) ==> final(self).page_model() == old(self).page_model(),
            old(self).spec_enabled() && old(self).spec_max_entries() > 0 ==> ({
                let k = spec_page_key(url@, match selector {
                    Some(s) => Some(s@),
                    None => None,
                });
                let without = remove_key(old(self).page_model(), k);
                let kept = if without.len() >= old(self).spec_max_entries() {
                    without.drop_first()
                } else {
                    without
                };
                let es = final(self).page_model();
                &&& es.len() == kept.len() + 1
                &&& es.subrange(0, kept.len() as int) == kept
                &&& es[kept.len() as int].key@ == k
                &&& page_eq(es[kept.len() as int].value, content)
                &&& es[kept.len() as int].expires_ms == spec_expiry(
                    now_ms,
                    old(self).spec_ttl_ms(),
                )
            }),
    {
        if !self.enabled || self.max_entries == 0 {
            return ;
        }
        let key = SearchCache::page_key(url, selector);
        let ghost k = key@;
        let ghost es0 = self.page_entries@;
        match find_page_entry(&self.page_entries, &key) {
            Some(i) => {
                self.page_entries.remove(i);
                proof {
                    lemma_remove_key_at(es0, k, i as int);
                }
            },
            None => {
                proof {
                    lemma_remove_key_absent(es0, k);
                }
            },
        }
        let ghost without = self.page_entries@;
        assert(without == remove_key(es0, k));
        proof {
            lemma_remove_key_unique(es0, k);
            lemma_remove_key_len(es0, k);
        }
        if self.page_entries.len() as u64 >= self.max_entries {
            self.page_entries.remove(0);
            assert(self.page_entries@ =~= without.drop_first());
        }
        let expires = expiry_at(now_ms, self.ttl_ms);
        let entry = CacheEntry { key, value: content, expires_ms: expires };
        let ghost kept = self.page_entries@;
        self.page_entries.push(entry);
        proof {
            assert(self.page_entries@.subrange(0, kept.len() as int) =~= kept);
            lemma_remove_key_gone(es0, k);
            assert forall|i: int, j: int|
                0 <= i < j < self.page_entries@.len() implies #[trigger] self.page_entries@[i].key@
                != #[trigger] self.page_entries@[j].key@ by {
                lemma_drop_prefix_unique(without, kept);
                if j == self.page_entries@.len() - 1 {
                    assert(kept[i] == self.page_entries@[i]);
                }
            }
        }
    }

    /// Cache page content: a no-op when disabled, else stored under the
    /// normalized key, replacing any entry for that key.
    pub fn set_page(&mut self, url: &str, selector: Option<&str>, content: PageContent)
        requires
            old(self).wf(),
        ensures
            final(self).wf(),
            final(self).spec_enabled() == old(self).spec_enabled(),
            final(self).spec_ttl_ms() == old(self).spec_ttl_ms(),
            final(self).spec_max_entries() == old(self).spec_max_entries(),
            final(self).search_model() == old(self).search_model(),
            !old(self).spec_enabled() ==> final(self).page_model() == old(self).page_model(),
            old(self).spec_enabled() && old(self).spec_max_entries() > 0 ==> ({
                let k = spec_page_key(url@, match selector {
                    Some(s) => Some(s@),
                    None => None,
                });
                let es = final(self).page_model();
                let i = find_key(es, k);
                i >= 0 && page_eq(es[i].value, content)
            }),
    {
        let now = clock::now_unix_ms();
        self.set_page_at(url, selector, content, now);
        proof {
            if self.enabled && self.max_entries > 0 {
                let k = spec_page_key(url@, match selector {
                    Some(s) => Some(s@),
                    None => None,
                });
                lemma_find_key_last(self.page_entries@, k);
            }
        }
    }

    /// Remove every cached entry of both kinds.
    pub fn clear(&mut self)
        ensures
            final(self).wf(),
            final(self).search_model().len() == 0,
            final(self).page_model().len() == 0,
            final(self).spec_enabled() == old(self).spec_enabled(),
            final(self).spec_ttl_ms() == old(self).spec_ttl_ms(),
            final(self).spec_max_entries() == old(self).spec_max_entries(),
    {
        self.search_entries.clear();
        self.page_entries.clear();
    }

    /// Report how many entries of each kind are held, and the switch state.
    pub fn stats(&self) -> (r: CacheStats)
        ensures
            r.search_entries == self.search_model().len(),
            r.page_entries == self.page_model().len(),
            r.enabled == self.spec_enabled(),
    {
        CacheStats {
            search_entries: self.search_entries.len() as u64,
            page_entries: self.page_entries.len() as u64,
            enabled: self.enabled,
        }
    }
}

impl Default for SearchCache {
    /// A cache with the default configuration.
    fn default() -> (r: SearchCache)
        ensures
            r.wf(),
            r.search_model().len() == 0,
            r.page_model().len() == 0,
            r.spec_enabled(),
    {
        SearchCache::with_defaults()
    }
}

/// Statistics about the cache.
#[derive(Debug, Clone)]
pub struct CacheStats {
    /// Number of cached search responses.
    pub search_entries: u64,
    /// Number of cached page contents.
    pub page_entries: u64,
    /// Whether caching is enabled.
    pub enabled: bool,
}

/// The expiry time written for an entry stored now.
fn expiry_at(now_ms: i64, ttl_ms: u64) -> (r: i64)
    ensures
        r == spec_expiry(now_ms, ttl_ms),
{
    if ttl_ms > i64::MAX as u64 {
        return i64::MAX;
    }
    let t = ttl_ms as i64;
    if now_ms <= i64::MAX - t {
        now_ms + t
    } else {
        i64::MAX
    }
}

/// Index of the first search entry with the given key.
fn find_search_entry(es: &Vec<CacheEntry<SearchResponse>>, key: &String) -> (r: Option<usize>)
    ensures
        match r {
            Some(i) => 0 <= i < es@.len() && find_key(es@, key@) == i as int && es@[
                i as int
            ].key@ == key@ && (forall|j: int| 0 <= j < i ==> #[trigger] es@[j].key@ != key@),
            None => find_key(es@, key@) == -1,
        },
{
    let mut i: usize = 0;
    while i < es.len()
        invariant
            i <= es@.len(),
            forall|j: int| 0 <= j < i ==> #[trigger] es@[j].key@ != key@,
        decreases es@.len() - i,
    {
        if es[i].key == *key {
            proof {
                lemma_find_key_at(es@, key@, i as int);
            }
            return Some(i);
        }
        i = i + 1;
    }
    proof {
        lemma_find_key_none(es@, key@);
    }
    None
}

/// Index of the first page entry with the given key.
fn find_page_entry(es: &Vec<CacheEntry<PageContent>>, key: &String) -> (r: Option<usize>)
    ensures
        match r {
            Some(i) => 0 <= i < es@.len() && find_key(es@, key@) == i as int && es@[
                i as int
            ].key@ == key@ && (forall|j: int| 0 <= j < i ==> #[trigger] es@[j].key@ != key@),
            None => find_key(es@, key@) == -1,
        },
{
    let mut i: usize = 0;
    while i < es.len()
        invariant
            i <= es@.len(),
            forall|j: int| 0 <= j < i ==> #[trigger] es@[j].key@ != key@,
        decreases es@.len() - i,
    {
        if es[i].key == *key {
            proof {
                lemma_find_key_at(es@, key@, i as int);
            }
            return Some(i);
        }
        i = i + 1;
    }
    proof {
        lemma_find_key_none(es@, key@);
    }
    None
}

/// Law: after a write into an empty, enabled cache, the identical triple
/// finds the freshly stored entry (which `get_search_at` answers with the
/// stored value while it has not expired), and any triple with a different
/// normalized key finds nothing.
pub proof fn lemma_search_round_trip(
    post: SearchCache,
    query: Seq<char>,
    region: Seq<char>,
    safe: Seq<char>,
    q2: Seq<char>,
    r2: Seq<char>,
    s2: Seq<char>,
)
    requires
        post.search_model().len() == 1,
        post.search_model()[0].key@ == spec_search_key(query, region, safe),
        spec_search_key(q2, r2, s2) != spec_search_key(query, region, safe),
    ensures
        find_key(post.search_model(), spec_search_key(query, region, safe)) == 0,
        find_key(post.search_model(), spec_search_key(q2, r2, s2)) == -1,
{
    let es = post.search_model();
    assert(find_key(es.drop_first(), spec_search_key(q2, r2, s2)) == -1);
}

/// Law: the search key depends on the query only through its case folding,
/// so queries differing in case alone share a key and cannot miss each
/// other's entries.
pub proof fn lemma_search_key_case_insensitive(
    q1: Seq<char>,
    q2: Seq<char>,
    region: Seq<char>,
    safe: Seq<char>,
)
    requires
        text::lower_of(q1) == text::lower_of(q2),
    ensures
        spec_search_key(q1, region, safe) == spec_search_key(q2, region, safe),
{
}

/// Law: a cleared cache finds no key in either key space, so every
/// subsequent read answers absent and both counts report zero.
pub proof fn lemma_empty_reads_absent(c: SearchCache, k: Seq<char>, k2: Seq<char>)
    requires
        c.search_model().len() == 0,
        c.page_model().len() == 0,
    ensures
        find_key(c.search_model(), k) == -1,
        find_key(c.page_model(), k2) == -1,
{
}

/// `find_key` returns the first matching index.
proof fn lemma_find_key_at<V>(es: Seq<CacheEntry<V>>, key: Seq<char>, i: int)
    requires
        0 <= i < es.len(),
        es[i].key@ == key,
        forall|j: int| 0 <= j < i ==> #[trigger] es[j].key@ != key,
    ensures
        find_key(es, key) == i,
    decreases i,
{
    if i == 0 {
    } else {
        assert(es[0].key@ != key);
        let t = es.drop_first();
        assert(forall|j: int| 0 <= j < i - 1 ==> #[trigger] t[j].key@ != key);
        lemma_find_key_at(t, key, i - 1);
    }
}

/// Where no entry matches, `find_key` reports -1.
proof fn lemma_find_key_none<V>(es: Seq<CacheEntry<V>>, key: Seq<char>)
    requires
        forall|j: int| 0 <= j < es.len() ==> #[trigger] es[j].key@ != key,
    ensures
        find_key(es, key) == -1,
    decreases es.len(),
{
    if es.len() > 0 {
        lemma_find_key_none(es.drop_first(), key);
    }
}

/// A key present at the end of unique-keyed entries is what `find_key` finds.
proof fn lemma_find_key_last<V>(es: Seq<CacheEntry<V>>, key: Seq<char>)
    requires
        es.len() > 0,
        es[es.len() - 1].key@ == key,
        keys_unique(es),
    ensures
        find_key(es, key) == es.len() - 1,
{
    lemma_find_key_at(es, key, es.len() - 1);
}

/// Removing a key from unique-keyed entries removes exactly the one entry.
proof fn lemma_remove_key_at<V>(es: Seq<CacheEntry<V>>, key: Seq<char>, i: int)
    requires
        keys_unique(es),
        0 <= i < es.len(),
        es[i].key@ == key,
        forall|j: int| 0 <= j < i ==> #[trigger] es[j].key@ != key,
    ensures
        remove_key(es, key) =~= es.remove(i),
    decreases i,
{
    if i == 0 {
        let t = es.drop_first();
        assert(forall|j: int| 0 <= j < t.len() ==> #[trigger] t[j].key@ != key);
        lemma_remove_key_absent_inner(t, key);
        assert(remove_key(es, key) == t);
        assert(es.remove(0) =~= t);
    } else {
        let t = es.drop_first();
        assert(forall|j: int, l: int|
            0 <= j < l < t.len() ==> #[trigger] t[j].key@ != #[trigger] t[l].key@) by {
            assert forall|j: int, l: int|
                0 <= j < l < t.len() implies #[trigger] t[j].key@ != #[trigger] t[l].key@ by {
                assert(t[j] == es[j + 1]);
                assert(t[l] == es[l + 1]);
            }
        }
        assert(t[i - 1] == es[i]);
        assert(forall|j: int| 0 <= j < i - 1 ==> #[trigger] t[j].key@ != key);
        lemma_remove_key_at(t, key, i - 1);
        assert(remove_key(es, key) == seq![es[0]] + t.remove(i - 1));
        assert(seq![es[0]] + t.remove(i - 1) =~= es.remove(i));
    }
}

proof fn lemma_remove_key_absent_inner<V>(es: Seq<CacheEntry<V>>, key: Seq<char>)
    requires
        forall|j: int| 0 <= j < es.len() ==> #[trigger] es[j].key@ != key,
    ensures
        remove_key(es, key) =~= es,
    decreases es.len(),
{
    if es.len() > 0 {
        let t = es.drop_first();
        lemma_remove_key_absent_inner(t, key);
        assert(remove_key(es, key) == seq![es[0]] + t);
        assert(seq![es[0]] + t =~= es);
    }
}

/// Removing an absent key changes nothing.
proof fn lemma_remove_key_absent<V>(es: Seq<CacheEntry<V>>, key: Seq<char>)
    requires
        find_key(es, key) == -1,
    ensures
        remove_key(es, key) =~= es,
    decreases es.len(),
{
    lemma_find_key_neg(es, key);
    lemma_remove_key_absent_inner(es, key);
}

/// Where `find_key` fails, no entry carries the key.
proof fn lemma_find_key_neg<V>(es: Seq<CacheEntry<V>>, key: Seq<char>)
    requires
        find_key(es, key) == -1,
    ensures
        forall|j: int| 0 <= j < es.len() ==> #[trigger] es[j].key@ != key,
    decreases es.len(),
{
    if es.len() > 0 {
        let t = es.drop_first();
        assert(find_key(t, key) == -1);
        lemma_find_key_neg(t, key);
        assert forall|j: int| 0 <= j < es.len() implies #[trigger] es[j].key@ != key by {
            if j > 0 {
                assert(t[j - 1] == es[j]);
            }
        }
    }
}

/// Removal keeps keys unique.
proof fn lemma_remove_key_unique<V>(es: Seq<CacheEntry<V>>, key: Seq<char>)
    requires
        keys_unique(es),
    ensures
        keys_unique(remove_key(es, key)),
        remove_key(es, key).len() <= es.len(),
    decreases es.len(),
{
    lemma_remove_key_subseq(es, key);
}

/// The result of removal is a subsequence: every element appears in the
/// original, in order.
proof fn lemma_remove_key_subseq<V>(es: Seq<CacheEntry<V>>, key: Seq<char>)
    requires
        keys_unique(es),
    ensures
        remove_key(es, key).len() <= es.len(),
        keys_unique(remove_key(es, key)),
        forall|j: int|
            0 <= j < remove_key(es, key).len() ==> #[trigger] remove_key(es, key)[j].key@ != key,
    decreases es.len(),
{
    if es.len() == 0 {
    } else {
        let t = es.drop_first();
        assert(forall|j: int, l: int|
            0 <= j < l < t.len() ==> #[trigger] t[j].key@ != #[trigger] t[l].key@) by {
            assert forall|j: int, l: int|
                0 <= j < l < t.len() implies #[trigger] t[j].key@ != #[trigger] t[l].key@ by {
                assert(t[j] == es[j + 1]);
                assert(t[l] == es[l + 1]);
            }
        }
        lemma_remove_key_subseq(t, key);
        if es[0].key@ == key {
        } else {
            let r = seq![es[0]] + remove_key(t, key);
            lemma_remove_in_tail(es, t, key);
            assert forall|j: int, l: int|
                0 <= j < l < r.len() implies #[trigger] r[j].key@ != #[trigger] r[l].key@ by {
                if j == 0 {
                    assert(r[l] == remove_key(t, key)[l - 1]);
                } else {
                    assert(r[j] == remove_key(t, key)[j - 1]);
                    assert(r[l] == remove_key(t, key)[l - 1]);
                }
            }
        }
    }
}

/// Every removed-list element of the tail keeps a key that the head does
/// not share, given unique keys.
proof fn lemma_remove_in_tail<V>(es: Seq<CacheEntry<V>>, t: Seq<CacheEntry<V>>, key: Seq<char>)
    requires
        keys_unique(es),
        es.len() > 0,
        t == es.drop_first(),
    ensures
        forall|j: int|
            0 <= j < remove_key(t, key).len() ==> #[trigger] remove_key(t, key)[j].key@
                != es[0].key@,
    decreases t.len(),
{
    assert forall|j: int|
        0 <= j < remove_key(t, key).len() implies #[trigger] remove_key(t, key)[j].key@
        != es[0].key@ by {
        lemma_remove_member(t, key, j);
        let w = choose|w: int| 0 <= w < t.len() && t[w] == remove_key(t, key)[j];
        assert(t[w] == es[w + 1]);
    }
}

/// Every element of the removed list appears in the original.
proof fn lemma_remove_member<V>(t: Seq<CacheEntry<V>>, key: Seq<char>, j: int)
    requires
        0 <= j < remove_key(t, key).len(),
    ensures
        exists|w: int| 0 <= w < t.len() && t[w] == remove_key(t, key)[j],
    decreases t.len(),
{
    if t.len() == 0 {
    } else {
        let tail = t.drop_first();
        if t[0].key@ == key {
            lemma_remove_member(tail, key, j);
            let w = choose|w: int| 0 <= w < tail.len() && tail[w] == remove_key(tail, key)[j];
            assert(t[w + 1] == tail[w]);
        } else {
            if j == 0 {
                assert(remove_key(t, key)[0] == t[0]);
            } else {
                lemma_remove_member(tail, key, j - 1);
                let w = choose|w: int|
                    0 <= w < tail.len() && tail[w] == remove_key(tail, key)[j - 1];
                assert(t[w + 1] == tail[w]);
                assert(remove_key(t, key)[j] == remove_key(tail, key)[j - 1]);
            }
        }
    }
}

/// Removal never grows the list.
proof fn lemma_remove_key_len<V>(es: Seq<CacheEntry<V>>, key: Seq<char>)
    ensures
        remove_key(es, key).len() <= es.len(),
    decreases es.len(),
{
    if es.len() > 0 {
        lemma_remove_key_len(es.drop_first(), key);
    }
}

/// After removal, the key is gone.
proof fn lemma_remove_key_gone<V>(es: Seq<CacheEntry<V>>, key: Seq<char>)
    ensures
        forall|j: int|
            0 <= j < remove_key(es, key).len() ==> #[trigger] remove_key(es, key)[j].key@ != key,
    decreases es.len(),
{
    if es.len() > 0 {
        let t = es.drop_first();
        lemma_remove_key_gone(t, key);
        if es[0].key@ == key {
            assert forall|j: int|
                0 <= j < remove_key(es, key).len() implies #[trigger] remove_key(es, key)[j].key@
                != key by {
                assert(remove_key(es, key)[j] == remove_key(t, key)[j]);
            }
        } else {
            assert forall|j: int|
                0 <= j < remove_key(es, key).len() implies #[trigger] remove_key(es, key)[j].key@
                != key by {
                if j > 0 {
                    assert(remove_key(es, key)[j] == remove_key(t, key)[j - 1]);
                } else {
                    assert(remove_key(es, key)[0] == es[0]);
                }
            }
        }
    }
}

/// Unique keys survive dropping the front entry.
proof fn lemma_drop_prefix_unique<V>(without: Seq<CacheEntry<V>>, kept: Seq<CacheEntry<V>>)
    requires
        keys_unique(without),
        kept == without || (without.len() > 0 && kept == without.drop_first()),
    ensures
        keys_unique(kept),
    decreases without.len(),
{
    if without.len() > 0 && kept == without.drop_first() {
        let t = without.drop_first();
        assert forall|j: int, l: int|
            0 <= j < l < t.len() implies #[trigger] t[j].key@ != #[trigger] t[l].key@ by {
            assert(t[j] == without[j + 1]);
            assert(t[l] == without[l + 1]);
        }
    }
}

} // verus!
