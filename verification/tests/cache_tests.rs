//! Tests for the response cache: storage, normalization, the disable
//! switch, clearing, and the time-to-live judged at explicit instants.

use daedra::cache::{CacheConfig, SearchCache};
use daedra::types::{
    ContentType, PageContent, ResultMetadata, SearchOptions, SearchResponse, SearchResult,
};

fn sample_response(query: &str) -> SearchResponse {
    let results = vec![SearchResult {
        title: "Test".to_string(),
        url: "https://example.com".to_string(),
        description: "Test description".to_string(),
        metadata: ResultMetadata {
            content_type: ContentType::Article,
            source: "example.com".to_string(),
            favicon: None,
            published_date: None,
        },
    }];
    let options = SearchOptions::default();
    SearchResponse::new(query.to_string(), results, &options)
}

fn sample_page() -> PageContent {
    PageContent {
        url: "https://example.com".to_string(),
        title: "Test Page".to_string(),
        content: "# Hello World".to_string(),
        timestamp: "2024-01-01T00:00:00Z".to_string(),
        word_count: 2,
        links: None,
    }
}

#[test]
fn test_cache_search() {
    let mut cache = SearchCache::with_defaults();
    let response = sample_response("test");

    assert!(cache.get_search("test", "wt-wt", "MODERATE").is_none());

    cache.set_search("test", "wt-wt", "MODERATE", response);
    let cached = cache.get_search("test", "wt-wt", "MODERATE");
    assert!(cached.is_some());
    assert_eq!(cached.unwrap().data.len(), 1);
}

#[test]
fn test_cache_page() {
    let mut cache = SearchCache::with_defaults();
    let content = sample_page();

    assert!(cache.get_page("https://example.com", None).is_none());

    cache.set_page("https://example.com", None, content);
    let cached = cache.get_page("https://example.com", None);
    assert!(cached.is_some());
    assert_eq!(cached.unwrap().title, "Test Page");
}

#[test]
fn test_disabled_cache() {
    let mut cache = SearchCache::disabled();
    let response = {
        let options = SearchOptions::default();
        SearchResponse::new("test".to_string(), Vec::new(), &options)
    };

    cache.set_search("test", "wt-wt", "MODERATE", response);
    assert!(cache.get_search("test", "wt-wt", "MODERATE").is_none());
}

#[test]
fn test_cache_stats() {
    let cache = SearchCache::with_defaults();
    let stats = cache.stats();
    assert_eq!(stats.search_entries, 0);
    assert_eq!(stats.page_entries, 0);
    assert!(stats.enabled);
}

#[test]
fn test_cache_search_hit() {
    let mut cache = SearchCache::with_defaults();
    let response = sample_response("test query");
    cache.set_search("test query", "wt-wt", "MODERATE", response);

    let hit = cache.get_search("test query", "wt-wt", "MODERATE");
    assert!(hit.is_some());
    let hit = hit.unwrap();
    assert_eq!(hit.metadata.query, "test query");
    assert_eq!(hit.data.len(), 1);
}

#[test]
fn test_cache_different_queries() {
    let mut cache = SearchCache::with_defaults();
    cache.set_search("query1", "wt-wt", "MODERATE", sample_response("query1"));
    cache.set_search("query2", "wt-wt", "MODERATE", sample_response("query2"));

    assert!(cache.get_search("query1", "wt-wt", "MODERATE").is_some());
    assert!(cache.get_search("query2", "wt-wt", "MODERATE").is_some());
    assert!(cache.get_search("query3", "wt-wt", "MODERATE").is_none());
}

#[test]
fn test_cache_clear() {
    let mut cache = SearchCache::with_defaults();
    cache.set_search("test", "wt-wt", "MODERATE", sample_response("test"));
    cache.set_page("https://example.com", None, sample_page());

    cache.clear();
    assert!(cache.get_search("test", "wt-wt", "MODERATE").is_none());
    let stats = cache.stats();
    assert_eq!(stats.search_entries, 0);
    assert_eq!(stats.page_entries, 0);
}

#[test]
fn test_cache_query_case_insensitive() {
    let mut cache = SearchCache::with_defaults();
    cache.set_search("Rust Language", "wt-wt", "MODERATE", sample_response("Rust Language"));

    assert!(cache.get_search("rust language", "wt-wt", "MODERATE").is_some());
    assert!(cache.get_search("RUST LANGUAGE", "wt-wt", "MODERATE").is_some());
    assert!(cache.get_search("rust language", "us-en", "MODERATE").is_none());
    assert!(cache.get_search("rust language", "wt-wt", "OFF").is_none());
}

#[test]
fn test_cache_ttl_at_instants() {
    let config = CacheConfig { ttl_ms: 1000, max_entries: 10, enabled: true };
    let mut cache = SearchCache::new(config);
    cache.set_search_at("q", "wt-wt", "MODERATE", sample_response("q"), 5000);

    assert!(cache.get_search_at("q", "wt-wt", "MODERATE", 5999).is_some());
    assert!(cache.get_search_at("q", "wt-wt", "MODERATE", 6000).is_none());
}

#[test]
fn test_cache_page_selector_key() {
    let mut cache = SearchCache::with_defaults();
    cache.set_page("https://example.com", Some("main"), sample_page());

    assert!(cache.get_page("https://example.com", Some("main")).is_some());
    assert!(cache.get_page("https://example.com", None).is_none());
    assert!(cache.get_page("https://example.com", Some("article")).is_none());
}

#[test]
fn test_cache_capacity_bounded() {
    let config = CacheConfig { ttl_ms: 60000, max_entries: 2, enabled: true };
    let mut cache = SearchCache::new(config);
    cache.set_search("a", "wt-wt", "MODERATE", sample_response("a"));
    cache.set_search("b", "wt-wt", "MODERATE", sample_response("b"));
    cache.set_search("c", "wt-wt", "MODERATE", sample_response("c"));

    let stats = cache.stats();
    assert_eq!(stats.search_entries, 2);
    // the oldest entry left
    assert!(cache.get_search("a", "wt-wt", "MODERATE").is_none());
    assert!(cache.get_search("c", "wt-wt", "MODERATE").is_some());
}

#[test]
fn test_cache_replaces_same_key() {
    let mut cache = SearchCache::with_defaults();
    cache.set_search("q", "wt-wt", "MODERATE", sample_response("first"));
    cache.set_search("q", "wt-wt", "MODERATE", sample_response("second"));

    let stats = cache.stats();
    assert_eq!(stats.search_entries, 1);
    let hit = cache.get_search("q", "wt-wt", "MODERATE").unwrap();
    assert_eq!(hit.metadata.query, "second");
}
