//! Tests for the shared types: safe-search levels, language detection,
//! schemas, responses, and error messages.

use daedra::types::{
    default_num_results, default_region, detect_language, detect_topics, search_args_schema,
    visit_page_args_schema, ContentType, DaedraError, ResultMetadata, SafeSearchLevel,
    SearchOptions, SearchResponse, SearchResult,
};

fn sample_result(title: &str, url: &str) -> SearchResult {
    SearchResult {
        title: title.to_string(),
        url: url.to_string(),
        description: "Test description".to_string(),
        metadata: ResultMetadata {
            content_type: ContentType::Article,
            source: "example.com".to_string(),
            favicon: None,
            published_date: None,
        },
    }
}

#[test]
fn test_safe_search_level_parsing() {
    assert_eq!("OFF".parse::<SafeSearchLevel>().unwrap(), SafeSearchLevel::Off);
    assert_eq!("MODERATE".parse::<SafeSearchLevel>().unwrap(), SafeSearchLevel::Moderate);
    assert_eq!("STRICT".parse::<SafeSearchLevel>().unwrap(), SafeSearchLevel::Strict);
    assert_eq!("moderate".parse::<SafeSearchLevel>().unwrap(), SafeSearchLevel::Moderate);
}

#[test]
fn test_safe_search_ddg_value() {
    assert_eq!(SafeSearchLevel::Off.to_ddg_value(), -2);
    assert_eq!(SafeSearchLevel::Moderate.to_ddg_value(), -1);
    assert_eq!(SafeSearchLevel::Strict.to_ddg_value(), 1);
}

#[test]
fn test_safe_search_from_str() {
    assert_eq!("OFF".parse::<SafeSearchLevel>().unwrap(), SafeSearchLevel::Off);
    assert_eq!("moderate".parse::<SafeSearchLevel>().unwrap(), SafeSearchLevel::Moderate);
    assert_eq!("STRICT".parse::<SafeSearchLevel>().unwrap(), SafeSearchLevel::Strict);
    assert!("invalid".parse::<SafeSearchLevel>().is_err());
}

#[test]
fn test_safe_search_labels() {
    assert_eq!(SafeSearchLevel::Off.label(), "OFF");
    assert_eq!(SafeSearchLevel::Moderate.label(), "MODERATE");
    assert_eq!(SafeSearchLevel::Strict.label(), "STRICT");
}

#[test]
fn test_language_detection() {
    assert_eq!(detect_language("hello world"), "en");
    assert_eq!(detect_language("你好世界"), "zh");
    assert_eq!(detect_language("こんにちは"), "ja");
    assert_eq!(detect_language("안녕하세요"), "ko");
    assert_eq!(detect_language("привет"), "ru");
}

#[test]
fn test_language_detection_arabic() {
    assert_eq!(detect_language("مرحبا"), "ar");
    assert_eq!(detect_language(""), "en");
}

#[test]
fn test_search_args_schema() {
    let schema: serde_json::Value = serde_json::from_str(&search_args_schema()).unwrap();
    assert!(schema["properties"]["query"].is_object());
    assert!(schema["properties"]["options"].is_object());
}

#[test]
fn test_search_args_schema_is_valid_json() {
    let schema: serde_json::Value = serde_json::from_str(&search_args_schema()).unwrap();
    assert!(schema["properties"].is_object());
    assert!(schema["properties"]["query"].is_object());
}

#[test]
fn test_visit_page_args_schema_is_valid_json() {
    let schema: serde_json::Value = serde_json::from_str(&visit_page_args_schema()).unwrap();
    assert!(schema["properties"].is_object());
    assert!(schema["properties"]["url"].is_object());
}

#[test]
fn test_search_response_creation() {
    let results = vec![sample_result("Test", "https://example.com")];
    let options = SearchOptions::default();
    let response = SearchResponse::new("test query".to_string(), results, &options);

    assert_eq!(response.response_type, "search_results");
    assert_eq!(response.data.len(), 1);
    assert_eq!(response.metadata.query, "test query");
}

#[test]
fn test_search_response_result_count_matches_data() {
    let options = SearchOptions::default();
    for n in [1usize, 10, 50] {
        let results: Vec<SearchResult> = (0..n)
            .map(|i| sample_result(&format!("r{}", i), &format!("https://example.com/{}", i)))
            .collect();
        let response = SearchResponse::new("q".to_string(), results, &options);
        assert_eq!(response.data.len(), n);
        assert_eq!(response.metadata.result_count, response.data.len());
    }
}

#[test]
fn test_detect_topics_tags() {
    let results = vec![
        sample_result("Intro to programming", "https://github.com/a/b"),
        sample_result("API reference", "https://docs.rs/foo"),
        sample_result("A study of things", "https://arxiv.org/abs/1"),
    ];
    let topics = detect_topics(&results);
    assert!(topics.contains(&"technology".to_string()));
    assert!(topics.contains(&"documentation".to_string()));
    assert!(topics.contains(&"academic".to_string()));
    // every result here classifies as an article, so news is present too
    assert!(topics.contains(&"news".to_string()));
    assert_eq!(topics.len(), 4);
}

#[test]
fn test_detect_topics_empty() {
    let topics = detect_topics(&Vec::new());
    assert!(topics.is_empty());
}

#[test]
fn test_defaults() {
    assert_eq!(default_region(), "wt-wt");
    assert_eq!(default_num_results(), 10);
}

#[test]
fn test_error_messages() {
    assert_eq!(
        DaedraError::HttpError("boom".to_string()).message(),
        "HTTP request failed: boom"
    );
    assert_eq!(DaedraError::UrlParseError("x".to_string()).message(), "Invalid URL: x");
    assert_eq!(DaedraError::JsonError("j".to_string()).message(), "JSON error: j");
    assert_eq!(DaedraError::SearchError("s".to_string()).message(), "Search failed: s");
    assert_eq!(
        DaedraError::FetchError("f".to_string()).message(),
        "Failed to fetch page: f"
    );
    assert_eq!(
        DaedraError::InvalidArguments("a".to_string()).message(),
        "Invalid arguments: a"
    );
    assert_eq!(DaedraError::ServerError("v".to_string()).message(), "Server error: v");
    assert_eq!(DaedraError::IoError("i".to_string()).message(), "IO error: i");
    assert_eq!(
        DaedraError::ExtractionError("e".to_string()).message(),
        "Content extraction failed: e"
    );
    assert_eq!(
        DaedraError::RateLimitExceeded.message(),
        "Rate limit exceeded, please try again later"
    );
    assert_eq!(
        DaedraError::BotProtectionDetected.message(),
        "Bot protection detected on target page"
    );
    assert_eq!(DaedraError::Timeout.message(), "Operation timed out");
}
