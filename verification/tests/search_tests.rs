//! Tests for the search pipeline: URL unwrapping, classification, domain
//! extraction, text cleanup, parameters, parsing, and the batch plan.

use daedra::tools::search::{
    batch_chunk_sizes, build_search_params, build_search_response, clean_text,
    detect_content_type, extract_actual_url, extract_domain, parse_search_results,
    MAX_CONCURRENT_REQUESTS,
};
use daedra::types::{ContentType, SafeSearchLevel, SearchOptions};

#[test]
fn test_extract_actual_url() {
    let ddg_url = "//duckduckgo.com/l/?uddg=https%3A%2F%2Fexample.com%2Fpath&rut=abc";
    assert_eq!(extract_actual_url(ddg_url), "https://example.com/path");

    let relative_url = "//example.com/path";
    assert_eq!(extract_actual_url(relative_url), "https://example.com/path");

    let direct_url = "https://example.com";
    assert_eq!(extract_actual_url(direct_url), "https://example.com");
}

#[test]
fn test_detect_content_type() {
    assert_eq!(
        detect_content_type("https://docs.rust-lang.org/book/"),
        ContentType::Documentation
    );
    assert_eq!(
        detect_content_type("https://github.com/rust-lang/rust"),
        ContentType::Documentation
    );
    assert_eq!(detect_content_type("https://twitter.com/rustlang"), ContentType::Social);
    assert_eq!(detect_content_type("https://reddit.com/r/rust"), ContentType::Forum);
    assert_eq!(detect_content_type("https://youtube.com/watch?v=123"), ContentType::Video);
    assert_eq!(detect_content_type("https://amazon.com/product"), ContentType::Shopping);
    assert_eq!(detect_content_type("https://example.com"), ContentType::Article);
}

#[test]
fn test_detect_content_type_case_folds() {
    // fails if the case folding handed its input back unchanged
    assert_eq!(
        detect_content_type("HTTPS://GITHUB.COM/RUST-LANG/RUST"),
        ContentType::Documentation
    );
}

#[test]
fn test_extract_domain() {
    assert_eq!(extract_domain("https://www.example.com/path"), "www.example.com");
    assert_eq!(extract_domain("https://docs.rust-lang.org"), "docs.rust-lang.org");
    // non-URL strings still read as a potential domain
    assert_eq!(extract_domain("invalid"), "invalid");
    // an empty string reads as unknown
    assert_eq!(extract_domain(""), "unknown");
}

#[test]
fn test_clean_text() {
    assert_eq!(clean_text("Hello&#x27;s World"), "Hello's World");
    assert_eq!(clean_text("Hello &amp; World"), "Hello & World");
    assert_eq!(clean_text("  Multiple   spaces  "), "Multiple spaces");
    assert_eq!(clean_text("&lt;html&gt;"), "<html>");
}

#[test]
fn test_clean_text_hex_entities() {
    assert_eq!(clean_text("&#x41;"), "A");
    assert_eq!(clean_text("caf&#xe9;"), "café");
    // an unterminated or invalid reference is left as written
    assert_eq!(clean_text("&#x41"), "&#x41");
    assert_eq!(clean_text("&#xZZ;"), "&#xZZ;");
    // a surrogate names no character
    assert_eq!(clean_text("&#xD800;"), "&#xD800;");
}

#[test]
fn test_search_params() {
    let options = SearchOptions {
        region: "us-en".to_string(),
        safe_search: SafeSearchLevel::Strict,
        num_results: 10,
        time_range: Some("w".to_string()),
    };

    let params = build_search_params("test query", &options);

    assert!(params.iter().any(|(k, v)| k == "q" && v == "test query"));
    assert!(params.iter().any(|(k, v)| k == "kl" && v == "us-en"));
    assert!(params.iter().any(|(k, v)| k == "df" && v == "w"));
}

#[test]
fn test_search_params_safe_search_codes() {
    let mut options = SearchOptions::default();
    options.safe_search = SafeSearchLevel::Off;
    let params = build_search_params("q", &options);
    assert!(params.iter().any(|(k, v)| k == "kp" && v == "-2"));

    options.safe_search = SafeSearchLevel::Moderate;
    let params = build_search_params("q", &options);
    assert!(params.iter().any(|(k, v)| k == "kp" && v == "-1"));

    options.safe_search = SafeSearchLevel::Strict;
    let params = build_search_params("q", &options);
    assert!(params.iter().any(|(k, v)| k == "kp" && v == "1"));
    assert_eq!(params.len(), 3);
}

fn result_listing(n: usize) -> String {
    let mut html = String::from("<html><body>");
    for i in 0..n {
        html.push_str(&format!(
            "<div class=\"result\"><a class=\"result__a\" href=\"https://example.com/{}\">Result {}</a><a class=\"result__snippet\">Snippet {}</a></div>",
            i, i, i
        ));
    }
    html.push_str("</body></html>");
    html
}

#[test]
fn test_parse_search_results_caps_at_requested() {
    let html = result_listing(12);
    let results = parse_search_results(&html, 10);
    assert_eq!(results.len(), 10);
    assert_eq!(results[0].title, "Result 0");
    assert_eq!(results[0].url, "https://example.com/0");
    assert_eq!(results[0].description, "Snippet 0");
    assert_eq!(results[0].metadata.source, "example.com");
}

#[test]
fn test_parse_search_results_takes_what_is_there() {
    let html = result_listing(3);
    let results = parse_search_results(&html, 10);
    assert_eq!(results.len(), 3);
}

#[test]
fn test_parse_search_results_skips_unusable() {
    let html = "<html><body>\
        <div class=\"result\"><a class=\"result__a\" href=\"javascript:void(0)\">Bad scheme</a></div>\
        <div class=\"result\">No title anchor here</div>\
        <div class=\"result\"><a class=\"result__a\" href=\"https://kept.example.com/\">Kept</a></div>\
        </body></html>";
    let results = parse_search_results(html, 10);
    assert_eq!(results.len(), 1);
    assert_eq!(results[0].title, "Kept");
}

#[test]
fn test_build_search_response_sizes() {
    let options = SearchOptions {
        region: "wt-wt".to_string(),
        safe_search: SafeSearchLevel::Moderate,
        num_results: 10,
        time_range: None,
    };
    for available in [1usize, 10, 50] {
        let html = result_listing(available);
        let response = build_search_response("rust", &options, &html);
        let expected = std::cmp::min(options.num_results, available);
        assert_eq!(response.data.len(), expected);
        assert_eq!(response.metadata.result_count, response.data.len());
        assert_eq!(response.metadata.search_context.region, "wt-wt");
        assert_eq!(response.metadata.search_context.safe_search, "MODERATE");
        assert_eq!(response.metadata.query_analysis.language, "en");
    }
}

#[test]
fn test_batch_chunk_sizes() {
    assert!(batch_chunk_sizes(0).is_empty());
    assert_eq!(batch_chunk_sizes(3), vec![3]);
    assert_eq!(batch_chunk_sizes(5), vec![5]);
    assert_eq!(batch_chunk_sizes(12), vec![5, 5, 2]);
    let plan = batch_chunk_sizes(17);
    assert_eq!(plan.iter().sum::<usize>(), 17);
    assert!(plan.iter().all(|&c| c >= 1 && c <= MAX_CONCURRENT_REQUESTS));
}
