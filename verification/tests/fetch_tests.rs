//! Tests for the page-extraction pipeline: URL validation, title and
//! Markdown cleanup, bot detection, content selection, and links.

use daedra::tools::fetch::{
    check_bot_protection, clean_markdown, clean_title, extract_content, extract_links,
    extract_page, extract_title, html_to_markdown, is_valid_url, validate_fetch_url,
};
use daedra::types::DaedraError;

#[test]
fn test_is_valid_url() {
    assert!(is_valid_url("https://example.com"));
    assert!(is_valid_url("http://example.com"));
    assert!(!is_valid_url("ftp://example.com"));
    assert!(!is_valid_url("javascript:alert(1)"));
    assert!(!is_valid_url("not a url"));
}

#[test]
fn test_url_validation() {
    assert!(is_valid_url("https://example.com"));
    assert!(is_valid_url("http://example.com"));
    assert!(!is_valid_url("ftp://example.com"));
    assert!(!is_valid_url("javascript:alert(1)"));
    assert!(!is_valid_url("not-a-url"));
    assert!(!is_valid_url(""));
}

#[test]
fn test_validate_fetch_url_errors() {
    assert!(validate_fetch_url("https://example.com").is_ok());
    match validate_fetch_url("not a url") {
        Err(DaedraError::UrlParseError(_)) => {}
        other => panic!("expected a URL parse error, got {:?}", other),
    }
    match validate_fetch_url("ftp://example.com") {
        Err(DaedraError::InvalidArguments(m)) => {
            assert_eq!(m, "Only HTTP(S) URLs are supported");
        }
        other => panic!("expected invalid arguments, got {:?}", other),
    }
}

#[test]
fn test_clean_title() {
    assert_eq!(clean_title("Page Title | Site Name"), "Page Title");
    assert_eq!(clean_title("Page Title - Site Name"), "Page Title");
    assert_eq!(clean_title("Simple Title"), "Simple Title");
}

#[test]
fn test_clean_markdown() {
    let input = "# Title\n\n\n\nParagraph\n\n\n\n\n\nAnother paragraph";
    let expected = "# Title\n\nParagraph\n\nAnother paragraph";
    assert_eq!(clean_markdown(input), expected);
}

#[test]
fn test_clean_markdown_drops_bare_markers() {
    let input = "Line one\n-\n*\n+\nLine two";
    assert_eq!(clean_markdown(input), "Line one\nLine two");
}

#[test]
fn test_html_to_markdown() {
    let html = "<h1>Title</h1><p>Paragraph with <strong>bold</strong> text.</p>";
    let markdown = html_to_markdown(html);
    assert!(markdown.contains("Title"));
    assert!(markdown.contains("Paragraph"));
    assert!(markdown.contains("bold"));
    assert!(!markdown.contains("<h1>"));
}

#[test]
fn test_extract_title_prefers_title_tag() {
    let html = "<html><head><title>My Page | Site</title></head><body><h1>Heading</h1></body></html>";
    assert_eq!(extract_title(html), "My Page");
}

#[test]
fn test_extract_title_falls_back() {
    let html = "<html><body><h1>Only Heading</h1></body></html>";
    assert_eq!(extract_title(html), "Only Heading");
    assert_eq!(extract_title("<html><body><p>plain</p></body></html>"), "Untitled");
}

#[test]
fn test_bot_protection_by_marker() {
    let html = "<html><body><div id=\"challenge-running\"></div></body></html>";
    assert!(check_bot_protection(html).is_err());
}

#[test]
fn test_bot_protection_by_title() {
    let html = "<html><head><title>Just a moment...</title></head><body></body></html>";
    assert!(check_bot_protection(html).is_err());
    let ok = "<html><head><title>Welcome</title></head><body></body></html>";
    assert!(check_bot_protection(ok).is_ok());
}

#[test]
fn test_extract_content_selector() {
    let html = "<html><body><main><p>Inside main region.</p></main><footer>foot</footer></body></html>";
    let content = extract_content(html, None).unwrap();
    assert!(content.contains("Inside main region."));
    assert!(!content.contains("foot"));

    match extract_content(html, Some("!!!not-a-selector")) {
        Err(DaedraError::InvalidArguments(m)) => {
            assert!(m.starts_with("Invalid CSS selector: "));
        }
        other => panic!("expected invalid selector error, got {:?}", other),
    }
}

fn wordy_page(with_links: bool) -> String {
    let mut body = String::new();
    body.push_str("<main>");
    for i in 0..60 {
        body.push_str(&format!("<p>word{} </p>", i));
    }
    body.push_str("</main>");
    if with_links {
        body.push_str("<a href=\"/one\">First link</a>");
        body.push_str("<a href=\"/one\">First link repeated</a>");
        body.push_str("<a href=\"#frag\">Fragment link</a>");
        body.push_str("<a href=\"mailto:x@example.com\">Mail link</a>");
        body.push_str("<a href=\"/two\">Second link</a>");
    }
    format!("<html><head><title>Wordy</title></head><body>{}</body></html>", body)
}

#[test]
fn test_extract_links_resolves_and_dedups() {
    let html = wordy_page(true);
    let links = extract_links(&html, "https://example.com/base/");
    let urls: Vec<&str> = links.iter().map(|l| l.url.as_str()).collect();
    assert!(urls.contains(&"https://example.com/one"));
    assert!(urls.contains(&"https://example.com/two"));
    // duplicates, fragments and mail targets are gone
    assert_eq!(urls.iter().filter(|u| **u == "https://example.com/one").count(), 1);
    assert!(!urls.iter().any(|u| u.contains("mailto")));
}

#[test]
fn test_extract_page_links_only_when_substantial() {
    let long = wordy_page(true);
    let page = extract_page("https://example.com/", &long, None).unwrap();
    assert!(page.word_count >= 50);
    assert!(page.links.is_some());
    assert_eq!(page.title, "Wordy");
    assert_eq!(page.url, "https://example.com/");

    let short = "<html><head><title>Tiny</title></head><body><main><p>few words only</p></main>\
                 <a href=\"/x\">A link</a></body></html>";
    let page = extract_page("https://example.com/", short, None).unwrap();
    assert!(page.word_count < 50);
    assert!(page.links.is_none());
}

#[test]
fn test_extract_page_bot_protected() {
    let html = "<html><body><div id=\"px-captcha\"></div></body></html>";
    match extract_page("https://example.com/", html, None) {
        Err(DaedraError::BotProtectionDetected) => {}
        other => panic!("expected bot protection, got {:?}", other),
    }
}

#[test]
fn test_extract_links_capped() {
    let mut body = String::from("<main>");
    for i in 0..60 {
        body.push_str(&format!("<p>word{} </p>", i));
    }
    body.push_str("</main>");
    for i in 0..70 {
        body.push_str(&format!("<a href=\"/l{}\">Link number {}</a>", i, i));
    }
    let html = format!("<html><body>{}</body></html>", body);
    let links = extract_links(&html, "https://example.com/");
    assert_eq!(links.len(), 50);
}
