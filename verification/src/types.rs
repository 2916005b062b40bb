//! Shared data types: errors, search options and arguments, search results
//! and responses, page contents, and the query-analysis heuristics.

use crate::clock;
use crate::text;
use vstd::prelude::*;

verus! {

/// Result alias used throughout the crate.
pub type DaedraResult<T> = Result<T, DaedraError>;

/// The closed set of failures the pipelines can report.
#[derive(Debug, Clone)]
pub enum DaedraError {
    /// HTTP request failed at the transport level.
    HttpError(String),
    /// URL parsing failed.
    UrlParseError(String),
    /// JSON encoding or decoding failed.
    JsonError(String),
    /// Search operation failed.
    SearchError(String),
    /// Page fetch failed.
    FetchError(String),
    /// Invalid arguments provided.
    InvalidArguments(String),
    /// Server error.
    ServerError(String),
    /// IO error.
    IoError(String),
    /// Content extraction failed.
    ExtractionError(String),
    /// Rate limit exceeded.
    RateLimitExceeded,
    /// Bot protection detected.
    BotProtectionDetected,
    /// Operation timed out.
    Timeout,
}

/// The human-readable message of each error.
pub open spec fn spec_error_message(e: DaedraError) -> Seq<char> {
    match e {
        DaedraError::HttpError(s) => "HTTP request failed: "@ + s@,
        DaedraError::UrlParseError(s) => "Invalid URL: "@ + s@,
        DaedraError::JsonError(s) => "JSON error: "@ + s@,
        DaedraError::SearchError(s) => "Search failed: "@ + s@,
        DaedraError::FetchError(s) => "Failed to fetch page: "@ + s@,
        DaedraError::InvalidArguments(s) => "Invalid arguments: "@ + s@,
        DaedraError::ServerError(s) => "Server error: "@ + s@,
        DaedraError::IoError(s) => "IO error: "@ + s@,
        DaedraError::ExtractionError(s) => "Content extraction failed: "@ + s@,
        DaedraError::RateLimitExceeded => "Rate limit exceeded, please try again later"@,
        DaedraError::BotProtectionDetected => "Bot protection detected on target page"@,
        DaedraError::Timeout => "Operation timed out"@,
    }
}

impl DaedraError {
    /// The error rendered for a human, with its context.
    pub fn message(&self) -> (r: String)
        ensures
            r@ == spec_error_message(*self),
    {
        match self {
            DaedraError::HttpError(s) => String::from_str("HTTP request failed: ").concat(
                s.as_str(),
            ),
            DaedraError::UrlParseError(s) => String::from_str("Invalid URL: ").concat(s.as_str()),
            DaedraError::JsonError(s) => String::from_str("JSON error: ").concat(s.as_str()),
            DaedraError::SearchError(s) => String::from_str("Search failed: ").concat(s.as_str()),
            DaedraError::FetchError(s) => String::from_str("Failed to fetch page: ").concat(
                s.as_str(),
            ),
            DaedraError::InvalidArguments(s) => String::from_str("Invalid arguments: ").concat(
                s.as_str(),
            ),
            DaedraError::ServerError(s) => String::from_str("Server error: ").concat(s.as_str()),
            DaedraError::IoError(s) => String::from_str("IO error: ").concat(s.as_str()),
            DaedraError::ExtractionError(s) => String::from_str(
                "Content extraction failed: ",
            ).concat(s.as_str()),
            DaedraError::RateLimitExceeded => String::from_str(
                "Rate limit exceeded, please try again later",
            ),
            DaedraError::BotProtectionDetected => String::from_str(
                "Bot protection detected on target page",
            ),
            DaedraError::Timeout => String::from_str("Operation timed out"),
        }
    }

    /// An equal error, rebuilt field by field.
    pub fn duplicate(&self) -> (r: DaedraError)
        ensures
            r == *self,
    {
        match self {
            DaedraError::HttpError(s) => DaedraError::HttpError(s.clone()),
            DaedraError::UrlParseError(s) => DaedraError::UrlParseError(s.clone()),
            DaedraError::JsonError(s) => DaedraError::JsonError(s.clone()),
            DaedraError::SearchError(s) => DaedraError::SearchError(s.clone()),
            DaedraError::FetchError(s) => DaedraError::FetchError(s.clone()),
            DaedraError::InvalidArguments(s) => DaedraError::InvalidArguments(s.clone()),
            DaedraError::ServerError(s) => DaedraError::ServerError(s.clone()),
            DaedraError::IoError(s) => DaedraError::IoError(s.clone()),
            DaedraError::ExtractionError(s) => DaedraError::ExtractionError(s.clone()),
            DaedraError::RateLimitExceeded => DaedraError::RateLimitExceeded,
            DaedraError::BotProtectionDetected => DaedraError::BotProtectionDetected,
            DaedraError::Timeout => DaedraError::Timeout,
        }
    }
}

/// Safe search filtering levels.
#[derive(Debug, Clone, Copy, PartialEq, Eq, Structural)]
pub enum SafeSearchLevel {
    /// No filtering.
    Off,
    /// Moderate filtering (the default).
    Moderate,
    /// Strict filtering.
    Strict,
}

/// The uppercase label of each level.
pub open spec fn spec_level_label(l: SafeSearchLevel) -> Seq<char> {
    match l {
        SafeSearchLevel::Off => "OFF"@,
        SafeSearchLevel::Moderate => "MODERATE"@,
        SafeSearchLevel::Strict => "STRICT"@,
    }
}

/// The level a (case-folded) label names, if any.
pub open spec fn spec_level_for(u: Seq<char>) -> Option<SafeSearchLevel> {
    if u == "OFF"@ {
        Some(SafeSearchLevel::Off)
    } else if u == "MODERATE"@ {
        Some(SafeSearchLevel::Moderate)
    } else if u == "STRICT"@ {
        Some(SafeSearchLevel::Strict)
    } else {
        None
    }
}

impl SafeSearchLevel {
    /// Convert to the provider's numeric safe-search parameter value.
    pub fn to_ddg_value(&self) -> (r: i32)
        ensures
            *self == SafeSearchLevel::Off ==> r == -2,
            *self == SafeSearchLevel::Moderate ==> r == -1,
            *self == SafeSearchLevel::Strict ==> r == 1,
    {
        match self {
            SafeSearchLevel::Off => -2,
            SafeSearchLevel::Moderate => -1,
            SafeSearchLevel::Strict => 1,
        }
    }

    /// The level's uppercase label.
    pub fn label(&self) -> (r: String)
        ensures
            r@ == spec_level_label(*self),
    {
        match self {
            SafeSearchLevel::Off => String::from_str("OFF"),
            SafeSearchLevel::Moderate => String::from_str("MODERATE"),
            SafeSearchLevel::Strict => String::from_str("STRICT"),
        }
    }

    /// Parses a level label, ignoring case.
    pub fn parse_level(s: &str) -> (r: Result<SafeSearchLevel, DaedraError>)
        ensures
            match spec_level_for(text::upper_of(s@)) {
                Some(l) => r == Ok::<SafeSearchLevel, DaedraError>(l),
                None => (r matches Err(DaedraError::InvalidArguments(m)) && m@
                    == "Invalid safe search level: "@ + s@),
            },
    {
        let u = text::to_upper(s);
        if u == String::from_str("OFF") {
            Ok(SafeSearchLevel::Off)
        } else if u == String::from_str("MODERATE") {
            Ok(SafeSearchLevel::Moderate)
        } else if u == String::from_str("STRICT") {
            Ok(SafeSearchLevel::Strict)
        } else {
            Err(DaedraError::InvalidArguments(
                String::from_str("Invalid safe search level: ").concat(s),
            ))
        }
    }
}

impl core::str::FromStr for SafeSearchLevel {
    type Err = DaedraError;

    fn from_str(s: &str) -> Result<SafeSearchLevel, DaedraError> {
        SafeSearchLevel::parse_level(s)
    }
}

/// Options for search operations.
#[derive(Debug, Clone)]
pub struct SearchOptions {
    /// Region for search results (e.g., "us-en", "wt-wt" for worldwide).
    pub region: String,
    /// Safe search filtering level.
    pub safe_search: SafeSearchLevel,
    /// Maximum number of results to return.
    pub num_results: usize,
    /// Time range filter (e.g., "d" for day, "w" for week, "m" for month).
    pub time_range: Option<String>,
}

impl Default for SearchOptions {
    /// The zero value: empty region, moderate filtering, no results asked.
    fn default() -> (r: SearchOptions)
        ensures
            r.region@ == Seq::<char>::empty(),
            r.safe_search == SafeSearchLevel::Moderate,
            r.num_results == 0,
            r.time_range is None,
    {
        SearchOptions {
            region: String::new(),
            safe_search: SafeSearchLevel::Moderate,
            num_results: 0,
            time_range: None,
        }
    }
}

impl SearchOptions {
    /// An equal set of options, rebuilt field by field.
    pub fn duplicate(&self) -> (r: SearchOptions)
        ensures
            r == *self,
    {
        SearchOptions {
            region: self.region.clone(),
            safe_search: self.safe_search,
            num_results: self.num_results,
            time_range: match &self.time_range {
                Some(t) => Some(t.clone()),
                None => None,
            },
        }
    }
}

/// The worldwide region code used when a request names none.
pub fn default_region() -> (r: String)
    ensures
        r@ == "wt-wt"@,
{
    String::from_str("wt-wt")
}

/// The result-count limit used when a request names none.
pub fn default_num_results() -> (r: usize)
    ensures
        r == 10,
{
    10
}

/// Arguments for the search tool.
#[derive(Debug, Clone)]
pub struct SearchArgs {
    /// The search query string.
    pub query: String,
    /// Optional search configuration.
    pub options: Option<SearchOptions>,
}

impl SearchArgs {
    /// Equal arguments, rebuilt field by field.
    pub fn duplicate(&self) -> (r: SearchArgs)
        ensures
            r == *self,
    {
        SearchArgs {
            query: self.query.clone(),
            options: match &self.options {
                Some(o) => Some(o.duplicate()),
                None => None,
            },
        }
    }
}

/// Arguments for the visit_page tool.
#[derive(Debug, Clone)]
pub struct VisitPageArgs {
    /// URL of the page to visit.
    pub url: String,
    /// Optional CSS selector to target specific content.
    pub selector: Option<String>,
    /// Whether to include images in the response.
    pub include_images: bool,
}

impl VisitPageArgs {
    /// Equal arguments, rebuilt field by field.
    pub fn duplicate(&self) -> (r: VisitPageArgs)
        ensures
            r == *self,
    {
        VisitPageArgs {
            url: self.url.clone(),
            selector: match &self.selector {
                Some(s) => Some(s.clone()),
                None => None,
            },
            include_images: self.include_images,
        }
    }
}

/// Content type classification for search results.
#[derive(Debug, Clone, Copy, PartialEq, Eq, Structural)]
pub enum ContentType {
    /// Documentation pages and code hosting.
    Documentation,
    /// Social media content.
    Social,
    /// News articles and unclassified pages.
    Article,
    /// Forum discussions.
    Forum,
    /// Video content.
    Video,
    /// E-commerce and shopping.
    Shopping,
    /// Other content.
    Other,
}

/// The lowercase label each content type serializes to.
pub open spec fn spec_content_type_label(t: ContentType) -> Seq<char> {
    match t {
        ContentType::Documentation => "documentation"@,
        ContentType::Social => "social"@,
        ContentType::Article => "article"@,
        ContentType::Forum => "forum"@,
        ContentType::Video => "video"@,
        ContentType::Shopping => "shopping"@,
        ContentType::Other => "other"@,
    }
}

impl ContentType {
    /// The type's lowercase label.
    pub fn label(&self) -> (r: String)
        ensures
            r@ == spec_content_type_label(*self),
    {
        match self {
            ContentType::Documentation => String::from_str("documentation"),
            ContentType::Social => String::from_str("social"),
            ContentType::Article => String::from_str("article"),
            ContentType::Forum => String::from_str("forum"),
            ContentType::Video => String::from_str("video"),
            ContentType::Shopping => String::from_str("shopping"),
            ContentType::Other => String::from_str("other"),
        }
    }
}

/// Metadata for a search result.
#[derive(Debug, Clone)]
pub struct ResultMetadata {
    /// Content type classification.
    pub content_type: ContentType,
    /// Source domain.
    pub source: String,
    /// Favicon URL if available.
    pub favicon: Option<String>,
    /// Published date if available.
    pub published_date: Option<String>,
}

impl ResultMetadata {
    /// Equal metadata, rebuilt field by field.
    pub fn duplicate(&self) -> (r: ResultMetadata)
        ensures
            r == *self,
    {
        ResultMetadata {
            content_type: self.content_type,
            source: self.source.clone(),
            favicon: match &self.favicon {
                Some(f) => Some(f.clone()),
                None => None,
            },
            published_date: match &self.published_date {
                Some(d) => Some(d.clone()),
                None => None,
            },
        }
    }
}

/// A single search result.
#[derive(Debug, Clone)]
pub struct SearchResult {
    /// Title of the result.
    pub title: String,
    /// URL of the result.
    pub url: String,
    /// Description or snippet.
    pub description: String,
    /// Additional metadata.
    pub metadata: ResultMetadata,
}

impl SearchResult {
    /// An equal result, rebuilt field by field.
    pub fn duplicate(&self) -> (r: SearchResult)
        ensures
            r == *self,
    {
        SearchResult {
            title: self.title.clone(),
            url: self.url.clone(),
            description: self.description.clone(),
            metadata: self.metadata.duplicate(),
        }
    }
}

/// An equal result list, rebuilt element by element.
pub fn duplicate_results(results: &Vec<SearchResult>) -> (r: Vec<SearchResult>)
    ensures
        r@ == results@,
{
    let mut r: Vec<SearchResult> = Vec::new();
    let mut i: usize = 0;
    while i < results.len()
        invariant
            i <= results@.len(),
            r@ == results@.subrange(0, i as int),
        decreases results@.len() - i,
    {
        r.push(results[i].duplicate());
        assert(r@ =~= results@.subrange(0, i + 1));
        i = i + 1;
    }
    assert(r@ =~= results@);
    r
}

/// Query analysis information.
#[derive(Debug, Clone)]
pub struct QueryAnalysis {
    /// Detected language of the query.
    pub language: String,
    /// Detected topics in results.
    pub topics: Vec<String>,
}

/// Search context information.
#[derive(Debug, Clone)]
pub struct SearchContext {
    /// Region used for search.
    pub region: String,
    /// Safe search level applied.
    pub safe_search: String,
    /// Number of results requested.
    pub num_results: Option<usize>,
}

/// Metadata about the search operation.
#[derive(Debug, Clone)]
pub struct SearchMetadata {
    /// Original search query.
    pub query: String,
    /// ISO timestamp of when the search was conducted.
    pub timestamp: String,
    /// Number of results returned.
    pub result_count: usize,
    /// Search context information.
    pub search_context: SearchContext,
    /// Query analysis results.
    pub query_analysis: QueryAnalysis,
}

/// Complete search response.
#[derive(Debug, Clone)]
pub struct SearchResponse {
    /// Response type discriminator.
    pub response_type: String,
    /// Ordered list of search results.
    pub data: Vec<SearchResult>,
    /// Search metadata.
    pub metadata: SearchMetadata,
}

/// There is a character of the query within the inclusive scalar range.
pub open spec fn has_char_in(q: Seq<char>, lo: u32, hi: u32) -> bool {
    exists|i: int| 0 <= i < q.len() && lo <= #[trigger] q[i] as u32 <= hi
}

/// The language code the query's script family maps to: the first matching
/// range among Han, Kana, Hangul, Cyrillic and Arabic wins, else English.
pub open spec fn spec_detect_language(q: Seq<char>) -> Seq<char> {
    if has_char_in(q, 0x4e00, 0x9fff) {
        "zh"@
    } else if has_char_in(q, 0x3040, 0x30ff) {
        "ja"@
    } else if has_char_in(q, 0xac00, 0xd7af) {
        "ko"@
    } else if has_char_in(q, 0x0400, 0x04ff) {
        "ru"@
    } else if has_char_in(q, 0x0600, 0x06ff) {
        "ar"@
    } else {
        "en"@
    }
}

/// Whether any character of the text lies in the inclusive scalar range.
fn has_char_between(v: &Vec<char>, lo: u32, hi: u32) -> (r: bool)
    ensures
        r == has_char_in(v@, lo, hi),
{
    let mut i: usize = 0;
    while i < v.len()
        invariant
            i <= v@.len(),
            forall|j: int| 0 <= j < i ==> !(lo <= #[trigger] v@[j] as u32 <= hi),
        decreases v@.len() - i,
    {
        let c = v[i] as u32;
        if lo <= c && c <= hi {
            return true;
        }
        i = i + 1;
    }
    false
}

/// Detect the language of a query by its script family.
pub fn detect_language(query: &str) -> (r: String)
    ensures
        r@ == spec_detect_language(query@),
{
    let v = text::chars_of(query);
    if has_char_between(&v, 0x4e00, 0x9fff) {
        String::from_str("zh")
    } else if has_char_between(&v, 0x3040, 0x30ff) {
        String::from_str("ja")
    } else if has_char_between(&v, 0xac00, 0xd7af) {
        String::from_str("ko")
    } else if has_char_between(&v, 0x0400, 0x04ff) {
        String::from_str("ru")
    } else if has_char_between(&v, 0x0600, 0x06ff) {
        String::from_str("ar")
    } else {
        String::from_str("en")
    }
}

/// A result hints at technology: code hosting in the URL, or programming
/// terms in the title, both case-folded.
pub open spec fn result_is_tech(lt: Seq<char>, lu: Seq<char>) -> bool {
    ||| text::contains_seq(lu, "github.com"@)
    ||| text::contains_seq(lu, "stackoverflow.com"@)
    ||| text::contains_seq(lu, "gitlab.com"@)
    ||| text::contains_seq(lt, "programming"@)
    ||| text::contains_seq(lt, "code"@)
}

/// A result hints at documentation.
pub open spec fn result_is_docs(lt: Seq<char>, lu: Seq<char>) -> bool {
    ||| text::contains_seq(lu, "docs."@)
    ||| text::contains_seq(lu, "/docs/"@)
    ||| text::contains_seq(lu, "/documentation/"@)
    ||| text::contains_seq(lt, "documentation"@)
    ||| text::contains_seq(lt, "api reference"@)
}

/// A result hints at news.
pub open spec fn result_is_news(lu: Seq<char>, content_type: ContentType) -> bool {
    ||| text::contains_seq(lu, "news."@)
    ||| text::contains_seq(lu, "/news/"@)
    ||| content_type == ContentType::Article
}

/// A result hints at academia.
pub open spec fn result_is_academic(lt: Seq<char>, lu: Seq<char>) -> bool {
    ||| text::contains_seq(lu, ".edu"@)
    ||| text::contains_seq(lu, "arxiv.org"@)
    ||| text::contains_seq(lu, "scholar.google"@)
    ||| text::contains_seq(lt, "research"@)
    ||| text::contains_seq(lt, "study"@)
}

/// The case-folded title of the result at `i`.
pub open spec fn lower_title(results: Seq<SearchResult>, i: int) -> Seq<char> {
    text::lower_of(results[i].title@)
}

/// The case-folded URL of the result at `i`.
pub open spec fn lower_url(results: Seq<SearchResult>, i: int) -> Seq<char> {
    text::lower_of(results[i].url@)
}

/// Some result in the list hints at technology.
pub open spec fn any_tech(results: Seq<SearchResult>) -> bool {
    exists|i: int|
        0 <= i < results.len() && result_is_tech(lower_title(results, i), lower_url(results, i))
}

/// Some result in the list hints at documentation.
pub open spec fn any_docs(results: Seq<SearchResult>) -> bool {
    exists|i: int|
        0 <= i < results.len() && result_is_docs(lower_title(results, i), lower_url(results, i))
}

/// Some result in the list hints at news.
pub open spec fn any_news(results: Seq<SearchResult>) -> bool {
    exists|i: int|
        0 <= i < results.len() && result_is_news(lower_url(results, i), results[i].metadata.content_type)
}

/// Some result in the list hints at academia.
pub open spec fn any_academic(results: Seq<SearchResult>) -> bool {
    exists|i: int|
        0 <= i < results.len() && result_is_academic(lower_title(results, i), lower_url(results, i))
}

/// The topic tags derived from a result list: each tag appears once, in a
/// fixed order, exactly when some result carries its indicators.
pub open spec fn spec_topics(results: Seq<SearchResult>) -> Seq<Seq<char>> {
    let t = if any_tech(results) {
        seq!["technology"@]
    } else {
        Seq::empty()
    };
    let d = if any_docs(results) {
        seq!["documentation"@]
    } else {
        Seq::empty()
    };
    let n = if any_news(results) {
        seq!["news"@]
    } else {
        Seq::empty()
    };
    let a = if any_academic(results) {
        seq!["academic"@]
    } else {
        Seq::empty()
    };
    t + d + n + a
}

/// Detect topic tags across all results: independent indicator checks,
/// deduplicated into at most one tag of each kind.
pub fn detect_topics(results: &Vec<SearchResult>) -> (r: Vec<String>)
    ensures
        r.deep_view() == spec_topics(results@),
{
    let mut tech = false;
    let mut docs = false;
    let mut news = false;
    let mut academic = false;
    let mut i: usize = 0;
    while i < results.len()
        invariant
            i <= results@.len(),
            tech == any_tech(results@.subrange(0, i as int)),
            docs == any_docs(results@.subrange(0, i as int)),
            news == any_news(results@.subrange(0, i as int)),
            academic == any_academic(results@.subrange(0, i as int)),
        decreases results@.len() - i,
    {
        let ghost pre = results@.subrange(0, i as int);
        let ghost cur = results@.subrange(0, i + 1);
        let lt_s = text::to_lower(results[i].title.as_str());
        let lu_s = text::to_lower(results[i].url.as_str());
        let lt = text::chars_of(lt_s.as_str());
        let lu = text::chars_of(lu_s.as_str());
        proof {
            assert(cur.drop_last() =~= pre);
            assert(cur[i as int] == results@[i as int]);
        }
        let r_tech = text::contains_chars(&lu, "github.com") || text::contains_chars(
            &lu,
            "stackoverflow.com",
        ) || text::contains_chars(&lu, "gitlab.com") || text::contains_chars(&lt, "programming")
            || text::contains_chars(&lt, "code");
        let r_docs = text::contains_chars(&lu, "docs.") || text::contains_chars(&lu, "/docs/")
            || text::contains_chars(&lu, "/documentation/") || text::contains_chars(
            &lt,
            "documentation",
        ) || text::contains_chars(&lt, "api reference");
        let r_news = text::contains_chars(&lu, "news.") || text::contains_chars(&lu, "/news/")
            || results[i].metadata.content_type == ContentType::Article;
        let r_academic = text::contains_chars(&lu, ".edu") || text::contains_chars(
            &lu,
            "arxiv.org",
        ) || text::contains_chars(&lu, "scholar.google") || text::contains_chars(&lt, "research")
            || text::contains_chars(&lt, "study");
        proof {
            lemma_any_extend(results@, i as int, r_tech, r_docs, r_news, r_academic);
        }
        tech = tech || r_tech;
        docs = docs || r_docs;
        news = news || r_news;
        academic = academic || r_academic;
        i = i + 1;
    }
    proof {
        assert(results@.subrange(0, results@.len() as int) =~= results@);
    }
    let mut r: Vec<String> = Vec::new();
    if tech {
        r.push(String::from_str("technology"));
    }
    if docs {
        r.push(String::from_str("documentation"));
    }
    if news {
        r.push(String::from_str("news"));
    }
    if academic {
        r.push(String::from_str("academic"));
    }
    proof {
        assert(r.deep_view() =~= spec_topics(results@));
    }
    r
}

/// Extending the scanned prefix by one result extends each "any" flag by
/// exactly that result's indicators.
proof fn lemma_any_extend(
    results: Seq<SearchResult>,
    i: int,
    r_tech: bool,
    r_docs: bool,
    r_news: bool,
    r_academic: bool,
)
    requires
        0 <= i < results.len(),
        r_tech == result_is_tech(lower_title(results, i), lower_url(results, i)),
        r_docs == result_is_docs(lower_title(results, i), lower_url(results, i)),
        r_news == result_is_news(lower_url(results, i), results[i].metadata.content_type),
        r_academic == result_is_academic(lower_title(results, i), lower_url(results, i)),
    ensures
        any_tech(results.subrange(0, i + 1)) == (any_tech(results.subrange(0, i)) || r_tech),
        any_docs(results.subrange(0, i + 1)) == (any_docs(results.subrange(0, i)) || r_docs),
        any_news(results.subrange(0, i + 1)) == (any_news(results.subrange(0, i)) || r_news),
        any_academic(results.subrange(0, i + 1)) == (any_academic(results.subrange(0, i))
            || r_academic),
{
    let pre = results.subrange(0, i);
    let cur = results.subrange(0, i + 1);
    assert forall|j: int| 0 <= j < pre.len() implies pre[j] == cur[j] by {}
    assert(cur[i] == results[i]);
    if any_tech(pre) {
        let j = choose|j: int|
            0 <= j < pre.len() && result_is_tech(lower_title(pre, j), lower_url(pre, j));
        assert(result_is_tech(lower_title(cur, j), lower_url(cur, j)));
    }
    if r_tech {
        assert(result_is_tech(lower_title(cur, i), lower_url(cur, i)));
    }
    if any_tech(cur) {
        let j = choose|j: int|
            0 <= j < cur.len() && result_is_tech(lower_title(cur, j), lower_url(cur, j));
        if j < i {
            assert(result_is_tech(lower_title(pre, j), lower_url(pre, j)));
        }
    }
    if any_docs(pre) {
        let j = choose|j: int|
            0 <= j < pre.len() && result_is_docs(lower_title(pre, j), lower_url(pre, j));
        assert(result_is_docs(lower_title(cur, j), lower_url(cur, j)));
    }
    if r_docs {
        assert(result_is_docs(lower_title(cur, i), lower_url(cur, i)));
    }
    if any_docs(cur) {
        let j = choose|j: int|
            0 <= j < cur.len() && result_is_docs(lower_title(cur, j), lower_url(cur, j));
        if j < i {
            assert(result_is_docs(lower_title(pre, j), lower_url(pre, j)));
        }
    }
    if any_news(pre) {
        let j = choose|j: int|
            0 <= j < pre.len() && result_is_news(lower_url(pre, j), pre[j].metadata.content_type);
        assert(result_is_news(lower_url(cur, j), cur[j].metadata.content_type));
    }
    if r_news {
        assert(result_is_news(lower_url(cur, i), cur[i].metadata.content_type));
    }
    if any_news(cur) {
        let j = choose|j: int|
            0 <= j < cur.len() && result_is_news(lower_url(cur, j), cur[j].metadata.content_type);
        if j < i {
            assert(result_is_news(lower_url(pre, j), pre[j].metadata.content_type));
        }
    }
    if any_academic(pre) {
        let j = choose|j: int|
            0 <= j < pre.len() && result_is_academic(lower_title(pre, j), lower_url(pre, j));
        assert(result_is_academic(lower_title(cur, j), lower_url(cur, j)));
    }
    if r_academic {
        assert(result_is_academic(lower_title(cur, i), lower_url(cur, i)));
    }
    if any_academic(cur) {
        let j = choose|j: int|
            0 <= j < cur.len() && result_is_academic(lower_title(cur, j), lower_url(cur, j));
        if j < i {
            assert(result_is_academic(lower_title(pre, j), lower_url(pre, j)));
        }
    }
}

/// The two responses hold the same content: equal fields, with the result
/// and topic lists compared element by element.
pub open spec fn resp_eq(a: SearchResponse, b: SearchResponse) -> bool {
    &&& a.response_type == b.response_type
    &&& a.data@ == b.data@
    &&& a.metadata.query == b.metadata.query
    &&& a.metadata.timestamp == b.metadata.timestamp
    &&& a.metadata.result_count == b.metadata.result_count
    &&& a.metadata.search_context == b.metadata.search_context
    &&& a.metadata.query_analysis.language == b.metadata.query_analysis.language
    &&& a.metadata.query_analysis.topics@ == b.metadata.query_analysis.topics@
}

impl SearchResponse {
    /// Assemble a response from a query, its results, the options used, and
    /// the timestamp to record.
    pub fn with_timestamp(
        query: String,
        results: Vec<SearchResult>,
        options: &SearchOptions,
        timestamp: String,
    ) -> (r: SearchResponse)
        ensures
            r.response_type@ == "search_results"@,
            r.data == results,
            r.metadata.query == query,
            r.metadata.timestamp == timestamp,
            r.metadata.result_count == results@.len(),
            r.metadata.search_context.region@ == options.region@,
            r.metadata.search_context.safe_search@ == spec_level_label(options.safe_search),
            r.metadata.search_context.num_results == Some(options.num_results),
            r.metadata.query_analysis.language@ == spec_detect_language(query@),
            r.metadata.query_analysis.topics.deep_view() == spec_topics(results@),
    {
        let result_count = results.len();
        let language = detect_language(query.as_str());
        let topics = detect_topics(&results);
        SearchResponse {
            response_type: String::from_str("search_results"),
            metadata: SearchMetadata {
                query,
                timestamp,
                result_count,
                search_context: SearchContext {
                    region: options.region.clone(),
                    safe_search: options.safe_search.label(),
                    num_results: Some(options.num_results),
                },
                query_analysis: QueryAnalysis { language, topics },
            },
            data: results,
        }
    }

    /// Assemble a response stamped with the current time.
    pub fn new(query: String, results: Vec<SearchResult>, options: &SearchOptions) -> (r:
        SearchResponse)
        ensures
            r.response_type@ == "search_results"@,
            r.data == results,
            r.metadata.query == query,
            r.metadata.result_count == results@.len(),
            r.metadata.search_context.region@ == options.region@,
            r.metadata.search_context.safe_search@ == spec_level_label(options.safe_search),
            r.metadata.search_context.num_results == Some(options.num_results),
            r.metadata.query_analysis.language@ == spec_detect_language(query@),
            r.metadata.query_analysis.topics.deep_view() == spec_topics(results@),
    {
        let timestamp = clock::now_rfc3339();
        SearchResponse::with_timestamp(query, results, options, timestamp)
    }

    /// An equivalent response, rebuilt field by field.
    pub fn duplicate(&self) -> (r: SearchResponse)
        ensures
            resp_eq(r, *self),
    {
        let r = SearchResponse {
            response_type: self.response_type.clone(),
            data: duplicate_results(&self.data),
            metadata: SearchMetadata {
                query: self.metadata.query.clone(),
                timestamp: self.metadata.timestamp.clone(),
                result_count: self.metadata.result_count,
                search_context: SearchContext {
                    region: self.metadata.search_context.region.clone(),
                    safe_search: self.metadata.search_context.safe_search.clone(),
                    num_results: self.metadata.search_context.num_results,
                },
                query_analysis: QueryAnalysis {
                    language: self.metadata.query_analysis.language.clone(),
                    topics: duplicate_strings(&self.metadata.query_analysis.topics),
                },
            },
        };
        r
    }
}

/// An equal string list, rebuilt element by element.
pub fn duplicate_strings(v: &Vec<String>) -> (r: Vec<String>)
    ensures
        r@ == v@,
{
    let mut r: Vec<String> = Vec::new();
    let mut i: usize = 0;
    while i < v.len()
        invariant
            i <= v@.len(),
            r@ == v@.subrange(0, i as int),
        decreases v@.len() - i,
    {
        r.push(v[i].clone());
        assert(r@ =~= v@.subrange(0, i + 1));
        i = i + 1;
    }
    assert(r@ =~= v@);
    r
}

/// The JSON Schema text describing the search tool's arguments.
pub open spec fn spec_search_args_schema() -> Seq<char> {
    "{\"type\":\"object\",\"properties\":{\"query\":{\"type\":\"string\",\"description\":\"The search query string\"},\"options\":{\"type\":\"object\",\"description\":\"Optional search configuration\",\"properties\":{\"region\":{\"type\":\"string\",\"description\":\"Region for search results (e.g., 'us-en', 'wt-wt' for worldwide)\",\"default\":\"wt-wt\"},\"safe_search\":{\"type\":\"string\",\"enum\":[\"OFF\",\"MODERATE\",\"STRICT\"],\"description\":\"Safe search filtering level\",\"default\":\"MODERATE\"},\"num_results\":{\"type\":\"integer\",\"description\":\"Maximum number of results to return\",\"default\":10,\"minimum\":1,\"maximum\":50},\"time_range\":{\"type\":\"string\",\"description\":\"Time range filter (d=day, w=week, m=month, y=year)\"}}}},\"required\":[\"query\"]}"@
}

/// JSON Schema for the search tool's arguments.
pub fn search_args_schema() -> (r: String)
    ensures
        r@ == spec_search_args_schema(),
{
    String::from_str(
        "{\"type\":\"object\",\"properties\":{\"query\":{\"type\":\"string\",\"description\":\"The search query string\"},\"options\":{\"type\":\"object\",\"description\":\"Optional search configuration\",\"properties\":{\"region\":{\"type\":\"string\",\"description\":\"Region for search results (e.g., 'us-en', 'wt-wt' for worldwide)\",\"default\":\"wt-wt\"},\"safe_search\":{\"type\":\"string\",\"enum\":[\"OFF\",\"MODERATE\",\"STRICT\"],\"description\":\"Safe search filtering level\",\"default\":\"MODERATE\"},\"num_results\":{\"type\":\"integer\",\"description\":\"Maximum number of results to return\",\"default\":10,\"minimum\":1,\"maximum\":50},\"time_range\":{\"type\":\"string\",\"description\":\"Time range filter (d=day, w=week, m=month, y=year)\"}}}},\"required\":[\"query\"]}",
    )
}

/// The JSON Schema text describing the visit_page tool's arguments.
pub open spec fn spec_visit_page_args_schema() -> Seq<char> {
    "{\"type\":\"object\",\"properties\":{\"url\":{\"type\":\"string\",\"format\":\"uri\",\"description\":\"URL of the page to visit\"},\"selector\":{\"type\":\"string\",\"description\":\"Optional CSS selector to target specific content\"},\"include_images\":{\"type\":\"boolean\",\"description\":\"Whether to include image references in the response\",\"default\":false}},\"required\":[\"url\"]}"@
}

/// JSON Schema for the visit_page tool's arguments.
pub fn visit_page_args_schema() -> (r: String)
    ensures
        r@ == spec_visit_page_args_schema(),
{
    String::from_str(
        "{\"type\":\"object\",\"properties\":{\"url\":{\"type\":\"string\",\"format\":\"uri\",\"description\":\"URL of the page to visit\"},\"selector\":{\"type\":\"string\",\"description\":\"Optional CSS selector to target specific content\"},\"include_images\":{\"type\":\"boolean\",\"description\":\"Whether to include image references in the response\",\"default\":false}},\"required\":[\"url\"]}",
    )
}

/// Result of visiting a page.
#[derive(Debug, Clone)]
pub struct PageContent {
    /// URL of the page.
    pub url: String,
    /// Page title.
    pub title: String,
    /// Extracted content in Markdown format.
    pub content: String,
    /// ISO timestamp of when the page was fetched.
    pub timestamp: String,
    /// Word count of the extracted content.
    pub word_count: usize,
    /// Links found on the page.
    pub links: Option<Vec<PageLink>>,
}

/// A link found on a page.
#[derive(Debug, Clone)]
pub struct PageLink {
    /// Link text.
    pub text: String,
    /// Link URL.
    pub url: String,
}

impl PageLink {
    /// An equal link, rebuilt field by field.
    pub fn duplicate(&self) -> (r: PageLink)
        ensures
            r == *self,
    {
        PageLink { text: self.text.clone(), url: self.url.clone() }
    }
}

/// The two pages hold the same content: equal fields, with the link list
/// compared element by element.
pub open spec fn page_eq(a: PageContent, b: PageContent) -> bool {
    &&& a.url == b.url
    &&& a.title == b.title
    &&& a.content == b.content
    &&& a.timestamp == b.timestamp
    &&& a.word_count == b.word_count
    &&& match (a.links, b.links) {
        (Some(x), Some(y)) => x@ == y@,
        (None, None) => true,
        _ => false,
    }
}

impl PageContent {
    /// An equivalent page, rebuilt field by field.
    pub fn duplicate(&self) -> (r: PageContent)
        ensures
            page_eq(r, *self),
    {
        let r = PageContent {
            url: self.url.clone(),
            title: self.title.clone(),
            content: self.content.clone(),
            timestamp: self.timestamp.clone(),
            word_count: self.word_count,
            links: match &self.links {
                Some(ls) => Some(duplicate_links(ls)),
                None => None,
            },
        };
        r
    }
}

/// An equal link list, rebuilt element by element.
pub fn duplicate_links(v: &Vec<PageLink>) -> (r: Vec<PageLink>)
    ensures
        r@ == v@,
{
    let mut r: Vec<PageLink> = Vec::new();
    let mut i: usize = 0;
    while i < v.len()
        invariant
            i <= v@.len(),
            r@ == v@.subrange(0, i as int),
        decreases v@.len() - i,
    {
        r.push(v[i].duplicate());
        assert(r@ =~= v@.subrange(0, i + 1));
        i = i + 1;
    }
    assert(r@ =~= v@);
    r
}

} // verus!
