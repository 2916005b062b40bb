//! The search pipeline: provider query parameters, result-listing parsing,
//! result classification, and the batch plan.
//!
//! The network call and the HTML parser live behind trusted items; every
//! decision — which results are kept, how their text is cleaned, how URLs
//! are unwrapped and classified — is verified here.

use crate::text;
use crate::types::{ContentType, ResultMetadata, SearchOptions, SearchResponse, SearchResult};
use vstd::prelude::*;

verus! {

/// Upper bound on requests in flight at once in a batch.
pub const MAX_CONCURRENT_REQUESTS: usize = 5;

/// The six named HTML entities the provider's markup carries, decoded.
pub open spec fn spec_basic_entities(s: Seq<char>) -> Seq<char> {
    text::replace_seq(
        text::replace_seq(
            text::replace_seq(
                text::replace_seq(
                    text::replace_seq(
                        text::replace_seq(s, "&#x27;"@, "'"@),
                        "&quot;"@,
                        "\""@,
                    ),
                    "&amp;"@,
                    "&"@,
                ),
                "&lt;"@,
                "<"@,
            ),
            "&gt;"@,
            ">"@,
        ),
        "&nbsp;"@,
        " "@,
    )
}

/// First position at or after `i` that holds no hexadecimal digit.
pub open spec fn hex_run_end(s: Seq<char>, i: int) -> int
    decreases s.len() - i,
{
    if i < 0 || i >= s.len() || !text::is_hex_digit(s[i]) {
        i
    } else {
        hex_run_end(s, i + 1)
    }
}

/// The value of the hexadecimal digits `s[a..j)`.
pub open spec fn hex_value(s: Seq<char>, a: int, j: int) -> int
    decreases j - a,
{
    if j <= a {
        0
    } else {
        hex_value(s, a, j - 1) * 16 + text::hex_digit_val(s[j - 1])
    }
}

/// The character with the given scalar value.
pub open spec fn scalar_char(v: int) -> char {
    choose|c: char| (#[trigger] (c as u32)) == v
}

/// A numeric character reference in hexadecimal starts the text: `&#x`,
/// one or more hex digits, and a closing semicolon.
pub open spec fn hex_entity_at_front(s: Seq<char>) -> bool {
    &&& text::starts_with_seq(s, "&#x"@)
    &&& 3 < hex_run_end(s, 3)
    &&& hex_run_end(s, 3) < s.len()
    &&& s[hex_run_end(s, 3)] == ';'
}

/// Every hexadecimal character reference decoded to its character; a
/// reference naming no Unicode scalar value is left as written.
pub open spec fn decode_hex_entities(s: Seq<char>) -> Seq<char>
    decreases s.len(),
{
    if s.len() == 0 {
        s
    } else if hex_entity_at_front(s) {
        let e = hex_run_end(s, 3);
        let v = hex_value(s, 3, e);
        if v <= 0xffff_ffff && text::is_scalar_value(v) {
            seq![scalar_char(v)] + decode_hex_entities(s.skip(e + 1))
        } else {
            s.subrange(0, e + 1) + decode_hex_entities(s.skip(e + 1))
        }
    } else {
        seq![s[0]] + decode_hex_entities(s.drop_first())
    }
}

/// Cleaned display text: entities decoded, then whitespace collapsed.
pub open spec fn spec_clean_text(s: Seq<char>) -> Seq<char> {
    text::normalize_ws_seq(decode_hex_entities(spec_basic_entities(s)))
}

/// Two characters with one scalar value are one character.
proof fn lemma_char_cast_injective(a: char, b: char)
    requires
        a as u32 == b as u32,
    ensures
        a == b,
{
}

/// Whether the character is a hexadecimal digit.
fn is_hex(c: char) -> (r: bool)
    ensures
        r == text::is_hex_digit(c),
{
    match text::hex_digit(c) {
        Some(_) => true,
        None => false,
    }
}

/// The value of the digits `s[a..j)` is non-negative when they are digits.
proof fn lemma_hex_value_nonneg(s: Seq<char>, a: int, j: int)
    requires
        forall|m: int| a <= m < j ==> text::is_hex_digit(#[trigger] s[m]),
    ensures
        hex_value(s, a, j) >= 0,
    decreases j - a,
{
    if j > a {
        lemma_hex_value_nonneg(s, a, j - 1);
        assert(text::hex_digit_val(s[j - 1]) >= 0);
        assert(hex_value(s, a, j - 1) * 16 >= 0) by (nonlinear_arith)
            requires
                hex_value(s, a, j - 1) >= 0,
        ;
    }
}

/// Decode the hexadecimal character references of the text.
fn decode_hex_chars(v: &Vec<char>) -> (r: Vec<char>)
    ensures
        r@ == decode_hex_entities(v@),
{
    let vl: usize = v.len();
    let mut out: Vec<char> = Vec::new();
    let mut i: usize = 0;
    proof {
        reveal_strlit("&#x");
        assert(v@.skip(0) =~= v@);
        assert(out@ + decode_hex_entities(v@) =~= decode_hex_entities(v@));
    }
    while i < vl
        invariant
            vl == v@.len(),
            i <= vl,
            decode_hex_entities(v@) == out@ + decode_hex_entities(v@.skip(i as int)),
        decreases vl - i,
    {
        let ghost s = v@.skip(i as int);
        let prefix = text::chars_of("&#x");
        let has_prefix = text::matches_at(v, &prefix, i);
        proof {
            reveal_strlit("&#x");
            if s.len() >= 3 {
                assert(s.subrange(0, 3) =~= v@.subrange(i as int, i + 3));
            }
            assert(has_prefix == text::starts_with_seq(s, "&#x"@));
        }
        let mut consumed = false;
        if has_prefix {
            assert(text::starts_with_seq(s, "&#x"@));
            // scan the hexadecimal digit run
            let mut j: usize = i + 3;
            while j < vl && is_hex(v[j])
                invariant
                    vl == v@.len(),
                    s == v@.skip(i as int),
                    i + 3 <= j <= vl,
                    forall|m: int| i + 3 <= m < j ==> text::is_hex_digit(#[trigger] v@[m]),
                    hex_run_end(s, 3) == hex_run_end(s, j - i),
                decreases vl - j,
            {
                assert(s[j - i] == v@[j as int]);
                assert(hex_run_end(s, j - i) == hex_run_end(s, j - i + 1));
                j = j + 1;
            }
            proof {
                if j < vl {
                    assert(s[j - i] == v@[j as int]);
                }
                assert(hex_run_end(s, j - i) == j - i);
            }
            if j > i + 3 && j < vl && v[j] == ';' {
                assert(s[j - i] == v@[j as int]);
                assert(hex_entity_at_front(s));
                // accumulate the run's value, tracking 32-bit overflow
                let mut acc: u64 = 0;
                let mut too_big = false;
                let mut m: usize = i + 3;
                proof {
                    assert(forall|w: int| i + 3 <= w < j ==> s[w - i] == v@[w]);
                }
                while m < j
                    invariant
                        vl == v@.len(),
                        s == v@.skip(i as int),
                        i + 3 <= m <= j <= vl,
                        forall|w: int| i + 3 <= w < j ==> text::is_hex_digit(#[trigger] v@[w]),
                        forall|w: int| i + 3 <= w < j ==> s[w - i] == v@[w],
                        !too_big ==> acc == hex_value(s, 3, m - i) && acc <= 0xffff_ffff,
                        too_big ==> hex_value(s, 3, m - i) > 0xffff_ffff,
                    decreases j - m,
                {
                    let ghost hv = hex_value(s, 3, m - i);
                    assert(s[m - i] == v@[m as int]);
                    let d = match text::hex_digit(v[m]) {
                        Some(d) => d,
                        None => 0,
                    };
                    assert(d as int == text::hex_digit_val(s[m - i]));
                    assert(hex_value(s, 3, m - i + 1) == hv * 16 + d);
                    if too_big {
                        proof {
                            lemma_hex_value_nonneg(s, 3, m - i);
                            assert(hv * 16 >= hv) by (nonlinear_arith)
                                requires
                                    hv >= 0,
                            ;
                        }
                    } else {
                        let grown: u64 = acc * 16 + (d as u64);
                        if grown > 0xffff_ffff {
                            too_big = true;
                        } else {
                            acc = grown;
                        }
                    }
                    m = m + 1;
                }
                let ghost e = hex_run_end(s, 3);
                assert(e == j - i);
                let ghost value = hex_value(s, 3, e);
                let mut decoded: Option<char> = None;
                if !too_big {
                    decoded = text::char_from_u32(acc as u32);
                }
                match decoded {
                    Some(c) => {
                        proof {
                            assert(acc as int == value);
                            assert(c as u32 == acc);
                            assert(text::is_scalar_value(value));
                            assert(exists|c2: char| (#[trigger] (c2 as u32)) == value) by {
                                assert((c as u32) == value);
                            }
                            assert(scalar_char(value) as u32 == value);
                            assert(c as u32 == scalar_char(value) as u32);
                            lemma_char_cast_injective(c, scalar_char(value));
                            assert(c == scalar_char(value));
                            assert(s.skip(e + 1) =~= v@.skip(j + 1));
                            assert(decode_hex_entities(s) == seq![c] + decode_hex_entities(
                                s.skip(e + 1),
                            ));
                        }
                        out.push(c);
                        i = j + 1;
                        consumed = true;
                    },
                    None => {
                        proof {
                            if !too_big {
                                assert(!text::is_scalar_value(value));
                            }
                            assert(!(value <= 0xffff_ffff && text::is_scalar_value(value)));
                            assert(s.skip(e + 1) =~= v@.skip(j + 1));
                            assert(decode_hex_entities(s) == s.subrange(0, e + 1)
                                + decode_hex_entities(s.skip(e + 1)));
                        }
                        let ghost base = out@;
                        let mut w: usize = i;
                        while w <= j
                            invariant
                                vl == v@.len(),
                                i <= w <= j + 1 <= vl,
                                out@ == base + v@.subrange(i as int, w as int),
                            decreases j + 1 - w,
                        {
                            out.push(v[w]);
                            assert(out@ =~= base + v@.subrange(i as int, w + 1));
                            w = w + 1;
                        }
                        proof {
                            assert(s.subrange(0, e + 1) =~= v@.subrange(i as int, j + 1));
                        }
                        i = j + 1;
                        consumed = true;
                    },
                }
            }
        }
        if !consumed {
            proof {
                assert(!hex_entity_at_front(s) || s.len() == 0);
                assert(s[0] == v@[i as int]);
                assert(s.drop_first() =~= v@.skip(i + 1));
                assert(decode_hex_entities(s) == seq![s[0]] + decode_hex_entities(
                    s.drop_first(),
                ));
            }
            out.push(v[i]);
            i = i + 1;
        }
    }
    proof {
        assert(v@.skip(vl as int) =~= Seq::<char>::empty());
    }
    out
}

/// Clean display text from the provider's markup: decode its entities and
/// collapse runs of whitespace.
pub fn clean_text(raw: &str) -> (r: String)
    ensures
        r@ == spec_clean_text(raw@),
{
    let v = text::chars_of(raw);
    let v = text::replace_chars(&v, "&#x27;", "'");
    let v = text::replace_chars(&v, "&quot;", "\"");
    let v = text::replace_chars(&v, "&amp;", "&");
    let v = text::replace_chars(&v, "&lt;", "<");
    let v = text::replace_chars(&v, "&gt;", ">");
    let v = text::replace_chars(&v, "&nbsp;", " ");
    let v = decode_hex_chars(&v);
    let v = text::normalize_ws(&v);
    text::string_from_chars(&v)
}

/// What urlencoding's `decode` yields on a string, named: the result is a
/// function of the input characters alone.
pub uninterp spec fn decoded_of(s: Seq<char>) -> Option<Seq<char>>;

/// Relies on urlencoding::decode: percent-decodes the string, failing only
/// when the decoded bytes are not UTF-8; the result depends on the input
/// characters alone.
#[verifier::external_body]
fn percent_decode(s: &str) -> (r: Option<String>)
    ensures
        match r {
            Some(d) => decoded_of(s@) == Some(d@),
            None => decoded_of(s@) is None,
        },
{
    urlencoding::decode(s).ok().map(|c| c.into_owned())
}

/// What the url crate reports as a string's host, named: `None` when the
/// string does not parse as a URL, `Some(None)` when it parses but carries
/// no host, else the host text.
pub uninterp spec fn url_host_of(s: Seq<char>) -> Option<Option<Seq<char>>>;

/// How a string fared as a URL with a host.
pub enum HostParse {
    /// The string does not parse as an absolute URL.
    NoUrl,
    /// It parses, but the URL carries no host.
    NoHost,
    /// The URL's host.
    Host(String),
}

/// Relies on url::Url::parse and Url::host_str: reports whether the string
/// parses as an absolute URL and, if so, its host text.
#[verifier::external_body]
fn parse_host(s: &str) -> (r: HostParse)
    ensures
        match r {
            HostParse::NoUrl => url_host_of(s@) is None,
            HostParse::NoHost => url_host_of(s@) == Some(Option::<Seq<char>>::None),
            HostParse::Host(h) => url_host_of(s@) == Some(Some(h@)),
        },
{
    match url::Url::parse(s) {
        Err(_) => HostParse::NoUrl,
        Ok(u) => match u.host_str() {
            None => HostParse::NoHost,
            Some(h) => HostParse::Host(h.to_string()),
        },
    }
}

/// The destination a provider result link points at: a wrapped URL is
/// unwrapped from the redirect parameter and percent-decoded, a
/// protocol-relative URL is pinned to https, anything else is unchanged.
pub open spec fn spec_extract_actual_url(href: Seq<char>) -> Seq<char> {
    if text::contains_seq(href, "uddg="@) {
        let after = href.skip(text::find_from(href, "uddg="@, 0) + 5);
        let seg = if text::contains_seq(after, "uddg="@) {
            after.subrange(0, text::find_from(after, "uddg="@, 0))
        } else {
            after
        };
        let enc = if text::contains_seq(seg, "&"@) {
            seg.subrange(0, text::find_from(seg, "&"@, 0))
        } else {
            seg
        };
        match decoded_of(enc) {
            Some(d) => d,
            None => href,
        }
    } else if text::starts_with_seq(href, "//"@) {
        "https:"@ + href
    } else {
        href
    }
}

/// Unwrap the real destination from a provider result link.
pub fn extract_actual_url(href: &str) -> (r: String)
    ensures
        r@ == spec_extract_actual_url(href@),
{
    let v = text::chars_of(href);
    let marker = text::chars_of("uddg=");
    proof {
        reveal_strlit("uddg=");
        text::lemma_find_contains(v@, "uddg="@);
    }
    match text::find_sub(&v, &marker) {
        Some(p) => {
            let vl: usize = v.len();
            proof {
                reveal_strlit("uddg=");
                text::lemma_find_is_match(v@, "uddg="@, 0);
                assert(p + 5 <= vl);
            }
            let ghost after_spec = v@.skip(p + 5);
            let mut after: Vec<char> = Vec::new();
            let mut w: usize = p + 5;
            while w < v.len()
                invariant
                    p + 5 <= w <= v@.len(),
                    after@ == v@.subrange(p + 5, w as int),
                decreases v@.len() - w,
            {
                after.push(v[w]);
                assert(after@ =~= v@.subrange(p + 5, w + 1));
                w = w + 1;
            }
            assert(after@ =~= after_spec);
            proof {
                reveal_strlit("uddg=");
                text::lemma_find_contains(after@, "uddg="@);
            }
            let seg: Vec<char> = match text::find_sub(&after, &marker) {
                Some(q) => {
                    proof {
                        text::lemma_find_is_match(after@, "uddg="@, 0);
                    }
                    let mut seg: Vec<char> = Vec::new();
                    let mut w2: usize = 0;
                    while w2 < q
                        invariant
                            w2 <= q <= after@.len(),
                            seg@ == after@.subrange(0, w2 as int),
                        decreases q - w2,
                    {
                        seg.push(after[w2]);
                        assert(seg@ =~= after@.subrange(0, w2 + 1));
                        w2 = w2 + 1;
                    }
                    seg
                },
                None => after,
            };
            let amp = text::chars_of("&");
            proof {
                text::lemma_find_contains(seg@, "&"@);
            }
            let enc: Vec<char> = match text::find_sub(&seg, &amp) {
                Some(q) => {
                    proof {
                        text::lemma_find_is_match(seg@, "&"@, 0);
                    }
                    let mut enc: Vec<char> = Vec::new();
                    let mut w2: usize = 0;
                    while w2 < q
                        invariant
                            w2 <= q <= seg@.len(),
                            enc@ == seg@.subrange(0, w2 as int),
                        decreases q - w2,
                    {
                        enc.push(seg[w2]);
                        assert(enc@ =~= seg@.subrange(0, w2 + 1));
                        w2 = w2 + 1;
                    }
                    enc
                },
                None => seg,
            };
            let enc_s = text::string_from_chars(&enc);
            match percent_decode(enc_s.as_str()) {
                Some(d) => d,
                None => String::from_str(href),
            }
        },
        None => {
            let two = text::chars_of("//");
            if text::starts_with_chars(&v, "//") {
                String::from_str("https:").concat(href)
            } else {
                String::from_str(href)
            }
        },
    }
}

/// Law: a link that carries no redirect wrapper and is not
/// protocol-relative passes through the unwrapping unchanged.
pub proof fn lemma_direct_url_unchanged(href: Seq<char>)
    requires
        !text::contains_seq(href, "uddg="@),
        !text::starts_with_seq(href, "//"@),
    ensures
        spec_extract_actual_url(href) == href,
{
}

/// The content type a (case-folded) URL's patterns map it to:
/// documentation and code-hosting hosts first, then social media, forums,
/// video, shopping, news; everything else reads as an article.
pub open spec fn spec_content_type_of(lu: Seq<char>) -> ContentType {
    if text::contains_seq(lu, "docs."@) || text::contains_seq(lu, "/docs/"@)
        || text::contains_seq(lu, "/documentation/"@) || text::contains_seq(lu, "readthedocs"@)
        || text::contains_seq(lu, "javadoc"@) || text::contains_seq(lu, "/api/"@) {
        ContentType::Documentation
    } else if text::contains_seq(lu, "github.com"@) || text::contains_seq(lu, "gitlab.com"@)
        || text::contains_seq(lu, "stackoverflow.com"@) || text::contains_seq(
        lu,
        "stackexchange.com"@,
    ) || text::contains_seq(lu, "bitbucket.org"@) {
        ContentType::Documentation
    } else if text::contains_seq(lu, "twitter.com"@) || text::contains_seq(lu, "x.com"@)
        || text::contains_seq(lu, "facebook.com"@) || text::contains_seq(lu, "linkedin.com"@)
        || text::contains_seq(lu, "instagram.com"@) || text::contains_seq(lu, "tiktok.com"@) {
        ContentType::Social
    } else if text::contains_seq(lu, "reddit.com"@) || text::contains_seq(lu, "forum"@)
        || text::contains_seq(lu, "discourse"@) || text::contains_seq(lu, "community."@) {
        ContentType::Forum
    } else if text::contains_seq(lu, "youtube.com"@) || text::contains_seq(lu, "youtu.be"@)
        || text::contains_seq(lu, "vimeo.com"@) || text::contains_seq(lu, "twitch.tv"@) {
        ContentType::Video
    } else if text::contains_seq(lu, "amazon."@) || text::contains_seq(lu, "ebay."@)
        || text::contains_seq(lu, "shop."@) || text::contains_seq(lu, "/shop/"@)
        || text::contains_seq(lu, "store."@) {
        ContentType::Shopping
    } else if text::contains_seq(lu, "news."@) || text::contains_seq(lu, "/news/"@)
        || text::contains_seq(lu, "bbc."@) || text::contains_seq(lu, "cnn."@)
        || text::contains_seq(lu, "nytimes."@) || text::contains_seq(lu, "reuters."@) {
        ContentType::Article
    } else {
        ContentType::Article
    }
}

/// Classify a result's content type by its URL's patterns.
pub fn detect_content_type(url: &str) -> (r: ContentType)
    ensures
        r == spec_content_type_of(text::lower_of(url@)),
{
    let lower = text::to_lower(url);
    let lu = text::chars_of(lower.as_str());
    if text::contains_chars(&lu, "docs.") || text::contains_chars(&lu, "/docs/")
        || text::contains_chars(&lu, "/documentation/") || text::contains_chars(
        &lu,
        "readthedocs",
    ) || text::contains_chars(&lu, "javadoc") || text::contains_chars(&lu, "/api/") {
        ContentType::Documentation
    } else if text::contains_chars(&lu, "github.com") || text::contains_chars(&lu, "gitlab.com")
        || text::contains_chars(&lu, "stackoverflow.com") || text::contains_chars(
        &lu,
        "stackexchange.com",
    ) || text::contains_chars(&lu, "bitbucket.org") {
        ContentType::Documentation
    } else if text::contains_chars(&lu, "twitter.com") || text::contains_chars(&lu, "x.com")
        || text::contains_chars(&lu, "facebook.com") || text::contains_chars(&lu, "linkedin.com")
        || text::contains_chars(&lu, "instagram.com") || text::contains_chars(&lu, "tiktok.com") {
        ContentType::Social
    } else if text::contains_chars(&lu, "reddit.com") || text::contains_chars(&lu, "forum")
        || text::contains_chars(&lu, "discourse") || text::contains_chars(&lu, "community.") {
        ContentType::Forum
    } else if text::contains_chars(&lu, "youtube.com") || text::contains_chars(&lu, "youtu.be")
        || text::contains_chars(&lu, "vimeo.com") || text::contains_chars(&lu, "twitch.tv") {
        ContentType::Video
    } else if text::contains_chars(&lu, "amazon.") || text::contains_chars(&lu, "ebay.")
        || text::contains_chars(&lu, "shop.") || text::contains_chars(&lu, "/shop/")
        || text::contains_chars(&lu, "store.") {
        ContentType::Shopping
    } else if text::contains_chars(&lu, "news.") || text::contains_chars(&lu, "/news/")
        || text::contains_chars(&lu, "bbc.") || text::contains_chars(&lu, "cnn.")
        || text::contains_chars(&lu, "nytimes.") || text::contains_chars(&lu, "reuters.") {
        ContentType::Article
    } else {
        ContentType::Article
    }
}

/// The host-looking prefix of a string: an optional scheme prefix is
/// stripped, then everything up to the first slash is taken.
pub open spec fn spec_fallback_domain(u: Seq<char>) -> Seq<char> {
    let rest = if text::starts_with_seq(u, "https://"@) {
        u.skip(8)
    } else if text::starts_with_seq(u, "http://"@) {
        u.skip(7)
    } else {
        u
    };
    let host = if text::contains_seq(rest, "/"@) {
        rest.subrange(0, text::find_from(rest, "/"@, 0))
    } else {
        rest
    };
    if host.len() > 0 {
        host
    } else {
        let whole = if text::contains_seq(u, "/"@) {
            u.subrange(0, text::find_from(u, "/"@, 0))
        } else {
            u
        };
        if whole.len() > 0 {
            whole
        } else {
            "unknown"@
        }
    }
}

/// The registrable source domain of a result URL: the parsed URL's host,
/// "unknown" for a host-less URL, and a textual fallback when the string
/// does not parse.
pub open spec fn spec_domain_of(u: Seq<char>) -> Seq<char> {
    match url_host_of(u) {
        Some(Some(h)) => h,
        Some(None) => "unknown"@,
        None => spec_fallback_domain(u),
    }
}

/// Takes the text up to the first `/`, if any.
fn up_to_slash(v: &Vec<char>) -> (r: Vec<char>)
    ensures
        r@ == if text::contains_seq(v@, "/"@) {
            v@.subrange(0, text::find_from(v@, "/"@, 0))
        } else {
            v@
        },
{
    let slash = text::chars_of("/");
    proof {
        text::lemma_find_contains(v@, "/"@);
    }
    match text::find_sub(&v, &slash) {
        Some(q) => {
            proof {
                text::lemma_find_is_match(v@, "/"@, 0);
            }
            let mut r: Vec<char> = Vec::new();
            let mut w: usize = 0;
            while w < q
                invariant
                    w <= q <= v@.len(),
                    r@ == v@.subrange(0, w as int),
                decreases q - w,
            {
                r.push(v[w]);
                assert(r@ =~= v@.subrange(0, w + 1));
                w = w + 1;
            }
            r
        },
        None => {
            let mut r: Vec<char> = Vec::new();
            text::push_all(&mut r, v);
            assert(r@ =~= v@);
            r
        },
    }
}

/// Extract the source domain from a result URL.
pub fn extract_domain(url: &str) -> (r: String)
    ensures
        r@ == spec_domain_of(url@),
{
    match parse_host(url) {
        HostParse::Host(h) => h,
        HostParse::NoHost => String::from_str("unknown"),
        HostParse::NoUrl => {
            let v = text::chars_of(url);
            let rest: Vec<char> = if text::starts_with_chars(&v, "https://") {
                proof {
                    reveal_strlit("https://");
                }
                let mut rest: Vec<char> = Vec::new();
                let mut w: usize = 8;
                while w < v.len()
                    invariant
                        8 <= w <= v@.len(),
                        rest@ == v@.subrange(8, w as int),
                    decreases v@.len() - w,
                {
                    rest.push(v[w]);
                    assert(rest@ =~= v@.subrange(8, w + 1));
                    w = w + 1;
                }
                assert(rest@ =~= v@.skip(8));
                rest
            } else if text::starts_with_chars(&v, "http://") {
                proof {
                    reveal_strlit("http://");
                }
                let mut rest: Vec<char> = Vec::new();
                let mut w: usize = 7;
                while w < v.len()
                    invariant
                        7 <= w <= v@.len(),
                        rest@ == v@.subrange(7, w as int),
                    decreases v@.len() - w,
                {
                    rest.push(v[w]);
                    assert(rest@ =~= v@.subrange(7, w + 1));
                    w = w + 1;
                }
                assert(rest@ =~= v@.skip(7));
                rest
            } else {
                let mut rest: Vec<char> = Vec::new();
                text::push_all(&mut rest, &v);
                assert(rest@ =~= v@);
                rest
            };
            let host = up_to_slash(&rest);
            if host.len() > 0 {
                text::string_from_chars(&host)
            } else {
                let whole = up_to_slash(&v);
                if whole.len() > 0 {
                    text::string_from_chars(&whole)
                } else {
                    String::from_str("unknown")
                }
            }
        },
    }
}

/// Build the provider form parameters for a search: the query text, the
/// region code, the numeric safe-search code, and the time-range code when
/// one was asked for.
pub fn build_search_params(query: &str, options: &SearchOptions) -> (r: Vec<(String, String)>)
    ensures
        r@.len() == if options.time_range is Some {
            4int
        } else {
            3int
        },
        r@[0].0@ == "q"@ && r@[0].1@ == query@,
        r@[1].0@ == "kl"@ && r@[1].1@ == options.region@,
        r@[2].0@ == "kp"@ && r@[2].1@ == (match options.safe_search {
            crate::types::SafeSearchLevel::Off => "-2"@,
            crate::types::SafeSearchLevel::Moderate => "-1"@,
            crate::types::SafeSearchLevel::Strict => "1"@,
        }),
        options.time_range matches Some(t) ==> r@[3].0@ == "df"@ && r@[3].1@ == t@,
{
    let mut r: Vec<(String, String)> = Vec::new();
    r.push((String::from_str("q"), String::from_str(query)));
    r.push((String::from_str("kl"), options.region.clone()));
    let kp = match options.safe_search {
        crate::types::SafeSearchLevel::Off => String::from_str("-2"),
        crate::types::SafeSearchLevel::Moderate => String::from_str("-1"),
        crate::types::SafeSearchLevel::Strict => String::from_str("1"),
    };
    r.push((String::from_str("kp"), kp));
    match &options.time_range {
        Some(t) => {
            r.push((String::from_str("df"), t.clone()));
        },
        None => {},
    }
    r
}

/// What one result container of the provider's listing carries.
struct RawResult {
    /// Text of the first title anchor, if the container has one.
    title: Option<String>,
    /// That anchor's link target, if it carries one.
    href: Option<String>,
    /// Text of the first snippet element, if the container has one.
    snippet: Option<String>,
}

/// What the provider's result listing holds, named: for each result
/// container in document order, the title anchor's text, its link target,
/// and the snippet text, each absent where the markup lacks it. A function
/// of the markup alone.
pub uninterp spec fn raw_results_of(html: Seq<char>) -> Seq<
    (Option<Seq<char>>, Option<Seq<char>>, Option<Seq<char>>),
>;

/// Relies on scraper's Html::parse_document, Selector::parse and the
/// select iterator: lists, for each `div.result` element of the document
/// in order, the text of its first `a.result__a` anchor, that anchor's
/// `href` attribute, and the text of its first `a.result__snippet`
/// element.
#[verifier::external_body]
fn search_result_nodes(html: &str) -> (r: Vec<RawResult>)
    ensures
        r@.len() == raw_results_of(html@).len(),
        forall|i: int|
            0 <= i < r@.len() ==> {
                &&& (#[trigger] r@[i]).title.deep_view() == raw_results_of(html@)[i].0
                &&& r@[i].href.deep_view() == raw_results_of(html@)[i].1
                &&& r@[i].snippet.deep_view() == raw_results_of(html@)[i].2
            },
{
    let doc = scraper::Html::parse_document(html);
    let rsel = scraper::Selector::parse("div.result").unwrap();
    let tsel = scraper::Selector::parse("a.result__a").unwrap();
    let ssel = scraper::Selector::parse("a.result__snippet").unwrap();
    doc.select(&rsel).map(|el| {
        let t = el.select(&tsel).next();
        RawResult {
            title: t.map(|a| a.text().collect::<String>()),
            href: t.and_then(|a| a.value().attr("href")).map(|h| h.to_string()),
            snippet: el.select(&ssel).next().map(|a| a.text().collect::<String>()),
        }
    }).collect()
}

/// The cleaned (title, url, description) a result container contributes,
/// or nothing: a container is skipped when it lacks a title anchor or a
/// link target, or when its unwrapped URL does not start with `http`.
pub open spec fn spec_usable(raw: (Option<Seq<char>>, Option<Seq<char>>, Option<Seq<char>>)) -> Option<
    (Seq<char>, Seq<char>, Seq<char>),
> {
    match (raw.0, raw.1) {
        (Some(t), Some(h)) => {
            let url = spec_extract_actual_url(h);
            if text::starts_with_seq(url, "http"@) {
                Some(
                    (
                        spec_clean_text(t),
                        url,
                        match raw.2 {
                            Some(sn) => spec_clean_text(sn),
                            None => Seq::empty(),
                        },
                    ),
                )
            } else {
                None
            }
        },
        _ => None,
    }
}

/// The kept results, in document order, capped at `max`.
pub open spec fn spec_parse(
    raws: Seq<(Option<Seq<char>>, Option<Seq<char>>, Option<Seq<char>>)>,
    max: int,
) -> Seq<(Seq<char>, Seq<char>, Seq<char>)>
    decreases raws.len(),
{
    if max <= 0 || raws.len() == 0 {
        Seq::empty()
    } else {
        match spec_usable(raws[0]) {
            Some(item) => seq![item] + spec_parse(raws.drop_first(), max - 1),
            None => spec_parse(raws.drop_first(), max),
        }
    }
}

/// How many containers of the listing are usable at all.
pub open spec fn spec_usable_count(
    raws: Seq<(Option<Seq<char>>, Option<Seq<char>>, Option<Seq<char>>)>,
) -> int
    decreases raws.len(),
{
    if raws.len() == 0 {
        0
    } else {
        (if spec_usable(raws[0]) is Some {
            1int
        } else {
            0int
        }) + spec_usable_count(raws.drop_first())
    }
}

/// Law: parsing keeps exactly the smaller of the requested count and the
/// number of usable result containers.
pub proof fn lemma_parse_len(
    raws: Seq<(Option<Seq<char>>, Option<Seq<char>>, Option<Seq<char>>)>,
    max: int,
)
    requires
        max >= 0,
    ensures
        spec_parse(raws, max).len() == if max <= spec_usable_count(raws) {
            max
        } else {
            spec_usable_count(raws)
        },
    decreases raws.len(),
{
    lemma_usable_count_nonneg(raws);
    if max <= 0 || raws.len() == 0 {
    } else {
        match spec_usable(raws[0]) {
            Some(_) => {
                lemma_parse_len(raws.drop_first(), max - 1);
            },
            None => {
                lemma_parse_len(raws.drop_first(), max);
            },
        }
    }
}

/// Non-negativity of the usable-container count.
pub proof fn lemma_usable_count_nonneg(
    raws: Seq<(Option<Seq<char>>, Option<Seq<char>>, Option<Seq<char>>)>,
)
    ensures
        spec_usable_count(raws) >= 0,
    decreases raws.len(),
{
    if raws.len() > 0 {
        lemma_usable_count_nonneg(raws.drop_first());
    }
}

/// Parse the provider's result listing: keep, in document order and up to
/// `max_results`, every container with a usable title and an http(s)
/// destination, with cleaned text, its content type, and its source
/// domain.
pub fn parse_search_results(html: &str, max_results: usize) -> (r: Vec<SearchResult>)
    ensures
        ({
            let kept = spec_parse(raw_results_of(html@), max_results as int);
            &&& r@.len() == kept.len()
            &&& forall|k: int|
                0 <= k < kept.len() ==> {
                    &&& (#[trigger] r@[k]).title@ == kept[k].0
                    &&& r@[k].url@ == kept[k].1
                    &&& r@[k].description@ == kept[k].2
                    &&& r@[k].metadata.content_type == spec_content_type_of(
                        text::lower_of(kept[k].1),
                    )
                    &&& r@[k].metadata.source@ == spec_domain_of(kept[k].1)
                    &&& r@[k].metadata.favicon is None
                    &&& r@[k].metadata.published_date is None
                }
        }),
{
    let raws = search_result_nodes(html);
    let ghost full = raw_results_of(html@);
    let ghost kept_full = spec_parse(full, max_results as int);
    let mut out: Vec<SearchResult> = Vec::new();
    let mut i: usize = 0;
    proof {
        assert(full.skip(0) =~= full);
    }
    let rl: usize = raws.len();
    while i < rl && out.len() < max_results
        invariant
            rl == raws@.len(),
            raws@.len() == full.len(),
            forall|k: int|
                0 <= k < full.len() ==> {
                    &&& (#[trigger] raws@[k]).title.deep_view() == full[k].0
                    &&& raws@[k].href.deep_view() == full[k].1
                    &&& raws@[k].snippet.deep_view() == full[k].2
                },
            i <= raws@.len(),
            out@.len() <= max_results,
            kept_full == spec_parse(full, max_results as int),
            kept_full.len() == out@.len() + spec_parse(
                full.skip(i as int),
                max_results - out@.len(),
            ).len(),
            forall|k: int|
                0 <= k < kept_full.len() ==> k >= out@.len() ==> kept_full[k]
                    == spec_parse(full.skip(i as int), max_results - out@.len())[k - out@.len()],
            forall|k: int|
                0 <= k < out@.len() ==> {
                    &&& (#[trigger] out@[k]).title@ == kept_full[k].0
                    &&& out@[k].url@ == kept_full[k].1
                    &&& out@[k].description@ == kept_full[k].2
                    &&& out@[k].metadata.content_type == spec_content_type_of(
                        text::lower_of(kept_full[k].1),
                    )
                    &&& out@[k].metadata.source@ == spec_domain_of(kept_full[k].1)
                    &&& out@[k].metadata.favicon is None
                    &&& out@[k].metadata.published_date is None
                },
        decreases raws@.len() - i,
    {
        let ghost rest = full.skip(i as int);
        let ghost m = max_results - out@.len();
        proof {
            assert(rest[0] == full[i as int]);
            assert(rest.drop_first() =~= full.skip(i + 1));
        }
        let usable: Option<(String, String, String)> = match (&raws[i].title, &raws[i].href) {
            (Some(t), Some(h)) => {
                let url = extract_actual_url(h.as_str());
                let uv = text::chars_of(url.as_str());
                if text::starts_with_chars(&uv, "http") {
                    let title = clean_text(t.as_str());
                    let description = match &raws[i].snippet {
                        Some(sn) => clean_text(sn.as_str()),
                        None => String::new(),
                    };
                    Some((title, url, description))
                } else {
                    None
                }
            },
            _ => None,
        };
        match usable {
            Some((title, url, description)) => {
                assert(spec_usable(rest[0]) == Some((title@, url@, description@)));
                let content_type = detect_content_type(url.as_str());
                let source = extract_domain(url.as_str());
                let result = SearchResult {
                    title,
                    url,
                    description,
                    metadata: ResultMetadata {
                        content_type,
                        source,
                        favicon: None,
                        published_date: None,
                    },
                };
                proof {
                    assert(spec_parse(rest, m as int) == seq![
                        (result.title@, result.url@, result.description@),
                    ] + spec_parse(rest.drop_first(), m - 1));
                    assert(kept_full[out@.len() as int] == (
                        result.title@,
                        result.url@,
                        result.description@,
                    ));
                }
                out.push(result);
            },
            None => {
                assert(spec_usable(rest[0]) is None);
                assert(spec_parse(rest, m as int) == spec_parse(rest.drop_first(), m as int));
            },
        }
        i = i + 1;
    }
    proof {
        if i >= raws@.len() {
            assert(full.skip(i as int) =~= Seq::<
                (Option<Seq<char>>, Option<Seq<char>>, Option<Seq<char>>),
            >::empty());
        }
    }
    out
}

/// Assemble a complete search response from the provider's markup: the
/// parsed results, capped at the requested count, under the query's
/// analysis and the search context.
pub fn build_search_response(query: &str, options: &SearchOptions, html: &str) -> (r:
    SearchResponse)
    ensures
        r.response_type@ == "search_results"@,
        r.metadata.query@ == query@,
        r.metadata.result_count == r.data@.len(),
        r.data@.len() == spec_parse(raw_results_of(html@), options.num_results as int).len(),
        ({
            let kept = spec_parse(raw_results_of(html@), options.num_results as int);
            forall|k: int|
                0 <= k < kept.len() ==> {
                    &&& (#[trigger] r.data@[k]).title@ == kept[k].0
                    &&& r.data@[k].url@ == kept[k].1
                    &&& r.data@[k].description@ == kept[k].2
                }
        }),
        r.metadata.search_context.region@ == options.region@,
        r.metadata.search_context.safe_search@ == crate::types::spec_level_label(
            options.safe_search,
        ),
        r.metadata.search_context.num_results == Some(options.num_results),
        r.metadata.query_analysis.language@ == crate::types::spec_detect_language(query@),
        r.metadata.query_analysis.topics.deep_view() == crate::types::spec_topics(r.data@),
        r.data@.len() <= options.num_results,
{
    let results = parse_search_results(html, options.num_results);
    proof {
        lemma_parse_len(raw_results_of(html@), options.num_results as int);
        lemma_usable_count_nonneg(raw_results_of(html@));
    }
    SearchResponse::new(String::from_str(query), results, options)
}

/// The sum of the chunk sizes.
pub open spec fn sum_seq(s: Seq<usize>) -> int
    decreases s.len(),
{
    if s.len() == 0 {
        0
    } else {
        s[0] + sum_seq(s.drop_first())
    }
}

proof fn lemma_sum_push(s: Seq<usize>, x: usize)
    ensures
        sum_seq(s.push(x)) == sum_seq(s) + x,
    decreases s.len(),
{
    assert(sum_seq(s.push(x)) == s.push(x)[0] + sum_seq(s.push(x).drop_first()));
    if s.len() == 0 {
        assert(s.push(x).len() == 1);
        assert(s.push(x)[0] == x);
        assert(s.push(x).drop_first() =~= Seq::<usize>::empty());
    } else {
        assert(s.push(x).drop_first() =~= s.drop_first().push(x));
        lemma_sum_push(s.drop_first(), x);
        assert(s.push(x)[0] == s[0]);
    }
}

/// Plan a batch of `n` requests as chunks run one after another: full
/// chunks of five, in order, with what remains in a final short chunk. A
/// batch of `n` requests yields exactly `n` slots, so each request keeps
/// its outcome and its place.
pub fn batch_chunk_sizes(n: usize) -> (r: Vec<usize>)
    ensures
        sum_seq(r@) == n,
        forall|i: int| 0 <= i < r@.len() ==> 1 <= #[trigger] r@[i] <= MAX_CONCURRENT_REQUESTS,
        forall|i: int| 0 <= i < r@.len() - 1 ==> #[trigger] r@[i] == MAX_CONCURRENT_REQUESTS,
        (n == 0) == (r@.len() == 0),
{
    let mut r: Vec<usize> = Vec::new();
    let mut remaining: usize = n;
    while remaining > 0
        invariant
            remaining <= n,
            sum_seq(r@) == n - remaining,
            forall|i: int| 0 <= i < r@.len() ==> 1 <= #[trigger] r@[i] <= MAX_CONCURRENT_REQUESTS,
            remaining > 0 ==> forall|i: int|
                0 <= i < r@.len() ==> #[trigger] r@[i] == MAX_CONCURRENT_REQUESTS,
            remaining == 0 ==> forall|i: int|
                0 <= i < r@.len() - 1 ==> #[trigger] r@[i] == MAX_CONCURRENT_REQUESTS,
            r@.len() == 0 ==> remaining == n,
            n == 0 ==> r@.len() == 0,
        decreases remaining,
    {
        let take = if remaining >= MAX_CONCURRENT_REQUESTS {
            MAX_CONCURRENT_REQUESTS
        } else {
            remaining
        };
        proof {
            lemma_sum_push(r@, take);
        }
        r.push(take);
        remaining = remaining - take;
    }
    r
}

} // verus!
