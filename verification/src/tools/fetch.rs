//! The page-extraction pipeline: URL validation, bot-protection detection,
//! title and content selection, Markdown cleanup, and link extraction.
//!
//! The HTML parser, the URL parser and the Markdown converter live behind
//! trusted items; every decision over what they report is verified here.

use crate::text;
use crate::types::{DaedraError, PageContent, PageLink};
use vstd::prelude::*;

verus! {

/// Fewest words a page may carry before link extraction is worthwhile.
pub const MIN_WORDS_FOR_LINKS: usize = 50;

/// Most links reported for one page.
pub const MAX_LINKS: usize = 50;

/// What html2md's `parse_html` yields on a markup fragment, named: the
/// result is a function of the markup alone.
pub uninterp spec fn markdown_of(html: Seq<char>) -> Seq<char>;

/// Relies on html2md::parse_html: converts an HTML fragment to Markdown
/// text; the result depends on the fragment alone.
#[verifier::external_body]
fn html2md_convert(html: &str) -> (r: String)
    ensures
        r@ == markdown_of(html@),
{
    html2md::parse_html(html)
}

/// The outer HTML of the first element a selector matches, named: `None`
/// when the selector text does not parse, `Some(None)` when nothing
/// matches, else the matched element's HTML. A function of the document
/// and selector text alone.
pub uninterp spec fn sel_first_html_of(html: Seq<char>, sel: Seq<char>) -> Option<
    Option<Seq<char>>,
>;

/// How selecting the first match of a selector fared.
pub enum SelectOutcome {
    /// The selector text does not parse.
    BadSelector,
    /// The selector matches nothing in the document.
    NoMatch,
    /// The outer HTML of the first matched element.
    Match(String),
}

/// Relies on scraper's Html::parse_document, Selector::parse and
/// ElementRef::html: the outer HTML of the first element the selector
/// matches in the document.
#[verifier::external_body]
fn select_first_html(html: &str, sel: &str) -> (r: SelectOutcome)
    ensures
        match r {
            SelectOutcome::BadSelector => sel_first_html_of(html@, sel@) is None,
            SelectOutcome::NoMatch => sel_first_html_of(html@, sel@) == Some(
                Option::<Seq<char>>::None,
            ),
            SelectOutcome::Match(h) => sel_first_html_of(html@, sel@) == Some(Some(h@)),
        },
{
    match scraper::Selector::parse(sel) {
        Err(_) => SelectOutcome::BadSelector,
        Ok(s) => {
            let doc = scraper::Html::parse_document(html);
            match doc.select(&s).next() {
                None => SelectOutcome::NoMatch,
                Some(el) => SelectOutcome::Match(el.html()),
            }
        },
    }
}

/// The concatenated text of the first element a selector matches, named,
/// with the same absence cases as `sel_first_html_of`.
pub uninterp spec fn sel_first_text_of(html: Seq<char>, sel: Seq<char>) -> Option<
    Option<Seq<char>>,
>;

/// Relies on scraper's Html::parse_document, Selector::parse and
/// ElementRef::text: the concatenated text of the first element the
/// selector matches in the document.
#[verifier::external_body]
fn select_first_text(html: &str, sel: &str) -> (r: SelectOutcome)
    ensures
        match r {
            SelectOutcome::BadSelector => sel_first_text_of(html@, sel@) is None,
            SelectOutcome::NoMatch => sel_first_text_of(html@, sel@) == Some(
                Option::<Seq<char>>::None,
            ),
            SelectOutcome::Match(t) => sel_first_text_of(html@, sel@) == Some(Some(t@)),
        },
{
    match scraper::Selector::parse(sel) {
        Err(_) => SelectOutcome::BadSelector,
        Ok(s) => {
            let doc = scraper::Html::parse_document(html);
            match doc.select(&s).next() {
                None => SelectOutcome::NoMatch,
                Some(el) => SelectOutcome::Match(el.text().collect::<String>()),
            }
        },
    }
}

/// The document's anchors, named: for each `a[href]` element in document
/// order, its `href` attribute and its concatenated text. A function of
/// the markup alone.
pub uninterp spec fn anchors_of(html: Seq<char>) -> Seq<(Option<Seq<char>>, Seq<char>)>;

/// One anchor of a page.
struct AnchorNode {
    /// The anchor's link target, as written.
    href: Option<String>,
    /// The anchor's concatenated text.
    text: String,
}

/// Relies on scraper's Html::parse_document, Selector::parse, the select
/// iterator, ElementRef::attr and ElementRef::text: lists the `a[href]`
/// elements of the document in order, each with its `href` attribute and
/// its concatenated text.
#[verifier::external_body]
fn anchor_nodes(html: &str) -> (r: Vec<AnchorNode>)
    ensures
        r@.len() == anchors_of(html@).len(),
        forall|i: int|
            0 <= i < r@.len() ==> {
                &&& (#[trigger] r@[i]).href.deep_view() == anchors_of(html@)[i].0
                &&& r@[i].text@ == anchors_of(html@)[i].1
            },
{
    let sel = scraper::Selector::parse("a[href]").unwrap();
    let doc = scraper::Html::parse_document(html);
    doc.select(&sel).map(|el| AnchorNode {
        href: el.attr("href").map(|h| h.to_string()),
        text: el.text().collect::<String>(),
    }).collect()
}

/// What the url crate reports as a string's scheme, named: absent exactly
/// when the string does not parse as an absolute URL.
pub uninterp spec fn url_scheme_of(s: Seq<char>) -> Option<Seq<char>>;

/// Relies on url::Url::parse and Url::scheme: the parsed URL's scheme, or
/// the parse error's text.
#[verifier::external_body]
fn parse_scheme(s: &str) -> (r: Result<String, String>)
    ensures
        match r {
            Ok(sch) => url_scheme_of(s@) == Some(sch@),
            Err(_) => url_scheme_of(s@) is None,
        },
{
    match url::Url::parse(s) {
        Ok(u) => Ok(u.scheme().to_string()),
        Err(e) => Err(e.to_string()),
    }
}

/// What joining a reference against a base URL yields, named: absent when
/// the base does not parse or the join fails. A function of the two
/// strings alone.
pub uninterp spec fn url_join_of(base: Seq<char>, href: Seq<char>) -> Option<Seq<char>>;

/// Relies on url::Url::parse, Url::join and Url::as_str: the reference
/// resolved against the base URL, serialized.
#[verifier::external_body]
fn join_url(base: &str, href: &str) -> (r: Option<String>)
    ensures
        match r {
            Some(u) => url_join_of(base@, href@) == Some(u@),
            None => url_join_of(base@, href@) is None,
        },
{
    match url::Url::parse(base) {
        Err(_) => None,
        Ok(b) => match b.join(href) {
            Err(_) => None,
            Ok(u) => Some(u.as_str().to_string()),
        },
    }
}

/// A URL is safe to fetch exactly when it parses and its scheme is http
/// or https.
pub open spec fn spec_valid_url(u: Seq<char>) -> bool {
    url_scheme_of(u) == Some("http"@) || url_scheme_of(u) == Some("https"@)
}

/// Validate that a URL is safe to fetch: it parses, with an http(s) scheme.
pub fn is_valid_url(url: &str) -> (r: bool)
    ensures
        r == spec_valid_url(url@),
{
    match parse_scheme(url) {
        Err(_) => false,
        Ok(sch) => {
            let is_http = sch == String::from_str("http") || sch == String::from_str("https");
            is_http
        },
    }
}

/// Check a fetch target before any network work: a string that does not
/// parse is rejected as a URL error, a parsed URL without an http(s)
/// scheme as invalid arguments.
pub fn validate_fetch_url(url: &str) -> (r: Result<(), DaedraError>)
    ensures
        url_scheme_of(url@) is None ==> r matches Err(DaedraError::UrlParseError(_)),
        (url_scheme_of(url@) is Some && !spec_valid_url(url@)) ==> (r matches Err(
            DaedraError::InvalidArguments(m),
        ) && m@ == "Only HTTP(S) URLs are supported"@),
        spec_valid_url(url@) ==> r is Ok,
{
    match parse_scheme(url) {
        Err(e) => Err(DaedraError::UrlParseError(e)),
        Ok(sch) => {
            if sch == String::from_str("http") || sch == String::from_str("https") {
                Ok(())
            } else {
                Err(
                    DaedraError::InvalidArguments(
                        String::from_str("Only HTTP(S) URLs are supported"),
                    ),
                )
            }
        },
    }
}

/// A cleaned page title: the text before the first site-name separator,
/// trimmed.
pub open spec fn spec_clean_title(t: Seq<char>) -> Seq<char> {
    text::trim_seq(
        text::cut_at(text::cut_at(text::cut_at(text::cut_at(t, " | "@), " - "@), " :: "@), " — "@),
    )
}

/// Clean a page title: keep what stands before the first site-name
/// separator, trimmed.
pub fn clean_title(title: &str) -> (r: String)
    ensures
        r@ == spec_clean_title(title@),
{
    let v = text::chars_of(title);
    let v = text::take_before(&v, " | ");
    let v = text::take_before(&v, " - ");
    let v = text::take_before(&v, " :: ");
    let v = text::take_before(&v, " — ");
    let v = text::trim_chars(&v);
    text::string_from_chars(&v)
}

/// First position at or after `i` holding a newline, or the end.
pub open spec fn line_end(s: Seq<char>, i: int) -> int
    decreases s.len() - i,
{
    if i < 0 || i >= s.len() || s[i] == '\n' {
        i
    } else {
        line_end(s, i + 1)
    }
}

/// The text's lines from position `i` on: split at newlines, any carriage
/// return before a newline dropped, no final empty line.
pub open spec fn split_lines_from(s: Seq<char>, i: int) -> Seq<Seq<char>>
    decreases s.len() - i,
{
    if i < 0 || i >= s.len() {
        Seq::empty()
    } else {
        let e = line_end(s, i);
        let line = s.subrange(i, e);
        let stripped = if line.len() > 0 && line[line.len() - 1] == '\r' {
            line.drop_last()
        } else {
            line
        };
        let next = if i <= e && e < s.len() {
            e + 1
        } else {
            s.len() as int
        };
        seq![stripped] + split_lines_from(s, next)
    }
}

/// The text's lines.
pub open spec fn split_lines(s: Seq<char>) -> Seq<Seq<char>> {
    split_lines_from(s, 0)
}

/// The cleanup applied to a run of lines: each line trimmed, runs of
/// blank lines collapsed to one, bare list-marker lines dropped.
pub open spec fn clean_lines(ls: Seq<Seq<char>>, prev_blank: bool) -> Seq<char>
    decreases ls.len(),
{
    if ls.len() == 0 {
        Seq::empty()
    } else {
        let t = text::trim_seq(ls[0]);
        if t.len() == 0 {
            if prev_blank {
                clean_lines(ls.drop_first(), true)
            } else {
                seq!['\n'] + clean_lines(ls.drop_first(), true)
            }
        } else if t == "-"@ || t == "*"@ || t == "+"@ {
            clean_lines(ls.drop_first(), prev_blank)
        } else {
            t + seq!['\n'] + clean_lines(ls.drop_first(), false)
        }
    }
}

/// Cleaned Markdown: lines trimmed, blank runs collapsed to one blank
/// line, bare list-marker lines dropped, the whole trimmed.
pub open spec fn spec_clean_markdown(s: Seq<char>) -> Seq<char> {
    text::trim_seq(clean_lines(split_lines(s), false))
}

/// The text holds no newline.
pub open spec fn newline_free(x: Seq<char>) -> bool {
    forall|j: int| 0 <= j < x.len() ==> #[trigger] x[j] != '\n'
}

/// The lines the cleanup emits, without their terminating newlines: a
/// collapsed blank run survives as one empty entry, each kept content
/// line as its trimmed text.
pub open spec fn cleaned_lines(ls: Seq<Seq<char>>, prev_blank: bool) -> Seq<Seq<char>>
    decreases ls.len(),
{
    if ls.len() == 0 {
        Seq::empty()
    } else {
        let t = text::trim_seq(ls[0]);
        if t.len() == 0 {
            if prev_blank {
                cleaned_lines(ls.drop_first(), true)
            } else {
                seq![Seq::<char>::empty()] + cleaned_lines(ls.drop_first(), true)
            }
        } else if t == "-"@ || t == "*"@ || t == "+"@ {
            cleaned_lines(ls.drop_first(), prev_blank)
        } else {
            seq![t] + cleaned_lines(ls.drop_first(), false)
        }
    }
}

/// The given lines joined back into text, each newline-terminated.
pub open spec fn join_terminated(xs: Seq<Seq<char>>) -> Seq<char>
    decreases xs.len(),
{
    if xs.len() == 0 {
        Seq::empty()
    } else {
        xs[0] + seq!['\n'] + join_terminated(xs.drop_first())
    }
}

/// The cleanup's raw output is exactly its emitted lines, each
/// newline-terminated.
pub proof fn lemma_clean_lines_join(ls: Seq<Seq<char>>, pb: bool)
    ensures
        clean_lines(ls, pb) == join_terminated(cleaned_lines(ls, pb)),
    decreases ls.len(),
{
    if ls.len() == 0 {
    } else {
        let t = text::trim_seq(ls[0]);
        let tail = ls.drop_first();
        if t.len() == 0 {
            if pb {
                lemma_clean_lines_join(tail, true);
            } else {
                lemma_clean_lines_join(tail, true);
                let xs = seq![Seq::<char>::empty()] + cleaned_lines(tail, true);
                assert(xs.drop_first() =~= cleaned_lines(tail, true));
                assert(xs[0] == Seq::<char>::empty());
                assert(Seq::<char>::empty() + seq!['\n'] + join_terminated(
                    cleaned_lines(tail, true),
                ) =~= seq!['\n'] + join_terminated(cleaned_lines(tail, true)));
            }
        } else if t == "-"@ || t == "*"@ || t == "+"@ {
            lemma_clean_lines_join(tail, pb);
        } else {
            lemma_clean_lines_join(tail, false);
            let xs = seq![t] + cleaned_lines(tail, false);
            assert(xs.drop_first() =~= cleaned_lines(tail, false));
            assert(xs[0] == t);
        }
    }
}

/// Every emitted line is either a collapsed blank or a trimmed,
/// newline-free content line that is no bare list marker.
pub proof fn lemma_cleaned_lines_shape(ls: Seq<Seq<char>>, pb: bool)
    requires
        forall|k: int| 0 <= k < ls.len() ==> newline_free(#[trigger] ls[k]),
    ensures
        forall|k: int|
            0 <= k < cleaned_lines(ls, pb).len() ==> {
                let x = #[trigger] cleaned_lines(ls, pb)[k];
                &&& newline_free(x)
                &&& (x.len() == 0 || (x == text::trim_seq(x) && x != "-"@ && x != "*"@ && x
                    != "+"@))
            },
    decreases ls.len(),
{
    if ls.len() == 0 {
    } else {
        let t = text::trim_seq(ls[0]);
        let tail = ls.drop_first();
        assert(forall|k: int| 0 <= k < tail.len() ==> #[trigger] tail[k] == ls[k + 1]);
        if t.len() == 0 {
            lemma_cleaned_lines_shape(tail, true);
            if !pb {
                let xs = seq![Seq::<char>::empty()] + cleaned_lines(tail, true);
                assert forall|k: int| 0 <= k < xs.len() implies {
                    let x = #[trigger] xs[k];
                    &&& newline_free(x)
                    &&& (x.len() == 0 || (x == text::trim_seq(x) && x != "-"@ && x != "*"@ && x
                        != "+"@))
                } by {
                    if k > 0 {
                        assert(xs[k] == cleaned_lines(tail, true)[k - 1]);
                    }
                }
            }
        } else if t == "-"@ || t == "*"@ || t == "+"@ {
            lemma_cleaned_lines_shape(tail, pb);
        } else {
            lemma_cleaned_lines_shape(tail, false);
            text::lemma_trim_idempotent(ls[0]);
            text::lemma_trim_members(ls[0]);
            assert(newline_free(t));
            let xs = seq![t] + cleaned_lines(tail, false);
            assert forall|k: int| 0 <= k < xs.len() implies {
                let x = #[trigger] xs[k];
                &&& newline_free(x)
                &&& (x.len() == 0 || (x == text::trim_seq(x) && x != "-"@ && x != "*"@ && x
                    != "+"@))
            } by {
                if k > 0 {
                    assert(xs[k] == cleaned_lines(tail, false)[k - 1]);
                } else {
                    assert(xs[0] == t);
                }
            }
        }
    }
}

/// No two collapsed blanks stand next to each other; after a blank was
/// just emitted, the next emitted line is content.
pub proof fn lemma_cleaned_lines_blank_runs(ls: Seq<Seq<char>>, pb: bool)
    ensures
        pb ==> (cleaned_lines(ls, pb).len() > 0 ==> cleaned_lines(ls, pb)[0].len() > 0),
        forall|k: int|
            0 <= k < cleaned_lines(ls, pb).len() - 1 ==> !((#[trigger] cleaned_lines(ls, pb)[k]).len()
                == 0 && cleaned_lines(ls, pb)[k + 1].len() == 0),
    decreases ls.len(),
{
    if ls.len() == 0 {
    } else {
        let t = text::trim_seq(ls[0]);
        let tail = ls.drop_first();
        if t.len() == 0 {
            lemma_cleaned_lines_blank_runs(tail, true);
            if !pb {
                let rec = cleaned_lines(tail, true);
                let xs = seq![Seq::<char>::empty()] + rec;
                assert forall|k: int|
                    0 <= k < xs.len() - 1 implies !((#[trigger] xs[k]).len() == 0 && xs[k
                    + 1].len() == 0) by {
                    if k == 0 {
                        assert(xs[1] == rec[0]);
                    } else {
                        assert(xs[k] == rec[k - 1]);
                        assert(xs[k + 1] == rec[k]);
                    }
                }
            }
        } else if t == "-"@ || t == "*"@ || t == "+"@ {
            lemma_cleaned_lines_blank_runs(tail, pb);
        } else {
            lemma_cleaned_lines_blank_runs(tail, false);
            let rec = cleaned_lines(tail, false);
            let xs = seq![t] + rec;
            assert forall|k: int|
                0 <= k < xs.len() - 1 implies !((#[trigger] xs[k]).len() == 0 && xs[k + 1].len()
                == 0) by {
                if k == 0 {
                    assert(xs[0] == t);
                } else {
                    assert(xs[k] == rec[k - 1]);
                    assert(xs[k + 1] == rec[k]);
                }
            }
        }
    }
}

proof fn lemma_line_end_bounds(s: Seq<char>, i: int)
    requires
        0 <= i <= s.len(),
    ensures
        i <= line_end(s, i) <= s.len(),
    decreases s.len() - i,
{
    if i < 0 || i >= s.len() || s[i] == '\n' {
    } else {
        lemma_line_end_bounds(s, i + 1);
    }
}

proof fn lemma_line_end_scan(s: Seq<char>, i: int, m: int)
    requires
        0 <= i <= m,
        m < line_end(s, i),
    ensures
        s[m] != '\n',
    decreases m - i,
{
    if i < 0 || i >= s.len() || s[i] == '\n' {
    } else {
        if m > i {
            lemma_line_end_scan(s, i + 1, m);
        }
    }
}

/// Every line the splitter produces is newline-free.
pub proof fn lemma_split_lines_newline_free(s: Seq<char>, i: int)
    requires
        0 <= i,
    ensures
        forall|k: int|
            0 <= k < split_lines_from(s, i).len() ==> newline_free(
                #[trigger] split_lines_from(s, i)[k],
            ),
    decreases s.len() - i,
{
    if i >= s.len() {
    } else {
        let e = line_end(s, i);
        let line = s.subrange(i, e);
        let stripped = if line.len() > 0 && line[line.len() - 1] == '\r' {
            line.drop_last()
        } else {
            line
        };
        let next = if i <= e && e < s.len() {
            e + 1
        } else {
            s.len() as int
        };
        assert(newline_free(line)) by {
            lemma_line_end_bounds(s, i);
            assert forall|j: int| 0 <= j < line.len() implies #[trigger] line[j] != '\n' by {
                assert(line[j] == s[i + j]);
                lemma_line_end_scan(s, i, i + j);
            }
        }
        assert(newline_free(stripped));
        lemma_split_lines_newline_free(s, next);
        let xs = split_lines_from(s, i);
        assert forall|k: int| 0 <= k < xs.len() implies newline_free(#[trigger] xs[k]) by {
            if k > 0 {
                assert(xs[k] == split_lines_from(s, next)[k - 1]);
            } else {
                assert(xs[0] == stripped);
            }
        }
    }
}

/// Law: the Markdown cleanup's raw output is its emitted lines joined by
/// single newlines, where every emitted line is either one collapsed
/// blank or a trimmed content line that is no bare list marker, no two
/// blanks stand adjacent, and the final result carries no leading or
/// trailing whitespace.
pub proof fn lemma_clean_markdown_shape(s: Seq<char>)
    ensures
        ({
            let xs = cleaned_lines(split_lines(s), false);
            &&& clean_lines(split_lines(s), false) == join_terminated(xs)
            &&& forall|k: int|
                0 <= k < xs.len() ==> {
                    let x = #[trigger] xs[k];
                    &&& newline_free(x)
                    &&& (x.len() == 0 || (x == text::trim_seq(x) && x != "-"@ && x != "*"@ && x
                        != "+"@))
                }
            &&& forall|k: int|
                0 <= k < xs.len() - 1 ==> !((#[trigger] xs[k]).len() == 0 && xs[k + 1].len()
                    == 0)
        }),
        spec_clean_markdown(s) == text::trim_seq(clean_lines(split_lines(s), false)),
        spec_clean_markdown(s).len() > 0 ==> !text::is_space_char(spec_clean_markdown(s)[0]),
        spec_clean_markdown(s).len() > 0 ==> !text::is_space_char(
            spec_clean_markdown(s)[spec_clean_markdown(s).len() - 1],
        ),
{
    lemma_split_lines_newline_free(s, 0);
    lemma_clean_lines_join(split_lines(s), false);
    lemma_cleaned_lines_shape(split_lines(s), false);
    lemma_cleaned_lines_blank_runs(split_lines(s), false);
    text::lemma_trim_no_edge_space(clean_lines(split_lines(s), false));
}

/// Clean converted Markdown: trim each line, collapse runs of blank lines
/// to a single one, and drop lines holding only a bare list marker.
pub fn clean_markdown(markdown: &str) -> (r: String)
    ensures
        r@ == spec_clean_markdown(markdown@),
{
    let v = text::chars_of(markdown);
    let vl: usize = v.len();
    let mut out: Vec<char> = Vec::new();
    let mut prev_blank = false;
    let mut i: usize = 0;
    proof {
        reveal_strlit("-");
        reveal_strlit("*");
        reveal_strlit("+");
    }
    while i < vl
        invariant
            vl == v@.len(),
            i <= vl,
            clean_lines(split_lines(v@), false) == out@ + clean_lines(
                split_lines_from(v@, i as int),
                prev_blank,
            ),
        decreases vl - i,
    {
        proof {
            reveal_strlit("-");
            reveal_strlit("*");
            reveal_strlit("+");
        }
        let ghost rest_lines = split_lines_from(v@, i as int);
        // scan to the end of the current line
        let start = i;
        let mut e: usize = i;
        while e < vl && v[e] != '\n'
            invariant
                vl == v@.len(),
                start <= e <= vl,
                line_end(v@, start as int) == line_end(v@, e as int),
            decreases vl - e,
        {
            e = e + 1;
        }
        assert(line_end(v@, e as int) == e as int);
        let ghost line = v@.subrange(start as int, e as int);
        let mut lv: Vec<char> = Vec::new();
        let mut w: usize = start;
        while w < e
            invariant
                vl == v@.len(),
                start <= w <= e <= vl,
                lv@ == v@.subrange(start as int, w as int),
            decreases e - w,
        {
            lv.push(v[w]);
            assert(lv@ =~= v@.subrange(start as int, w + 1));
            w = w + 1;
        }
        assert(lv@ =~= line);
        if lv.len() > 0 && lv[lv.len() - 1] == '\r' {
            lv.pop();
            assert(lv@ =~= line.drop_last());
        }
        let ghost stripped = if line.len() > 0 && line[line.len() - 1] == '\r' {
            line.drop_last()
        } else {
            line
        };
        assert(lv@ == stripped);
        let trimmed = text::trim_chars(&lv);
        let ghost t = text::trim_seq(stripped);
        assert(trimmed@ == t);
        proof {
            assert(rest_lines == seq![stripped] + split_lines_from(
                v@,
                if start <= e < vl {
                    e + 1
                } else {
                    vl as int
                },
            ));
            assert(rest_lines[0] == stripped);
            assert(rest_lines.drop_first() =~= split_lines_from(
                v@,
                if start <= e < vl {
                    e + 1
                } else {
                    vl as int
                },
            ));
        }
        let ghost before = out@;
        let ghost pb0 = prev_blank;
        if trimmed.len() == 0 {
            if !prev_blank {
                out.push('\n');
                assert(out@ =~= before + seq!['\n']);
                prev_blank = true;
            }
        } else {
            let bare = (trimmed.len() == 1 && (trimmed[0] == '-' || trimmed[0] == '*'
                || trimmed[0] == '+'));
            proof {
                if trimmed@.len() == 1 {
                    if trimmed@[0] == '-' {
                        assert(trimmed@ =~= "-"@);
                    }
                    if trimmed@[0] == '*' {
                        assert(trimmed@ =~= "*"@);
                    }
                    if trimmed@[0] == '+' {
                        assert(trimmed@ =~= "+"@);
                    }
                }
                if t == "-"@ || t == "*"@ || t == "+"@ {
                    assert(t.len() == 1);
                }
            }
            if !bare {
                text::push_all(&mut out, &trimmed);
                out.push('\n');
                assert(out@ =~= before + (t + seq!['\n']));
                prev_blank = false;
            }
        }
        if e < vl {
            i = e + 1;
        } else {
            i = vl;
        }
    }
    proof {
        assert(split_lines_from(v@, vl as int) =~= Seq::<Seq<char>>::empty());
    }
    let trimmed_all = text::trim_chars(&out);
    text::string_from_chars(&trimmed_all)
}

/// A selector finds some element in the document.
pub open spec fn marker_found(html: Seq<char>, sel: Seq<char>) -> bool {
    sel_first_html_of(html, sel) matches Some(Some(_))
}

/// A page title reads as a challenge page.
pub open spec fn spec_suspicious_title(lt: Seq<char>) -> bool {
    ||| text::contains_seq(lt, "security check"@)
    ||| text::contains_seq(lt, "ddos protection"@)
    ||| text::contains_seq(lt, "please wait"@)
    ||| text::contains_seq(lt, "just a moment"@)
    ||| text::contains_seq(lt, "attention required"@)
    ||| text::contains_seq(lt, "access denied"@)
    ||| text::contains_seq(lt, "blocked"@)
    ||| text::contains_seq(lt, "captcha"@)
    ||| text::contains_seq(lt, "verify you are human"@)
}

/// The page shows bot protection: one of the known challenge-page
/// elements is present, or its title carries a suspicious phrase.
pub open spec fn spec_bot_protected(html: Seq<char>) -> bool {
    ||| marker_found(html, "#challenge-running"@)
    ||| marker_found(html, "#cf-challenge-running"@)
    ||| marker_found(html, "#px-captcha"@)
    ||| marker_found(html, "#ddos-protection"@)
    ||| marker_found(html, "#waf-challenge-html"@)
    ||| marker_found(html, ".cf-browser-verification"@)
    ||| match sel_first_text_of(html, "title"@) {
        Some(Some(t)) => spec_suspicious_title(text::lower_of(t)),
        _ => false,
    }
}

/// Whether the selector finds an element in the document.
fn marker_present(html: &str, sel: &str) -> (r: bool)
    ensures
        r == marker_found(html@, sel@),
{
    match select_first_html(html, sel) {
        SelectOutcome::Match(_) => true,
        _ => false,
    }
}

/// Detect bot-protection and challenge pages: a known challenge element,
/// or a suspicious phrase in the page title, aborts extraction.
pub fn check_bot_protection(html: &str) -> (r: Result<(), DaedraError>)
    ensures
        spec_bot_protected(html@) ==> r == Err::<(), DaedraError>(
            DaedraError::BotProtectionDetected,
        ),
        !spec_bot_protected(html@) ==> r is Ok,
{
    if marker_present(html, "#challenge-running") || marker_present(html, "#cf-challenge-running")
        || marker_present(html, "#px-captcha") || marker_present(html, "#ddos-protection")
        || marker_present(html, "#waf-challenge-html") || marker_present(
        html,
        ".cf-browser-verification",
    ) {
        return Err(DaedraError::BotProtectionDetected);
    }
    match select_first_text(html, "title") {
        SelectOutcome::Match(t) => {
            let lower = text::to_lower(t.as_str());
            let lt = text::chars_of(lower.as_str());
            if text::contains_chars(&lt, "security check") || text::contains_chars(
                &lt,
                "ddos protection",
            ) || text::contains_chars(&lt, "please wait") || text::contains_chars(
                &lt,
                "just a moment",
            ) || text::contains_chars(&lt, "attention required") || text::contains_chars(
                &lt,
                "access denied",
            ) || text::contains_chars(&lt, "blocked") || text::contains_chars(&lt, "captcha")
                || text::contains_chars(&lt, "verify you are human") {
                Err(DaedraError::BotProtectionDetected)
            } else {
                Ok(())
            }
        },
        _ => Ok(()),
    }
}

/// The page's title: the `<title>` text when its trimmed form is
/// non-empty, else the first `<h1>` text likewise, else "Untitled"; in
/// either found case with the site-name suffix cleaned away.
pub open spec fn spec_extract_title(html: Seq<char>) -> Seq<char> {
    let from_title = match sel_first_text_of(html, "title"@) {
        Some(Some(t)) => if text::trim_seq(t).len() > 0 {
            Some(spec_clean_title(text::trim_seq(t)))
        } else {
            None
        },
        _ => None,
    };
    match from_title {
        Some(t) => t,
        None => match sel_first_text_of(html, "h1"@) {
            Some(Some(h)) => if text::trim_seq(h).len() > 0 {
                spec_clean_title(text::trim_seq(h))
            } else {
                "Untitled"@
            },
            _ => "Untitled"@,
        },
    }
}

/// Extract the page title, preferring `<title>` over the first heading.
pub fn extract_title(html: &str) -> (r: String)
    ensures
        r@ == spec_extract_title(html@),
{
    match select_first_text(html, "title") {
        SelectOutcome::Match(t) => {
            let tv = text::chars_of(t.as_str());
            let trimmed = text::trim_chars(&tv);
            if trimmed.len() > 0 {
                let s = text::string_from_chars(&trimmed);
                return clean_title(s.as_str());
            }
        },
        _ => {},
    }
    match select_first_text(html, "h1") {
        SelectOutcome::Match(h) => {
            let hv = text::chars_of(h.as_str());
            let trimmed = text::trim_chars(&hv);
            if trimmed.len() > 0 {
                let s = text::string_from_chars(&trimmed);
                return clean_title(s.as_str());
            }
            String::from_str("Untitled")
        },
        _ => String::from_str("Untitled"),
    }
}

/// What a candidate selector contributes: the first match's HTML, if the
/// selector parses and matches.
pub open spec fn spec_candidate(html: Seq<char>, sel: Seq<char>) -> Option<Seq<char>> {
    match sel_first_html_of(html, sel) {
        Some(Some(h)) => Some(h),
        _ => None,
    }
}

/// The first non-empty match among the fixed content-candidate selectors:
/// semantic regions first, then common container names.
pub open spec fn spec_cascade(html: Seq<char>) -> Option<Seq<char>> {
    if spec_candidate(html, "main"@) is Some {
        spec_candidate(html, "main"@)
    } else if spec_candidate(html, "article"@) is Some {
        spec_candidate(html, "article"@)
    } else if spec_candidate(html, "[role='main']"@) is Some {
        spec_candidate(html, "[role='main']"@)
    } else if spec_candidate(html, "#content"@) is Some {
        spec_candidate(html, "#content"@)
    } else if spec_candidate(html, ".content"@) is Some {
        spec_candidate(html, ".content"@)
    } else if spec_candidate(html, ".main"@) is Some {
        spec_candidate(html, ".main"@)
    } else if spec_candidate(html, ".post"@) is Some {
        spec_candidate(html, ".post"@)
    } else if spec_candidate(html, ".article"@) is Some {
        spec_candidate(html, ".article"@)
    } else if spec_candidate(html, ".entry-content"@) is Some {
        spec_candidate(html, ".entry-content"@)
    } else if spec_candidate(html, ".post-content"@) is Some {
        spec_candidate(html, ".post-content"@)
    } else {
        None
    }
}

/// The `<body>` fragment, or nothing at all.
pub open spec fn spec_body_fallback(html: Seq<char>) -> Seq<char> {
    match sel_first_html_of(html, "body"@) {
        Some(Some(h)) => h,
        _ => Seq::empty(),
    }
}

/// The markup region content is read from: the caller's selector when one
/// was given (an unparsable one is an error, an unmatched one falls back),
/// else the candidate cascade, else the body.
pub open spec fn spec_content_source(html: Seq<char>, selector: Option<Seq<char>>) -> Result<
    Seq<char>,
    (),
> {
    match selector {
        Some(sel) => match sel_first_html_of(html, sel) {
            None => Err(()),
            Some(Some(h)) => Ok(h),
            Some(None) => Ok(spec_body_fallback(html)),
        },
        None => match spec_cascade(html) {
            Some(h) => Ok(h),
            None => Ok(spec_body_fallback(html)),
        },
    }
}

/// The markup a candidate selector picks, if it parses and matches.
fn candidate_html(html: &str, sel: &str) -> (r: Option<String>)
    ensures
        match r {
            Some(h) => spec_candidate(html@, sel@) == Some(h@),
            None => spec_candidate(html@, sel@) is None,
        },
{
    match select_first_html(html, sel) {
        SelectOutcome::Match(h) => Some(h),
        _ => None,
    }
}

/// The `<body>` fragment of the page, or empty markup.
fn body_fallback(html: &str) -> (r: String)
    ensures
        r@ == spec_body_fallback(html@),
{
    match select_first_html(html, "body") {
        SelectOutcome::Match(h) => h,
        _ => String::new(),
    }
}

/// Extract the page's main content as cleaned Markdown: pick the content
/// region, convert it, and clean the result. A caller's selector that
/// does not parse is rejected as invalid arguments.
pub fn extract_content(html: &str, selector: Option<&str>) -> (r: Result<String, DaedraError>)
    ensures
        ({
            let sel = match selector {
                Some(s) => Some(s@),
                None => None,
            };
            match spec_content_source(html@, sel) {
                Ok(src) => r matches Ok(c) && c@ == spec_clean_markdown(markdown_of(src)),
                Err(()) => selector matches Some(s) && (r matches Err(
                    DaedraError::InvalidArguments(m),
                ) && m@ == "Invalid CSS selector: "@ + s@),
            }
        }),
{
    let source: String = match selector {
        Some(sel) => {
            match select_first_html(html, sel) {
                SelectOutcome::BadSelector => {
                    return Err(
                        DaedraError::InvalidArguments(
                            String::from_str("Invalid CSS selector: ").concat(sel),
                        ),
                    );
                },
                SelectOutcome::Match(h) => h,
                SelectOutcome::NoMatch => body_fallback(html),
            }
        },
        None => {
            let mut picked: Option<String> = candidate_html(html, "main");
            if picked.is_none() {
                picked = candidate_html(html, "article");
            }
            if picked.is_none() {
                picked = candidate_html(html, "[role='main']");
            }
            if picked.is_none() {
                picked = candidate_html(html, "#content");
            }
            if picked.is_none() {
                picked = candidate_html(html, ".content");
            }
            if picked.is_none() {
                picked = candidate_html(html, ".main");
            }
            if picked.is_none() {
                picked = candidate_html(html, ".post");
            }
            if picked.is_none() {
                picked = candidate_html(html, ".article");
            }
            if picked.is_none() {
                picked = candidate_html(html, ".entry-content");
            }
            if picked.is_none() {
                picked = candidate_html(html, ".post-content");
            }
            match picked {
                Some(h) => h,
                None => body_fallback(html),
            }
        },
    };
    let markdown = html2md_convert(source.as_str());
    Ok(clean_markdown(markdown.as_str()))
}

/// The views of a list of strings.
pub open spec fn views_of(ss: Seq<String>) -> Seq<Seq<char>> {
    ss.map_values(|s: String| s@)
}

/// A link target that is never followed: a fragment, script, mail or
/// phone reference.
pub open spec fn spec_skipped_scheme(href: Seq<char>) -> bool {
    ||| text::starts_with_seq(href, "#"@)
    ||| text::starts_with_seq(href, "javascript:"@)
    ||| text::starts_with_seq(href, "mailto:"@)
    ||| text::starts_with_seq(href, "tel:"@)
}

/// The links kept from the anchors, in order: each anchor's target is
/// resolved against the base URL; fragment, script, mail and phone
/// targets, unresolvable targets and already-seen resolved URLs are
/// skipped; a kept link carries the anchor's whitespace-collapsed text,
/// which must be longer than two bytes.
pub open spec fn spec_links_from(
    anchors: Seq<(Option<Seq<char>>, Seq<char>)>,
    base: Seq<char>,
    seen: Seq<Seq<char>>,
) -> Seq<(Seq<char>, Seq<char>)>
    decreases anchors.len(),
{
    if anchors.len() == 0 {
        Seq::empty()
    } else {
        let href_opt = anchors[0].0;
        let raw_text = anchors[0].1;
        match href_opt {
            None => spec_links_from(anchors.drop_first(), base, seen),
            Some(href) => match url_join_of(base, href) {
                None => spec_links_from(anchors.drop_first(), base, seen),
                Some(res) => if seen.contains(res) || spec_skipped_scheme(href) {
                    spec_links_from(anchors.drop_first(), base, seen)
                } else {
                    let t = text::normalize_ws_seq(raw_text);
                    let kept = if t.len() > 0 && vstd::utf8::encode_utf8(t).len() > 2 {
                        seq![(t, res)]
                    } else {
                        Seq::empty()
                    };
                    kept + spec_links_from(anchors.drop_first(), base, seen.push(res))
                },
            },
        }
    }
}

/// The page's reported links: the kept links, capped.
pub open spec fn spec_page_links(html: Seq<char>, base: Seq<char>) -> Seq<(Seq<char>, Seq<char>)> {
    let all = spec_links_from(anchors_of(html), base, Seq::empty());
    if all.len() > MAX_LINKS {
        all.subrange(0, MAX_LINKS as int)
    } else {
        all
    }
}

/// Whether one of the seen strings reads as the target.
fn seen_contains(seen: &Vec<String>, target: &String) -> (r: bool)
    ensures
        r == views_of(seen@).contains(target@),
{
    let mut k: usize = 0;
    while k < seen.len()
        invariant
            k <= seen@.len(),
            forall|m: int| 0 <= m < k ==> #[trigger] seen@[m]@ != target@,
        decreases seen@.len() - k,
    {
        if seen[k] == *target {
            assert(views_of(seen@)[k as int] == target@);
            return true;
        }
        k = k + 1;
    }
    proof {
        if views_of(seen@).contains(target@) {
            let m = choose|m: int|
                0 <= m < views_of(seen@).len() && views_of(seen@)[m] == target@;
            assert(seen@[m]@ == target@);
        }
    }
    false
}

/// Extract the page's outbound links: anchors resolved against the base
/// URL, fragment/script/mail/phone targets and duplicates skipped, texts
/// whitespace-collapsed, capped at the link limit.
pub fn extract_links(html: &str, base_url: &str) -> (r: Vec<PageLink>)
    ensures
        ({
            let keep = spec_page_links(html@, base_url@);
            &&& r@.len() == keep.len()
            &&& forall|k: int|
                0 <= k < keep.len() ==> (#[trigger] r@[k]).text@ == keep[k].0 && r@[k].url@
                    == keep[k].1
        }),
{
    let anchors = anchor_nodes(html);
    let ghost full_anchors = anchors_of(html@);
    let ghost full = spec_links_from(full_anchors, base_url@, Seq::empty());
    let mut out: Vec<PageLink> = Vec::new();
    let mut seen: Vec<String> = Vec::new();
    let mut i: usize = 0;
    proof {
        assert(full_anchors.skip(0) =~= full_anchors);
        assert(views_of(seen@) =~= Seq::<Seq<char>>::empty());
    }
    while i < anchors.len()
        invariant
            anchors@.len() == full_anchors.len(),
            forall|k: int|
                0 <= k < anchors@.len() ==> {
                    &&& (#[trigger] anchors@[k]).href.deep_view() == full_anchors[k].0
                    &&& anchors@[k].text@ == full_anchors[k].1
                },
            i <= anchors@.len(),
            full == out@.map_values(|p: PageLink| (p.text@, p.url@)) + spec_links_from(
                full_anchors.skip(i as int),
                base_url@,
                views_of(seen@),
            ),
        decreases anchors@.len() - i,
    {
        let ghost rest = full_anchors.skip(i as int);
        let ghost seenv = views_of(seen@);
        let ghost done = out@.map_values(|p: PageLink| (p.text@, p.url@));
        proof {
            assert(rest[0] == full_anchors[i as int]);
            assert(rest.drop_first() =~= full_anchors.skip(i + 1));
            assert(anchors@[i as int].href.deep_view() == full_anchors[i as int].0);
            assert(anchors@[i as int].text@ == full_anchors[i as int].1);
        }
        match &anchors[i].href {
            None => {
                assert(rest[0].0 is None);
                assert(spec_links_from(rest, base_url@, seenv) == spec_links_from(
                    rest.drop_first(),
                    base_url@,
                    seenv,
                ));
            },
            Some(href) => {
                assert(rest[0].0 == Some(href@));
                match join_url(base_url, href.as_str()) {
                    None => {
                        assert(spec_links_from(rest, base_url@, seenv) == spec_links_from(
                            rest.drop_first(),
                            base_url@,
                            seenv,
                        ));
                    },
                    Some(resolved) => {
                        let ghost resv = resolved@;
                        let hv = text::chars_of(href.as_str());
                        let skip_scheme = text::starts_with_chars(&hv, "#")
                            || text::starts_with_chars(&hv, "javascript:")
                            || text::starts_with_chars(&hv, "mailto:")
                            || text::starts_with_chars(&hv, "tel:");
                        let was_seen = seen_contains(&seen, &resolved);
                        if !was_seen && !skip_scheme {
                            proof {
                                assert(!(seenv.contains(resv) || spec_skipped_scheme(
                                    href@,
                                )));
                                assert(spec_links_from(rest, base_url@, seenv) == ({
                                    let t = text::normalize_ws_seq(rest[0].1);
                                    let kept = if t.len() > 0 && vstd::utf8::encode_utf8(
                                        t,
                                    ).len() > 2 {
                                        seq![(t, resv)]
                                    } else {
                                        Seq::<(Seq<char>, Seq<char>)>::empty()
                                    };
                                    kept + spec_links_from(
                                        rest.drop_first(),
                                        base_url@,
                                        seenv.push(resv),
                                    )
                                }));
                            }
                            let tv = text::chars_of(anchors[i].text.as_str());
                            let tn = text::normalize_ws(&tv);
                            let text_s = text::string_from_chars(&tn);
                            assert(text_s@ == text::normalize_ws_seq(rest[0].1));
                            let byte_len = text_s.as_str().as_bytes().len();
                            assert(byte_len == vstd::utf8::encode_utf8(text_s@).len());
                            if tn.len() > 0 && byte_len > 2 {
                                let link = PageLink { text: text_s, url: resolved.clone() };
                                proof {
                                    assert((out@.push(link)).map_values(
                                        |p: PageLink| (p.text@, p.url@),
                                    ) =~= done.push((link.text@, link.url@)));
                                    assert(done + (seq![(link.text@, link.url@)]
                                        + spec_links_from(
                                        rest.drop_first(),
                                        base_url@,
                                        seenv.push(resv),
                                    )) =~= done.push((link.text@, link.url@))
                                        + spec_links_from(
                                        rest.drop_first(),
                                        base_url@,
                                        seenv.push(resv),
                                    ));
                                }
                                out.push(link);
                            } else {
                                proof {
                                    let t = text::normalize_ws_seq(rest[0].1);
                                    assert(!(t.len() > 0 && vstd::utf8::encode_utf8(t).len()
                                        > 2));
                                    assert(Seq::<(Seq<char>, Seq<char>)>::empty()
                                        + spec_links_from(
                                        rest.drop_first(),
                                        base_url@,
                                        seenv.push(resv),
                                    ) =~= spec_links_from(
                                        rest.drop_first(),
                                        base_url@,
                                        seenv.push(resv),
                                    ));
                                }
                            }
                            seen.push(resolved);
                            proof {
                                assert(views_of(seen@) =~= seenv.push(resv));
                            }
                        } else {
                            assert(seenv.contains(resv) || spec_skipped_scheme(href@));
                            assert(spec_links_from(rest, base_url@, seenv) == spec_links_from(
                                rest.drop_first(),
                                base_url@,
                                seenv,
                            ));
                        }
                    },
                }
            },
        }
        i = i + 1;
    }
    proof {
        assert(full_anchors.skip(full_anchors.len() as int) =~= Seq::<
            (Option<Seq<char>>, Seq<char>),
        >::empty());
        assert(out@.map_values(|p: PageLink| (p.text@, p.url@)) =~= full);
    }
    out.truncate(MAX_LINKS);
    proof {
        let keep = spec_page_links(html@, base_url@);
        if full.len() > MAX_LINKS {
            assert(out@.len() == MAX_LINKS);
            assert forall|k: int| 0 <= k < keep.len() implies (#[trigger] out@[k]).text@
                == keep[k].0 && out@[k].url@ == keep[k].1 by {
                assert(keep[k] == full[k]);
            }
        } else {
            assert forall|k: int| 0 <= k < keep.len() implies (#[trigger] out@[k]).text@
                == keep[k].0 && out@[k].url@ == keep[k].1 by {
                assert(keep[k] == full[k]);
            }
        }
    }
    out
}

/// Assemble the extracted page from a fetched document: bot protection
/// aborts it; otherwise the title, cleaned content and word count are
/// produced, and links only for a substantial page.
pub fn extract_page(url: &str, html: &str, selector: Option<&str>) -> (r: Result<
    PageContent,
    DaedraError,
>)
    ensures
        spec_bot_protected(html@) ==> r == Err::<PageContent, DaedraError>(
            DaedraError::BotProtectionDetected,
        ),
        !spec_bot_protected(html@) ==> ({
            let sel = match selector {
                Some(s) => Some(s@),
                None => None,
            };
            match spec_content_source(html@, sel) {
                Err(()) => selector matches Some(s) && (r matches Err(
                    DaedraError::InvalidArguments(m),
                ) && m@ == "Invalid CSS selector: "@ + s@),
                Ok(src) => r matches Ok(p) && ({
                    let cleaned = spec_clean_markdown(markdown_of(src));
                    let keep = spec_page_links(html@, url@);
                    &&& p.url@ == url@
                    &&& p.title@ == spec_extract_title(html@)
                    &&& p.content@ == cleaned
                    &&& p.word_count == text::word_count_seq(cleaned)
                    &&& (p.links is Some <==> p.word_count >= MIN_WORDS_FOR_LINKS)
                    &&& match p.links {
                        Some(ls) => ls@.len() == keep.len() && forall|k: int|
                            0 <= k < keep.len() ==> (#[trigger] ls@[k]).text@ == keep[k].0
                                && ls@[k].url@ == keep[k].1,
                        None => true,
                    }
                }),
            }
        }),
{
    check_bot_protection(html)?;
    let title = extract_title(html);
    let content = match extract_content(html, selector) {
        Ok(c) => c,
        Err(e) => {
            return Err(e);
        },
    };
    let cv = text::chars_of(content.as_str());
    let word_count = text::count_words(&cv);
    let links: Option<Vec<PageLink>> = if word_count >= MIN_WORDS_FOR_LINKS {
        Some(extract_links(html, url))
    } else {
        None
    };
    let timestamp = crate::clock::now_rfc3339();
    Ok(
        PageContent {
            url: String::from_str(url),
            title,
            content,
            timestamp,
            word_count,
            links,
        },
    )
}

/// Convert an HTML fragment to Markdown text.
pub fn html_to_markdown(html: &str) -> (r: String)
    ensures
        r@ == markdown_of(html@),
{
    html2md_convert(html)
}

} // verus!
