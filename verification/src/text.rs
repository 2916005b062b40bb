//! Character-level text utilities shared by the pipelines.
//!
//! All text processing in this crate works over `Seq<char>` models. The two
//! case-mapping helpers lean on the standard library's Unicode tables and are
//! therefore trusted; everything else is verified character arithmetic.

use vstd::prelude::*;

verus! {

/// The result of `str::to_lowercase`, named: it depends on the characters
/// of the input alone.
pub uninterp spec fn lower_of(s: Seq<char>) -> Seq<char>;

/// The result of `str::to_uppercase`, named: it depends on the characters
/// of the input alone.
pub uninterp spec fn upper_of(s: Seq<char>) -> Seq<char>;

/// Relies on str::to_lowercase: Unicode lowercase mapping of every character,
/// determined by the input characters alone.
#[verifier::external_body]
pub fn to_lower(s: &str) -> (r: String)
    ensures
        r@ == lower_of(s@),
{
    s.to_lowercase()
}

/// Relies on str::to_uppercase: Unicode uppercase mapping of every character,
/// determined by the input characters alone.
#[verifier::external_body]
pub fn to_upper(s: &str) -> (r: String)
    ensures
        r@ == upper_of(s@),
{
    s.to_uppercase()
}

/// Relies on String::push: appends exactly the given character.
#[verifier::external_body]
pub fn push_char(s: &mut String, c: char)
    ensures
        final(s)@ == old(s)@.push(c),
{
    s.push(c)
}

/// The characters of a string slice as a vector, for indexed processing.
pub fn chars_of(s: &str) -> (r: Vec<char>)
    ensures
        r@ == s@,
{
    let n = s.unicode_len();
    let mut r: Vec<char> = Vec::new();
    let mut i: usize = 0;
    while i < n
        invariant
            n == s@.len(),
            i <= n,
            r@ == s@.subrange(0, i as int),
        decreases n - i,
    {
        r.push(s.get_char(i));
        i = i + 1;
    }
    assert(r@ =~= s@);
    r
}

/// Whitespace as the standard library's `char::is_whitespace` defines it:
/// the characters with the Unicode `White_Space` property.
pub open spec fn is_space_char(c: char) -> bool {
    ||| (0x09 <= c as u32 && c as u32 <= 0x0d)
    ||| c == ' '
    ||| c as u32 == 0x85
    ||| c as u32 == 0xa0
    ||| c as u32 == 0x1680
    ||| (0x2000 <= c as u32 && c as u32 <= 0x200a)
    ||| c as u32 == 0x2028
    ||| c as u32 == 0x2029
    ||| c as u32 == 0x202f
    ||| c as u32 == 0x205f
    ||| c as u32 == 0x3000
}

/// Whether the character counts as whitespace.
pub fn is_space(c: char) -> (r: bool)
    ensures
        r == is_space_char(c),
{
    let v = c as u32;
    (0x09 <= v && v <= 0x0d) || v == 0x20 || v == 0x85 || v == 0xa0 || v == 0x1680
        || (0x2000 <= v && v <= 0x200a) || v == 0x2028 || v == 0x2029 || v == 0x202f
        || v == 0x205f || v == 0x3000
}

/// The needle `n` occurs in `h` starting at position `i`.
pub open spec fn match_at(h: Seq<char>, n: Seq<char>, i: int) -> bool {
    0 <= i && i + n.len() <= h.len() && h.subrange(i, i + n.len()) == n
}

/// The needle `n` occurs somewhere in `h`.
pub open spec fn contains_seq(h: Seq<char>, n: Seq<char>) -> bool {
    exists|i: int| match_at(h, n, i)
}

/// `h` begins with the needle `n`.
pub open spec fn starts_with_seq(h: Seq<char>, n: Seq<char>) -> bool {
    match_at(h, n, 0)
}

/// Position of the first occurrence of `n` in `h` at or after `i`, or -1.
pub open spec fn find_from(h: Seq<char>, n: Seq<char>, i: int) -> int
    decreases h.len() - i,
{
    if i + n.len() > h.len() {
        -1
    } else if n.len() == 0 {
        i
    } else if h.subrange(i, i + n.len()) == n {
        i
    } else {
        find_from(h, n, i + 1)
    }
}

/// Whether `n` occurs in `h` at exactly position `at`.
pub fn matches_at(h: &Vec<char>, n: &Vec<char>, at: usize) -> (r: bool)
    requires
        at <= h@.len(),
    ensures
        r == match_at(h@, n@, at as int),
{
    let hl: usize = h.len();
    let nl: usize = n.len();
    if nl > hl - at {
        assert(!match_at(h@, n@, at as int));
        return false;
    }
    let mut j: usize = 0;
    while j < nl
        invariant
            hl == h@.len(),
            nl == n@.len(),
            at + nl <= hl,
            j <= nl,
            forall|k: int| 0 <= k < j ==> h@[at + k] == n@[k],
        decreases nl - j,
    {
        if h[at + j] != n[j] {
            assert(h@.subrange(at as int, at + n@.len())[j as int] != n@[j as int]);
            return false;
        }
        j = j + 1;
    }
    assert(h@.subrange(at as int, at + n@.len()) =~= n@);
    true
}

/// Position of the first occurrence of the needle, if any.
pub fn find_sub(h: &Vec<char>, n: &Vec<char>) -> (r: Option<usize>)
    ensures
        match r {
            Some(i) => find_from(h@, n@, 0) == i as int,
            None => find_from(h@, n@, 0) == -1,
        },
{
    let hl: usize = h.len();
    let nl: usize = n.len();
    if nl > hl {
        return None;
    }
    let mut i: usize = 0;
    while i <= hl - nl
        invariant
            hl == h@.len(),
            nl == n@.len(),
            nl <= hl,
            i + nl <= hl + 1,
            find_from(h@, n@, 0) == find_from(h@, n@, i as int),
        decreases hl - i,
    {
        if matches_at(h, n, i) {
            return Some(i);
        }
        assert(n@.len() > 0) by {
            if n@.len() == 0 {
                assert(h@.subrange(i as int, i as int) =~= n@);
            }
        }
        assert(find_from(h@, n@, i as int) == find_from(h@, n@, i + 1));
        i = i + 1;
    }
    assert(find_from(h@, n@, i as int) == -1);
    None
}

/// Whether the needle occurs anywhere in `h`.
pub fn contains_chars(h: &Vec<char>, n: &str) -> (r: bool)
    ensures
        r == contains_seq(h@, n@),
{
    let nv = chars_of(n);
    proof {
        lemma_find_contains(h@, n@);
    }
    match find_sub(h, &nv) {
        Some(i) => {
            assert(match_at(h@, n@, i as int)) by {
                lemma_find_is_match(h@, n@, 0);
            }
            true
        },
        None => false,
    }
}

/// Whether `h` begins with the needle.
pub fn starts_with_chars(h: &Vec<char>, n: &str) -> (r: bool)
    ensures
        r == starts_with_seq(h@, n@),
{
    let nv = chars_of(n);
    if n.is_empty() {
        assert(h@.subrange(0, 0) =~= nv@);
        return true;
    }
    if nv.len() > h.len() {
        return false;
    }
    matches_at(h, &nv, 0)
}

/// Where `find_from` reports a position, the needle matches there.
pub proof fn lemma_find_is_match(h: Seq<char>, n: Seq<char>, i: int)
    requires
        0 <= i,
        find_from(h, n, i) >= 0,
    ensures
        match_at(h, n, find_from(h, n, i)),
        find_from(h, n, i) >= i,
    decreases h.len() - i,
{
    if i + n.len() > h.len() {
    } else if n.len() == 0 {
        assert(h.subrange(i, i) =~= n);
    } else if h.subrange(i, i + n.len()) == n {
    } else {
        lemma_find_is_match(h, n, i + 1);
    }
}

/// `find_from` at 0 finds a position exactly when the needle occurs at all.
pub proof fn lemma_find_contains(h: Seq<char>, n: Seq<char>)
    ensures
        (find_from(h, n, 0) >= 0) <==> contains_seq(h, n),
{
    if find_from(h, n, 0) >= 0 {
        lemma_find_is_match(h, n, 0);
    }
    if contains_seq(h, n) {
        let i = choose|i: int| match_at(h, n, i);
        lemma_find_finds(h, n, 0, i);
    }
}

/// If the needle matches at `w`, searching from any `i <= w` succeeds.
pub proof fn lemma_find_finds(h: Seq<char>, n: Seq<char>, i: int, w: int)
    requires
        match_at(h, n, w),
        0 <= i <= w,
    ensures
        0 <= find_from(h, n, i) <= w,
    decreases w - i,
{
    if i + n.len() > h.len() {
        assert(false);
    } else if n.len() == 0 {
    } else if h.subrange(i, i + n.len()) == n {
    } else {
        assert(i != w);
        lemma_find_finds(h, n, i + 1, w);
    }
}

/// The sequence with leading whitespace removed.
pub open spec fn trim_start_seq(s: Seq<char>) -> Seq<char>
    decreases s.len(),
{
    if s.len() > 0 && is_space_char(s[0]) {
        trim_start_seq(s.drop_first())
    } else {
        s
    }
}

/// The sequence with trailing whitespace removed.
pub open spec fn trim_end_seq(s: Seq<char>) -> Seq<char>
    decreases s.len(),
{
    if s.len() > 0 && is_space_char(s[s.len() - 1]) {
        trim_end_seq(s.drop_last())
    } else {
        s
    }
}

/// The sequence with whitespace removed from both ends.
pub open spec fn trim_seq(s: Seq<char>) -> Seq<char> {
    trim_end_seq(trim_start_seq(s))
}

proof fn lemma_trim_start_at(s: Seq<char>, a: int)
    requires
        0 <= a <= s.len(),
        forall|j: int| 0 <= j < a ==> is_space_char(s[j]),
        a < s.len() ==> !is_space_char(s[a]),
    ensures
        trim_start_seq(s) =~= s.subrange(a, s.len() as int),
    decreases a,
{
    if a == 0 {
        if s.len() > 0 && is_space_char(s[0]) {
            assert(false);
        }
        assert(s.subrange(0, s.len() as int) =~= s);
    } else {
        let t = s.drop_first();
        lemma_trim_start_at(t, a - 1);
        assert(t.subrange(a - 1, t.len() as int) =~= s.subrange(a, s.len() as int));
    }
}

proof fn lemma_trim_end_at(s: Seq<char>, b: int)
    requires
        0 <= b <= s.len(),
        forall|j: int| b <= j < s.len() ==> is_space_char(s[j]),
        b > 0 ==> !is_space_char(s[b - 1]),
    ensures
        trim_end_seq(s) =~= s.subrange(0, b),
    decreases s.len() - b,
{
    if b == s.len() {
        if s.len() > 0 && is_space_char(s[s.len() - 1]) {
            assert(false);
        }
        assert(s.subrange(0, s.len() as int) =~= s);
    } else {
        let t = s.drop_last();
        lemma_trim_end_at(t, b);
        assert(t.subrange(0, b) =~= s.subrange(0, b));
    }
}

/// The characters with surrounding whitespace removed.
pub fn trim_chars(v: &Vec<char>) -> (r: Vec<char>)
    ensures
        r@ == trim_seq(v@),
{
    let vl: usize = v.len();
    let mut a: usize = 0;
    while a < vl && is_space(v[a])
        invariant
            vl == v@.len(),
            a <= vl,
            forall|j: int| 0 <= j < a ==> is_space_char(v@[j]),
        decreases vl - a,
    {
        a = a + 1;
    }
    let mut b: usize = vl;
    while b > a && is_space(v[b - 1])
        invariant
            vl == v@.len(),
            a <= b <= vl,
            forall|j: int| b <= j < vl ==> is_space_char(v@[j]),
        decreases b,
    {
        b = b - 1;
    }
    proof {
        lemma_trim_start_at(v@, a as int);
        let t = v@.subrange(a as int, vl as int);
        lemma_trim_end_at(t, b - a);
        assert(t.subrange(0, b - a) =~= v@.subrange(a as int, b as int));
    }
    let mut r: Vec<char> = Vec::new();
    let mut i: usize = a;
    while i < b
        invariant
            vl == v@.len(),
            a <= i <= b <= vl,
            r@ == v@.subrange(a as int, i as int),
        decreases b - i,
    {
        r.push(v[i]);
        assert(r@ =~= v@.subrange(a as int, i + 1));
        i = i + 1;
    }
    assert(r@ =~= v@.subrange(a as int, b as int));
    r
}

/// Trimming the start keeps a suffix of the text, unchanged.
pub proof fn lemma_trim_start_suffix(s: Seq<char>)
    ensures
        trim_start_seq(s).len() <= s.len(),
        forall|i: int|
            0 <= i < trim_start_seq(s).len() ==> #[trigger] trim_start_seq(s)[i] == s[s.len()
                - trim_start_seq(s).len() + i],
    decreases s.len(),
{
    if s.len() > 0 && is_space_char(s[0]) {
        let t = s.drop_first();
        lemma_trim_start_suffix(t);
        assert forall|i: int|
            0 <= i < trim_start_seq(s).len() implies #[trigger] trim_start_seq(s)[i] == s[s.len()
            - trim_start_seq(s).len() + i] by {
            assert(trim_start_seq(s)[i] == trim_start_seq(t)[i]);
            assert(t[t.len() - trim_start_seq(t).len() + i] == s[s.len() - trim_start_seq(
                s,
            ).len() + i]);
        }
    }
}

/// Trimming the end keeps a prefix of the text, unchanged.
pub proof fn lemma_trim_end_prefix(s: Seq<char>)
    ensures
        trim_end_seq(s).len() <= s.len(),
        forall|i: int|
            0 <= i < trim_end_seq(s).len() ==> #[trigger] trim_end_seq(s)[i] == s[i],
    decreases s.len(),
{
    if s.len() > 0 && is_space_char(s[s.len() - 1]) {
        lemma_trim_end_prefix(s.drop_last());
        assert(forall|i: int| 0 <= i < s.drop_last().len() ==> #[trigger] s.drop_last()[i] == s[i]);
    }
}

proof fn lemma_trim_start_head(s: Seq<char>)
    ensures
        trim_start_seq(s).len() > 0 ==> !is_space_char(trim_start_seq(s)[0]),
    decreases s.len(),
{
    if s.len() > 0 && is_space_char(s[0]) {
        lemma_trim_start_head(s.drop_first());
    }
}

proof fn lemma_trim_end_tail(s: Seq<char>)
    ensures
        trim_end_seq(s).len() > 0 ==> !is_space_char(trim_end_seq(s)[trim_end_seq(s).len() - 1]),
    decreases s.len(),
{
    if s.len() > 0 && is_space_char(s[s.len() - 1]) {
        lemma_trim_end_tail(s.drop_last());
    }
}

/// A non-empty trimmed text neither starts nor ends with whitespace.
pub proof fn lemma_trim_no_edge_space(s: Seq<char>)
    ensures
        trim_seq(s).len() > 0 ==> !is_space_char(trim_seq(s)[0]),
        trim_seq(s).len() > 0 ==> !is_space_char(trim_seq(s)[trim_seq(s).len() - 1]),
{
    let t = trim_start_seq(s);
    lemma_trim_start_head(s);
    lemma_trim_end_tail(t);
    lemma_trim_end_prefix(t);
    if trim_seq(s).len() > 0 {
        assert(trim_end_seq(t)[0] == t[0]);
    }
}

/// Trimming is idempotent.
pub proof fn lemma_trim_idempotent(s: Seq<char>)
    ensures
        trim_seq(trim_seq(s)) == trim_seq(s),
{
    let r = trim_seq(s);
    lemma_trim_no_edge_space(s);
    if r.len() == 0 {
        assert(trim_start_seq(r) == r);
        assert(trim_end_seq(r) == r);
    } else {
        assert(trim_start_seq(r) == r);
        assert(trim_end_seq(r) == r);
    }
}

/// Every character of the trimmed text appears in the text.
pub proof fn lemma_trim_members(s: Seq<char>)
    ensures
        forall|i: int|
            0 <= i < trim_seq(s).len() ==> exists|j: int|
                0 <= j < s.len() && #[trigger] trim_seq(s)[i] == s[j],
{
    let t = trim_start_seq(s);
    lemma_trim_start_suffix(s);
    lemma_trim_end_prefix(t);
    assert forall|i: int|
        0 <= i < trim_seq(s).len() implies exists|j: int|
        0 <= j < s.len() && #[trigger] trim_seq(s)[i] == s[j] by {
        assert(trim_seq(s)[i] == t[i]);
        let j = s.len() - t.len() + i;
        assert(t[i] == s[j]);
    }
}

/// Every occurrence of `pat` replaced by `sub`, scanning left to right.
pub open spec fn replace_seq(s: Seq<char>, pat: Seq<char>, sub: Seq<char>) -> Seq<char>
    decreases s.len(),
{
    if pat.len() == 0 || s.len() < pat.len() {
        s
    } else if s.subrange(0, pat.len() as int) == pat {
        sub + replace_seq(s.skip(pat.len() as int), pat, sub)
    } else {
        seq![s[0]] + replace_seq(s.drop_first(), pat, sub)
    }
}

/// Appends all characters of `src` to `out`.
pub fn push_all(out: &mut Vec<char>, src: &Vec<char>)
    ensures
        final(out)@ == old(out)@ + src@,
{
    let mut i: usize = 0;
    while i < src.len()
        invariant
            i <= src@.len(),
            out@ == old(out)@ + src@.subrange(0, i as int),
        decreases src@.len() - i,
    {
        out.push(src[i]);
        assert(out@ =~= old(out)@ + src@.subrange(0, i + 1));
        i = i + 1;
    }
    assert(out@ =~= old(out)@ + src@);
}

/// The characters with every occurrence of `pat` replaced by `sub`.
pub fn replace_chars(v: &Vec<char>, pat: &str, sub: &str) -> (r: Vec<char>)
    ensures
        r@ == replace_seq(v@, pat@, sub@),
{
    let pv = chars_of(pat);
    let sv = chars_of(sub);
    let vl: usize = v.len();
    let pl: usize = pv.len();
    let mut out: Vec<char> = Vec::new();
    if pl == 0 {
        push_all(&mut out, v);
        assert(out@ =~= Seq::<char>::empty() + v@);
        return out;
    }
    let mut i: usize = 0;
    proof {
        assert(v@.skip(0) =~= v@);
        assert(out@ + replace_seq(v@, pat@, sub@) =~= replace_seq(v@, pat@, sub@));
    }
    while i < vl
        invariant
            vl == v@.len(),
            pl == pv@.len(),
            pv@ == pat@,
            sv@ == sub@,
            pl > 0,
            i <= vl,
            replace_seq(v@, pat@, sub@) == out@ + replace_seq(v@.skip(i as int), pat@, sub@),
        decreases vl - i,
    {
        let ghost rest = v@.skip(i as int);
        if matches_at(v, &pv, i) {
            proof {
                assert(rest.subrange(0, pat@.len() as int) =~= v@.subrange(
                    i as int,
                    i + pat@.len(),
                ));
                assert(rest.skip(pat@.len() as int) =~= v@.skip(i + pat@.len()));
            }
            push_all(&mut out, &sv);
            i = i + pl;
        } else {
            proof {
                if rest.len() >= pat@.len() {
                    assert(rest.subrange(0, pat@.len() as int) =~= v@.subrange(
                        i as int,
                        i + pat@.len(),
                    ));
                }
                assert(rest.drop_first() =~= v@.skip(i + 1));
                assert(out@ + seq![v@[i as int]] + replace_seq(v@.skip(i + 1), pat@, sub@)
                    =~= out@ + (seq![rest[0]] + replace_seq(rest.drop_first(), pat@, sub@)));
            }
            out.push(v[i]);
            i = i + 1;
        }
    }
    proof {
        assert(v@.skip(vl as int) =~= Seq::<char>::empty());
        assert(out@ + Seq::<char>::empty() =~= out@);
    }
    out
}

/// Index just past the word that starts at `i`: the first position at or
/// after `i` holding whitespace, or the end of the text.
pub open spec fn word_end(s: Seq<char>, i: int) -> int
    decreases s.len() - i,
{
    if i < 0 || i >= s.len() || is_space_char(s[i]) {
        i
    } else {
        word_end(s, i + 1)
    }
}

/// The whitespace-separated words of `s`, in order, starting the scan at `i`.
pub open spec fn words_from(s: Seq<char>, i: int) -> Seq<Seq<char>>
    decreases s.len() - i,
{
    if i < 0 || i >= s.len() {
        Seq::empty()
    } else if is_space_char(s[i]) {
        words_from(s, i + 1)
    } else {
        let e = word_end(s, i);
        let next = if i < e && e <= s.len() {
            e
        } else {
            i + 1
        };
        seq![s.subrange(i, e)] + words_from(s, next)
    }
}

/// The whitespace-separated words of `s`.
pub open spec fn words_of(s: Seq<char>) -> Seq<Seq<char>> {
    words_from(s, 0)
}

/// The given words joined with single spaces.
pub open spec fn join_words(ws: Seq<Seq<char>>) -> Seq<char>
    decreases ws.len(),
{
    if ws.len() == 0 {
        Seq::empty()
    } else if ws.len() == 1 {
        ws[0]
    } else {
        ws[0] + seq![' '] + join_words(ws.drop_first())
    }
}

/// Whitespace normalization: the words of `s` joined with single spaces.
pub open spec fn normalize_ws_seq(s: Seq<char>) -> Seq<char> {
    join_words(words_of(s))
}

/// The number of words in `s[0..upto)`, counting word starts.
pub open spec fn word_count_upto(s: Seq<char>, upto: int) -> int
    decreases upto,
{
    if upto <= 0 {
        0
    } else {
        word_count_upto(s, upto - 1) + if !is_space_char(s[upto - 1]) && (upto - 1 == 0
            || is_space_char(s[upto - 2])) {
            1int
        } else {
            0int
        }
    }
}

/// The number of whitespace-separated words in `s`.
pub open spec fn word_count_seq(s: Seq<char>) -> int {
    word_count_upto(s, s.len() as int)
}

/// Counts the whitespace-separated words of the text.
pub fn count_words(v: &Vec<char>) -> (r: usize)
    ensures
        r == word_count_seq(v@),
{
    let vl: usize = v.len();
    let mut count: usize = 0;
    let mut i: usize = 0;
    while i < vl
        invariant
            vl == v@.len(),
            i <= vl,
            count == word_count_upto(v@, i as int),
            count <= i,
        decreases vl - i,
    {
        if !is_space(v[i]) && (i == 0 || is_space(v[i - 1])) {
            count = count + 1;
        }
        i = i + 1;
    }
    count
}

/// Appending a word to a join adds a single separating space, unless the
/// join was empty.
pub proof fn lemma_join_push(ws: Seq<Seq<char>>, w: Seq<char>)
    ensures
        join_words(ws.push(w)) == if ws.len() == 0 {
            w
        } else {
            join_words(ws) + seq![' '] + w
        },
    decreases ws.len(),
{
    let p = ws.push(w);
    if ws.len() == 0 {
        assert(p.len() == 1);
        assert(p[0] == w);
    } else if ws.len() == 1 {
        assert(p.len() == 2);
        assert(p.drop_first() =~= seq![w]);
        assert(join_words(seq![w]) == w);
        assert(p[0] == ws[0]);
    } else {
        assert(p.drop_first() =~= ws.drop_first().push(w));
        lemma_join_push(ws.drop_first(), w);
        assert(p[0] == ws[0]);
    }
}

/// The words of the tail of a scan are the remaining words.
proof fn lemma_words_skip_one(s: Seq<char>, i: int, k: int)
    requires
        0 <= i < s.len(),
        !is_space_char(s[i]),
        0 <= k <= words_of(s).len(),
        words_of(s).skip(k) == words_from(s, i),
    ensures
        k < words_of(s).len(),
        words_of(s)[k] == s.subrange(i, word_end(s, i)),
        words_of(s).skip(k + 1) =~= words_from(
            s,
            if i < word_end(s, i) && word_end(s, i) <= s.len() {
                word_end(s, i)
            } else {
                i + 1
            },
        ),
{
    let e = word_end(s, i);
    let next = if i < e && e <= s.len() {
        e
    } else {
        i + 1
    };
    assert(words_from(s, i) == seq![s.subrange(i, e)] + words_from(s, next));
    assert(words_from(s, i).len() > 0);
    assert(words_of(s).skip(k).len() == words_of(s).len() - k);
    assert(words_of(s)[k] == words_of(s).skip(k)[0]);
    assert(words_of(s).skip(k + 1) =~= words_of(s).skip(k).drop_first());
    assert(words_of(s).skip(k).drop_first() =~= words_from(s, next));
}

/// The text with every maximal whitespace run collapsed: its words joined
/// by single spaces, with no leading or trailing space.
pub fn normalize_ws(v: &Vec<char>) -> (r: Vec<char>)
    ensures
        r@ == normalize_ws_seq(v@),
{
    let vl: usize = v.len();
    let mut out: Vec<char> = Vec::new();
    let mut i: usize = 0;
    let ghost mut k: int = 0;
    proof {
        assert(words_of(v@).skip(0) =~= words_from(v@, 0));
        assert(words_of(v@).take(0) =~= Seq::<Seq<char>>::empty());
    }
    while i < vl
        invariant
            vl == v@.len(),
            i <= vl,
            0 <= k <= words_of(v@).len(),
            words_of(v@).skip(k) == words_from(v@, i as int),
            out@ == join_words(words_of(v@).take(k)),
            k == 0 <==> out@.len() == 0,
            k == 0 ==> out@ =~= Seq::<char>::empty(),
        decreases vl - i,
    {
        if is_space(v[i]) {
            proof {
                assert(words_from(v@, i as int) == words_from(v@, i + 1));
            }
            i = i + 1;
        } else {
            proof {
                lemma_words_skip_one(v@, i as int, k);
            }
            let ghost e_spec = word_end(v@, i as int);
            let start = i;
            let mut e: usize = i;
            while e < vl && !is_space(v[e])
                invariant
                    vl == v@.len(),
                    start <= e <= vl,
                    word_end(v@, start as int) == word_end(v@, e as int),
                decreases vl - e,
            {
                e = e + 1;
            }
            assert(word_end(v@, e as int) == e as int);
            assert(e_spec == e as int);
            let ghost base = out@;
            if out.len() > 0 {
                out.push(' ');
            }
            let ghost mid = out@;
            let mut j: usize = start;
            while j < e
                invariant
                    vl == v@.len(),
                    start <= j <= e <= vl,
                    out@ == mid + v@.subrange(start as int, j as int),
                decreases e - j,
            {
                out.push(v[j]);
                assert(out@ =~= mid + v@.subrange(start as int, j + 1));
                j = j + 1;
            }
            proof {
                let ws = words_of(v@);
                let w = v@.subrange(start as int, e as int);
                assert(ws.take(k + 1) =~= ws.take(k).push(ws[k]));
                lemma_join_push(ws.take(k), w);
                if k == 0 {
                    assert(mid =~= Seq::<char>::empty());
                    assert(out@ =~= w);
                } else {
                    assert(ws.take(k).len() == k);
                    assert(mid =~= base + seq![' ']);
                    assert(out@ =~= join_words(ws.take(k)) + seq![' '] + w);
                }
                k = k + 1;
                assert(out@.len() > 0);
            }
            i = e;
        }
    }
    proof {
        assert(words_from(v@, vl as int) =~= Seq::<Seq<char>>::empty());
        assert(words_of(v@).len() - k == 0);
        assert(words_of(v@).take(k) =~= words_of(v@));
    }
    out
}

/// The value of a hexadecimal digit, or -1.
pub open spec fn hex_digit_val(c: char) -> int {
    if '0' <= c && c <= '9' {
        c as u32 - '0' as u32
    } else if 'a' <= c && c <= 'f' {
        c as u32 - 'a' as u32 + 10
    } else if 'A' <= c && c <= 'F' {
        c as u32 - 'A' as u32 + 10
    } else {
        -1
    }
}

/// Whether the character is a hexadecimal digit.
pub open spec fn is_hex_digit(c: char) -> bool {
    hex_digit_val(c) >= 0
}

/// The value of the hexadecimal digit, if it is one.
pub fn hex_digit(c: char) -> (r: Option<u32>)
    ensures
        match r {
            Some(v) => hex_digit_val(c) == v as int && v < 16,
            None => !is_hex_digit(c),
        },
{
    if '0' <= c && c <= '9' {
        Some(c as u32 - '0' as u32)
    } else if 'a' <= c && c <= 'f' {
        Some(c as u32 - 'a' as u32 + 10)
    } else if 'A' <= c && c <= 'F' {
        Some(c as u32 - 'A' as u32 + 10)
    } else {
        None
    }
}

/// A Unicode scalar value: what a `char` may hold.
pub open spec fn is_scalar_value(v: int) -> bool {
    (0 <= v < 0xd800) || (0xe000 <= v <= 0x10ffff)
}

/// Relies on char::from_u32: yields the character with the given scalar
/// value, and nothing for surrogates and values beyond the Unicode maximum.
#[verifier::external_body]
pub fn char_from_u32(v: u32) -> (r: Option<char>)
    ensures
        r is Some <==> is_scalar_value(v as int),
        r matches Some(c) ==> c as u32 == v,
{
    char::from_u32(v)
}

/// The character of a single decimal digit.
pub open spec fn digit_char(d: int) -> char {
    if d == 0 {
        '0'
    } else if d == 1 {
        '1'
    } else if d == 2 {
        '2'
    } else if d == 3 {
        '3'
    } else if d == 4 {
        '4'
    } else if d == 5 {
        '5'
    } else if d == 6 {
        '6'
    } else if d == 7 {
        '7'
    } else if d == 8 {
        '8'
    } else {
        '9'
    }
}

/// The decimal representation of a non-negative number.
pub open spec fn dec_of(n: int) -> Seq<char>
    decreases n,
{
    if n < 0 {
        Seq::empty()
    } else if n < 10 {
        seq![digit_char(n)]
    } else {
        dec_of(n / 10).push(digit_char(n % 10))
    }
}

/// The number printed in decimal.
pub fn u64_to_dec(n: u64) -> (r: String)
    ensures
        r@ == dec_of(n as int),
{
    let mut digits: Vec<char> = Vec::new();
    let mut m: u64 = n;
    while m >= 10
        invariant
            dec_of(n as int) == dec_of(m as int) + digits@.reverse(),
        decreases m,
    {
        let ghost before = digits@;
        let d = (m % 10) as u32;
        let c = match d {
            0 => '0',
            1 => '1',
            2 => '2',
            3 => '3',
            4 => '4',
            5 => '5',
            6 => '6',
            7 => '7',
            8 => '8',
            _ => '9',
        };
        assert(c == digit_char(m as int % 10));
        digits.push(c);
        proof {
            assert(digits@.reverse() =~= seq![c] + before.reverse());
            assert(dec_of(m as int) + before.reverse() =~= dec_of(m as int / 10) + (seq![c]
                + before.reverse()));
        }
        m = m / 10;
    }
    let d = (m % 10) as u32;
    let c = match d {
        0 => '0',
        1 => '1',
        2 => '2',
        3 => '3',
        4 => '4',
        5 => '5',
        6 => '6',
        7 => '7',
        8 => '8',
        _ => '9',
    };
    assert(c == digit_char(m as int));
    let mut out: Vec<char> = Vec::new();
    out.push(c);
    let mut i: usize = digits.len();
    while i > 0
        invariant
            i <= digits@.len(),
            out@ == seq![digit_char(m as int)] + digits@.reverse().take(digits@.len() - i),
        decreases i,
    {
        i = i - 1;
        out.push(digits[i]);
        proof {
            assert(digits@.reverse()[digits@.len() - i - 1] == digits@[i as int]);
            assert(out@ =~= seq![digit_char(m as int)] + digits@.reverse().take(
                digits@.len() - i,
            ));
        }
    }
    proof {
        assert(digits@.reverse().take(digits@.len() as int) =~= digits@.reverse());
        assert(dec_of(m as int) == seq![digit_char(m as int)]);
        assert(out@ =~= dec_of(m as int) + digits@.reverse());
    }
    string_from_chars(&out)
}

/// The text up to the first occurrence of the separator, or all of it.
pub open spec fn cut_at(s: Seq<char>, sep: Seq<char>) -> Seq<char> {
    if contains_seq(s, sep) {
        s.subrange(0, find_from(s, sep, 0))
    } else {
        s
    }
}

/// Takes the text before the first occurrence of the separator, if any.
pub fn take_before(v: &Vec<char>, sep: &str) -> (r: Vec<char>)
    ensures
        r@ == cut_at(v@, sep@),
{
    let sv = chars_of(sep);
    proof {
        lemma_find_contains(v@, sep@);
    }
    match find_sub(v, &sv) {
        Some(q) => {
            proof {
                lemma_find_is_match(v@, sep@, 0);
            }
            let mut r: Vec<char> = Vec::new();
            let mut w: usize = 0;
            while w < q
                invariant
                    w <= q <= v@.len(),
                    r@ == v@.subrange(0, w as int),
                decreases q - w,
            {
                r.push(v[w]);
                assert(r@ =~= v@.subrange(0, w + 1));
                w = w + 1;
            }
            r
        },
        None => {
            let mut r: Vec<char> = Vec::new();
            push_all(&mut r, v);
            assert(r@ =~= v@);
            r
        },
    }
}

/// A string built from the given characters.
pub fn string_from_chars(v: &Vec<char>) -> (r: String)
    ensures
        r@ == v@,
{
    let mut r = String::new();
    let mut i: usize = 0;
    while i < v.len()
        invariant
            i <= v@.len(),
            r@ == v@.subrange(0, i as int),
        decreases v@.len() - i,
    {
        push_char(&mut r, v[i]);
        i = i + 1;
    }
    assert(r@ =~= v@);
    r
}

} // verus!
