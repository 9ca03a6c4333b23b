//! Where the reader's links are drawn: the cells each word of a link takes
//! on its line, so that a click in the reader can be mapped back to the
//! address it points at.
use vstd::prelude::*;
use crate::fetcher::{strip_tags_chars, stripped_text};
use crate::pattern::{regex_all_groups, regex_captures_all};
use crate::reader::{anchor_hrefs, anchor_pattern, display_width, find_anchor_hrefs, text_width, texts, words_from, words_of};
use crate::text::{char_is_whitespace, chars_of, string_from_chars, unicode_white_space};

verus! {

/// A stretch of the reader's text that is a link: cells `start_col` up to
/// `end_col` of line `line`, pointing at the address `links[link]`.
#[derive(Debug, Clone, Copy, PartialEq, Eq)]
pub struct LinkHit {
    pub line: usize,
    pub start_col: u16,
    pub end_col: u16,
    pub link: usize,
}

/// The texts of a paragraph's links, in order.
pub open spec fn anchor_labels(s: Seq<char>) -> Seq<Seq<char>> {
    regex_all_groups(anchor_pattern(), s, 2)
}

/// Lists the texts of a paragraph's links.
fn find_anchor_labels(s: &str) -> (r: Vec<String>)
    ensures
        texts(r@) == anchor_labels(s@),
{
    let r = regex_captures_all("(?i)<a\\s+[^>]*href=[\"\\']([^\"\\']+)[\"\\'][^>]*>(.*?)</a>", s, 2);
    assert(texts(r@) =~= r@.map_values(|t: String| t@));
    r
}

/// A count of cells as the reader stores a column: at most `u16::MAX`.
pub open spec fn cells(n: nat) -> u16 {
    if n > u16::MAX {
        u16::MAX
    } else {
        n as u16
    }
}

/// `t[a..b]` is a whole word of `t`: no whitespace in it, and whitespace or
/// the end of the text on either side.
pub open spec fn word_at(t: Seq<char>, a: int, b: int) -> bool {
    &&& 0 <= a < b <= t.len()
    &&& forall|i: int| a <= i < b ==> !unicode_white_space(#[trigger] t[i])
    &&& (a == 0 || unicode_white_space(t[a - 1]))
    &&& (b == t.len() || unicode_white_space(t[b]))
}

/// The hit covers the cells taken by `t[a..b]`, a whole word of the line
/// `t`: its columns are the widths of what comes before each end.
pub open spec fn marks_word(t: Seq<char>, h: LinkHit, a: int, b: int) -> bool {
    &&& word_at(t, a, b)
    &&& h.start_col == cells(display_width(t.take(a)))
    &&& h.end_col == cells(display_width(t.take(b)))
}

/// The words of a link's text once its tags are stripped.
pub open spec fn label_words(label: Seq<char>) -> Seq<Seq<char>> {
    words_from(stripped_text(label), 0, Seq::empty())
}

/// `word` is a word of the text of the `k`th link of the paragraph `p`, and
/// that link points at `href`.
pub open spec fn anchor_word(p: Seq<char>, k: int, href: Seq<char>, word: Seq<char>) -> bool {
    &&& 0 <= k < anchor_hrefs(p).len()
    &&& k < anchor_labels(p).len()
    &&& anchor_hrefs(p)[k] == href
    &&& label_words(anchor_labels(p)[k]).contains(word)
}

/// A hit on the wrapped lines `ts` of the paragraph `p`: a whole word of one
/// of its lines, which is a word of one of the paragraph's links, pointing
/// at that link's address in `links`.
#[verifier::opaque]
pub open spec fn paragraph_hit(ts: Seq<Seq<char>>, links: Seq<Seq<char>>, p: Seq<char>, h: LinkHit) -> bool {
    exists|a: int, b: int, k: int|
        #![trigger marks_word(ts[h.line as int], h, a, b), anchor_hrefs(p)[k]]
        {
            &&& h.line < ts.len()
            &&& h.link < links.len()
            &&& marks_word(ts[h.line as int], h, a, b)
            &&& anchor_word(p, k, links[h.link as int], ts[h.line as int].subrange(a, b))
        }
}

/// `t[a..b]` is one of the ranges listed in `r`.
pub open spec fn span_listed(r: Seq<(usize, usize)>, a: int, b: int) -> bool {
    exists|j: int| 0 <= j < r.len() && r[j].0 == a && r[j].1 == b
}

/// `r` lists the whole words of `t`, each once, from left to right.
pub open spec fn spans_of_words(t: Seq<char>, r: Seq<(usize, usize)>) -> bool {
    &&& forall|j: int| 0 <= j < r.len() ==> word_at(t, #[trigger] r[j].0 as int, r[j].1 as int)
    &&& forall|j: int| 0 < j < r.len() ==> r[j - 1].1 < #[trigger] r[j].0
    &&& forall|a: int, b: int| #[trigger] word_at(t, a, b) ==> span_listed(r, a, b)
}

/// A whole word of `t` ending at `b` starts where the run of non-blank
/// characters before `b` starts.
proof fn lemma_word_start(t: Seq<char>, a: int, start: int, b: int)
    requires
        word_at(t, a, b),
        0 <= start < b,
        start == 0 || unicode_white_space(t[start - 1]),
        forall|m: int| start <= m < b ==> !unicode_white_space(#[trigger] t[m]),
    ensures
        a == start,
{
    if a < start {
        assert(!unicode_white_space(t[start - 1]));
    } else if a > start {
        assert(!unicode_white_space(t[a - 1]));
    }
}

/// The whole words of a line, as ranges of characters, in order.
fn word_spans(t: &Vec<char>) -> (r: Vec<(usize, usize)>)
    ensures
        spans_of_words(t@, r@),
{
    let mut r: Vec<(usize, usize)> = Vec::new();
    let mut start: usize = 0;
    let mut in_word = false;
    let mut i: usize = 0;
    while i < t.len()
        invariant
            i <= t.len(),
            in_word ==> start < i,
            in_word ==> (start == 0 || unicode_white_space(t@[start - 1])),
            in_word ==> forall|m: int| start <= m < i ==> !unicode_white_space(#[trigger] t@[m]),
            !in_word ==> (i == 0 || unicode_white_space(t@[i - 1])),
            forall|j: int| 0 <= j < r@.len() ==> word_at(t@, #[trigger] r@[j].0 as int, r@[j].1 as int),
            forall|j: int| 0 <= j < r@.len() ==> (#[trigger] r@[j]).1 < i,
            forall|j: int| 0 < j < r@.len() ==> r@[j - 1].1 < #[trigger] r@[j].0,
            in_word && r@.len() > 0 ==> r@.last().1 < start,
            forall|a: int, b: int| #[trigger] word_at(t@, a, b) && b < i ==> span_listed(r@, a, b),
        decreases t.len() - i,
    {
        let ghost old_r = r@;
        if char_is_whitespace(t[i]) {
            if in_word {
                r.push((start, i));
                in_word = false;
                proof {
                    assert(r@[old_r.len() as int] == (start, i));
                    assert forall|a: int, b: int| #[trigger] word_at(t@, a, b) && b < i + 1 implies span_listed(r@, a, b) by {
                        if b < i {
                            let j = choose|j: int| 0 <= j < old_r.len() && old_r[j].0 == a && old_r[j].1 == b;
                            assert(r@[j] == old_r[j]);
                        } else {
                            lemma_word_start(t@, a, start as int, b);
                            assert(r@[old_r.len() as int].0 == a && r@[old_r.len() as int].1 == b);
                        }
                    }
                }
            } else {
                proof {
                    assert forall|a: int, b: int| #[trigger] word_at(t@, a, b) && b < i + 1 implies span_listed(r@, a, b) by {
                        if b == i {
                            assert(!unicode_white_space(t@[b - 1]));
                        }
                    }
                }
            }
        } else {
            if !in_word {
                start = i;
                in_word = true;
            }
            proof {
                assert forall|a: int, b: int| #[trigger] word_at(t@, a, b) && b < i + 1 implies span_listed(r@, a, b) by {
                    if b == i {
                        assert(unicode_white_space(t@[b]));
                    }
                }
            }
        }
        i = i + 1;
    }
    let ghost old_r = r@;
    if in_word {
        r.push((start, t.len()));
        proof {
            assert forall|a: int, b: int| #[trigger] word_at(t@, a, b) implies span_listed(r@, a, b) by {
                if b < t.len() {
                    let j = choose|j: int| 0 <= j < old_r.len() && old_r[j].0 == a && old_r[j].1 == b;
                    assert(r@[j] == old_r[j]);
                } else {
                    lemma_word_start(t@, a, start as int, b);
                    assert(r@[old_r.len() as int].0 == a && r@[old_r.len() as int].1 == b);
                }
            }
        }
    } else {
        proof {
            assert forall|a: int, b: int| #[trigger] word_at(t@, a, b) implies span_listed(r@, a, b) by {
                if b == t.len() {
                    assert(!unicode_white_space(t@[b - 1]));
                }
            }
        }
    }
    r
}

/// The chars of `t` before `n`.
fn take_chars(t: &Vec<char>, n: usize) -> (r: Vec<char>)
    requires
        n <= t.len(),
    ensures
        r@ == t@.take(n as int),
{
    let mut r: Vec<char> = Vec::new();
    let mut i: usize = 0;
    while i < n
        invariant
            i <= n <= t.len(),
            r@ == t@.take(i as int),
        decreases n - i,
    {
        r.push(t[i]);
        i = i + 1;
        assert(r@ =~= t@.take(i as int));
    }
    r
}

/// The column where the first `n` chars of `t` end.
fn column(t: &Vec<char>, n: usize) -> (r: u16)
    requires
        n <= t.len(),
    ensures
        r == cells(display_width(t@.take(n as int))),
{
    let w = text_width(string_from_chars(take_chars(t, n).as_slice()).as_str());
    if w > 65535 {
        65535
    } else {
        w as u16
    }
}

/// `t[a..b]` is the text `w`.
fn span_is(t: &Vec<char>, a: usize, b: usize, w: &String) -> (r: bool)
    requires
        a <= b <= t.len(),
    ensures
        r == (t@.subrange(a as int, b as int) == w@),
{
    let wc = chars_of(w.as_str());
    if wc.len() != b - a {
        return false;
    }
    let mut i: usize = 0;
    while i < wc.len()
        invariant
            i <= wc.len(),
            wc.len() == b - a,
            a <= b <= t.len(),
            wc@ == w@,
            forall|m: int| 0 <= m < i ==> t@[a + m] == wc@[m],
        decreases wc.len() - i,
    {
        if t[a + i] != wc[i] {
            assert(t@.subrange(a as int, b as int)[i as int] != w@[i as int]);
            return false;
        }
        i = i + 1;
    }
    assert(t@.subrange(a as int, b as int) =~= w@);
    true
}

/// The first place of `h` in `links` at `i` or after it.
pub open spec fn index_from(links: Seq<Seq<char>>, h: Seq<char>, i: int) -> Option<int>
    decreases links.len() - i,
{
    if i < 0 || i >= links.len() {
        None
    } else if links[i] == h {
        Some(i)
    } else {
        index_from(links, h, i + 1)
    }
}

/// Where `href` first stands in `links`, if it does.
fn link_index(links: &Vec<String>, href: &String) -> (r: Option<usize>)
    ensures
        match r {
            Some(i) => index_from(texts(links@), href@, 0) == Some(i as int),
            None => index_from(texts(links@), href@, 0) is None,
        },
        r matches Some(i) ==> i < links@.len() && links@[i as int]@ == href@,
{
    let ghost ls = texts(links@);
    let mut i: usize = 0;
    while i < links.len()
        invariant
            i <= links.len(),
            ls == texts(links@),
            index_from(ls, href@, 0) == index_from(ls, href@, i as int),
        decreases links.len() - i,
    {
        assert(ls[i as int] == links@[i as int]@);
        if links[i].eq(href) {
            return Some(i);
        }
        i = i + 1;
    }
    None
}

/// A word of the wrapped paragraph: its line and its range of chars there.
pub open spec fn word_pos_ok(ts: Seq<Seq<char>>, q: (usize, usize, usize)) -> bool {
    q.0 < ts.len() && word_at(ts[q.0 as int], q.1 as int, q.2 as int)
}

/// Word `p` comes before word `q`: on an earlier line, or further left on
/// the same line.
pub open spec fn word_before(p: (usize, usize, usize), q: (usize, usize, usize)) -> bool {
    p.0 < q.0 || (p.0 == q.0 && p.2 < q.1)
}

/// The word `ts[l][a..b]` is one of those listed in `pos`.
pub open spec fn pos_listed(pos: Seq<(usize, usize, usize)>, l: int, a: int, b: int) -> bool {
    exists|j: int| 0 <= j < pos.len() && pos[j].0 == l && pos[j].1 == a && pos[j].2 == b
}

/// `pos` lists every whole word of the lines `ts`, each once, in reading
/// order: line by line, left to right.
pub open spec fn reading_order(ts: Seq<Seq<char>>, pos: Seq<(usize, usize, usize)>) -> bool {
    &&& forall|j: int| 0 <= j < pos.len() ==> word_pos_ok(ts, #[trigger] pos[j])
    &&& forall|j: int| 0 < j < pos.len() ==> word_before(pos[j - 1], #[trigger] pos[j])
    &&& forall|l: int, a: int, b: int| 0 <= l < ts.len() && #[trigger] word_at(ts[l], a, b) ==> pos_listed(pos, l, a, b)
}

proof fn lemma_order_pairwise(ts: Seq<Seq<char>>, pos: Seq<(usize, usize, usize)>, i: int, j: int)
    requires
        reading_order(ts, pos),
        0 <= i < j < pos.len(),
    ensures
        word_before(pos[i], pos[j]),
    decreases j - i,
{
    assert(word_before(pos[j - 1], pos[j]));
    if i < j - 1 {
        lemma_order_pairwise(ts, pos, i, j - 1);
        assert(word_pos_ok(ts, pos[j - 1]));
    }
}

/// Where the `i`th word of `p` stands in `q`, when both list the words of
/// `ts` in reading order.
proof fn lemma_listed_at(ts: Seq<Seq<char>>, p: Seq<(usize, usize, usize)>, q: Seq<(usize, usize, usize)>, i: int) -> (m: int)
    requires
        reading_order(ts, p),
        reading_order(ts, q),
        0 <= i < p.len(),
    ensures
        0 <= m < q.len(),
        q[m] == p[i],
{
    let x = p[i];
    assert(word_pos_ok(ts, x));
    assert(word_at(ts[x.0 as int], x.1 as int, x.2 as int));
    assert(pos_listed(q, x.0 as int, x.1 as int, x.2 as int));
    let m = choose|m: int| 0 <= m < q.len() && q[m].0 == x.0 && q[m].1 == x.1 && q[m].2 == x.2;
    m
}

proof fn lemma_order_step(ts: Seq<Seq<char>>, p: Seq<(usize, usize, usize)>, q: Seq<(usize, usize, usize)>, n: int)
    requires
        reading_order(ts, p),
        reading_order(ts, q),
        0 <= n < p.len(),
        n < q.len(),
        forall|m: int| 0 <= m < n ==> p[m] == q[m],
    ensures
        p[n] == q[n],
{
    let m = lemma_listed_at(ts, p, q, n);
    let m2 = lemma_listed_at(ts, q, p, n);
    assert(word_pos_ok(ts, p[n]));
    assert(word_pos_ok(ts, q[n]));
    if m < n {
        lemma_order_pairwise(ts, p, m, n);
        assert(p[m] == q[m]);
        assert(false);
    }
    if m2 < n {
        lemma_order_pairwise(ts, q, m2, n);
        assert(p[m2] == q[m2]);
        assert(false);
    }
    if m > n && m2 > n {
        lemma_order_pairwise(ts, q, n, m);
        lemma_order_pairwise(ts, p, n, m2);
        assert(false);
    }
}

/// The words of `q` up to `j` are those of `p` up to `j`, when both list the
/// words of `ts` in reading order.
proof fn lemma_order_prefix(ts: Seq<Seq<char>>, p: Seq<(usize, usize, usize)>, q: Seq<(usize, usize, usize)>, j: int)
    requires
        reading_order(ts, p),
        reading_order(ts, q),
        0 <= j <= p.len(),
        j <= q.len(),
    ensures
        forall|m: int| 0 <= m < j ==> p[m] == q[m],
    decreases j,
{
    if j > 0 {
        lemma_order_prefix(ts, p, q, j - 1);
        lemma_order_step(ts, p, q, j - 1);
    }
}

/// Only one list names the words of `ts` in reading order.
proof fn lemma_reading_order_unique(ts: Seq<Seq<char>>, p: Seq<(usize, usize, usize)>, q: Seq<(usize, usize, usize)>)
    requires
        reading_order(ts, p),
        reading_order(ts, q),
    ensures
        p == q,
{
    if p.len() > q.len() {
        let n = q.len() as int;
        lemma_order_prefix(ts, p, q, n);
        let m = lemma_listed_at(ts, p, q, n);
        lemma_order_pairwise(ts, p, m, n);
        assert(p[m] == q[m]);
        assert(word_pos_ok(ts, p[n]));
    } else if q.len() > p.len() {
        let n = p.len() as int;
        lemma_order_prefix(ts, q, p, n);
        let m = lemma_listed_at(ts, q, p, n);
        lemma_order_pairwise(ts, q, m, n);
        assert(p[m] == q[m]);
        assert(word_pos_ok(ts, q[n]));
    } else {
        lemma_order_prefix(ts, p, q, p.len() as int);
        assert(p =~= q);
    }
}

/// The words of the lines `ts`, in reading order.
pub open spec fn word_order(ts: Seq<Seq<char>>) -> Seq<(usize, usize, usize)> {
    choose|pos: Seq<(usize, usize, usize)>| reading_order(ts, pos)
}

/// The hits of the links of the paragraph `ps` on its wrapped lines `ts`,
/// with `links` holding the addresses: each link's words are looked for, in
/// order, among the words of the lines after those of the link before it.
pub open spec fn paragraph_link_hits(ts: Seq<Seq<char>>, links: Seq<Seq<char>>, ps: Seq<char>) -> Seq<LinkHit> {
    link_hits(ts, links, ps, word_order(ts), 0, 0)
}

/// Every word of the wrapped lines, in reading order.
fn word_positions(lines: &Vec<Vec<char>>) -> (r: Vec<(usize, usize, usize)>)
    ensures
        reading_order(lines@.map_values(|l: Vec<char>| l@), r@),
{
    let ghost ts = lines@.map_values(|l: Vec<char>| l@);
    let mut r: Vec<(usize, usize, usize)> = Vec::new();
    let mut i: usize = 0;
    while i < lines.len()
        invariant
            i <= lines.len(),
            ts == lines@.map_values(|l: Vec<char>| l@),
            forall|j: int| 0 <= j < r@.len() ==> word_pos_ok(ts, #[trigger] r@[j]),
            forall|j: int| 0 < j < r@.len() ==> word_before(r@[j - 1], #[trigger] r@[j]),
            forall|j: int| 0 <= j < r@.len() ==> (#[trigger] r@[j]).0 < i,
            forall|l: int, a: int, b: int| 0 <= l < i && #[trigger] word_at(ts[l], a, b) ==> pos_listed(r@, l, a, b),
        decreases lines.len() - i,
    {
        let spans = word_spans(&lines[i]);
        assert(ts[i as int] == lines@[i as int]@);
        let ghost base = r@.len();
        let mut k: usize = 0;
        while k < spans.len()
            invariant
                i < lines.len(),
                k <= spans.len(),
                ts == lines@.map_values(|l: Vec<char>| l@),
                ts[i as int] == lines@[i as int]@,
                spans_of_words(lines@[i as int]@, spans@),
                r@.len() == base + k,
                forall|j: int| 0 <= j < r@.len() ==> word_pos_ok(ts, #[trigger] r@[j]),
                forall|j: int| 0 < j < r@.len() ==> word_before(r@[j - 1], #[trigger] r@[j]),
                forall|j: int| 0 <= j < base ==> (#[trigger] r@[j]).0 < i,
                forall|j: int| base <= j < r@.len() ==> (#[trigger] r@[j]).0 == i,
                k > 0 ==> r@.last() == (i, spans@[k - 1].0, spans@[k - 1].1),
                forall|l: int, a: int, b: int| 0 <= l < i && #[trigger] word_at(ts[l], a, b) ==> pos_listed(r@, l, a, b),
                forall|m: int| 0 <= m < k ==> pos_listed(r@, i as int, (#[trigger] spans@[m]).0 as int, spans@[m].1 as int),
            decreases spans.len() - k,
        {
            let (a, b) = spans[k];
            assert(word_at(lines@[i as int]@, spans@[k as int].0 as int, spans@[k as int].1 as int));
            let ghost old_r = r@;
            r.push((i, a, b));
            proof {
                assert(r@[old_r.len() as int] == (i, a, b));
                if k > 0 {
                    assert(spans@[k - 1].1 < spans@[k as int].0);
                }
                assert forall|j: int| 0 < j < r@.len() implies word_before(r@[j - 1], #[trigger] r@[j]) by {
                    if j < old_r.len() {
                        assert(r@[j - 1] == old_r[j - 1] && r@[j] == old_r[j]);
                    }
                }
                assert forall|l: int, a2: int, b2: int| 0 <= l < i && #[trigger] word_at(ts[l], a2, b2) implies pos_listed(r@, l, a2, b2) by {
                    let j = choose|j: int| 0 <= j < old_r.len() && old_r[j].0 == l && old_r[j].1 == a2 && old_r[j].2 == b2;
                    assert(r@[j] == old_r[j]);
                }
                assert forall|m: int| 0 <= m < k + 1 implies pos_listed(r@, i as int, (#[trigger] spans@[m]).0 as int, spans@[m].1 as int) by {
                    if m < k {
                        let j = choose|j: int| 0 <= j < old_r.len() && old_r[j].0 == i && old_r[j].1 == spans@[m].0 && old_r[j].2 == spans@[m].1;
                        assert(r@[j] == old_r[j]);
                    } else {
                        assert(r@[old_r.len() as int].0 == i);
                    }
                }
            }
            k = k + 1;
        }
        proof {
            assert forall|l: int, a: int, b: int| 0 <= l < i + 1 && #[trigger] word_at(ts[l], a, b) implies pos_listed(r@, l, a, b) by {
                if l == i {
                    assert(span_listed(spans@, a, b));
                    let m = choose|m: int| 0 <= m < spans@.len() && spans@[m].0 == a && spans@[m].1 == b;
                    assert(pos_listed(r@, i as int, spans@[m].0 as int, spans@[m].1 as int));
                }
            }
        }
        i = i + 1;
    }
    r
}

/// The next `words.len()` words from position `s` are `words`.
fn words_match(lines: &Vec<Vec<char>>, pos: &Vec<(usize, usize, usize)>, s: usize, words: &Vec<String>) -> (r: bool)
    requires
        s + words.len() <= pos.len(),
        forall|j: int| 0 <= j < pos@.len() ==> word_pos_ok(lines@.map_values(|l: Vec<char>| l@), #[trigger] pos@[j]),
    ensures
        r == forall|j: int| 0 <= j < words.len() ==>
            lines@[pos@[s + j].0 as int]@.subrange(pos@[s + j].1 as int, pos@[s + j].2 as int) == #[trigger] words@[j]@,
{
    let ghost ts = lines@.map_values(|l: Vec<char>| l@);
    let mut j: usize = 0;
    while j < words.len()
        invariant
            j <= words.len(),
            s + words.len() <= pos.len(),
            ts == lines@.map_values(|l: Vec<char>| l@),
            forall|m: int| 0 <= m < pos@.len() ==> word_pos_ok(ts, #[trigger] pos@[m]),
            forall|m: int| 0 <= m < j ==>
                lines@[pos@[s + m].0 as int]@.subrange(pos@[s + m].1 as int, pos@[s + m].2 as int) == #[trigger] words@[m]@,
        decreases words.len() - j,
    {
        let (l, a, b) = pos[s + j];
        assert(word_pos_ok(ts, pos@[s + j]));
        if !span_is(&lines[l], a, b, &words[j]) {
            assert(lines@[pos@[s + j as int].0 as int]@.subrange(pos@[s + j as int].1 as int, pos@[s + j as int].2 as int) != words@[j as int]@);
            return false;
        }
        j = j + 1;
    }
    true
}

/// The text of word `q` of the lines `ts`.
pub open spec fn word_text(ts: Seq<Seq<char>>, q: (usize, usize, usize)) -> Seq<char> {
    ts[q.0 as int].subrange(q.1 as int, q.2 as int)
}

/// The words of `pos` from position `s` on are `words`, one after another.
pub open spec fn words_at(ts: Seq<Seq<char>>, pos: Seq<(usize, usize, usize)>, s: int, words: Seq<Seq<char>>) -> bool {
    &&& 0 <= s && s + words.len() <= pos.len()
    &&& forall|j: int| 0 <= j < words.len() ==> word_text(ts, pos[s + j]) == #[trigger] words[j]
}

/// The first position of `pos`, `s` or after it, from which `words` follow
/// one another.
pub open spec fn first_run(ts: Seq<Seq<char>>, pos: Seq<(usize, usize, usize)>, s: int, words: Seq<Seq<char>>) -> Option<int>
    decreases pos.len() - s,
{
    if s < 0 || s + words.len() > pos.len() {
        None
    } else if words_at(ts, pos, s, words) {
        Some(s)
    } else if s >= pos.len() {
        None
    } else {
        first_run(ts, pos, s + 1, words)
    }
}

/// The hit of word `q` of the lines `ts`, pointing at link `li`.
pub open spec fn word_hit(ts: Seq<Seq<char>>, q: (usize, usize, usize), li: int) -> LinkHit {
    LinkHit {
        line: q.0,
        start_col: cells(display_width(ts[q.0 as int].take(q.1 as int))),
        end_col: cells(display_width(ts[q.0 as int].take(q.2 as int))),
        link: li as usize,
    }
}

/// The hits of the `n` words of `pos` from position `s` on.
pub open spec fn run_hits(ts: Seq<Seq<char>>, pos: Seq<(usize, usize, usize)>, s: int, n: int, li: int) -> Seq<LinkHit> {
    Seq::new(n as nat, |j: int| word_hit(ts, pos[s + j], li))
}

/// The hits of the links of the paragraph `ps`, from its `k`th link on,
/// when the words of the lines `ts` stand in `pos` and the search goes on
/// from position `from`: a link whose address is in `links` and whose text
/// has words is looked for as a run of those words; where it is found each
/// of its words is a hit pointing at the address's first place in `links`,
/// and the next link is looked for after it.
pub open spec fn link_hits(
    ts: Seq<Seq<char>>,
    links: Seq<Seq<char>>,
    ps: Seq<char>,
    pos: Seq<(usize, usize, usize)>,
    k: int,
    from: int,
) -> Seq<LinkHit>
    decreases anchor_hrefs(ps).len() - k,
{
    if k < 0 || k >= anchor_hrefs(ps).len() || k >= anchor_labels(ps).len() {
        Seq::empty()
    } else {
        let words = label_words(anchor_labels(ps)[k]);
        let found = index_from(links, anchor_hrefs(ps)[k], 0);
        let run = if found is Some && words.len() > 0 {
            first_run(ts, pos, from, words)
        } else {
            None
        };
        match run {
            Some(s) => run_hits(ts, pos, s, words.len() as int, found->0) + link_hits(ts, links, ps, pos, k + 1, s + words.len()),
            None => link_hits(ts, links, ps, pos, k + 1, from),
        }
    }
}

proof fn lemma_first_run_found(ts: Seq<Seq<char>>, pos: Seq<(usize, usize, usize)>, x: int, w: Seq<Seq<char>>, s: int)
    requires
        first_run(ts, pos, x, w) == Some(s),
    ensures
        words_at(ts, pos, s, w),
        x <= s,
    decreases pos.len() - x,
{
    if x < 0 || x + w.len() > pos.len() {
    } else if words_at(ts, pos, x, w) {
    } else if x >= pos.len() {
    } else {
        lemma_first_run_found(ts, pos, x + 1, w, s);
    }
}

/// The first position, `from` or after it, from which `words` follow one
/// another among the words `pos` of the lines.
fn find_run(lines: &Vec<Vec<char>>, pos: &Vec<(usize, usize, usize)>, from: usize, words: &Vec<String>) -> (r: Option<usize>)
    requires
        words.len() > 0,
        forall|j: int| 0 <= j < pos@.len() ==> word_pos_ok(lines@.map_values(|l: Vec<char>| l@), #[trigger] pos@[j]),
    ensures
        match r {
            Some(s) => first_run(lines@.map_values(|l: Vec<char>| l@), pos@, from as int, texts(words@)) == Some(s as int),
            None => first_run(lines@.map_values(|l: Vec<char>| l@), pos@, from as int, texts(words@)) is None,
        },
{
    let ghost ts = lines@.map_values(|l: Vec<char>| l@);
    let ghost wt = texts(words@);
    if words.len() > pos.len() {
        return None;
    }
    let mut s = from;
    while s <= pos.len() - words.len()
        invariant
            0 < words.len() <= pos.len(),
            ts == lines@.map_values(|l: Vec<char>| l@),
            wt == texts(words@),
            forall|j: int| 0 <= j < pos@.len() ==> word_pos_ok(ts, #[trigger] pos@[j]),
            from <= s,
            first_run(ts, pos@, from as int, wt) == first_run(ts, pos@, s as int, wt),
        decreases pos.len() + 1 - s,
    {
        let m = words_match(lines, pos, s, words);
        proof {
            if m {
                assert forall|j: int| 0 <= j < wt.len() implies word_text(ts, pos@[s + j]) == #[trigger] wt[j] by {
                    assert(wt[j] == words@[j]@);
                    assert(lines@[pos@[s + j].0 as int]@ == ts[pos@[s + j].0 as int]);
                    assert(lines@[pos@[s + j].0 as int]@.subrange(pos@[s + j].1 as int, pos@[s + j].2 as int) == words@[j]@);
                }
                assert(words_at(ts, pos@, s as int, wt));
            } else {
                let j = choose|j: int| 0 <= j < words.len() && !(lines@[pos@[s + j].0 as int]@.subrange(pos@[s + j].1 as int, pos@[s + j].2 as int) == #[trigger] words@[j]@);
                assert(wt[j] == words@[j]@);
                assert(lines@[pos@[s + j].0 as int]@ == ts[pos@[s + j].0 as int]);
                assert(word_text(ts, pos@[s + j]) != wt[j]);
                assert(!words_at(ts, pos@, s as int, wt));
            }
        }
        if m {
            return Some(s);
        }
        s = s + 1;
    }
    None
}

/// Adds the hits of the run of `words` found at position `s`, each
/// pointing at `links[li]`, the address of the paragraph's `k`th link.
fn push_run_hits(
    hits: &mut Vec<LinkHit>,
    lines: &Vec<Vec<char>>,
    pos: &Vec<(usize, usize, usize)>,
    s: usize,
    words: &Vec<String>,
    li: usize,
    ps: &str,
    links: &Vec<String>,
    k: usize,
)
    requires
        s + words.len() <= pos.len(),
        li < links@.len(),
        k < anchor_hrefs(ps@).len(),
        k < anchor_labels(ps@).len(),
        links@[li as int]@ == anchor_hrefs(ps@)[k as int],
        texts(words@) == label_words(anchor_labels(ps@)[k as int]),
        forall|m: int| 0 <= m < pos@.len() ==> word_pos_ok(lines@.map_values(|l: Vec<char>| l@), #[trigger] pos@[m]),
        words_at(lines@.map_values(|l: Vec<char>| l@), pos@, s as int, texts(words@)),
        forall|m: int| 0 <= m < old(hits)@.len() ==> paragraph_hit(lines@.map_values(|l: Vec<char>| l@), texts(links@), ps@, #[trigger] old(hits)@[m]),
    ensures
        final(hits)@ == old(hits)@ + run_hits(lines@.map_values(|l: Vec<char>| l@), pos@, s as int, words@.len() as int, li as int),
        forall|m: int| 0 <= m < final(hits)@.len() ==> paragraph_hit(lines@.map_values(|l: Vec<char>| l@), texts(links@), ps@, #[trigger] final(hits)@[m]),
{
    let ghost ts = lines@.map_values(|l: Vec<char>| l@);
    let ghost h0 = hits@;
    let ghost wt = texts(words@);
    let mut j: usize = 0;
    while j < words.len()
        invariant
            s + words.len() <= pos.len(),
            li < links@.len(),
            k < anchor_hrefs(ps@).len(),
            k < anchor_labels(ps@).len(),
            links@[li as int]@ == anchor_hrefs(ps@)[k as int],
            wt == texts(words@),
            wt == label_words(anchor_labels(ps@)[k as int]),
            ts == lines@.map_values(|l: Vec<char>| l@),
            forall|m: int| 0 <= m < pos@.len() ==> word_pos_ok(ts, #[trigger] pos@[m]),
            words_at(ts, pos@, s as int, wt),
            forall|m: int| 0 <= m < hits@.len() ==> paragraph_hit(ts, texts(links@), ps@, #[trigger] hits@[m]),
            hits@ == h0 + run_hits(ts, pos@, s as int, j as int, li as int),
            j <= words.len(),
        decreases words.len() - j,
    {
        let (l, a, b) = pos[s + j];
        assert(word_pos_ok(ts, pos@[s + j]));
        let h = LinkHit { line: l, start_col: column(&lines[l], a), end_col: column(&lines[l], b), link: li };
        proof {
            let t = ts[l as int];
            assert(lines@[l as int]@ == t);
            assert(word_text(ts, pos@[s + j]) == wt[j as int]);
            assert(t.subrange(a as int, b as int) == wt[j as int]);
            assert(label_words(anchor_labels(ps@)[k as int]).contains(t.subrange(a as int, b as int)));
            assert(texts(links@)[li as int] == anchor_hrefs(ps@)[k as int]);
            assert(marks_word(t, h, a as int, b as int));
            assert(ts[h.line as int] == t);
            assert(h.line < ts.len());
            assert(h.link < texts(links@).len());
            assert(marks_word(ts[h.line as int], h, a as int, b as int));
            assert(anchor_word(ps@, k as int, texts(links@)[h.link as int], t.subrange(a as int, b as int)));
            reveal(paragraph_hit);
            assert(paragraph_hit(ts, texts(links@), ps@, h));
            assert(h == word_hit(ts, pos@[s + j], li as int));
        }
        hits.push(h);
        proof {
            assert(run_hits(ts, pos@, s as int, j + 1, li as int) =~= run_hits(ts, pos@, s as int, j as int, li as int).push(h));
            assert(hits@ =~= h0 + run_hits(ts, pos@, s as int, j + 1, li as int));
        }
        j = j + 1;
    }
    assert(wt.len() == words@.len());
}

/// Looks for the `k`th link of the paragraph `ps` (address `href`, text
/// `label`) from position `from` on, adds its hits, and gives the position
/// the next link is looked for from.
fn link_step(
    hits: &mut Vec<LinkHit>,
    lines: &Vec<Vec<char>>,
    pos: &Vec<(usize, usize, usize)>,
    from: usize,
    ps: &str,
    links: &Vec<String>,
    k: usize,
    href: &String,
    label: &String,
) -> (next: usize)
    requires
        k < anchor_hrefs(ps@).len(),
        k < anchor_labels(ps@).len(),
        href@ == anchor_hrefs(ps@)[k as int],
        label@ == anchor_labels(ps@)[k as int],
        forall|m: int| 0 <= m < pos@.len() ==> word_pos_ok(lines@.map_values(|l: Vec<char>| l@), #[trigger] pos@[m]),
        forall|m: int| 0 <= m < old(hits)@.len() ==> paragraph_hit(lines@.map_values(|l: Vec<char>| l@), texts(links@), ps@, #[trigger] old(hits)@[m]),
    ensures
        forall|m: int| 0 <= m < final(hits)@.len() ==> paragraph_hit(lines@.map_values(|l: Vec<char>| l@), texts(links@), ps@, #[trigger] final(hits)@[m]),
        final(hits)@ + link_hits(lines@.map_values(|l: Vec<char>| l@), texts(links@), ps@, pos@, k + 1, next as int)
            == old(hits)@ + link_hits(lines@.map_values(|l: Vec<char>| l@), texts(links@), ps@, pos@, k as int, from as int),
{
    let ghost ts = lines@.map_values(|l: Vec<char>| l@);
    let ghost ls = texts(links@);
        let found = link_index(links, href);
        let words = words_of(&strip_tags_chars(&chars_of(label.as_str())));
        let ghost wt = texts(words@);
        proof {
            assert(wt == label_words(anchor_labels(ps@)[k as int]));
        }
        let ghost old_from: int = from as int;
        let ghost h0 = hits@;
        let ghost mut run_s: int = 0;
        let mut matched = false;
        let mut from = from;
        if let Some(li) = found {
            if words.len() > 0 {
                let run = find_run(lines, pos, from, &words);
                if let Some(s) = run {
                    proof {
                        run_s = s as int;
                        lemma_first_run_found(ts, pos@, from as int, wt, s as int);
                        assert(wt.len() == words@.len());
                        assert(s + words.len() <= pos.len());
                    }
                    push_run_hits(hits, lines, pos, s, &words, li, ps, links, k);
                    proof {
                        assert(wt.len() == words@.len());
                        assert(hits@ == h0 + run_hits(ts, pos@, run_s, wt.len() as int, li as int));
                    }
                    from = s + words.len();
                    matched = true;
                }
            }
        }
        proof {
            let found_s = index_from(ls, anchor_hrefs(ps@)[k as int], 0);
            let lw = label_words(anchor_labels(ps@)[k as int]);
            assert(lw == wt);
            assert(found_s is Some <==> found is Some);
            if found is Some {
                assert(found_s->0 == found->0 as int);
            }
            let run = if found_s is Some && lw.len() > 0 { first_run(ts, pos@, old_from, lw) } else { None };
            if matched {
                assert(run == Some(run_s));
                assert(hits@ == h0 + run_hits(ts, pos@, run_s, lw.len() as int, found_s->0));
                assert(from as int == run_s + lw.len());
                assert(link_hits(ts, ls, ps@, pos@, k as int, old_from)
                    == run_hits(ts, pos@, run_s, lw.len() as int, found_s->0) + link_hits(ts, ls, ps@, pos@, k + 1, from as int));
                assert(hits@ + link_hits(ts, ls, ps@, pos@, k + 1, from as int) =~= h0 + link_hits(ts, ls, ps@, pos@, k as int, old_from));
            } else {
                assert(run is None);
                assert(link_hits(ts, ls, ps@, pos@, k as int, old_from) == link_hits(ts, ls, ps@, pos@, k + 1, from as int));
            }
        }
        from
}

/// The hits of a paragraph's links on its wrapped lines `ws`, once `links`
/// holds their addresses: each link's words are looked for, in order, among
/// the words of the lines after those of the link before it, and each word
/// found is a hit.
pub fn paragraph_hits(ws: &Vec<String>, ps: &str, links: &Vec<String>) -> (r: Vec<LinkHit>)
    ensures
        forall|j: int| 0 <= j < r@.len() ==> paragraph_hit(texts(ws@), texts(links@), ps@, #[trigger] r@[j]),
        r@ == paragraph_link_hits(texts(ws@), texts(links@), ps@),
{
    let ghost ts = texts(ws@);
    let ghost ls = texts(links@);
    let mut lines: Vec<Vec<char>> = Vec::new();
    let mut i: usize = 0;
    while i < ws.len()
        invariant
            i <= ws.len(),
            ts == texts(ws@),
            lines@.map_values(|l: Vec<char>| l@) == ts.take(i as int),
        decreases ws.len() - i,
    {
        let c = chars_of(ws[i].as_str());
        assert(c@ == ts[i as int]);
        let ghost before = lines@;
        lines.push(c);
        assert(lines@.map_values(|l: Vec<char>| l@) =~= before.map_values(|l: Vec<char>| l@).push(c@));
        i = i + 1;
        assert(lines@.map_values(|l: Vec<char>| l@) =~= ts.take(i as int));
    }
    assert(lines@.map_values(|l: Vec<char>| l@) =~= ts);
    let pos = word_positions(&lines);
    let hrefs = find_anchor_hrefs(ps);
    let labels = find_anchor_labels(ps);
    let mut hits: Vec<LinkHit> = Vec::new();
    let mut from: usize = 0;
    let mut k: usize = 0;
    while k < hrefs.len() && k < labels.len()
        invariant
            ts == texts(ws@),
            ls == texts(links@),
            lines@.map_values(|l: Vec<char>| l@) == ts,
            reading_order(ts, pos@),
            forall|j: int| 0 <= j < pos@.len() ==> word_pos_ok(ts, #[trigger] pos@[j]),
            texts(hrefs@) == anchor_hrefs(ps@),
            texts(labels@) == anchor_labels(ps@),
            forall|j: int| 0 <= j < hits@.len() ==> paragraph_hit(ts, texts(links@), ps@, #[trigger] hits@[j]),
            hits@ + link_hits(ts, ls, ps@, pos@, k as int, from as int) == link_hits(ts, ls, ps@, pos@, 0, 0),
        decreases hrefs.len() - k,
    {
        proof {
            assert(hrefs@[k as int]@ == anchor_hrefs(ps@)[k as int]);
            assert(labels@[k as int]@ == anchor_labels(ps@)[k as int]);
        }
        let ghost before = hits@;
        let ghost old_from = from;
        from = link_step(&mut hits, &lines, &pos, from, ps, links, k, &hrefs[k], &labels[k]);
        assert(hits@ + link_hits(ts, ls, ps@, pos@, k + 1, from as int) == link_hits(ts, ls, ps@, pos@, 0, 0));
        k = k + 1;
    }
    assert(link_hits(ts, ls, ps@, pos@, k as int, from as int) =~= Seq::<LinkHit>::empty());
    assert(hits@ =~= link_hits(ts, ls, ps@, pos@, 0, 0));
    proof {
        lemma_reading_order_unique(ts, pos@, word_order(ts));
    }
    hits
}

} // verus!
