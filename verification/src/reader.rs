//! Laying article text out for the reader pane: word wrapping to the pane's
//! width in terminal cells.
use vstd::prelude::*;
use crate::fetcher::{decode_html_entities, html_entities_decoded, strip_tags_chars, stripped_text};
use crate::text::{all_ascii, 
    char_is_whitespace, chars_of, concat_str, contains_chars, occurs_at, push_char, replace_all, replace_all_chars,
    seq_contains, split_chars, split_on, str_to_uppercase, string_from_chars, trim_chars, trim_spec, truncate_string,
    truncated, unicode_white_space, uppercase_str,
};
use crate::model::{opt_view, Article};
use crate::pattern::{regex_all_groups, regex_captures_all, regex_replace_all, regex_replaced};
use crate::hits::{anchor_word, cells, marks_word, paragraph_hit, paragraph_hits, paragraph_link_hits, LinkHit};

verus! {

/// The number of terminal cells that text other than ASCII without a
/// carriage return takes, as `unicode_width::UnicodeWidthStr::width` counts
/// them.
pub uninterp spec fn other_display_width(s: Seq<char>) -> nat;

/// The number of terminal cells the text takes, as
/// `unicode_width::UnicodeWidthStr::width` counts them: in a string it counts
/// each ASCII character as one cell, but for a carriage return before a line
/// feed, so ASCII text without a carriage return is as wide as it is long.
pub open spec fn display_width(s: Seq<char>) -> nat {
    if all_ascii(s) && !s.contains('\r') {
        s.len()
    } else {
        other_display_width(s)
    }
}

/// Calls `UnicodeWidthStr::width`: `display_width(s)`, the width of other
/// text than ASCII without a carriage return being named
/// `other_display_width`.
#[verifier::external_body]
pub(crate) fn text_width(s: &str) -> (r: usize)
    ensures
        r == display_width(s@),
        !(all_ascii(s@) && !s@.contains('\r')) ==> r == other_display_width(s@),
{
    unicode_width::UnicodeWidthStr::width(s)
}

/// The lines of `s`, split at each newline, the one after a final newline
/// not counted (`str::lines`, but for a carriage return before a newline,
/// which is whitespace and so never reaches a wrapped line).
pub open spec fn lines_from(s: Seq<char>, i: int, cur: Seq<char>) -> Seq<Seq<char>>
    decreases s.len() - i,
{
    if i >= s.len() {
        if cur.len() > 0 {
            seq![cur]
        } else {
            Seq::empty()
        }
    } else if s[i] == '\n' {
        seq![cur] + lines_from(s, i + 1, Seq::empty())
    } else {
        lines_from(s, i + 1, cur.push(s[i]))
    }
}

/// The words of `s`: its maximal runs of non-whitespace characters.
pub open spec fn words_from(s: Seq<char>, i: int, cur: Seq<char>) -> Seq<Seq<char>>
    decreases s.len() - i,
{
    if i >= s.len() {
        if cur.len() > 0 {
            seq![cur]
        } else {
            Seq::empty()
        }
    } else if unicode_white_space(s[i]) {
        (if cur.len() > 0 {
            seq![cur]
        } else {
            Seq::empty()
        }) + words_from(s, i + 1, Seq::empty())
    } else {
        words_from(s, i + 1, cur.push(s[i]))
    }
}

/// Greedy filling: each word joins the current line, after one space, while
/// the line stays within `max` cells; otherwise the line is finished and
/// the word starts the next.
pub open spec fn pack(done: Seq<Seq<char>>, cur: Seq<char>, words: Seq<Seq<char>>, max: nat) -> Seq<Seq<char>>
    decreases words.len(),
{
    if words.len() == 0 {
        if cur.len() > 0 {
            done.push(cur)
        } else {
            done
        }
    } else {
        let w = words[0];
        let rest = words.drop_first();
        if cur.len() == 0 {
            pack(done, w, rest, max)
        } else if display_width(cur) + 1 + display_width(w) <= max {
            pack(done, cur.push(' ') + w, rest, max)
        } else {
            pack(done.push(cur), w, rest, max)
        }
    }
}

/// A wrapped line that joins words (it holds a space) fits in `max` cells.
pub open spec fn joined_line_fits(line: Seq<char>, max: nat) -> bool {
    line.contains(' ') ==> display_width(line) <= max
}

spec fn ascii_word_char(c: char) -> bool {
    (c as u32) < 128 && !unicode_white_space(c)
}

spec fn ascii_no_cr(s: Seq<char>) -> bool {
    forall|k: int| 0 <= k < s.len() ==> (#[trigger] s[k] as u32) < 128 && s[k] != '\r'
}

proof fn lemma_ascii_width(s: Seq<char>)
    requires
        ascii_no_cr(s),
    ensures
        display_width(s) == s.len(),
{
    assert(all_ascii(s));
    if s.contains('\r') {
        let k = choose|k: int| 0 <= k < s.len() && s[k] == '\r';
        assert(s[k] != '\r');
    }
}

proof fn lemma_words_ascii(s: Seq<char>, i: int, cur: Seq<char>)
    requires
        0 <= i,
        forall|k: int| i <= k < s.len() ==> (#[trigger] s[k] as u32) < 128,
        forall|k: int| 0 <= k < cur.len() ==> ascii_word_char(#[trigger] cur[k]),
    ensures
        forall|j: int, k: int| 0 <= j < words_from(s, i, cur).len() && 0 <= k < words_from(s, i, cur)[j].len()
            ==> ascii_word_char(#[trigger] words_from(s, i, cur)[j][k]),
        forall|j: int| 0 <= j < words_from(s, i, cur).len() ==> (#[trigger] words_from(s, i, cur)[j]).len() > 0,
    decreases s.len() - i,
{
    let r = words_from(s, i, cur);
    if i >= s.len() {
        assert forall|j: int, k: int| 0 <= j < r.len() && 0 <= k < r[j].len() implies ascii_word_char(#[trigger] r[j][k]) by {
            assert(r[j] == cur);
        }
        assert forall|j: int| 0 <= j < r.len() implies (#[trigger] r[j]).len() > 0 by {
            assert(r[j] == cur);
        }
    } else if unicode_white_space(s[i]) {
        lemma_words_ascii(s, i + 1, Seq::empty());
        let head: Seq<Seq<char>> = if cur.len() > 0 { seq![cur] } else { Seq::empty() };
        let tail = words_from(s, i + 1, Seq::empty());
        assert(r == head + tail);
        assert forall|j: int, k: int| 0 <= j < r.len() && 0 <= k < r[j].len() implies ascii_word_char(#[trigger] r[j][k]) by {
            if j < head.len() {
                assert(r[j] == cur);
            } else {
                assert(r[j] == tail[j - head.len()]);
            }
        }
        assert forall|j: int| 0 <= j < r.len() implies (#[trigger] r[j]).len() > 0 by {
            if j < head.len() {
                assert(r[j] == cur);
            } else {
                assert(r[j] == tail[j - head.len()]);
            }
        }
    } else {
        let c2 = cur.push(s[i]);
        assert forall|k: int| 0 <= k < c2.len() implies ascii_word_char(#[trigger] c2[k]) by {
            if k < cur.len() {
                assert(c2[k] == cur[k]);
            }
        }
        lemma_words_ascii(s, i + 1, c2);
        assert(r == words_from(s, i + 1, c2));
    }
}

proof fn lemma_pack_fits(done: Seq<Seq<char>>, cur: Seq<char>, words: Seq<Seq<char>>, max: nat)
    requires
        forall|j: int| 0 <= j < done.len() ==> joined_line_fits(#[trigger] done[j], max),
        ascii_no_cr(cur),
        joined_line_fits(cur, max),
        forall|j: int, k: int| 0 <= j < words.len() && 0 <= k < words[j].len() ==> ascii_word_char(#[trigger] words[j][k]),
    ensures
        forall|j: int| 0 <= j < pack(done, cur, words, max).len() ==> joined_line_fits(#[trigger] pack(done, cur, words, max)[j], max),
    decreases words.len(),
{
    if words.len() == 0 {
        if cur.len() > 0 {
            assert(pack(done, cur, words, max) == done.push(cur));
            assert forall|j: int| 0 <= j < done.push(cur).len() implies joined_line_fits(#[trigger] done.push(cur)[j], max) by {
                if j < done.len() {
                    assert(done.push(cur)[j] == done[j]);
                }
            }
        }
    } else {
        let w = words[0];
        let rest = words.drop_first();
        assert forall|j: int, k: int| 0 <= j < rest.len() && 0 <= k < rest[j].len() implies ascii_word_char(#[trigger] rest[j][k]) by {
            assert(rest[j] == words[j + 1]);
            assert(ascii_word_char(words[j + 1][k]));
        }
        assert forall|k: int| 0 <= k < w.len() implies (#[trigger] w[k] as u32) < 128 && w[k] != '\r' by {
            assert(ascii_word_char(words[0][k]));
        }
        assert(!w.contains(' ')) by {
            if w.contains(' ') {
                let k = choose|k: int| 0 <= k < w.len() && w[k] == ' ';
                assert(ascii_word_char(words[0][k]));
            }
        }
        if cur.len() == 0 {
            assert(pack(done, cur, words, max) == pack(done, w, rest, max));
            lemma_pack_fits(done, w, rest, max);
        } else if display_width(cur) + 1 + display_width(w) <= max {
            let joined = cur.push(' ') + w;
            lemma_ascii_width(cur);
            lemma_ascii_width(w);
            assert forall|k: int| 0 <= k < joined.len() implies (#[trigger] joined[k] as u32) < 128 && joined[k] != '\r' by {
                if k < cur.len() {
                    assert(joined[k] == cur[k]);
                } else if k > cur.len() {
                    assert(joined[k] == w[k - cur.len() - 1]);
                }
            }
            lemma_ascii_width(joined);
            assert(pack(done, cur, words, max) == pack(done, joined, rest, max));
            lemma_pack_fits(done, joined, rest, max);
        } else {
            assert forall|j: int| 0 <= j < done.push(cur).len() implies joined_line_fits(#[trigger] done.push(cur)[j], max) by {
                if j < done.len() {
                    assert(done.push(cur)[j] == done[j]);
                }
            }
            assert(pack(done, cur, words, max) == pack(done.push(cur), w, rest, max));
            lemma_pack_fits(done.push(cur), w, rest, max);
        }
    }
}

/// Words joined by single spaces.
pub open spec fn joined(ws: Seq<Seq<char>>) -> Seq<char>
    decreases ws.len(),
{
    if ws.len() == 0 {
        Seq::empty()
    } else if ws.len() == 1 {
        ws[0]
    } else {
        joined(ws.drop_last()).push(' ') + ws.last()
    }
}

/// The words of the groups in turn.
pub open spec fn concat_groups(g: Seq<Seq<Seq<char>>>) -> Seq<Seq<char>>
    decreases g.len(),
{
    if g.len() == 0 {
        Seq::empty()
    } else {
        concat_groups(g.drop_last()) + g.last()
    }
}

/// Each group but the last was closed only because the first word of the
/// next one, after a space, would not have fitted in `max` cells.
pub open spec fn closed_when_full(g: Seq<Seq<Seq<char>>>, max: nat) -> bool {
    forall|j: int| 0 <= j < g.len() - 1 ==> display_width(joined(#[trigger] g[j])) + 1 + display_width(g[j + 1][0]) > max
}

/// `lines` are the groups `g` of words, each joined by single spaces; no
/// group is empty, and a line ends only where the next word would not fit.
pub open spec fn greedy_lines(lines: Seq<Seq<char>>, g: Seq<Seq<Seq<char>>>, max: nat) -> bool {
    &&& lines == g.map_values(|ws: Seq<Seq<char>>| joined(ws))
    &&& forall|j: int| 0 <= j < g.len() ==> (#[trigger] g[j]).len() > 0
    &&& closed_when_full(g, max)
}

proof fn lemma_joined_nonempty(ws: Seq<Seq<char>>)
    requires
        ws.len() > 0,
        forall|j: int| 0 <= j < ws.len() ==> (#[trigger] ws[j]).len() > 0,
    ensures
        joined(ws).len() > 0,
    decreases ws.len(),
{
    if ws.len() > 1 {
        lemma_joined_nonempty(ws.drop_last());
    }
}

proof fn lemma_pack_greedy(
    done: Seq<Seq<char>>,
    cur: Seq<char>,
    words: Seq<Seq<char>>,
    max: nat,
    gd: Seq<Seq<Seq<char>>>,
    gc: Seq<Seq<char>>,
)
    requires
        forall|j: int| 0 <= j < words.len() ==> (#[trigger] words[j]).len() > 0,
        forall|j: int| 0 <= j < gc.len() ==> (#[trigger] gc[j]).len() > 0,
        cur == joined(gc),
        gc.len() == 0 ==> gd.len() == 0,
        gc.len() == 0 ==> cur.len() == 0,
        greedy_lines(done, gd, max),
        gc.len() > 0 ==> closed_when_full(gd.push(gc), max),
    ensures
        exists|g: Seq<Seq<Seq<char>>>| #[trigger] greedy_lines(pack(done, cur, words, max), g, max)
            && concat_groups(g) == concat_groups(gd) + gc + words,
    decreases words.len(),
{
    let jm = |ws: Seq<Seq<char>>| joined(ws);
    if gc.len() > 0 {
        lemma_joined_nonempty(gc);
    }
    if words.len() == 0 {
        if cur.len() > 0 {
            let g = gd.push(gc);
            assert(pack(done, cur, words, max) == done.push(cur));
            assert(g.map_values(jm) =~= done.push(cur));
            assert(g.drop_last() =~= gd);
            assert(concat_groups(g) == concat_groups(gd) + gc);
            assert(concat_groups(gd) + gc + words =~= concat_groups(gd) + gc);
            assert(greedy_lines(pack(done, cur, words, max), g, max));
        } else {
            assert(gc.len() == 0);
            assert(concat_groups(gd) + gc + words =~= concat_groups(gd));
            assert(greedy_lines(pack(done, cur, words, max), gd, max));
        }
    } else {
        let w = words[0];
        let rest = words.drop_first();
        assert forall|j: int| 0 <= j < rest.len() implies (#[trigger] rest[j]).len() > 0 by {
            assert(rest[j] == words[j + 1]);
        }
        if cur.len() == 0 {
            assert(gc.len() == 0);
            assert(pack(done, cur, words, max) == pack(done, w, rest, max));
            let gc2 = seq![w];
            assert(joined(gc2) == w);
            assert(gd.push(gc2).len() == 1);
            lemma_pack_greedy(done, w, rest, max, gd, gc2);
            assert(concat_groups(gd) + gc2 + rest =~= concat_groups(gd) + gc + words);
        } else if display_width(cur) + 1 + display_width(w) <= max {
            let gc2 = gc.push(w);
            let cur2 = cur.push(' ') + w;
            assert(gc2.drop_last() =~= gc);
            assert(joined(gc2) == cur2);
            assert(pack(done, cur, words, max) == pack(done, cur2, rest, max));
            assert forall|j: int| 0 <= j < gc2.len() implies (#[trigger] gc2[j]).len() > 0 by {
                if j < gc.len() {
                    assert(gc2[j] == gc[j]);
                }
            }
            let a = gd.push(gc);
            let b = gd.push(gc2);
            assert forall|j: int| 0 <= j < b.len() - 1 implies display_width(joined(#[trigger] b[j])) + 1 + display_width(b[j + 1][0]) > max by {
                assert(b[j] == a[j]);
                if j + 1 < gd.len() {
                    assert(b[j + 1] == a[j + 1]);
                } else {
                    assert(b[j + 1][0] == gc2[0]);
                    assert(gc2[0] == gc[0]);
                    assert(a[j + 1] == gc);
                }
            }
            lemma_pack_greedy(done, cur2, rest, max, gd, gc2);
            assert(concat_groups(gd) + gc2 + rest =~= concat_groups(gd) + gc + words);
        } else {
            let gd2 = gd.push(gc);
            let gc2 = seq![w];
            assert(joined(gc2) == w);
            assert(pack(done, cur, words, max) == pack(done.push(cur), w, rest, max));
            assert(gd2.map_values(jm) =~= done.push(cur));
            assert forall|j: int| 0 <= j < gd2.len() implies (#[trigger] gd2[j]).len() > 0 by {
                if j < gd.len() {
                    assert(gd2[j] == gd[j]);
                }
            }
            let b = gd2.push(gc2);
            assert forall|j: int| 0 <= j < b.len() - 1 implies display_width(joined(#[trigger] b[j])) + 1 + display_width(b[j + 1][0]) > max by {
                assert(b[j] == gd2[j]);
                if j + 1 < gd2.len() {
                    assert(b[j + 1] == gd2[j + 1]);
                } else {
                    assert(b[j] == gc);
                    assert(b[j + 1] == gc2);
                }
            }
            assert(greedy_lines(done.push(cur), gd2, max));
            lemma_pack_greedy(done.push(cur), w, rest, max, gd2, gc2);
            assert(gd2.drop_last() =~= gd);
            assert(concat_groups(gd2) == concat_groups(gd) + gc);
            assert(concat_groups(gd2) + gc2 + rest =~= concat_groups(gd) + gc + words);
        }
    }
}

/// Wrapping one line fills each wrapped line greedily with the line's
/// words, in order and none lost: the wrapped lines are groups of the words
/// joined by single spaces, and a wrapped line ends only where the next word,
/// after a space, would not fit in `max` cells. A blank line stays one empty
/// line.
pub proof fn lemma_wrap_line_greedy(line: Seq<char>, max: nat)
    ensures
        words_from(line, 0, Seq::empty()).len() == 0 ==> wrap_line(line, max) == seq![Seq::<char>::empty()],
        words_from(line, 0, Seq::empty()).len() > 0 ==> exists|g: Seq<Seq<Seq<char>>>|
            #[trigger] greedy_lines(wrap_line(line, max), g, max) && concat_groups(g) == words_from(line, 0, Seq::empty()),
{
    let words = words_from(line, 0, Seq::empty());
    if words.len() > 0 {
        lemma_words_nonempty(line, 0, Seq::empty());
        let gd: Seq<Seq<Seq<char>>> = Seq::empty();
        let gc: Seq<Seq<char>> = Seq::empty();
        assert(greedy_lines(Seq::empty(), gd, max)) by {
            assert(gd.map_values(|ws: Seq<Seq<char>>| joined(ws)) =~= Seq::<Seq<char>>::empty());
        }
        lemma_pack_greedy(Seq::empty(), Seq::empty(), words, max, gd, gc);
        assert(concat_groups(gd) + gc + words =~= words);
        assert(wrap_line(line, max) == pack(Seq::empty(), Seq::empty(), words, max));
        let g = choose|g: Seq<Seq<Seq<char>>>| #[trigger] greedy_lines(pack(Seq::empty(), Seq::empty(), words, max), g, max)
            && concat_groups(g) == concat_groups(gd) + gc + words;
        assert(greedy_lines(wrap_line(line, max), g, max));
    }
}

proof fn lemma_words_nonempty(s: Seq<char>, i: int, cur: Seq<char>)
    requires
        0 <= i,
    ensures
        forall|j: int| 0 <= j < words_from(s, i, cur).len() ==> (#[trigger] words_from(s, i, cur)[j]).len() > 0,
    decreases s.len() - i,
{
    let r = words_from(s, i, cur);
    if i >= s.len() {
        assert forall|j: int| 0 <= j < r.len() implies (#[trigger] r[j]).len() > 0 by {
            assert(r[j] == cur);
        }
    } else if unicode_white_space(s[i]) {
        lemma_words_nonempty(s, i + 1, Seq::empty());
        let head: Seq<Seq<char>> = if cur.len() > 0 { seq![cur] } else { Seq::empty() };
        let tail = words_from(s, i + 1, Seq::empty());
        assert(r == head + tail);
        assert forall|j: int| 0 <= j < r.len() implies (#[trigger] r[j]).len() > 0 by {
            if j < head.len() {
                assert(r[j] == cur);
            } else {
                assert(r[j] == tail[j - head.len()]);
            }
        }
    } else {
        lemma_words_nonempty(s, i + 1, cur.push(s[i]));
        assert(r == words_from(s, i + 1, cur.push(s[i])));
    }
}

/// Wrapping ASCII text never leaves a line that joins words wider than
/// `max` cells, the spaces between them counted: a word joins a line only
/// when it still fits after one space. (A single word wider than `max`
/// keeps a line of its own.)
pub proof fn lemma_wrap_line_fits(line: Seq<char>, max: nat)
    requires
        all_ascii(line),
    ensures
        forall|j: int| 0 <= j < wrap_line(line, max).len() ==> joined_line_fits(#[trigger] wrap_line(line, max)[j], max),
{
    lemma_words_ascii(line, 0, Seq::empty());
    let words = words_from(line, 0, Seq::empty());
    if words.len() == 0 {
        let r = wrap_line(line, max);
        assert(r =~= seq![Seq::<char>::empty()]);
        assert(!Seq::<char>::empty().contains(' '));
    } else {
        assert(!Seq::<char>::empty().contains(' '));
        lemma_pack_fits(Seq::empty(), Seq::empty(), words, max);
    }
}

/// One line of text wrapped: a blank line stays one empty line.
pub open spec fn wrap_line(line: Seq<char>, max: nat) -> Seq<Seq<char>> {
    let words = words_from(line, 0, Seq::empty());
    if words.len() == 0 {
        seq![Seq::empty()]
    } else {
        pack(Seq::empty(), Seq::empty(), words, max)
    }
}

/// The wrapped lines of `lines` in turn.
pub open spec fn wrap_lines(lines: Seq<Seq<char>>, max: nat) -> Seq<Seq<char>>
    decreases lines.len(),
{
    if lines.len() == 0 {
        Seq::empty()
    } else {
        wrap_lines(lines.drop_last(), max) + wrap_line(lines.last(), max)
    }
}

proof fn lemma_lines_ascii(s: Seq<char>, i: int, cur: Seq<char>)
    requires
        0 <= i,
        forall|k: int| i <= k < s.len() ==> (#[trigger] s[k] as u32) < 128,
        all_ascii(cur),
    ensures
        forall|j: int| 0 <= j < lines_from(s, i, cur).len() ==> all_ascii(#[trigger] lines_from(s, i, cur)[j]),
    decreases s.len() - i,
{
    let r = lines_from(s, i, cur);
    if i >= s.len() {
        assert forall|j: int| 0 <= j < r.len() implies all_ascii(#[trigger] r[j]) by {
            assert(r[j] == cur);
        }
    } else if s[i] == '\n' {
        lemma_lines_ascii(s, i + 1, Seq::empty());
        let tail = lines_from(s, i + 1, Seq::empty());
        assert(r == seq![cur] + tail);
        assert forall|j: int| 0 <= j < r.len() implies all_ascii(#[trigger] r[j]) by {
            if j > 0 {
                assert(r[j] == tail[j - 1]);
            }
        }
    } else {
        let c2 = cur.push(s[i]);
        assert forall|k: int| 0 <= k < c2.len() implies (#[trigger] c2[k] as u32) < 128 by {
            if k < cur.len() {
                assert(c2[k] == cur[k]);
            }
        }
        lemma_lines_ascii(s, i + 1, c2);
        assert(r == lines_from(s, i + 1, c2));
    }
}

proof fn lemma_wrap_lines_fit(lines: Seq<Seq<char>>, max: nat)
    requires
        forall|j: int| 0 <= j < lines.len() ==> all_ascii(#[trigger] lines[j]),
    ensures
        forall|j: int| 0 <= j < wrap_lines(lines, max).len() ==> joined_line_fits(#[trigger] wrap_lines(lines, max)[j], max),
    decreases lines.len(),
{
    if lines.len() > 0 {
        let d = lines.drop_last();
        assert forall|j: int| 0 <= j < d.len() implies all_ascii(#[trigger] d[j]) by {
            assert(d[j] == lines[j]);
        }
        lemma_wrap_lines_fit(d, max);
        lemma_wrap_line_fits(lines.last(), max);
        let a = wrap_lines(d, max);
        let b = wrap_line(lines.last(), max);
        let r = wrap_lines(lines, max);
        assert(r == a + b);
        assert forall|j: int| 0 <= j < r.len() implies joined_line_fits(#[trigger] r[j], max) by {
            if j < a.len() {
                assert(r[j] == a[j]);
            } else {
                assert(r[j] == b[j - a.len()]);
            }
        }
    }
}

/// Text wrapped to `max` cells: each of its lines wrapped on its own; at
/// least one (empty) line; a width of zero leaves the text as one line.
pub open spec fn wrapped(text: Seq<char>, max: nat) -> Seq<Seq<char>> {
    if max == 0 {
        seq![text]
    } else {
        let ls = wrap_lines(lines_from(text, 0, Seq::empty()), max);
        if ls.len() == 0 {
            seq![Seq::empty()]
        } else {
            ls
        }
    }
}

/// Wrapping ASCII text to a width above zero never leaves a line that joins
/// words wider than that width, the spaces between them counted.
pub proof fn lemma_wrapped_lines_fit(text: Seq<char>, max: nat)
    requires
        all_ascii(text),
        max > 0,
    ensures
        forall|j: int| 0 <= j < wrapped(text, max).len() ==> joined_line_fits(#[trigger] wrapped(text, max)[j], max),
{
    lemma_lines_ascii(text, 0, Seq::empty());
    lemma_wrap_lines_fit(lines_from(text, 0, Seq::empty()), max);
    let ls = wrap_lines(lines_from(text, 0, Seq::empty()), max);
    if ls.len() == 0 {
        assert(!Seq::<char>::empty().contains(' '));
        assert(wrapped(text, max) =~= seq![Seq::<char>::empty()]);
    }
}

/// The texts of the strings.
pub open spec fn texts(v: Seq<String>) -> Seq<Seq<char>> {
    v.map_values(|s: String| s@)
}

proof fn lemma_words_step(s: Seq<char>, i: int, cur: Seq<char>)
    requires
        0 <= i < s.len(),
    ensures
        words_from(s, i, cur) == if unicode_white_space(s[i]) {
            (if cur.len() > 0 {
                seq![cur]
            } else {
                Seq::empty()
            }) + words_from(s, i + 1, Seq::empty())
        } else {
            words_from(s, i + 1, cur.push(s[i]))
        },
{
}

proof fn lemma_lines_step(s: Seq<char>, i: int, cur: Seq<char>)
    requires
        0 <= i < s.len(),
    ensures
        lines_from(s, i, cur) == if s[i] == '\n' {
            seq![cur] + lines_from(s, i + 1, Seq::empty())
        } else {
            lines_from(s, i + 1, cur.push(s[i]))
        },
{
}

pub(crate) fn words_of(line: &Vec<char>) -> (r: Vec<String>)
    ensures
        texts(r@) == words_from(line@, 0, Seq::empty()),
{
    let mut words: Vec<String> = Vec::new();
    let mut cur: Vec<char> = Vec::new();
    let mut i: usize = 0;
    while i < line.len()
        invariant
            i <= line.len(),
            texts(words@) + words_from(line@, i as int, cur@) == words_from(line@, 0, Seq::empty()),
        decreases line.len() - i,
    {
        let c = line[i];
        let ghost before = texts(words@);
        let ghost cur0 = cur@;
        proof {
            lemma_words_step(line@, i as int, cur0);
        }
        if char_is_whitespace(c) {
            if cur.len() > 0 {
                words.push(string_from_chars(cur.as_slice()));
                cur = Vec::new();
                assert(texts(words@) =~= before.push(cur0));
                assert(before + (seq![cur0] + words_from(line@, i + 1, Seq::empty())) =~= before.push(cur0)
                    + words_from(line@, i + 1, Seq::empty()));
            } else {
                assert(cur0 =~= Seq::<char>::empty());
                assert(before + (Seq::<Seq<char>>::empty() + words_from(line@, i + 1, Seq::empty())) =~= before
                    + words_from(line@, i + 1, Seq::empty()));
            }
        } else {
            cur.push(c);
            assert(cur@ == cur0.push(line@[i as int]));
        }
        i = i + 1;
    }
    let ghost before = texts(words@);
    if cur.len() > 0 {
        let ghost cur0 = cur@;
        words.push(string_from_chars(cur.as_slice()));
        assert(texts(words@) =~= before.push(cur0));
        assert(before + seq![cur0] =~= before.push(cur0));
    } else {
        assert(before + Seq::<Seq<char>>::empty() =~= before);
    }
    words
}

/// Packs the words greedily into lines of at most `max` cells.
fn pack_words(words: &Vec<String>, max: usize) -> (r: Vec<String>)
    ensures
        texts(r@) == pack(Seq::empty(), Seq::empty(), texts(words@), max as nat),
{
    let mut lines: Vec<String> = Vec::new();
    let mut cur = String::new();
    let mut i: usize = 0;
    assert(texts(words@).skip(0) =~= texts(words@));
    assert(texts(lines@) =~= Seq::<Seq<char>>::empty());
    while i < words.len()
        invariant
            i <= words.len(),
            pack(texts(lines@), cur@, texts(words@).skip(i as int), max as nat) == pack(
                Seq::empty(),
                Seq::empty(),
                texts(words@),
                max as nat,
            ),
        decreases words.len() - i,
    {
        let w = &words[i];
        proof {
            assert(texts(words@).skip(i as int)[0] == w@);
            assert(texts(words@).skip(i as int).drop_first() =~= texts(words@).skip(i as int + 1));
        }
        if cur.as_str().is_empty() {
            cur = w.clone();
        } else {
            let cur_len = text_width(cur.as_str());
            let word_len = text_width(w.as_str());
            if (cur_len as u128) + 1 + (word_len as u128) <= max as u128 {
                push_char(&mut cur, ' ');
                cur = concat_str(cur.as_str(), w.as_str());
            } else {
                let ghost before = texts(lines@);
                let ghost c0 = cur@;
                lines.push(cur);
                cur = w.clone();
                assert(texts(lines@) =~= before.push(c0));
            }
        }
        i = i + 1;
    }
    let ghost before = texts(lines@);
    if !cur.as_str().is_empty() {
        let ghost c0 = cur@;
        lines.push(cur);
        assert(texts(lines@) =~= before.push(c0));
    }
    lines
}

/// The lines of the text, split at each newline.
fn lines_of(text: &Vec<char>) -> (r: Vec<Vec<char>>)
    ensures
        r@.map_values(|l: Vec<char>| l@) == lines_from(text@, 0, Seq::empty()),
{
    let mut lines: Vec<Vec<char>> = Vec::new();
    let mut cur: Vec<char> = Vec::new();
    let mut i: usize = 0;
    while i < text.len()
        invariant
            i <= text.len(),
            lines@.map_values(|l: Vec<char>| l@) + lines_from(text@, i as int, cur@) == lines_from(
                text@,
                0,
                Seq::empty(),
            ),
        decreases text.len() - i,
    {
        let c = text[i];
        let ghost before = lines@.map_values(|l: Vec<char>| l@);
        let ghost cur0 = cur@;
        proof {
            lemma_lines_step(text@, i as int, cur0);
        }
        if c == '\n' {
            lines.push(cur);
            cur = Vec::new();
            assert(lines@.map_values(|l: Vec<char>| l@) =~= before.push(cur0));
            assert(before + (seq![cur0] + lines_from(text@, i + 1, Seq::empty())) =~= before.push(cur0)
                + lines_from(text@, i + 1, Seq::empty()));
        } else {
            cur.push(c);
        }
        i = i + 1;
    }
    let ghost before = lines@.map_values(|l: Vec<char>| l@);
    if cur.len() > 0 {
        let ghost cur0 = cur@;
        lines.push(cur);
        assert(lines@.map_values(|l: Vec<char>| l@) =~= before.push(cur0));
        assert(before + seq![cur0] =~= before.push(cur0));
    } else {
        assert(before + Seq::<Seq<char>>::empty() =~= before);
    }
    lines
}

/// Wraps text to lines of at most `max_width` terminal cells, breaking
/// only between words (a word wider than the line gets a line of its own).
pub fn wrap_text(text: &str, max_width: usize) -> (r: Vec<String>)
    ensures
        texts(r@) == wrapped(text@, max_width as nat),
{
    if max_width == 0 {
        let r = vec![text.to_owned()];
        assert(texts(r@) =~= seq![text@]);
        return r;
    }
    let lines = lines_of(&chars_of(text));
    let ghost ls = lines@.map_values(|l: Vec<char>| l@);
    let mut out: Vec<String> = Vec::new();
    let mut k: usize = 0;
    while k < lines.len()
        invariant
            k <= lines.len(),
            ls == lines@.map_values(|l: Vec<char>| l@),
            max_width > 0,
            texts(out@) == wrap_lines(ls.take(k as int), max_width as nat),
        decreases lines.len() - k,
    {
        proof {
            assert(ls.take(k as int + 1).drop_last() =~= ls.take(k as int));
            assert(ls.take(k as int + 1).last() == lines@[k as int]@);
        }
        let words = words_of(&lines[k]);
        let ghost before = texts(out@);
        if words.len() == 0 {
            out.push(String::new());
            assert(texts(out@) =~= before + seq![Seq::<char>::empty()]);
        } else {
            let packed = pack_words(&words, max_width);
            let mut j: usize = 0;
            while j < packed.len()
                invariant
                    j <= packed.len(),
                    texts(out@) == before + texts(packed@).take(j as int),
                decreases packed.len() - j,
            {
                let ghost o = texts(out@);
                out.push(packed[j].clone());
                assert(texts(out@) =~= o.push(packed@[j as int]@));
                assert(texts(packed@).take(j as int + 1) =~= texts(packed@).take(j as int).push(packed@[j as int]@));
                assert(texts(out@) =~= before + texts(packed@).take(j as int + 1));
                j = j + 1;
            }
            assert(texts(packed@).take(packed.len() as int) =~= texts(packed@));
        }
        k = k + 1;
    }
    assert(ls.take(lines.len() as int) =~= ls);
    if out.len() == 0 {
        let r = vec![String::new()];
        assert(texts(r@) =~= seq![Seq::<char>::empty()]);
        return r;
    }
    out
}

/// What a piece of the reader's text is, which decides how it is drawn.
#[derive(Debug, Clone, Copy, PartialEq, Eq, Structural)]
pub enum Role {
    FeedName,
    Separator,
    Author,
    Title,
    Meta,
    LinkIcon,
    LinkUrl,
    Divider,
    Body,
    H1,
    H2,
    H3,
    QuoteBorder,
    Quote,
    CodeBorder,
    Code,
    Bullet,
    Indent,
    /// The note shown when there is nothing to show.
    Dim,
}

/// A run of text in one role.
#[derive(Debug, Clone)]
pub struct StyledText {
    pub role: Role,
    pub text: String,
}

/// A line as roles and texts.
pub type LineView = Seq<(Role, Seq<char>)>;

/// The content of a line.
pub open spec fn line_view(l: Seq<StyledText>) -> LineView {
    l.map_values(|t: StyledText| (t.role, t.text@))
}

/// The content of lines.
pub open spec fn lines_view(v: Seq<Vec<StyledText>>) -> Seq<LineView> {
    v.map_values(|l: Vec<StyledText>| line_view(l@))
}

/// `s` without the copies of `c` it starts with (`str::trim_start_matches`).
pub open spec fn trim_start_char(s: Seq<char>, c: char) -> Seq<char>
    decreases s.len(),
{
    if s.len() > 0 && s[0] == c {
        trim_start_char(s.drop_first(), c)
    } else {
        s
    }
}

/// `s` without the copies of `c` it ends with.
pub open spec fn trim_end_char(s: Seq<char>, c: char) -> Seq<char>
    decreases s.len(),
{
    if s.len() > 0 && s.last() == c {
        trim_end_char(s.drop_last(), c)
    } else {
        s
    }
}

fn trim_start_char_exec(s: &Vec<char>, c: char) -> (r: Vec<char>)
    ensures
        r@ == trim_start_char(s@, c),
{
    let mut i: usize = 0;
    assert(s@.skip(0) =~= s@);
    while i < s.len() && s[i] == c
        invariant
            i <= s.len(),
            trim_start_char(s@, c) == trim_start_char(s@.skip(i as int), c),
        decreases s.len() - i,
    {
        assert(s@.skip(i as int).drop_first() =~= s@.skip(i as int + 1));
        i = i + 1;
    }
    let mut r: Vec<char> = Vec::new();
    let mut k: usize = i;
    while k < s.len()
        invariant
            i <= k <= s.len(),
            r@ == s@.subrange(i as int, k as int),
        decreases s.len() - k,
    {
        r.push(s[k]);
        k = k + 1;
        assert(r@ =~= s@.subrange(i as int, k as int));
    }
    assert(r@ =~= s@.skip(i as int));
    r
}

fn trim_end_char_exec(s: &Vec<char>, c: char) -> (r: Vec<char>)
    ensures
        r@ == trim_end_char(s@, c),
{
    let mut n: usize = s.len();
    assert(s@.take(n as int) =~= s@);
    while n > 0 && s[n - 1] == c
        invariant
            n <= s.len(),
            trim_end_char(s@, c) == trim_end_char(s@.take(n as int), c),
        decreases n,
    {
        assert(s@.take(n as int).drop_last() =~= s@.take(n - 1));
        n = n - 1;
    }
    let mut r: Vec<char> = Vec::new();
    let mut k: usize = 0;
    while k < n
        invariant
            k <= n <= s.len(),
            r@ == s@.take(k as int),
        decreases n - k,
    {
        r.push(s[k]);
        k = k + 1;
        assert(r@ =~= s@.take(k as int));
    }
    r
}

/// `c` repeated `n` times.
pub open spec fn repeated(c: char, n: nat) -> Seq<char> {
    Seq::new(n, |i: int| c)
}

fn repeat_char(c: char, n: usize) -> (r: String)
    ensures
        r@ == repeated(c, n as nat),
{
    let mut s = String::new();
    let mut i: usize = 0;
    while i < n
        invariant
            i <= n,
            s@ == repeated(c, i as nat),
        decreases n - i,
    {
        push_char(&mut s, c);
        i = i + 1;
        assert(s@ =~= repeated(c, i as nat));
    }
    s
}

/// `a - b`, or zero.
pub open spec fn minus(a: nat, b: nat) -> nat {
    if a >= b {
        (a - b) as nat
    } else {
        0
    }
}

/// A line of one run.
pub open spec fn one(role: Role, text: Seq<char>) -> LineView {
    seq![(role, text)]
}

/// Each wrapped line as one run of `role`.
pub open spec fn runs(ws: Seq<Seq<char>>, role: Role) -> Seq<LineView> {
    ws.map_values(|w: Seq<char>| one(role, w))
}

/// A heading: set off by blank lines, its `#` markers dropped.
pub open spec fn heading_lines(p: Seq<char>, role: Role, width: nat) -> Seq<LineView> {
    let h = trim_spec(trim_start_char(stripped_text(p), '#'));
    seq![Seq::empty()] + runs(wrapped(h, width), role) + seq![Seq::empty()]
}

/// A quotation: each line behind a bar, its `>` markers dropped.
pub open spec fn quote_lines(p: Seq<char>, width: nat) -> Seq<LineView> {
    let q = trim_spec(trim_start_char(stripped_text(p), '>'));
    wrapped(q, minus(width, 4)).map_values(|w: Seq<char>| seq![(Role::QuoteBorder, "│ "@), (Role::Quote, w)])
        + seq![Seq::empty()]
}

/// A code block: framed, its backticks dropped.
pub open spec fn code_lines(p: Seq<char>, width: nat) -> Seq<LineView> {
    let code = trim_spec(trim_end_char(trim_start_char(stripped_text(p), '`'), '`'));
    seq![seq![(Role::CodeBorder, "┌── Code Snippet "@), (Role::Divider, repeated('─', minus(width, 18)))]]
        + lines_from(code, 0, Seq::empty()).map_values(|l: Seq<char>| seq![(Role::CodeBorder, "│ "@), (Role::Code, l)])
        + seq![seq![(Role::CodeBorder, "└──"@), (Role::Divider, repeated('─', minus(width, 5)))]]
        + seq![Seq::empty()]
}

/// One list item: its marker dropped, a bullet before its first line and
/// an indent before the rest; a blank item shows nothing.
pub open spec fn item_lines(item: Seq<char>, width: nat) -> Seq<LineView> {
    let t = trim_spec(item);
    if t.len() == 0 {
        Seq::empty()
    } else {
        let body = trim_spec(trim_start_char(trim_start_char(trim_start_char(stripped_text(t), '*'), '-'), '•'));
        let ws = wrapped(body, minus(width, 4));
        Seq::new(
            ws.len(),
            |k: int|
                if k == 0 {
                    seq![(Role::Bullet, "  • "@), (Role::Body, ws[k])]
                } else {
                    seq![(Role::Indent, "    "@), (Role::Body, ws[k])]
                },
        )
    }
}

/// The items of a list in turn.
pub open spec fn items_lines(items: Seq<Seq<char>>, width: nat) -> Seq<LineView>
    decreases items.len(),
{
    if items.len() == 0 {
        Seq::empty()
    } else {
        items_lines(items.drop_last(), width) + item_lines(items.last(), width)
    }
}

/// A list: each line of the block an item, then a blank line.
pub open spec fn list_lines(p: Seq<char>, width: nat) -> Seq<LineView> {
    items_lines(split_on(p, "\n"@), width) + seq![Seq::empty()]
}

/// `s` begins with `p`.
pub open spec fn begins(s: Seq<char>, p: Seq<char>) -> bool {
    occurs_at(s, p, 0)
}

/// What a block of the article body is, by its first characters (or, for
/// lists, by what it holds): 1 to 3 a heading, 4 a quotation, 5 code, 6 a
/// list, 7 a paragraph.
pub open spec fn block_kind(p: Seq<char>) -> int {
    if begins(p, "<h1"@) || begins(p, "# "@) {
        1
    } else if begins(p, "<h2"@) || begins(p, "## "@) {
        2
    } else if begins(p, "<h3"@) || begins(p, "### "@) {
        3
    } else if begins(p, "<blockquote"@) || begins(p, "> "@) {
        4
    } else if begins(p, "<pre"@) || begins(p, "```"@) {
        5
    } else if seq_contains(p, "<li"@) || seq_contains(p, "\n* "@) || seq_contains(p, "\n- "@) {
        6
    } else {
        7
    }
}

fn blank_line() -> (r: Vec<StyledText>)
    ensures
        line_view(r@) == Seq::<(Role, Seq<char>)>::empty(),
{
    let r: Vec<StyledText> = Vec::new();
    assert(line_view(r@) =~= Seq::<(Role, Seq<char>)>::empty());
    r
}

fn line_of(role: Role, text: String) -> (r: Vec<StyledText>)
    ensures
        line_view(r@) == one(role, text@),
{
    let r = vec![StyledText { role, text }];
    assert(line_view(r@) =~= one(role, text@));
    r
}

fn line_of_two(r1: Role, t1: String, r2: Role, t2: String) -> (r: Vec<StyledText>)
    ensures
        line_view(r@) == seq![(r1, t1@), (r2, t2@)],
{
    let r = vec![StyledText { role: r1, text: t1 }, StyledText { role: r2, text: t2 }];
    assert(line_view(r@) =~= seq![(r1, t1@), (r2, t2@)]);
    r
}

fn push_line(out: &mut Vec<Vec<StyledText>>, l: Vec<StyledText>)
    ensures
        lines_view(final(out)@) == lines_view(old(out)@).push(line_view(l@)),
{
    out.push(l);
    assert(lines_view(final(out)@) =~= lines_view(old(out)@).push(line_view(l@)));
}

fn push_runs(out: &mut Vec<Vec<StyledText>>, ws: &Vec<String>, role: Role)
    ensures
        lines_view(final(out)@) == lines_view(old(out)@) + runs(texts(ws@), role),
{
    let ghost start = lines_view(out@);
    let mut i: usize = 0;
    while i < ws.len()
        invariant
            i <= ws.len(),
            lines_view(out@) == start + runs(texts(ws@).take(i as int), role),
        decreases ws.len() - i,
    {
        push_line(out, line_of(role, ws[i].clone()));
        assert(runs(texts(ws@).take(i as int + 1), role) =~= runs(texts(ws@).take(i as int), role).push(one(role, ws@[i as int]@)));
        i = i + 1;
    }
    assert(texts(ws@).take(ws.len() as int) =~= texts(ws@));
}

fn wrap_chars(t: &Vec<char>, width: usize) -> (r: Vec<String>)
    ensures
        texts(r@) == wrapped(t@, width as nat),
{
    wrap_text(string_from_chars(t.as_slice()).as_str(), width)
}

fn heading_block(p: &Vec<char>, role: Role, width: usize) -> (r: Vec<Vec<StyledText>>)
    ensures
        lines_view(r@) == heading_lines(p@, role, width as nat),
{
    let clean = strip_tags_chars(p);
    let h = trim_chars(&trim_start_char_exec(&clean, '#'));
    let ws = wrap_chars(&h, width);
    let mut out: Vec<Vec<StyledText>> = Vec::new();
    push_line(&mut out, blank_line());
    push_runs(&mut out, &ws, role);
    push_line(&mut out, blank_line());
    assert(lines_view(out@) =~= heading_lines(p@, role, width as nat));
    out
}

fn quote_block(p: &Vec<char>, width: usize) -> (r: Vec<Vec<StyledText>>)
    ensures
        lines_view(r@) == quote_lines(p@, width as nat),
{
    proof {
        reveal_strlit("│ ");
    }
    let clean = strip_tags_chars(p);
    let q = trim_chars(&trim_start_char_exec(&clean, '>'));
    let ws = wrap_chars(&q, width.saturating_sub(4));
    let mut out: Vec<Vec<StyledText>> = Vec::new();
    let mut i: usize = 0;
    while i < ws.len()
        invariant
            i <= ws.len(),
            lines_view(out@) == texts(ws@).take(i as int).map_values(
                |w: Seq<char>| seq![(Role::QuoteBorder, "│ "@), (Role::Quote, w)],
            ),
        decreases ws.len() - i,
    {
        push_line(&mut out, line_of_two(Role::QuoteBorder, "│ ".to_owned(), Role::Quote, ws[i].clone()));
        assert(texts(ws@).take(i as int + 1).map_values(
            |w: Seq<char>| seq![(Role::QuoteBorder, "│ "@), (Role::Quote, w)],
        ) =~= texts(ws@).take(i as int).map_values(
            |w: Seq<char>| seq![(Role::QuoteBorder, "│ "@), (Role::Quote, w)],
        ).push(seq![(Role::QuoteBorder, "│ "@), (Role::Quote, ws@[i as int]@)]));
        i = i + 1;
    }
    assert(texts(ws@).take(ws.len() as int) =~= texts(ws@));
    push_line(&mut out, blank_line());
    assert(lines_view(out@) =~= quote_lines(p@, width as nat));
    out
}

fn code_block(p: &Vec<char>, width: usize) -> (r: Vec<Vec<StyledText>>)
    ensures
        lines_view(r@) == code_lines(p@, width as nat),
{
    proof {
        reveal_strlit("┌── Code Snippet ");
        reveal_strlit("│ ");
        reveal_strlit("└──");
    }
    let clean = strip_tags_chars(p);
    let code = trim_chars(&trim_end_char_exec(&trim_start_char_exec(&clean, '`'), '`'));
    let ls = lines_of(&code);
    let ghost lv = ls@.map_values(|l: Vec<char>| l@);
    let mut out: Vec<Vec<StyledText>> = Vec::new();
    push_line(
        &mut out,
        line_of_two(Role::CodeBorder, "┌── Code Snippet ".to_owned(), Role::Divider, repeat_char('─', width.saturating_sub(18))),
    );
    let ghost head = lines_view(out@);
    let mut i: usize = 0;
    while i < ls.len()
        invariant
            i <= ls.len(),
            lv == ls@.map_values(|l: Vec<char>| l@),
            lines_view(out@) == head + lv.take(i as int).map_values(
                |l: Seq<char>| seq![(Role::CodeBorder, "│ "@), (Role::Code, l)],
            ),
        decreases ls.len() - i,
    {
        push_line(&mut out, line_of_two(Role::CodeBorder, "│ ".to_owned(), Role::Code, string_from_chars(ls[i].as_slice())));
        assert(lv.take(i as int + 1).map_values(|l: Seq<char>| seq![(Role::CodeBorder, "│ "@), (Role::Code, l)])
            =~= lv.take(i as int).map_values(|l: Seq<char>| seq![(Role::CodeBorder, "│ "@), (Role::Code, l)]).push(
            seq![(Role::CodeBorder, "│ "@), (Role::Code, ls@[i as int]@)],
        ));
        i = i + 1;
    }
    assert(lv.take(ls.len() as int) =~= lv);
    push_line(&mut out, line_of_two(Role::CodeBorder, "└──".to_owned(), Role::Divider, repeat_char('─', width.saturating_sub(5))));
    push_line(&mut out, blank_line());
    assert(lines_view(out@) =~= code_lines(p@, width as nat));
    out
}

fn item_block(out: &mut Vec<Vec<StyledText>>, item: &Vec<char>, width: usize)
    ensures
        lines_view(final(out)@) == lines_view(old(out)@) + item_lines(item@, width as nat),
{
    proof {
        reveal_strlit("  • ");
        reveal_strlit("    ");
    }
    let t = trim_chars(item);
    if t.len() == 0 {
        assert(lines_view(out@) + Seq::<LineView>::empty() =~= lines_view(out@));
        return;
    }
    let clean = strip_tags_chars(&t);
    let body = trim_chars(&trim_start_char_exec(&trim_start_char_exec(&trim_start_char_exec(&clean, '*'), '-'), '•'));
    let ws = wrap_chars(&body, width.saturating_sub(4));
    let ghost start = lines_view(out@);
    let ghost target = item_lines(item@, width as nat);
    let mut k: usize = 0;
    while k < ws.len()
        invariant
            k <= ws.len(),
            target.len() == ws.len(),
            forall|j: int| 0 <= j < ws.len() ==> target[j] == if j == 0 {
                seq![(Role::Bullet, "  • "@), (Role::Body, ws@[j]@)]
            } else {
                seq![(Role::Indent, "    "@), (Role::Body, ws@[j]@)]
            },
            lines_view(out@) == start + target.take(k as int),
        decreases ws.len() - k,
    {
        let l = if k == 0 {
            line_of_two(Role::Bullet, "  • ".to_owned(), Role::Body, ws[k].clone())
        } else {
            line_of_two(Role::Indent, "    ".to_owned(), Role::Body, ws[k].clone())
        };
        push_line(out, l);
        assert(target.take(k as int + 1) =~= target.take(k as int).push(target[k as int]));
        k = k + 1;
    }
    assert(target.take(ws.len() as int) =~= target);
}

fn list_block(p: &Vec<char>, width: usize) -> (r: Vec<Vec<StyledText>>)
    ensures
        lines_view(r@) == list_lines(p@, width as nat),
{
    proof {
        reveal_strlit("\n");
    }
    let nl = chars_of("\n");
    let items = split_chars(p, &nl);
    let ghost iv = items@.map_values(|v: Vec<char>| v@);
    let mut out: Vec<Vec<StyledText>> = Vec::new();
    let mut i: usize = 0;
    assert(lines_view(out@) =~= Seq::<LineView>::empty());
    while i < items.len()
        invariant
            i <= items.len(),
            iv == items@.map_values(|v: Vec<char>| v@),
            lines_view(out@) == items_lines(iv.take(i as int), width as nat),
        decreases items.len() - i,
    {
        item_block(&mut out, &items[i], width);
        assert(iv.take(i as int + 1).drop_last() =~= iv.take(i as int));
        i = i + 1;
    }
    assert(iv.take(items.len() as int) =~= iv);
    push_line(&mut out, blank_line());
    out
}

/// The pattern of a link `<a href="...">text</a>` (any case): its address
/// is group 1, its text group 2.
pub open spec fn anchor_pattern() -> Seq<char> {
    "(?i)<a\\s+[^>]*href=[\"\\']([^\"\\']+)[\"\\'][^>]*>(.*?)</a>"@
}

/// The text of a paragraph with each link replaced by its text.
pub open spec fn anchors_as_text(s: Seq<char>) -> Seq<char> {
    regex_replaced(anchor_pattern(), s, "$2"@)
}

/// The addresses of the paragraph's links, in order.
pub open spec fn anchor_hrefs(s: Seq<char>) -> Seq<Seq<char>> {
    regex_all_groups(anchor_pattern(), s, 1)
}

/// Replaces each link of a paragraph with its text.
fn replace_anchors(s: &str) -> (r: String)
    ensures
        r@ == anchors_as_text(s@),
{
    regex_replace_all("(?i)<a\\s+[^>]*href=[\"\\']([^\"\\']+)[\"\\'][^>]*>(.*?)</a>", s, "$2")
}

/// Lists the addresses of a paragraph's links.
pub(crate) fn find_anchor_hrefs(s: &str) -> (r: Vec<String>)
    ensures
        texts(r@) == anchor_hrefs(s@),
{
    let r = regex_captures_all("(?i)<a\\s+[^>]*href=[\"\\']([^\"\\']+)[\"\\'][^>]*>(.*?)</a>", s, 1);
    assert(texts(r@) =~= r@.map_values(|t: String| t@));
    r
}

/// The links with `hrefs` added in order, each non-empty one not yet listed.
pub open spec fn add_links(links: Seq<Seq<char>>, hrefs: Seq<Seq<char>>) -> Seq<Seq<char>>
    decreases hrefs.len(),
{
    if hrefs.len() == 0 {
        links
    } else {
        let prev = add_links(links, hrefs.drop_last());
        let h = hrefs.last();
        if h.len() > 0 && !prev.contains(h) {
            prev.push(h)
        } else {
            prev
        }
    }
}

fn has_link(links: &Vec<String>, h: &String) -> (r: bool)
    ensures
        r == texts(links@).contains(h@),
{
    let mut i: usize = 0;
    while i < links.len()
        invariant
            i <= links.len(),
            forall|j: int| 0 <= j < i ==> links@[j]@ != h@,
        decreases links.len() - i,
    {
        if links[i].eq(h) {
            assert(texts(links@)[i as int] == h@);
            return true;
        }
        i = i + 1;
    }
    assert forall|j: int| 0 <= j < texts(links@).len() implies texts(links@)[j] != h@ by {
        assert(texts(links@)[j] == links@[j]@);
    }
    false
}

/// A paragraph: its links collected, then its text as body lines.
pub open spec fn paragraph(p: Seq<char>, width: nat, links: Seq<Seq<char>>) -> (Seq<LineView>, Seq<Seq<char>>) {
    let text = stripped_text(anchors_as_text(p));
    (runs(wrapped(text, width), Role::Body) + seq![Seq::empty()], add_links(links, anchor_hrefs(p)))
}

/// The wrapped lines of a paragraph's text.
pub open spec fn paragraph_texts(p: Seq<char>, width: nat) -> Seq<Seq<char>> {
    wrapped(stripped_text(anchors_as_text(p)), width)
}

/// The links so far stay first as more are added.
pub proof fn lemma_add_links_prefix(links: Seq<Seq<char>>, hrefs: Seq<Seq<char>>)
    ensures
        add_links(links, hrefs).len() >= links.len(),
        add_links(links, hrefs).take(links.len() as int) == links,
    decreases hrefs.len(),
{
    if hrefs.len() > 0 {
        lemma_add_links_prefix(links, hrefs.drop_last());
        let prev = add_links(links, hrefs.drop_last());
        assert(prev.push(hrefs.last()).take(links.len() as int) =~= prev.take(links.len() as int));
    } else {
        assert(links.take(links.len() as int) =~= links);
    }
}

fn paragraph_block(p: &Vec<char>, width: usize, links: &mut Vec<String>) -> (r: (Vec<Vec<StyledText>>, Vec<LinkHit>))
    ensures
        (lines_view(r.0@), texts(final(links)@)) == paragraph(p@, width as nat, texts(old(links)@)),
        forall|j: int| 0 <= j < r.1@.len() ==>
            paragraph_hit(paragraph_texts(p@, width as nat), texts(final(links)@), p@, #[trigger] r.1@[j]),
        r.1@ == paragraph_link_hits(paragraph_texts(p@, width as nat), texts(final(links)@), p@),
        texts(final(links)@).len() >= texts(old(links)@).len(),
        texts(final(links)@).take(texts(old(links)@).len() as int) == texts(old(links)@),
{
    proof {
        lemma_add_links_prefix(texts(old(links)@), anchor_hrefs(p@));
    }
    let ps = string_from_chars(p.as_slice());
    let hrefs = find_anchor_hrefs(ps.as_str());
    let ghost hv = texts(hrefs@);
    let ghost l0 = texts(links@);
    let mut i: usize = 0;
    while i < hrefs.len()
        invariant
            i <= hrefs.len(),
            hv == texts(hrefs@),
            texts(links@) == add_links(l0, hv.take(i as int)),
        decreases hrefs.len() - i,
    {
        proof {
            assert(hv.take(i as int + 1).drop_last() =~= hv.take(i as int));
            assert(hv.take(i as int + 1).last() == hrefs@[i as int]@);
        }
        let h = &hrefs[i];
        if !h.as_str().is_empty() && !has_link(links, h) {
            let ghost before = texts(links@);
            links.push(h.clone());
            assert(texts(links@) =~= before.push(h@));
        }
        i = i + 1;
    }
    assert(hv.take(hrefs.len() as int) =~= hv);
    let text = strip_tags_chars(&chars_of(replace_anchors(ps.as_str()).as_str()));
    let ws = wrap_chars(&text, width);
    let mut out: Vec<Vec<StyledText>> = Vec::new();
    assert(lines_view(out@) =~= Seq::<LineView>::empty());
    push_runs(&mut out, &ws, Role::Body);
    push_line(&mut out, blank_line());
    assert(lines_view(out@) =~= runs(texts(ws@), Role::Body) + seq![Seq::<(Role, Seq<char>)>::empty()]);
    let hits = paragraph_hits(&ws, ps.as_str(), links);
    (out, hits)
}

fn begins_with(p: &Vec<char>, lit: &str) -> (r: bool)
    ensures
        r == begins(p@, lit@),
{
    let l = chars_of(lit);
    if l.len() > p.len() {
        return false;
    }
    crate::text::occurs_at_exec(p, &l, 0)
}

fn holds(p: &Vec<char>, lit: &str) -> (r: bool)
    ensures
        r == seq_contains(p@, lit@),
{
    contains_chars(p, &chars_of(lit))
}

/// The lines of one block of the article body, and the links so far.
pub open spec fn block(p: Seq<char>, width: nat, links: Seq<Seq<char>>) -> (Seq<LineView>, Seq<Seq<char>>) {
    let k = block_kind(p);
    if k == 1 {
        (heading_lines(p, Role::H1, width), links)
    } else if k == 2 {
        (heading_lines(p, Role::H2, width), links)
    } else if k == 3 {
        (heading_lines(p, Role::H3, width), links)
    } else if k == 4 {
        (quote_lines(p, width), links)
    } else if k == 5 {
        (code_lines(p, width), links)
    } else if k == 6 {
        (list_lines(p, width), links)
    } else {
        paragraph(p, width, links)
    }
}

fn block_exec(p: &Vec<char>, width: usize, links: &mut Vec<String>) -> (r: (Vec<Vec<StyledText>>, Vec<LinkHit>))
    ensures
        (lines_view(r.0@), texts(final(links)@)) == block(p@, width as nat, texts(old(links)@)),
        forall|j: int| 0 <= j < r.1@.len() ==> block_kind(p@) == 7
            && paragraph_hit(paragraph_texts(p@, width as nat), texts(final(links)@), p@, #[trigger] r.1@[j]),
        r.1@ == block_hits(p@, width as nat, texts(final(links)@)),
        texts(final(links)@).len() >= texts(old(links)@).len(),
        texts(final(links)@).take(texts(old(links)@).len() as int) == texts(old(links)@),
{
    proof {
        assert(texts(links@).take(texts(links@).len() as int) =~= texts(links@));
    }
    let none: Vec<LinkHit> = Vec::new();
    if begins_with(p, "<h1") || begins_with(p, "# ") {
        (heading_block(p, Role::H1, width), none)
    } else if begins_with(p, "<h2") || begins_with(p, "## ") {
        (heading_block(p, Role::H2, width), none)
    } else if begins_with(p, "<h3") || begins_with(p, "### ") {
        (heading_block(p, Role::H3, width), none)
    } else if begins_with(p, "<blockquote") || begins_with(p, "> ") {
        (quote_block(p, width), none)
    } else if begins_with(p, "<pre") || begins_with(p, "```") {
        (code_block(p, width), none)
    } else if holds(p, "<li") || holds(p, "\n* ") || holds(p, "\n- ") {
        (list_block(p, width), none)
    } else {
        assert(block_kind(p@) == 7);
        paragraph_block(p, width, links)
    }
}

/// The link hits of one block of the body, once `links` holds the
/// addresses of its links: those of a paragraph, none for other blocks.
pub open spec fn block_hits(p: Seq<char>, width: nat, links: Seq<Seq<char>>) -> Seq<LinkHit> {
    if block_kind(p) == 7 {
        paragraph_link_hits(paragraph_texts(p, width), links, p)
    } else {
        Seq::empty()
    }
}

/// Hits moved down by `off` lines.
pub open spec fn shifted(hs: Seq<LinkHit>, off: int) -> Seq<LinkHit> {
    hs.map_values(|h: LinkHit| LinkHit { line: (h.line + off) as usize, start_col: h.start_col, end_col: h.end_col, link: h.link })
}

/// The link hits of the blocks in turn, each block's moved down below the
/// lines of the blocks before it.
pub open spec fn blocks_hits(paras: Seq<Seq<char>>, width: nat, links: Seq<Seq<char>>) -> Seq<LinkHit>
    decreases paras.len(),
{
    if paras.len() == 0 {
        Seq::empty()
    } else {
        let (prev, l1) = blocks_from(paras.drop_last(), width, links);
        let before = blocks_hits(paras.drop_last(), width, links);
        let p = trim_spec(paras.last());
        if p.len() == 0 {
            before
        } else {
            let (b, l2) = block(p, width, l1);
            before + shifted(block_hits(p, width, l2), prev.len() as int)
        }
    }
}

/// The lines of the blocks in turn (blank blocks skipped), and the links.
pub open spec fn blocks_from(paras: Seq<Seq<char>>, width: nat, links: Seq<Seq<char>>) -> (Seq<LineView>, Seq<Seq<char>>)
    decreases paras.len(),
{
    if paras.len() == 0 {
        (Seq::empty(), links)
    } else {
        let (prev, l1) = blocks_from(paras.drop_last(), width, links);
        let p = trim_spec(paras.last());
        if p.len() == 0 {
            (prev, l1)
        } else {
            let (b, l2) = block(p, width, l1);
            (prev + b, l2)
        }
    }
}

/// The body with its block-ending tags made line breaks: `<br>` and the
/// ends of divisions and list items one, the ends of paragraphs, headings,
/// quotations, lists and code two.
pub open spec fn normalized(s: Seq<char>) -> Seq<char> {
    replace_all(replace_all(replace_all(replace_all(replace_all(replace_all(replace_all(replace_all(replace_all(replace_all(replace_all(replace_all(replace_all(replace_all(s, "<br>"@, "\n"@), "<br/>"@, "\n"@), "<br />"@, "\n"@), "</p>"@, "\n\n"@), "</div>"@, "\n"@), "</h1>"@, "\n\n"@), "</h2>"@, "\n\n"@), "</h3>"@, "\n\n"@), "</h4>"@, "\n\n"@), "</blockquote>"@, "\n\n"@), "</li>"@, "\n"@), "</ul>"@, "\n\n"@), "</ol>"@, "\n\n"@), "</pre>"@, "\n\n"@)
}

fn normalize(s: &Vec<char>) -> (r: Vec<char>)
    ensures
        r@ == normalized(s@),
{
    proof {
        reveal_strlit("<br>");
        reveal_strlit("<br/>");
        reveal_strlit("<br />");
        reveal_strlit("</p>");
        reveal_strlit("</div>");
        reveal_strlit("</h1>");
        reveal_strlit("</h2>");
        reveal_strlit("</h3>");
        reveal_strlit("</h4>");
        reveal_strlit("</blockquote>");
        reveal_strlit("</li>");
        reveal_strlit("</ul>");
        reveal_strlit("</ol>");
        reveal_strlit("</pre>");
        reveal_strlit("\n");
        reveal_strlit("\n\n");
    }
    let t = replace_all_chars(s, &chars_of("<br>"), &chars_of("\n"));
    let t = replace_all_chars(&t, &chars_of("<br/>"), &chars_of("\n"));
    let t = replace_all_chars(&t, &chars_of("<br />"), &chars_of("\n"));
    let t = replace_all_chars(&t, &chars_of("</p>"), &chars_of("\n\n"));
    let t = replace_all_chars(&t, &chars_of("</div>"), &chars_of("\n"));
    let t = replace_all_chars(&t, &chars_of("</h1>"), &chars_of("\n\n"));
    let t = replace_all_chars(&t, &chars_of("</h2>"), &chars_of("\n\n"));
    let t = replace_all_chars(&t, &chars_of("</h3>"), &chars_of("\n\n"));
    let t = replace_all_chars(&t, &chars_of("</h4>"), &chars_of("\n\n"));
    let t = replace_all_chars(&t, &chars_of("</blockquote>"), &chars_of("\n\n"));
    let t = replace_all_chars(&t, &chars_of("</li>"), &chars_of("\n"));
    let t = replace_all_chars(&t, &chars_of("</ul>"), &chars_of("\n\n"));
    let t = replace_all_chars(&t, &chars_of("</ol>"), &chars_of("\n\n"));
    let t = replace_all_chars(&t, &chars_of("</pre>"), &chars_of("\n\n"));
    t
}

/// The lines an HTML body makes at `width` cells, and the links it adds:
/// its entities decoded, its blocks separated at blank lines and laid out
/// in turn; a body with nothing to show gets a note.
pub open spec fn html_lines(html: Seq<char>, width: nat, links: Seq<Seq<char>>) -> (Seq<LineView>, Seq<Seq<char>>) {
    let norm = normalized(html_entities_decoded(html));
    let (ls, l) = blocks_from(split_on(norm, "\n\n"@), width, links);
    if ls.len() == 0 {
        (seq![one(Role::Dim, "No content preview available."@)], l)
    } else {
        (ls, l)
    }
}

/// The text of a line, its runs joined.
pub open spec fn line_text(l: LineView) -> Seq<char>
    decreases l.len(),
{
    if l.len() == 0 {
        Seq::empty()
    } else {
        line_text(l.drop_last()) + l.last().1
    }
}

proof fn lemma_line_text_one(role: Role, t: Seq<char>)
    ensures
        line_text(one(role, t)) == t,
{
    reveal_with_fuel(line_text, 2);
    assert(one(role, t).drop_last() =~= Seq::<(Role, Seq<char>)>::empty());
    assert(Seq::<char>::empty() + t =~= t);
}

/// The blocks of an HTML body, as the reader separates them.
pub open spec fn body_blocks(html: Seq<char>) -> Seq<Seq<char>> {
    split_on(normalized(html_entities_decoded(html)), "\n\n"@)
}

/// A hit on the lines laid out for an HTML body: a whole word of one of the
/// lines, which is a word of a link in one of the body's paragraphs, pointing
/// at that link's address in `links`.
#[verifier::opaque]
pub open spec fn body_hit(lines: Seq<LineView>, links: Seq<Seq<char>>, html: Seq<char>, h: LinkHit) -> bool {
    exists|a: int, b: int, i: int, k: int|
        #![trigger marks_word(line_text(lines[h.line as int]), h, a, b), body_blocks(html)[i], anchor_hrefs(trim_spec(body_blocks(html)[i]))[k]]
        {
            &&& h.line < lines.len()
            &&& h.link < links.len()
            &&& marks_word(line_text(lines[h.line as int]), h, a, b)
            &&& 0 <= i < body_blocks(html).len()
            &&& block_kind(trim_spec(body_blocks(html)[i])) == 7
            &&& anchor_word(
                trim_spec(body_blocks(html)[i]),
                k,
                links[h.link as int],
                line_text(lines[h.line as int]).subrange(a, b),
            )
        }
}

proof fn lemma_paragraph_hit_bounds(ts: Seq<Seq<char>>, links: Seq<Seq<char>>, p: Seq<char>, h: LinkHit)
    requires
        paragraph_hit(ts, links, p, h),
    ensures
        h.line < ts.len(),
        h.link < links.len(),
{
    reveal(paragraph_hit);
}

/// A hit on a paragraph's lines is a hit on the body's lines once the
/// paragraph's lines are placed from `off` on.
proof fn lemma_lift_hit(
    lines: Seq<LineView>,
    off: int,
    ts: Seq<Seq<char>>,
    links1: Seq<Seq<char>>,
    links2: Seq<Seq<char>>,
    html: Seq<char>,
    i: int,
    h0: LinkHit,
    h: LinkHit,
)
    requires
        paragraph_hit(ts, links1, trim_spec(body_blocks(html)[i]), h0),
        0 <= i < body_blocks(html).len(),
        block_kind(trim_spec(body_blocks(html)[i])) == 7,
        0 <= off,
        off + ts.len() <= lines.len(),
        forall|j: int| 0 <= j < ts.len() ==> line_text(#[trigger] lines[off + j]) == ts[j],
        links1.len() <= links2.len(),
        links2.take(links1.len() as int) == links1,
        h.line == h0.line + off,
        h.start_col == h0.start_col,
        h.end_col == h0.end_col,
        h.link == h0.link,
    ensures
        body_hit(lines, links2, html, h),
{
    reveal(paragraph_hit);
    reveal(body_hit);
    let p = trim_spec(body_blocks(html)[i]);
    let (a, b, k) = choose|a: int, b: int, k: int| {
        &&& h0.line < ts.len()
        &&& h0.link < links1.len()
        &&& marks_word(ts[h0.line as int], h0, a, b)
        &&& anchor_word(p, k, links1[h0.link as int], ts[h0.line as int].subrange(a, b))
    };
    let t = line_text(lines[h.line as int]);
    assert(lines[off + h0.line] == lines[h.line as int]);
    assert(t == ts[h0.line as int]);
    assert(links2[h.link as int] == links2.take(links1.len() as int)[h.link as int]);
    assert(marks_word(t, h, a, b));
    assert(anchor_word(p, k, links2[h.link as int], t.subrange(a, b)));
}

/// A hit stays one as more lines and links are added after.
proof fn lemma_hit_kept(
    lines1: Seq<LineView>,
    lines2: Seq<LineView>,
    links1: Seq<Seq<char>>,
    links2: Seq<Seq<char>>,
    html: Seq<char>,
    h: LinkHit,
)
    requires
        body_hit(lines1, links1, html, h),
        lines1.len() <= lines2.len(),
        lines2.take(lines1.len() as int) == lines1,
        links1.len() <= links2.len(),
        links2.take(links1.len() as int) == links1,
    ensures
        body_hit(lines2, links2, html, h),
{
    reveal(body_hit);
    let (a, b, i, k) = choose|a: int, b: int, i: int, k: int| {
        &&& h.line < lines1.len()
        &&& h.link < links1.len()
        &&& marks_word(line_text(lines1[h.line as int]), h, a, b)
        &&& 0 <= i < body_blocks(html).len()
        &&& block_kind(trim_spec(body_blocks(html)[i])) == 7
        &&& anchor_word(
            trim_spec(body_blocks(html)[i]),
            k,
            links1[h.link as int],
            line_text(lines1[h.line as int]).subrange(a, b),
        )
    };
    assert(lines2[h.line as int] == lines2.take(lines1.len() as int)[h.line as int]);
    assert(links2[h.link as int] == links2.take(links1.len() as int)[h.link as int]);
    assert(marks_word(line_text(lines2[h.line as int]), h, a, b));
}

/// The lines of a paragraph hold its wrapped texts, one run each.
proof fn lemma_paragraph_line_texts(p: Seq<char>, width: nat, links: Seq<Seq<char>>)
    ensures
        paragraph(p, width, links).0.len() == paragraph_texts(p, width).len() + 1,
        forall|j: int| 0 <= j < paragraph_texts(p, width).len() ==>
            line_text(#[trigger] paragraph(p, width, links).0[j]) == paragraph_texts(p, width)[j],
{
    let ts = paragraph_texts(p, width);
    assert forall|j: int| 0 <= j < ts.len() implies line_text(#[trigger] paragraph(p, width, links).0[j]) == ts[j] by {
        assert(paragraph(p, width, links).0[j] == one(Role::Body, ts[j]));
        lemma_line_text_one(Role::Body, ts[j]);
    }
}

/// Lays an HTML body out as the reader's lines, collecting its links, and
/// finds where the links' words are drawn.
pub fn parse_html_to_ratatui_lines(html: &str, width: usize, links: &mut Vec<String>) -> (r: (Vec<Vec<StyledText>>, Vec<LinkHit>))
    ensures
        (lines_view(r.0@), texts(final(links)@)) == html_lines(html@, width as nat, texts(old(links)@)),
        forall|j: int| 0 <= j < r.1@.len() ==> body_hit(lines_view(r.0@), texts(final(links)@), html@, #[trigger] r.1@[j]),
        r.1@ == blocks_hits(body_blocks(html@), width as nat, texts(old(links)@)),
        texts(final(links)@).len() >= texts(old(links)@).len(),
        texts(final(links)@).take(texts(old(links)@).len() as int) == texts(old(links)@),
{
    proof {
        reveal_strlit("\n\n");
        reveal_strlit("No content preview available.");
    }
    let decoded = decode_html_entities(html);
    let norm = normalize(&chars_of(decoded.as_str()));
    let sep = chars_of("\n\n");
    let paras = split_chars(&norm, &sep);
    let ghost pv = paras@.map_values(|v: Vec<char>| v@);
    assert(pv == body_blocks(html@));
    let ghost l0 = texts(links@);
    let mut out: Vec<Vec<StyledText>> = Vec::new();
    let mut hits: Vec<LinkHit> = Vec::new();
    assert(lines_view(out@) =~= Seq::<LineView>::empty());
    assert(l0.take(l0.len() as int) =~= l0);
    let mut i: usize = 0;
    while i < paras.len()
        invariant
            i <= paras.len(),
            pv == paras@.map_values(|v: Vec<char>| v@),
            pv == body_blocks(html@),
            (lines_view(out@), texts(links@)) == blocks_from(pv.take(i as int), width as nat, l0),
            forall|j: int| 0 <= j < hits@.len() ==> body_hit(lines_view(out@), texts(links@), html@, #[trigger] hits@[j]),
            hits@ == blocks_hits(pv.take(i as int), width as nat, l0),
            texts(links@).len() >= l0.len(),
            texts(links@).take(l0.len() as int) == l0,
        decreases paras.len() - i,
    {
        proof {
            assert(pv.take(i as int + 1).drop_last() =~= pv.take(i as int));
            assert(pv.take(i as int + 1).last() == paras@[i as int]@);
        }
        let p = trim_chars(&paras[i]);
        if p.len() > 0 {
            let ghost before = out@;
            let ghost lv0 = lines_view(out@);
            let ghost links0 = texts(links@);
            let (mut b, bh) = block_exec(&p, width, links);
            assert(forall|m: int| 0 <= m < bh@.len() ==> paragraph_hit(paragraph_texts(p@, width as nat), texts(links@), p@, #[trigger] bh@[m]));
            assert(bh@.len() > 0 ==> paragraph_hit(paragraph_texts(p@, width as nat), texts(links@), p@, bh@[0]));
            assert(bh@.len() > 0 ==> block_kind(p@) == 7);
            let ghost bv = b@;
            let ghost links1 = texts(links@);
            let ghost hits0 = hits@;
            let off = out.len();
            out.append(&mut b);
            assert(lines_view(out@) =~= lv0 + lines_view(bv));
            proof {
                assert forall|m: int| 0 <= m < bh@.len() implies block_kind(p@) == 7
                    && paragraph_hit(paragraph_texts(p@, width as nat), links1, p@, #[trigger] bh@[m]) by {}
                assert(lines_view(out@).take(lv0.len() as int) =~= lv0);
                assert forall|j: int| 0 <= j < hits@.len() implies body_hit(lines_view(out@), links1, html@, #[trigger] hits@[j]) by {
                    lemma_hit_kept(lv0, lines_view(out@), links0, links1, html@, hits@[j]);
                }
                assert(links1.take(l0.len() as int) =~= links1.take(links0.len() as int).take(l0.len() as int));
            }
            let mut j: usize = 0;
            while j < bh.len()
                invariant
                    j <= bh.len(),
                    off == lv0.len(),
                    lines_view(out@) == lv0 + lines_view(bv),
                    (lines_view(bv), links1) == block(p@, width as nat, links0),
                    links1 == texts(links@),
                    links1.len() >= links0.len(),
                    links1.take(links0.len() as int) == links0,
                    p@ == trim_spec(pv[i as int]),
                    i < pv.len(),
                    pv == body_blocks(html@),
                    forall|m: int| 0 <= m < bh@.len() ==> block_kind(p@) == 7
                        && paragraph_hit(paragraph_texts(p@, width as nat), links1, p@, #[trigger] bh@[m]),
                    forall|m: int| 0 <= m < hits@.len() ==> body_hit(lines_view(out@), texts(links@), html@, #[trigger] hits@[m]),
                    hits@ == hits0 + shifted(bh@.take(j as int), off as int),
                decreases bh.len() - j,
            {
                let h0 = bh[j];
                proof {
                    assert(paragraph_hit(paragraph_texts(p@, width as nat), links1, p@, bh@[j as int]));
                    lemma_paragraph_hit_bounds(paragraph_texts(p@, width as nat), links1, p@, h0);
                    lemma_paragraph_line_texts(p@, width as nat, links0);
                    assert(lines_view(bv).len() == paragraph_texts(p@, width as nat).len() + 1);
                }
                let n = out.len();
                assert(n == lines_view(out@).len());
                assert(h0.line < paragraph_texts(p@, width as nat).len());
                let h = LinkHit { line: h0.line + off, start_col: h0.start_col, end_col: h0.end_col, link: h0.link };
                proof {
                    let ts = paragraph_texts(p@, width as nat);
                    assert forall|m: int| 0 <= m < ts.len() implies line_text(#[trigger] lines_view(out@)[off + m]) == ts[m] by {
                        assert(lines_view(out@)[off + m] == lines_view(bv)[m]);
                    }
                    assert(links1.take(links1.len() as int) =~= links1);
                    lemma_lift_hit(lines_view(out@), off as int, ts, links1, links1, html@, i as int, h0, h);
                }
                hits.push(h);
                assert(shifted(bh@.take(j as int + 1), off as int) =~= shifted(bh@.take(j as int), off as int).push(h));
                j = j + 1;
            }
            proof {
                assert(bh@.take(bh@.len() as int) =~= bh@);
                assert(hits@ == hits0 + shifted(bh@, off as int));
                let pvi = pv.take(i as int + 1);
                assert(pvi.drop_last() == pv.take(i as int));
                assert(trim_spec(pvi.last()) == p@);
                assert(blocks_hits(pvi, width as nat, l0) == hits0 + shifted(block_hits(p@, width as nat, links1), lv0.len() as int));
            }
        }
        i = i + 1;
    }
    assert(pv.take(paras.len() as int) =~= pv);
    if out.len() == 0 {
        let ghost lv0 = lines_view(out@);
        push_line(&mut out, line_of(Role::Dim, "No content preview available.".to_owned()));
        assert(lines_view(out@) =~= seq![one(Role::Dim, "No content preview available."@)]);
        proof {
            assert(lines_view(out@).take(lv0.len() as int) =~= lv0);
            assert(texts(links@).take(texts(links@).len() as int) =~= texts(links@));
            assert forall|j: int| 0 <= j < hits@.len() implies body_hit(lines_view(out@), texts(links@), html@, #[trigger] hits@[j]) by {
                lemma_hit_kept(lv0, lines_view(out@), texts(links@), texts(links@), html@, hits@[j]);
            }
        }
    }
    (out, hits)
}

/// What `chrono` makes of a time in seconds since the epoch, formatted as
/// `DateTime::format` does with `fmt`; `None` for a time it cannot represent.
pub uninterp spec fn formatted_time(secs: i64, fmt: Seq<char>) -> Option<Seq<char>>;

/// The `strftime` formats the library writes dates with; each is a valid
/// `chrono` format, so formatting with it cannot fail.
pub open spec fn date_format(fmt: Seq<char>) -> bool {
    ||| fmt == "%d %b %Y at %I:%M %p UTC"@
    ||| fmt == "%I:%M %p"@
    ||| fmt == "%a %I:%M %p"@
    ||| fmt == "%b %d"@
}

/// Calls `chrono::DateTime::from_timestamp` and `DateTime::format` with
/// `fmt`, one of the library's date formats; the result is named
/// `formatted_time`.
#[verifier::external_body]
pub(crate) fn format_time(secs: i64, fmt: &str) -> (r: Option<String>)
    requires
        date_format(fmt@),
    ensures
        opt_view(r) == formatted_time(secs, fmt@),
{
    chrono::DateTime::from_timestamp(secs, 0).map(|d| d.format(fmt).to_string())
}

/// How the reader dates an article: day, month, year and time of day, UTC.
pub open spec fn published_text(secs: i64) -> Option<Seq<char>> {
    formatted_time(secs, "%d %b %Y at %I:%M %p UTC"@)
}

/// The date line of the reader: the publication time in capitals, or a note
/// that it is unknown.
pub open spec fn date_line(a: Article) -> Seq<char> {
    match a.published {
        Some(t) => match published_text(t) {
            Some(d) => uppercase_str(d),
            None => "DATE UNKNOWN"@,
        },
        None => "DATE UNKNOWN"@,
    }
}

/// The reader's header: feed (in capitals) and author, title, date, the
/// article's address when it has one, and a divider.
pub open spec fn header_lines(a: Article, width: nat) -> Seq<LineView> {
    let feed = uppercase_str(a.feed_title@);
    let first = match a.author {
        Some(au) => if au@.len() > 0 {
            seq![(Role::FeedName, feed), (Role::Separator, " • "@), (Role::Author, au@)]
        } else {
            one(Role::FeedName, feed)
        },
        None => one(Role::FeedName, feed),
    };
    let url_line: Seq<LineView> = if a.url@.len() > 0 {
        seq![seq![(Role::LinkIcon, "🔗 "@), (Role::LinkUrl, truncated(a.url@, minus(width, 4)))]]
    } else {
        Seq::empty()
    };
    seq![first, Seq::empty()] + runs(wrapped(a.title@, width), Role::Title) + seq![
        Seq::empty(),
        one(Role::Meta, date_line(a)),
    ] + url_line + seq![
        Seq::empty(),
        one(Role::Divider, repeated('─', if width < 80 { width } else { 80 })),
        Seq::empty(),
    ]
}

/// The HTML the reader shows: the one given, else the article's content,
/// else its summary, else a note that there is none.
pub open spec fn body_html(a: Article, body: Option<Seq<char>>) -> Seq<char> {
    match body {
        Some(b) => b,
        None => match a.content {
            Some(c) => c@,
            None => match a.summary {
                Some(s) => s@,
                None => "No content available for this article."@,
            },
        },
    }
}

/// The text width for a pane `max_width` cells wide: four cells of margin,
/// or 80 when the pane is narrower than that.
pub open spec fn text_width_for(max_width: u16) -> nat {
    if max_width > 4 {
        (max_width - 4) as nat
    } else {
        80
    }
}

/// The reader's lines for an article and the links they show: the header,
/// the body, and two blank lines; the links start with the article's own
/// address.
pub open spec fn article_layout(a: Article, body: Option<Seq<char>>, width: nat) -> (Seq<LineView>, Seq<Seq<char>>) {
    let links0: Seq<Seq<char>> = if a.url@.len() > 0 { seq![a.url@] } else { Seq::empty() };
    let (bl, links) = html_lines(body_html(a, body), width, links0);
    (header_lines(a, width) + bl + seq![Seq::empty(), Seq::empty()], links)
}

/// Where an article's links are drawn: its own address in the header, when
/// it has one, then the hits of its body moved down below the header.
pub open spec fn article_hits(a: Article, body: Option<Seq<char>>, width: nat) -> Seq<LinkHit> {
    let links0: Seq<Seq<char>> = if a.url@.len() > 0 { seq![a.url@] } else { Seq::empty() };
    let head: Seq<LinkHit> = if a.url@.len() > 0 { seq![url_hit(a, width)] } else { Seq::empty() };
    head + shifted(blocks_hits(body_blocks(body_html(a, body)), width, links0), header_lines(a, width).len() as int)
}

/// An article laid out for the reader.
#[derive(Debug, Clone)]
pub struct FormattedArticle {
    pub lines: Vec<Vec<StyledText>>,
    /// The addresses the text shows, the article's own first.
    pub links: Vec<String>,
    pub total_lines: usize,
    /// Where the links are drawn: the article's address in the header, then
    /// each word of each link of the body.
    pub hits: Vec<LinkHit>,
}

/// The address the first hit covering cell `col` of line `line` points at.
pub open spec fn link_at_spec(hits: Seq<LinkHit>, links: Seq<Seq<char>>, line: usize, col: u16) -> Option<Seq<char>>
    decreases hits.len(),
{
    if hits.len() == 0 {
        None
    } else {
        let h = hits[0];
        if h.line == line && h.start_col <= col && col < h.end_col && h.link < links.len() {
            Some(links[h.link as int])
        } else {
            link_at_spec(hits.drop_first(), links, line, col)
        }
    }
}

impl FormattedArticle {
    /// The address a click on cell `col` of line `line` opens, if any.
    pub fn link_at(&self, line: usize, col: u16) -> (r: Option<String>)
        ensures
            opt_view(r) == link_at_spec(self.hits@, texts(self.links@), line, col),
    {
        let ghost all = self.hits@;
        assert(all.subrange(0, all.len() as int) =~= all);
        let mut i: usize = 0;
        while i < self.hits.len()
            invariant
                i <= self.hits.len(),
                all == self.hits@,
                link_at_spec(all, texts(self.links@), line, col) == link_at_spec(all.subrange(i as int, all.len() as int), texts(self.links@), line, col),
            decreases self.hits.len() - i,
        {
            let h = self.hits[i];
            assert(all.subrange(i as int, all.len() as int).drop_first() =~= all.subrange(i as int + 1, all.len() as int));
            assert(all.subrange(i as int, all.len() as int)[0] == h);
            if h.line == line && h.start_col <= col && col < h.end_col && h.link < self.links.len() {
                return Some(self.links[h.link].clone());
            }
            i = i + 1;
        }
        assert(all.subrange(i as int, all.len() as int) =~= Seq::<LinkHit>::empty());
        None
    }
}

/// Where the reader draws the article's own address: on the line after the
/// date, from after the link icon to the end of the (shortened) address.
pub open spec fn url_hit(a: Article, width: nat) -> LinkHit {
    LinkHit {
        line: (wrapped(a.title@, width).len() + 4) as usize,
        start_col: cells(display_width("🔗 "@)),
        end_col: cells(display_width("🔗 "@ + truncated(a.url@, minus(width, 4)))),
        link: 0,
    }
}

/// A hit on the body's lines is one on the article's lines, where the body
/// starts at `off`.
proof fn lemma_hit_shifted(
    body: Seq<LineView>,
    full: Seq<LineView>,
    off: int,
    links: Seq<Seq<char>>,
    html: Seq<char>,
    h0: LinkHit,
    h: LinkHit,
)
    requires
        body_hit(body, links, html, h0),
        0 <= off,
        off + body.len() <= full.len(),
        forall|j: int| 0 <= j < body.len() ==> #[trigger] full[off + j] == body[j],
        h.line == h0.line + off,
        h.start_col == h0.start_col,
        h.end_col == h0.end_col,
        h.link == h0.link,
    ensures
        body_hit(full, links, html, h),
{
    reveal(body_hit);
    let (a, b, i, k) = choose|a: int, b: int, i: int, k: int| {
        &&& h0.line < body.len()
        &&& h0.link < links.len()
        &&& marks_word(line_text(body[h0.line as int]), h0, a, b)
        &&& 0 <= i < body_blocks(html).len()
        &&& block_kind(trim_spec(body_blocks(html)[i])) == 7
        &&& anchor_word(
            trim_spec(body_blocks(html)[i]),
            k,
            links[h0.link as int],
            line_text(body[h0.line as int]).subrange(a, b),
        )
    };
    assert(full[off + h0.line] == body[h0.line as int]);
    assert(full[h.line as int] == body[h0.line as int]);
    assert(marks_word(line_text(full[h.line as int]), h, a, b));
}

fn header_exec(a: &Article, width: usize) -> (r: Vec<Vec<StyledText>>)
    ensures
        lines_view(r@) == header_lines(*a, width as nat),
{
    proof {
        reveal_strlit(" • ");
        reveal_strlit("DATE UNKNOWN");
        reveal_strlit("🔗 ");
    }
    let mut out: Vec<Vec<StyledText>> = Vec::new();
    let feed = str_to_uppercase(a.feed_title.as_str());
    let first = match &a.author {
        Some(au) => if !au.as_str().is_empty() {
            let r = vec![
                StyledText { role: Role::FeedName, text: feed },
                StyledText { role: Role::Separator, text: " • ".to_owned() },
                StyledText { role: Role::Author, text: au.clone() },
            ];
            assert(line_view(r@) =~= seq![(Role::FeedName, uppercase_str(a.feed_title@)), (Role::Separator, " • "@), (Role::Author, au@)]);
            r
        } else {
            line_of(Role::FeedName, feed)
        },
        None => line_of(Role::FeedName, feed),
    };
    push_line(&mut out, first);
    push_line(&mut out, blank_line());
    let ws = wrap_text(a.title.as_str(), width);
    push_runs(&mut out, &ws, Role::Title);
    push_line(&mut out, blank_line());
    let date = match a.published {
        Some(t) => match format_time(t, "%d %b %Y at %I:%M %p UTC") {
            Some(d) => str_to_uppercase(d.as_str()),
            None => "DATE UNKNOWN".to_owned(),
        },
        None => "DATE UNKNOWN".to_owned(),
    };
    push_line(&mut out, line_of(Role::Meta, date));
    let ghost mid = lines_view(out@);
    if !a.url.as_str().is_empty() {
        push_line(&mut out, line_of_two(Role::LinkIcon, "🔗 ".to_owned(), Role::LinkUrl, truncate_string(a.url.as_str(), width.saturating_sub(4))));
    }
    push_line(&mut out, blank_line());
    let n = if width < 80 { width } else { 80 };
    push_line(&mut out, line_of(Role::Divider, repeat_char('─', n)));
    push_line(&mut out, blank_line());
    assert(lines_view(out@) =~= header_lines(*a, width as nat));
    out
}

/// Lays an article out for a reader pane `max_width` cells wide, showing
/// `body` (HTML) when given instead of the article's own text, and finds
/// where its links are drawn.
#[verifier::spinoff_prover]
#[verifier::rlimit(40)]
pub fn render_article_to_text(article: &Article, body: Option<&str>, max_width: u16) -> (r: FormattedArticle)
    ensures
        (lines_view(r.lines@), texts(r.links@)) == article_layout(
            *article,
            match body {
                Some(b) => Some(b@),
                None => None,
            },
            text_width_for(max_width),
        ),
        r.total_lines == r.lines@.len(),
        r.hits@ == article_hits(
            *article,
            match body {
                Some(b) => Some(b@),
                None => None,
            },
            text_width_for(max_width),
        ),
        article.url@.len() > 0 ==> r.hits@.len() > 0 && r.hits@[0] == url_hit(*article, text_width_for(max_width)),
        forall|j: int| (if article.url@.len() > 0 { 1int } else { 0 }) <= j < r.hits@.len() ==> body_hit(
            lines_view(r.lines@),
            texts(r.links@),
            body_html(
                *article,
                match body {
                    Some(b) => Some(b@),
                    None => None,
                },
            ),
            #[trigger] r.hits@[j],
        ),
{
    proof {
        reveal_strlit("No content available for this article.");
        reveal_strlit("🔗 ");
    }
    let width: usize = if max_width > 4 { (max_width - 4) as usize } else { 80 };
    let mut links: Vec<String> = Vec::new();
    if !article.url.as_str().is_empty() {
        links.push(article.url.clone());
    }
    assert(texts(links@) =~= if article.url@.len() > 0 { seq![article.url@] } else { Seq::<Seq<char>>::empty() });
    let mut lines = header_exec(article, width);
    let ghost head = lines@;
    let mut hits: Vec<LinkHit> = Vec::new();
    if !article.url.as_str().is_empty() {
        let title_lines = wrap_text(article.title.as_str(), width).len();
        let hl = lines.len();
        assert(hl == lines_view(head).len());
        assert(lines_view(head).len() >= title_lines + 4);
        let shown = concat_str("🔗 ", truncate_string(article.url.as_str(), width.saturating_sub(4)).as_str());
        let start = text_width("🔗 ");
        let end = text_width(shown.as_str());
        let h = LinkHit {
            line: title_lines + 4,
            start_col: if start > 65535 { 65535 } else { start as u16 },
            end_col: if end > 65535 { 65535 } else { end as u16 },
            link: 0,
        };
        assert(h == url_hit(*article, width as nat));
        hits.push(h);
    }
    let ghost nh = hits@.len();
    let source: &str = match body {
        Some(b) => b,
        None => match &article.content {
            Some(c) => c.as_str(),
            None => match &article.summary {
                Some(s) => s.as_str(),
                None => "No content available for this article.",
            },
        },
    };
    let (mut b, bh) = parse_html_to_ratatui_lines(source, width, &mut links);
    let ghost bv = b@;
    let off = lines.len();
    lines.append(&mut b);
    push_line(&mut lines, blank_line());
    push_line(&mut lines, blank_line());
    assert(lines_view(lines@) =~= lines_view(head) + lines_view(bv) + seq![
        Seq::<(Role, Seq<char>)>::empty(),
        Seq::<(Role, Seq<char>)>::empty(),
    ]);
    let ghost html = source@;
    let ghost pre = hits@;
    let mut j: usize = 0;
    while j < bh.len()
        invariant
            j <= bh.len(),
            off == head.len(),
            hits@.len() == nh + j,
            lines_view(lines@) == lines_view(head) + lines_view(bv) + seq![
                Seq::<(Role, Seq<char>)>::empty(),
                Seq::<(Role, Seq<char>)>::empty(),
            ],
            forall|m: int| 0 <= m < bh@.len() ==> body_hit(lines_view(bv), texts(links@), html, #[trigger] bh@[m]),
            forall|m: int| nh <= m < hits@.len() ==> body_hit(lines_view(lines@), texts(links@), html, #[trigger] hits@[m]),
            article.url@.len() > 0 ==> nh == 1 && hits@[0] == url_hit(*article, width as nat),
            article.url@.len() == 0 ==> nh == 0,
            hits@ == pre + shifted(bh@.take(j as int), off as int),
        decreases bh.len() - j,
    {
        let h0 = bh[j];
        proof {
            reveal(body_hit);
        }
        assert(h0.line < lines_view(bv).len());
        let n = lines.len();
        assert(n == lines_view(lines@).len());
        let h = LinkHit { line: h0.line + off, start_col: h0.start_col, end_col: h0.end_col, link: h0.link };
        proof {
            assert forall|m: int| 0 <= m < lines_view(bv).len() implies #[trigger] lines_view(lines@)[off + m] == lines_view(bv)[m] by {}
            lemma_hit_shifted(lines_view(bv), lines_view(lines@), off as int, texts(links@), html, h0, h);
        }
        hits.push(h);
        assert(shifted(bh@.take(j as int + 1), off as int) =~= shifted(bh@.take(j as int), off as int).push(h));
        j = j + 1;
    }
    assert(bh@.take(bh@.len() as int) =~= bh@);
    let total = lines.len();
    FormattedArticle { lines, links, total_lines: total, hits }
}

} // verus!
