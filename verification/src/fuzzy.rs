//! Subsequence fuzzy matching with fzf-style scoring.
//!
//! A needle matches a haystack when its characters occur, in order, among
//! the haystack's characters folded to lowercase. Each matched character
//! earns a base score, bonuses for sitting at the start of the text, at the
//! start of a word, or right after the previous match, and a penalty for
//! every character skipped before it.
use vstd::prelude::*;
use crate::text::{
    char_is_alphanumeric, char_is_lowercase, char_is_uppercase, char_lower_first, chars_of,
    lower_first, unicode_alphanumeric, unicode_lowercase, unicode_uppercase,
};

verus! {

/// Score awarded for each matched character.
pub const BASE: i32 = 16;
/// Extra for a match that directly follows the previous one.
pub const CONSECUTIVE: i32 = 12;
/// Extra for a match at the start of a word.
pub const WORD_START: i32 = 10;
/// Extra for a match at the very start of the text.
pub const PREFIX: i32 = 8;
/// Charged per skipped character, so tighter matches rank higher.
pub const GAP: i32 = 1;

/// Longest haystack the `i32` score can be computed for without overflow.
pub const MAX_HAYSTACK: usize = 40_000_000;

/// Does `hay[at]` fold to `want`?
pub open spec fn folds_to(hay: Seq<char>, at: int, want: char) -> bool {
    lower_first(hay[at]) == Some(want)
}

/// Is `hay[idx]` the first character of a word: the start of the text, after
/// a character that is not alphanumeric, or an uppercase letter right after
/// a lowercase one.
pub open spec fn word_start(hay: Seq<char>, idx: int) -> bool {
    idx == 0 || !unicode_alphanumeric(hay[idx - 1]) || (unicode_lowercase(hay[idx - 1])
        && unicode_uppercase(hay[idx]))
}

/// `pos` places each needle character at a haystack position folding to it,
/// at strictly increasing positions.
pub open spec fn embeds(hay: Seq<char>, needle: Seq<char>, pos: Seq<int>) -> bool {
    &&& pos.len() == needle.len()
    &&& forall|j: int| 0 <= j < pos.len() ==> 0 <= #[trigger] pos[j] < hay.len()
    &&& forall|j: int| 0 <= j < pos.len() ==> folds_to(hay, #[trigger] pos[j], needle[j])
    &&& forall|j: int| 0 < j < pos.len() ==> pos[j - 1] < #[trigger] pos[j]
}

/// The needle occurs, case-insensitively, as a subsequence of the haystack.
pub open spec fn fuzzy_matches(hay: Seq<char>, needle: Seq<char>) -> bool {
    exists|pos: Seq<int>| embeds(hay, needle, pos)
}

/// The first position at or after `from` that folds to `want`.
pub open spec fn first_match(hay: Seq<char>, want: char, from: int) -> Option<int>
    decreases hay.len() - from,
{
    if from < 0 || from >= hay.len() {
        None
    } else if folds_to(hay, from, want) {
        Some(from)
    } else {
        first_match(hay, want, from + 1)
    }
}

/// Whether a matching position is acceptable before falling back to the first
/// match: right after the previous match, anywhere in the greedy pass, or at a
/// word start in the boundary pass.
pub open spec fn preferred(hay: Seq<char>, at: int, prev: Option<int>, boundary_first: bool) -> bool {
    (at >= 1 && prev == Some(at - 1)) || !boundary_first || word_start(hay, at)
}

/// The first preferred position at or after `from` that folds to `want`.
pub open spec fn first_preferred(
    hay: Seq<char>,
    want: char,
    from: int,
    prev: Option<int>,
    boundary_first: bool,
) -> Option<int>
    decreases hay.len() - from,
{
    if from < 0 || from >= hay.len() {
        None
    } else if folds_to(hay, from, want) && preferred(hay, from, prev, boundary_first) {
        Some(from)
    } else {
        first_preferred(hay, want, from + 1, prev, boundary_first)
    }
}

/// The position one needle character is placed at.
pub open spec fn pick(
    hay: Seq<char>,
    want: char,
    from: int,
    prev: Option<int>,
    boundary_first: bool,
) -> Option<int> {
    match first_preferred(hay, want, from, prev, boundary_first) {
        Some(p) => Some(p),
        None => first_match(hay, want, from),
    }
}

/// Positions chosen for `needle[i..]`, starting the search at `from`.
pub open spec fn place_from(
    hay: Seq<char>,
    needle: Seq<char>,
    boundary_first: bool,
    i: int,
    prev: Option<int>,
    from: int,
) -> Option<Seq<int>>
    decreases needle.len() - i,
{
    if i < 0 || i >= needle.len() {
        Some(Seq::empty())
    } else {
        match pick(hay, needle[i], from, prev, boundary_first) {
            None => None,
            Some(at) => match place_from(hay, needle, boundary_first, i + 1, Some(at), at + 1) {
                None => None,
                Some(rest) => Some(seq![at] + rest),
            },
        }
    }
}

/// The alignment of the whole needle.
pub open spec fn alignment(hay: Seq<char>, needle: Seq<char>, boundary_first: bool) -> Option<Seq<int>> {
    place_from(hay, needle, boundary_first, 0, None, 0)
}

/// What the `j`-th placed character contributes to the score.
pub open spec fn step_score(hay: Seq<char>, pos: Seq<int>, j: int) -> int {
    let at = pos[j];
    BASE + (if at == 0 { PREFIX as int } else { 0 }) + (if word_start(hay, at) {
        WORD_START as int
    } else {
        0
    }) + (if j == 0 {
        -(GAP * at)
    } else if pos[j - 1] + 1 == at {
        CONSECUTIVE as int
    } else {
        -(GAP * (at - pos[j - 1] - 1))
    })
}

/// The score of an alignment: the sum of what each placed character earns.
pub open spec fn alignment_score(hay: Seq<char>, pos: Seq<int>) -> int
    decreases pos.len(),
{
    if pos.len() == 0 {
        0
    } else {
        alignment_score(hay, pos.drop_last()) + step_score(hay, pos, pos.len() - 1)
    }
}

/// The score of an optional alignment.
pub open spec fn score_of(hay: Seq<char>, a: Option<Seq<int>>) -> Option<int> {
    match a {
        Some(pos) => Some(alignment_score(hay, pos)),
        None => None,
    }
}

/// The ranking score of `needle` against `hay`: `None` when it does not match,
/// else the better of the greedy and the word-boundary alignments.
pub open spec fn fuzzy_score(hay: Seq<char>, needle: Seq<char>) -> Option<int> {
    if needle.len() == 0 {
        Some(0)
    } else if hay.len() == 0 || needle.len() > hay.len() {
        None
    } else {
        match score_of(hay, alignment(hay, needle, false)) {
            None => None,
            Some(g) => match score_of(hay, alignment(hay, needle, true)) {
                Some(b) => Some(if g >= b { g } else { b }),
                None => Some(g),
            },
        }
    }
}

/// Is `hay[idx]` the first character of a word?
fn is_word_start(chars: &[char], idx: usize) -> (r: bool)
    requires
        idx < chars.len(),
    ensures
        r == word_start(chars@, idx as int),
{
    if idx == 0 {
        return true;
    }
    let prev = chars[idx - 1];
    let cur = chars[idx];
    !char_is_alphanumeric(prev) || (char_is_lowercase(prev) && char_is_uppercase(cur))
}

proof fn lemma_first_preferred_skip(
    hay: Seq<char>,
    want: char,
    from: int,
    to: int,
    prev: Option<int>,
    b: bool,
)
    requires
        0 <= from <= to <= hay.len(),
        forall|k: int|
            from <= k < to ==> !(folds_to(hay, k, want) && preferred(hay, k, prev, b)),
    ensures
        first_preferred(hay, want, from, prev, b) == first_preferred(hay, want, to, prev, b),
    decreases to - from,
{
    if from < to {
        lemma_first_preferred_skip(hay, want, from + 1, to, prev, b);
    }
}

proof fn lemma_first_match_skip(hay: Seq<char>, want: char, from: int, to: int)
    requires
        0 <= from <= to <= hay.len(),
        forall|k: int| from <= k < to ==> !folds_to(hay, k, want),
    ensures
        first_match(hay, want, from) == first_match(hay, want, to),
    decreases to - from,
{
    if from < to {
        lemma_first_match_skip(hay, want, from + 1, to);
    }
}

proof fn lemma_first_match_found(hay: Seq<char>, want: char, from: int, found: int)
    requires
        0 <= from <= found < hay.len(),
        folds_to(hay, found, want),
        forall|k: int| from <= k < found ==> !folds_to(hay, k, want),
    ensures
        first_match(hay, want, from) == Some(found),
{
    lemma_first_match_skip(hay, want, from, found);
}

/// Where the next needle character is placed, searching from `hay_idx`.
fn pick_position(
    hay: &[char],
    want: char,
    hay_idx: usize,
    prev_match: Option<usize>,
    boundary_first: bool,
) -> (r: Option<usize>)
    requires
        hay_idx <= hay.len(),
        prev_match matches Some(p) ==> p < hay_idx,
    ensures
        r matches Some(at) ==> hay_idx <= at < hay.len() && Some(at as int) == pick(
            hay@,
            want,
            hay_idx as int,
            match prev_match {
                Some(p) => Some(p as int),
                None => None,
            },
            boundary_first,
        ),
        r is None ==> pick(
            hay@,
            want,
            hay_idx as int,
            match prev_match {
                Some(p) => Some(p as int),
                None => None,
            },
            boundary_first,
        ) is None,
{
    let ghost prev: Option<int> = match prev_match {
        Some(p) => Some(p as int),
        None => None,
    };
    let mut first_any: Option<usize> = None;
    let mut at = hay_idx;
    while at < hay.len()
        invariant
            hay_idx <= at <= hay.len(),
            prev_match matches Some(p) ==> p < hay_idx,
            prev == match prev_match {
                Some(p) => Some(p as int),
                None => None,
            },
            forall|k: int|
                hay_idx <= k < at ==> !(folds_to(hay@, k, want) && preferred(hay@, k, prev, boundary_first)),
            first_any is None ==> forall|k: int| hay_idx <= k < at ==> !folds_to(hay@, k, want),
            first_any matches Some(f) ==> hay_idx <= f < at && first_match(hay@, want, hay_idx as int) == Some(f as int),
        decreases hay.len() - at,
    {
        let lc = char_lower_first(hay[at]);
        let is_match = match lc {
            Some(c) => c == want,
            None => false,
        };
        if is_match {
            if first_any.is_none() {
                proof {
                    lemma_first_match_found(hay@, want, hay_idx as int, at as int);
                }
                first_any = Some(at);
            }
            let consecutive = match prev_match {
                Some(p) => at >= 1 && p == at - 1,
                None => false,
            };
            if consecutive || !boundary_first || is_word_start(hay, at) {
                proof {
                    lemma_first_preferred_skip(hay@, want, hay_idx as int, at as int, prev, boundary_first);
                }
                return Some(at);
            }
        }
        at = at + 1;
    }
    proof {
        lemma_first_preferred_skip(hay@, want, hay_idx as int, hay.len() as int, prev, boundary_first);
        if first_any is None {
            lemma_first_match_skip(hay@, want, hay_idx as int, hay.len() as int);
        }
    }
    first_any
}

proof fn lemma_step_bounds(hay: Seq<char>, pos: Seq<int>, j: int)
    requires
        0 <= j < pos.len(),
        0 <= pos[j],
        j > 0 ==> 0 <= pos[j - 1] < pos[j],
    ensures
        step_score(hay, pos, j) <= 46,
        j == 0 ==> step_score(hay, pos, j) >= -pos[j],
        j > 0 ==> step_score(hay, pos, j) >= 16 - (pos[j] - pos[j - 1] - 1),
{
}

/// Score one alignment, or `None` if the needle cannot be placed.
fn score_alignment(hay: &[char], needle: &[char], boundary_first: bool) -> (r: Option<i32>)
    requires
        hay.len() <= MAX_HAYSTACK,
        needle.len() <= hay.len(),
    ensures
        match r {
            Some(s) => score_of(hay@, alignment(hay@, needle@, boundary_first)) == Some(s as int),
            None => alignment(hay@, needle@, boundary_first) is None,
        },
{
    let mut score: i32 = 0;
    let mut hay_idx: usize = 0;
    let mut prev_match: Option<usize> = None;
    let ghost mut placed: Seq<int> = Seq::empty();
    let mut i: usize = 0;
    while i < needle.len()
        invariant
            hay.len() <= MAX_HAYSTACK,
            needle.len() <= hay.len(),
            i <= needle.len(),
            hay_idx <= hay.len(),
            placed.len() == i,
            forall|j: int| 0 <= j < i ==> 0 <= #[trigger] placed[j] < hay.len(),
            forall|j: int| 0 < j < i ==> placed[j - 1] < #[trigger] placed[j],
            match prev_match {
                None => i == 0 && hay_idx == 0,
                Some(p) => i > 0 && p == placed[i - 1] && hay_idx == p + 1,
            },
            score as int == alignment_score(hay@, placed),
            -(hay_idx as int) <= score <= 46 * i,
            alignment(hay@, needle@, boundary_first) == match place_from(
                hay@,
                needle@,
                boundary_first,
                i as int,
                match prev_match {
                    Some(p) => Some(p as int),
                    None => None,
                },
                hay_idx as int,
            ) {
                Some(rest) => Some(placed + rest),
                None => None,
            },
        decreases needle.len() - i,
    {
        let want = needle[i];
        let picked = pick_position(hay, want, hay_idx, prev_match, boundary_first);
        let at = match picked {
            Some(a) => a,
            None => {
                return None;
            },
        };
        let ghost new_placed = placed.push(at as int);
        proof {
            assert(new_placed.drop_last() =~= placed);
            lemma_step_bounds(hay@, new_placed, i as int);
            let ghost prev_opt: Option<int> = match prev_match {
                Some(p) => Some(p as int),
                None => None,
            };
            match place_from(hay@, needle@, boundary_first, i + 1, Some(at as int), at + 1) {
                Some(rest) => {
                    assert(placed + (seq![at as int] + rest) =~= new_placed + rest);
                },
                None => {},
            }
        }
        score = score + BASE;
        if at == 0 {
            score = score + PREFIX;
        }
        if is_word_start(hay, at) {
            score = score + WORD_START;
        }
        match prev_match {
            Some(prev) => {
                if prev + 1 == at {
                    score = score + CONSECUTIVE;
                } else {
                    score = score - GAP * ((at - prev - 1) as i32);
                }
            },
            None => {
                score = score - GAP * (at as i32);
            },
        }
        proof {
            placed = new_placed;
        }
        prev_match = Some(at);
        hay_idx = at + 1;
        i = i + 1;
    }
    proof {
        assert(placed + Seq::<int>::empty() =~= placed);
    }
    Some(score)
}

/// Fuzzy-match `needle_lower` (which should already be lowercase) against
/// `haystack`.
///
/// Returns the match score, higher being better, or `None` when the needle's
/// characters do not appear in order. An empty needle matches everything.
pub fn score(haystack: &str, needle_lower: &str) -> (r: Option<i32>)
    requires
        haystack@.len() <= MAX_HAYSTACK,
    ensures
        match r {
            Some(s) => fuzzy_score(haystack@, needle_lower@) == Some(s as int),
            None => fuzzy_score(haystack@, needle_lower@) is None,
        },
        r is Some <==> fuzzy_matches(haystack@, needle_lower@),
{
    proof {
        lemma_score_some_iff_matches(haystack@, needle_lower@);
    }
    if needle_lower.is_empty() {
        return Some(0);
    }
    if haystack.is_empty() {
        return None;
    }
    let hay = chars_of(haystack);
    let needle = chars_of(needle_lower);
    if needle.len() > hay.len() {
        return None;
    }
    let greedy = score_alignment(hay.as_slice(), needle.as_slice(), false);
    let g = match greedy {
        Some(g) => g,
        None => {
            return None;
        },
    };
    let boundary = score_alignment(hay.as_slice(), needle.as_slice(), true);
    match boundary {
        Some(b) => Some(if g >= b { g } else { b }),
        None => Some(g),
    }
}

/// The better of two optional scores (`Option::max`, where `None` is least).
pub open spec fn best_of(a: Option<int>, b: Option<int>) -> Option<int> {
    match (a, b) {
        (Some(x), Some(y)) => Some(if x >= y { x } else { y }),
        (Some(x), None) => Some(x),
        (None, y) => y,
    }
}

/// The best score of `needle` across `fields`.
pub open spec fn fuzzy_score_any(fields: Seq<Seq<char>>, needle: Seq<char>) -> Option<int>
    decreases fields.len(),
{
    if fields.len() == 0 {
        None
    } else {
        best_of(fuzzy_score_any(fields.drop_last(), needle), fuzzy_score(fields.last(), needle))
    }
}

/// The texts of a list of fields.
pub open spec fn field_texts(fields: Seq<&str>) -> Seq<Seq<char>> {
    fields.map_values(|f: &str| f@)
}

proof fn lemma_score_any_bounds(fields: Seq<Seq<char>>, needle: Seq<char>)
    ensures
        fuzzy_score_any(fields, needle) is Some <==> exists|k: int|
            0 <= k < fields.len() && #[trigger] fuzzy_score(fields[k], needle) is Some,
        forall|k: int|
            0 <= k < fields.len() && #[trigger] fuzzy_score(fields[k], needle) is Some
                ==> fuzzy_score_any(fields, needle) is Some && fuzzy_score(fields[k], needle)->0
                <= fuzzy_score_any(fields, needle)->0,
    decreases fields.len(),
{
    if fields.len() > 0 {
        let init = fields.drop_last();
        lemma_score_any_bounds(init, needle);
        assert forall|k: int| 0 <= k < init.len() implies init[k] == fields[k] by {}
        if fuzzy_score_any(fields, needle) is Some {
            if fuzzy_score_any(init, needle) is Some {
                let k = choose|k: int| 0 <= k < init.len() && #[trigger] fuzzy_score(init[k], needle) is Some;
                assert(fuzzy_score(fields[k], needle) is Some);
            } else {
                assert(fuzzy_score(fields[fields.len() - 1], needle) is Some);
            }
        }
    }
}

/// Best score across several fields, e.g. an article's title and its feed.
pub fn score_any(fields: &[&str], needle_lower: &str) -> (r: Option<i32>)
    requires
        forall|k: int| 0 <= k < fields.len() ==> (#[trigger] fields@[k])@.len() <= MAX_HAYSTACK,
    ensures
        match r {
            Some(s) => fuzzy_score_any(field_texts(fields@), needle_lower@) == Some(s as int),
            None => fuzzy_score_any(field_texts(fields@), needle_lower@) is None,
        },
        r is Some <==> exists|k: int|
            0 <= k < fields.len() && fuzzy_matches(#[trigger] fields@[k]@, needle_lower@),
        forall|k: int|
            0 <= k < fields.len() && fuzzy_matches(#[trigger] fields@[k]@, needle_lower@) ==> r is Some
                && fuzzy_score(fields@[k]@, needle_lower@)->0 <= r->0,
{
    let ghost texts = field_texts(fields@);
    let mut best: Option<i32> = None;
    let mut i: usize = 0;
    while i < fields.len()
        invariant
            i <= fields.len(),
            texts == field_texts(fields@),
            forall|k: int| 0 <= k < fields.len() ==> (#[trigger] fields@[k])@.len() <= MAX_HAYSTACK,
            match best {
                Some(s) => fuzzy_score_any(texts.take(i as int), needle_lower@) == Some(s as int),
                None => fuzzy_score_any(texts.take(i as int), needle_lower@) is None,
            },
        decreases fields.len() - i,
    {
        let s = score(fields[i], needle_lower);
        proof {
            assert(texts.take(i + 1).drop_last() =~= texts.take(i as int));
            assert(texts.take(i + 1).last() == fields@[i as int]@);
        }
        best = match (best, s) {
            (Some(x), Some(y)) => Some(if x >= y { x } else { y }),
            (Some(x), None) => Some(x),
            (None, y) => y,
        };
        i = i + 1;
    }
    proof {
        assert(texts.take(fields.len() as int) =~= texts);
        lemma_score_any_bounds(texts, needle_lower@);
        assert forall|k: int| 0 <= k < fields.len() implies
            (fuzzy_matches(#[trigger] fields@[k]@, needle_lower@) <==> fuzzy_score(texts[k], needle_lower@) is Some) by {
            lemma_score_some_iff_matches(fields@[k]@, needle_lower@);
        }
    }
    best
}

// ---------------------------------------------------------------------------
// The law: a score exists exactly when the needle is a fuzzy subsequence.

proof fn lemma_pick_is_match(hay: Seq<char>, want: char, from: int, prev: Option<int>, b: bool)
    requires
        0 <= from,
    ensures
        pick(hay, want, from, prev, b) matches Some(at) ==> from <= at < hay.len() && folds_to(
            hay,
            at,
            want,
        ),
    decreases hay.len() - from,
{
    lemma_first_preferred_found(hay, want, from, prev, b);
    lemma_first_match_found_is_match(hay, want, from);
}

proof fn lemma_first_preferred_found(hay: Seq<char>, want: char, from: int, prev: Option<int>, b: bool)
    requires
        0 <= from,
    ensures
        first_preferred(hay, want, from, prev, b) matches Some(at) ==> from <= at < hay.len()
            && folds_to(hay, at, want),
    decreases hay.len() - from,
{
    if from < hay.len() {
        lemma_first_preferred_found(hay, want, from + 1, prev, b);
    }
}

proof fn lemma_first_match_found_is_match(hay: Seq<char>, want: char, from: int)
    requires
        0 <= from,
    ensures
        first_match(hay, want, from) matches Some(at) ==> from <= at < hay.len() && folds_to(
            hay,
            at,
            want,
        ),
        first_match(hay, want, from) is None ==> forall|k: int|
            from <= k < hay.len() ==> !folds_to(hay, k, want),
    decreases hay.len() - from,
{
    if from < hay.len() {
        lemma_first_match_found_is_match(hay, want, from + 1);
    }
}

/// A placement found from `from` is an embedding of the rest of the needle,
/// at positions no earlier than `from`.
proof fn lemma_place_sound(
    hay: Seq<char>,
    needle: Seq<char>,
    b: bool,
    i: int,
    prev: Option<int>,
    from: int,
)
    requires
        0 <= i <= needle.len(),
        0 <= from,
    ensures
        place_from(hay, needle, b, i, prev, from) matches Some(rest) ==> embeds(
            hay,
            needle.skip(i),
            rest,
        ) && (rest.len() > 0 ==> rest[0] >= from),
    decreases needle.len() - i,
{
    if i < needle.len() {
        lemma_pick_is_match(hay, needle[i], from, prev, b);
        match pick(hay, needle[i], from, prev, b) {
            None => {},
            Some(at) => {
                lemma_place_sound(hay, needle, b, i + 1, Some(at), at + 1);
                match place_from(hay, needle, b, i + 1, Some(at), at + 1) {
                    None => {},
                    Some(rest) => {
                        let all = seq![at] + rest;
                        let tail = needle.skip(i);
                        assert(needle.skip(i + 1) =~= tail.drop_first());
                        assert forall|j: int| 0 <= j < all.len() implies 0 <= #[trigger] all[j]
                            < hay.len() by {
                            if j > 0 {
                                assert(all[j] == rest[j - 1]);
                            }
                        }
                        assert forall|j: int| 0 <= j < all.len() implies folds_to(
                            hay,
                            #[trigger] all[j],
                            tail[j],
                        ) by {
                            if j > 0 {
                                assert(all[j] == rest[j - 1]);
                                assert(tail[j] == needle.skip(i + 1)[j - 1]);
                            }
                        }
                        assert forall|j: int| 0 < j < all.len() implies all[j - 1] < #[trigger] all[j] by {
                            assert(all[j] == rest[j - 1]);
                            if j > 1 {
                                assert(all[j - 1] == rest[j - 2]);
                            }
                        }
                    },
                }
            },
        }
    } else {
        assert(needle.skip(i).len() == 0);
    }
}

/// The greedy pass places the rest of the needle whenever some embedding of
/// it starts at or after `from`.
proof fn lemma_greedy_complete(
    hay: Seq<char>,
    needle: Seq<char>,
    i: int,
    prev: Option<int>,
    from: int,
    pos: Seq<int>,
)
    requires
        0 <= i <= needle.len(),
        0 <= from,
        embeds(hay, needle.skip(i), pos),
        pos.len() > 0 ==> pos[0] >= from,
    ensures
        place_from(hay, needle, false, i, prev, from) is Some,
    decreases needle.len() - i,
{
    if i < needle.len() {
        let tail = needle.skip(i);
        assert(tail[0] == needle[i]);
        assert(folds_to(hay, pos[0], needle[i]));
        lemma_first_match_found_is_match(hay, needle[i], from);
        lemma_first_match_not_after(hay, needle[i], from, pos[0]);
        lemma_first_preferred_greedy(hay, needle[i], from, prev);
        let at = first_match(hay, needle[i], from)->0;
        assert(pick(hay, needle[i], from, prev, false) == Some(at));
        let rest = pos.drop_first();
        assert(needle.skip(i + 1) =~= tail.drop_first());
        assert forall|j: int| 0 <= j < rest.len() implies 0 <= #[trigger] rest[j] < hay.len() by {
            assert(rest[j] == pos[j + 1]);
        }
        assert forall|j: int| 0 <= j < rest.len() implies folds_to(
            hay,
            #[trigger] rest[j],
            needle.skip(i + 1)[j],
        ) by {
            assert(rest[j] == pos[j + 1]);
            assert(needle.skip(i + 1)[j] == tail[j + 1]);
        }
        assert forall|j: int| 0 < j < rest.len() implies rest[j - 1] < #[trigger] rest[j] by {
            assert(rest[j] == pos[j + 1]);
            assert(rest[j - 1] == pos[j]);
        }
        if rest.len() > 0 {
            assert(rest[0] == pos[1]);
            assert(pos[0] < pos[1]);
        }
        lemma_greedy_complete(hay, needle, i + 1, Some(at), at + 1, rest);
    }
}

proof fn lemma_first_match_not_after(hay: Seq<char>, want: char, from: int, p: int)
    requires
        0 <= from <= p < hay.len(),
        folds_to(hay, p, want),
    ensures
        first_match(hay, want, from) matches Some(at) && at <= p,
    decreases p - from,
{
    if !folds_to(hay, from, want) {
        lemma_first_match_not_after(hay, want, from + 1, p);
    }
}

proof fn lemma_first_preferred_greedy(hay: Seq<char>, want: char, from: int, prev: Option<int>)
    requires
        0 <= from,
    ensures
        first_preferred(hay, want, from, prev, false) == first_match(hay, want, from),
    decreases hay.len() - from,
{
    if from < hay.len() {
        lemma_first_preferred_greedy(hay, want, from + 1, prev);
    }
}

/// Strictly increasing positions inside the haystack are no more numerous
/// than the haystack's characters.
proof fn lemma_embedding_short(hay: Seq<char>, needle: Seq<char>, pos: Seq<int>)
    requires
        embeds(hay, needle, pos),
    ensures
        needle.len() <= hay.len(),
{
    if pos.len() > 0 {
        assert forall|j: int| 0 <= j < pos.len() implies #[trigger] pos[j] >= j by {
            lemma_pos_at_least_index(pos, j);
        }
        assert(pos[pos.len() - 1] >= pos.len() - 1);
    }
}

proof fn lemma_pos_at_least_index(pos: Seq<int>, j: int)
    requires
        0 <= j < pos.len(),
        forall|k: int| 0 <= k < pos.len() ==> 0 <= #[trigger] pos[k],
        forall|k: int| 0 < k < pos.len() ==> pos[k - 1] < #[trigger] pos[k],
    ensures
        pos[j] >= j,
    decreases j,
{
    if j > 0 {
        lemma_pos_at_least_index(pos, j - 1);
    }
}

/// A score exists exactly when the needle is a case-insensitive subsequence
/// of the haystack; in particular the empty needle matches everything and
/// nothing non-empty matches the empty haystack.
pub proof fn lemma_score_some_iff_matches(hay: Seq<char>, needle: Seq<char>)
    ensures
        fuzzy_score(hay, needle) is Some <==> fuzzy_matches(hay, needle),
{
    if needle.len() == 0 {
        assert(embeds(hay, needle, Seq::<int>::empty()));
    } else if fuzzy_matches(hay, needle) {
        let pos = choose|pos: Seq<int>| embeds(hay, needle, pos);
        lemma_embedding_short(hay, needle, pos);
        assert(needle.skip(0) =~= needle);
        lemma_greedy_complete(hay, needle, 0, None, 0, pos);
    } else {
        lemma_place_sound(hay, needle, false, 0, None, 0);
        assert(needle.skip(0) =~= needle);
    }
}

} // verus!
