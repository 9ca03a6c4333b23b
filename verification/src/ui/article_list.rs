//! Layout of the article list: cards of a fixed height separated by gaps of
//! whole or half rows, and the labels drawn on each card.
use vstd::prelude::*;
use crate::model::{opt_view, Article};
use crate::reader::{display_width, format_time, formatted_time, text_width};
use crate::text::{concat_str, decimal, decimal_string, push_char, push_decimal, truncate_string, truncated};
use vstd::utf8::encode_utf8;

verus! {

/// Rows taken by one article card.
pub const CARD_HEIGHT: u16 = 3;

/// The first row of card `k` when consecutive cards are separated by
/// `halves` half rows: each gap is rounded down, and the rounding errors
/// accumulate so that gaps alternate when `halves` is odd.
pub open spec fn card_top_spec(k: int, halves: int) -> int {
    k * (CARD_HEIGHT as int) + (k * halves) / 2
}

proof fn lemma_card_top_step(k: int, halves: int)
    requires
        k >= 0,
        halves >= 0,
    ensures
        card_top_spec(k + 1, halves) >= card_top_spec(k, halves) + CARD_HEIGHT as int,
        card_top_spec(k + 1, halves) <= card_top_spec(k, halves) + CARD_HEIGHT as int + halves,
{
    assert((k + 1) * halves == k * halves + halves) by (nonlinear_arith);
    assert((k + 1) * 3 == k * 3 + 3) by (nonlinear_arith);
}

proof fn lemma_card_top_monotone(j: int, k: int, halves: int)
    requires
        0 <= j <= k,
        halves >= 0,
    ensures
        card_top_spec(j, halves) + (k - j) * (CARD_HEIGHT as int) <= card_top_spec(k, halves),
    decreases k - j,
{
    if j < k {
        lemma_card_top_step(k - 1, halves);
        lemma_card_top_monotone(j, k - 1, halves);
        assert((k - j) * 3 == (k - 1 - j) * 3 + 3) by (nonlinear_arith);
    }
}

proof fn lemma_card_top_nonneg(k: int, halves: int)
    requires
        k >= 0,
        halves >= 0,
    ensures
        card_top_spec(k, halves) >= 3 * k,
{
    assert(k * halves >= 0) by (nonlinear_arith)
        requires
            k >= 0,
            halves >= 0,
    ;
    assert(k * 3 == 3 * k) by (nonlinear_arith);
}

/// The row, relative to the list's top, at which card `index` starts.
pub fn card_top(index: usize, halves: u16) -> (r: u16)
    requires
        card_top_spec(index as int, halves as int) <= u16::MAX,
    ensures
        r as int == card_top_spec(index as int, halves as int),
{
    proof {
        lemma_card_top_nonneg(index as int, halves as int);
        assert((index as int) * (halves as int) <= 2 * u16::MAX + 1) by (nonlinear_arith)
            requires
                (index as int) * 3 + ((index as int) * (halves as int)) / 2 <= u16::MAX,
                index >= 0,
                halves >= 0,
        ;
    }
    let i = index as u64;
    let h = halves as u64;
    proof {
        assert(i * 3 <= u16::MAX);
        assert(i * h <= 2 * u16::MAX + 1);
    }
    let top = i * 3 + (i * h) / 2;
    top as u16
}

/// The card whose slot contains `row`: the last card starting at or above
/// it. Rows in the gap below a card belong to that card.
pub fn card_at_row(row: u16, halves: u16) -> (r: usize)
    ensures
        card_top_spec(r as int, halves as int) <= row < card_top_spec(r + 1, halves as int),
{
    let mut k: u64 = 0;
    let h = halves as u64;
    proof {
        assert(card_top_spec(0, halves as int) == 0);
    }
    loop
        invariant
            h == halves,
            card_top_spec(k as int, h as int) <= row,
            k <= row as u64,
        decreases row - k,
    {
        proof {
            lemma_card_top_step(k as int, h as int);
            lemma_card_top_nonneg(k as int + 1, h as int);
            assert((k as int + 1) * (h as int) == (k as int) * (h as int) + h as int) by (nonlinear_arith);
            assert((k as int + 1) * (h as int) <= 4 * u16::MAX);
        }
        let next = (k + 1) * 3 + ((k + 1) * h) / 2;
        if next > row as u64 {
            return k as usize;
        }
        k = k + 1;
    }
}

/// The cards drawn in a list `height` rows tall whose first card is card
/// `start` of `n`, from the `j`th card shown on: each card's index, its top
/// row and the rows of it that fit; cards are drawn while they start inside
/// the list, the last one clipped at the bottom edge.
pub open spec fn card_slots_from(height: int, halves: int, start: int, n: int, j: int) -> Seq<(usize, u16, u16)>
    decreases n - start - j,
{
    if j < 0 || start + j >= n || card_top_spec(j, halves) >= height {
        Seq::empty()
    } else {
        let top = card_top_spec(j, halves);
        let rows = if height - top < CARD_HEIGHT as int { height - top } else { CARD_HEIGHT as int };
        seq![((start + j) as usize, top as u16, rows as u16)] + card_slots_from(height, halves, start, n, j + 1)
    }
}

/// Where the cards from `start` on are drawn in a list `height` rows tall,
/// with `n` cards in all: each card's index, top row and visible rows, as
/// [`card_slots_from`] lays them out.
pub fn card_slots(height: u16, halves: u16, start: usize, n: usize) -> (r: Vec<(usize, u16, u16)>)
    ensures
        r@ == card_slots_from(height as int, halves as int, start as int, n as int, 0),
{
    let mut out: Vec<(usize, u16, u16)> = Vec::new();
    let mut j: usize = 0;
    loop
        invariant
            j <= 21846,
            j == 0 || card_top_spec(j - 1, halves as int) < height,
            out@ + card_slots_from(height as int, halves as int, start as int, n as int, j as int)
                == card_slots_from(height as int, halves as int, start as int, n as int, 0),
        ensures
            out@ == card_slots_from(height as int, halves as int, start as int, n as int, 0),
        decreases n - start - j,
    {
        if start >= n || j >= n - start {
            assert(out@ + Seq::<(usize, u16, u16)>::empty() =~= out@);
            break;
        }
        proof {
            lemma_card_top_nonneg(j as int, halves as int);
            if j > 0 {
                lemma_card_top_nonneg(j - 1, halves as int);
            }
            assert((j as int) * (halves as int) <= 21846 * 65535) by (nonlinear_arith)
                requires
                    j <= 21846,
                    halves <= 65535,
            ;
        }
        let top64: u64 = (j as u64) * 3 + ((j as u64) * (halves as u64)) / 2;
        if top64 >= height as u64 {
            assert(out@ + Seq::<(usize, u16, u16)>::empty() =~= out@);
            break;
        }
        let top = top64 as u16;
        let rows: u16 = if height - top < CARD_HEIGHT { height - top } else { CARD_HEIGHT };
        let ghost rest = card_slots_from(height as int, halves as int, start as int, n as int, j as int + 1);
        out.push((start + j, top, rows));
        proof {
            lemma_card_top_step(j as int, halves as int);
            lemma_card_top_nonneg(j as int + 1, halves as int);
        }
        j = j + 1;
    }
    out
}

/// Rows in a card's slot and in the gap after it all map back to that card,
/// and cards start strictly lower the further down the list they are.
pub proof fn lemma_card_rows_round_trip(k: int, halves: int, row: int)
    requires
        k >= 0,
        halves >= 0,
        card_top_spec(k, halves) <= row < card_top_spec(k, halves) + CARD_HEIGHT as int,
    ensures
        card_top_spec(k, halves) <= row < card_top_spec(k + 1, halves),
        k > 0 ==> card_top_spec(k - 1, halves) < card_top_spec(k, halves),
{
    lemma_card_top_step(k, halves);
    if k > 0 {
        lemma_card_top_step(k - 1, halves);
    }
}

/// The gap setting written in rows: whole rows, then `.5` for an odd number
/// of half rows.
pub open spec fn spacing_text(halves: nat) -> Seq<char> {
    if halves % 2 == 1 {
        decimal(halves / 2) + ".5"@
    } else {
        decimal(halves / 2)
    }
}

/// How a spacing of `halves` half rows is shown in the settings.
pub fn spacing_label(halves: u16) -> (r: String)
    ensures
        r@ == spacing_text(halves as nat),
{
    let mut s = decimal_string((halves / 2) as u64);
    if halves % 2 == 1 {
        push_char(&mut s, '.');
        push_char(&mut s, '5');
        proof {
            reveal_strlit(".5");
            assert(decimal((halves / 2) as nat).push('.').push('5') =~= decimal((halves / 2) as nat)
                + ".5"@);
        }
    }
    s
}

/// How long ago `date` was, as drawn on a card: `Just now`, minutes, or a
/// clock or calendar label chosen by the age.
pub enum RelativeTime {
    JustNow,
    MinutesAgo(u64),
    /// Under a day: the time of day.
    Today,
    Yesterday,
    /// Under a week: weekday and time of day.
    ThisWeek,
    /// Older: month and day.
    Older,
}

/// The age bracket of `date` seen from `now`.
pub open spec fn relative_bracket(now: int, date: int) -> RelativeTime {
    let secs = now - date;
    let mins = if secs >= 0 { secs / 60 } else { -((-secs) / 60) };
    let hours = if secs >= 0 { secs / 3600 } else { -((-secs) / 3600) };
    let days = if secs >= 0 { secs / 86400 } else { -((-secs) / 86400) };
    if secs < 60 {
        RelativeTime::JustNow
    } else if mins < 60 {
        RelativeTime::MinutesAgo(mins as u64)
    } else if hours < 24 {
        RelativeTime::Today
    } else if days == 1 {
        RelativeTime::Yesterday
    } else if days < 7 {
        RelativeTime::ThisWeek
    } else {
        RelativeTime::Older
    }
}

/// Classifies the age of `date` (seconds since the epoch) as seen at `now`.
pub fn relative_time(now: i64, date: i64) -> (r: RelativeTime)
    ensures
        r == relative_bracket(now as int, date as int),
{
    let secs: i128 = now as i128 - date as i128;
    if secs < 60 {
        RelativeTime::JustNow
    } else if secs / 60 < 60 {
        RelativeTime::MinutesAgo((secs / 60) as u64)
    } else if secs / 3600 < 24 {
        RelativeTime::Today
    } else if secs / 86400 == 1 {
        RelativeTime::Yesterday
    } else if secs / 86400 < 7 {
        RelativeTime::ThisWeek
    } else {
        RelativeTime::Older
    }
}

/// The text of a minutes-ago label.
pub fn minutes_ago_label(mins: u64) -> (r: String)
    ensures
        r@ == decimal(mins as nat) + "m ago"@,
{
    let mut s = String::new();
    push_decimal(&mut s, mins);
    push_char(&mut s, 'm');
    push_char(&mut s, ' ');
    push_char(&mut s, 'a');
    push_char(&mut s, 'g');
    push_char(&mut s, 'o');
    proof {
        reveal_strlit("m ago");
    }
    assert(s@ =~= decimal(mins as nat) + "m ago"@);
    s
}

/// The label of a card's date seen from `now`: a few words for the last
/// hour and yesterday, else the time or date in UTC as `chrono` formats it.
pub open spec fn time_label(now: i64, date: i64) -> Option<Seq<char>> {
    match relative_bracket(now as int, date as int) {
        RelativeTime::JustNow => Some("Just now"@),
        RelativeTime::MinutesAgo(m) => Some(decimal(m as nat) + "m ago"@),
        RelativeTime::Today => formatted_time(date, "%I:%M %p"@),
        RelativeTime::Yesterday => Some("Yesterday"@),
        RelativeTime::ThisWeek => formatted_time(date, "%a %I:%M %p"@),
        RelativeTime::Older => formatted_time(date, "%b %d"@),
    }
}

/// The label of a card's date; `None` only where `chrono` cannot represent
/// the date.
pub fn relative_time_label(now: i64, date: i64) -> (r: Option<String>)
    ensures
        opt_view(r) == time_label(now, date),
{
    match relative_time(now, date) {
        RelativeTime::JustNow => Some("Just now".to_owned()),
        RelativeTime::MinutesAgo(m) => Some(minutes_ago_label(m)),
        RelativeTime::Today => format_time(date, "%I:%M %p"),
        RelativeTime::Yesterday => Some("Yesterday".to_owned()),
        RelativeTime::ThisWeek => format_time(date, "%a %I:%M %p"),
        RelativeTime::Older => format_time(date, "%b %d"),
    }
}

/// The text of one article card.
pub struct CardText {
    /// `● ` before an unread article's title, two spaces before a read one.
    pub dot: &'static str,
    /// `★ ` for a starred article.
    pub star: &'static str,
    pub title: String,
    /// The second line after its four spaces of indent.
    pub summary: String,
    /// The third line: the feed's name after four spaces.
    pub feed: String,
    /// The date label and a space, drawn at the right edge when it fits.
    pub time: Option<String>,
}

/// `n - k`, or zero when `k` is larger.
pub open spec fn less(n: nat, k: nat) -> nat {
    if n >= k { (n - k) as nat } else { 0 }
}

/// The title after the dot and star, in a card `width` cells wide.
pub open spec fn card_title(a: Article, width: nat) -> Seq<char> {
    let prefix: nat = if a.starred { 4 } else { 2 };
    truncated(a.title@, less(width, prefix + 1))
}

/// The summary on the card's second line, after its indent.
pub open spec fn card_summary(a: Article, width: nat) -> Seq<char> {
    truncated(match a.summary { Some(s) => s@, None => Seq::empty() }, less(width, 5))
}

/// The date a card shows: the publication time, else when it was stored.
pub open spec fn card_date(a: Article) -> i64 {
    match a.published {
        Some(p) => p,
        None => a.created_at,
    }
}

/// The date label with its trailing space, when there is one and the card
/// is wider than the feed line, the label and two cells more.
pub open spec fn card_time(a: Article, width: nat, now: i64) -> Option<Seq<char>> {
    match time_label(now, card_date(a)) {
        Some(t) => if width > display_width(a.feed_title@) + 4 + encode_utf8(t).len() + 1 + 2 {
            Some(t + " "@)
        } else {
            None
        },
        None => None,
    }
}

/// The text of the card for `a` in a list `width` cells wide, at time `now`.
pub fn card_text(a: &Article, width: u16, now: i64) -> (r: CardText)
    ensures
        r.dot@ == (if a.read { "  "@ } else { "● "@ }),
        r.star@ == (if a.starred { "★ "@ } else { ""@ }),
        r.title@ == card_title(*a, width as nat),
        r.summary@ == card_summary(*a, width as nat),
        r.feed@ == "    "@ + a.feed_title@,
        opt_view(r.time) == card_time(*a, width as nat, now),
{
    let w = width as usize;
    let prefix: usize = if a.starred { 4 } else { 2 };
    let title_room: usize = if w >= prefix + 1 { w - (prefix + 1) } else { 0 };
    let title = truncate_string(a.title.as_str(), title_room);
    let summary_room: usize = if w >= 5 { w - 5 } else { 0 };
    let summary = match &a.summary {
        Some(s) => truncate_string(s.as_str(), summary_room),
        None => String::new(),
    };
    let feed = concat_str("    ", a.feed_title.as_str());
    let date = match a.published {
        Some(p) => p,
        None => a.created_at,
    };
    let time = match relative_time_label(now, date) {
        Some(t) => {
            let feed_w = text_width(a.feed_title.as_str());
            let t_len = t.as_str().as_bytes().len();
            assert(t_len == encode_utf8(t@).len());
            if feed_w < w && t_len < w - feed_w && w - feed_w - t_len > 7 {
                Some(concat_str(t.as_str(), " "))
            } else {
                None
            }
        },
        None => None,
    };
    CardText {
        dot: if a.read { "  " } else { "● " },
        star: if a.starred { "★ " } else { "" },
        title,
        summary,
        feed,
        time,
    }
}

} // verus!
