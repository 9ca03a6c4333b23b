//! Character-level helpers over `&str` and `String`, stated over the
//! `Seq<char>` view of the text, and the Unicode character classes that
//! the rest of the library asks of `char`.
use vstd::prelude::*;

verus! {

/// `char::is_whitespace`: the Unicode `White_Space` property, which these
/// code points have: tab, line feed, vertical tab, form feed, carriage
/// return, space, next line, no-break space, the Ogham space mark, the
/// spaces U+2000 to U+200A, the line and paragraph separators, the narrow
/// no-break space, the medium mathematical space and the ideographic space.
pub open spec fn unicode_white_space(c: char) -> bool {
    let n = c as u32;
    ||| 0x09 <= n <= 0x0D
    ||| n == 0x20
    ||| n == 0x85
    ||| n == 0xA0
    ||| n == 0x1680
    ||| 0x2000 <= n <= 0x200A
    ||| n == 0x2028
    ||| n == 0x2029
    ||| n == 0x202F
    ||| n == 0x205F
    ||| n == 0x3000
}

/// An ASCII letter or digit.
pub open spec fn ascii_alphanumeric(c: char) -> bool {
    ('a' <= c && c <= 'z') || ('A' <= c && c <= 'Z') || ('0' <= c && c <= '9')
}

/// `char::is_alphanumeric` on a character beyond ASCII: the Unicode
/// `Alphabetic` or `Numeric` property.
pub uninterp spec fn non_ascii_alphanumeric(c: char) -> bool;

/// `char::is_alphanumeric`: among ASCII characters the alphabetic ones are
/// the letters and the numeric ones the digits.
pub open spec fn unicode_alphanumeric(c: char) -> bool {
    if (c as u32) < 128 {
        ascii_alphanumeric(c)
    } else {
        non_ascii_alphanumeric(c)
    }
}

/// `char::is_lowercase` on a character beyond ASCII: the Unicode
/// `Lowercase` property.
pub uninterp spec fn non_ascii_lowercase(c: char) -> bool;

/// `char::is_lowercase`: among ASCII characters, the small letters.
pub open spec fn unicode_lowercase(c: char) -> bool {
    if (c as u32) < 128 {
        'a' <= c && c <= 'z'
    } else {
        non_ascii_lowercase(c)
    }
}

/// `char::is_uppercase` on a character beyond ASCII: the Unicode
/// `Uppercase` property.
pub uninterp spec fn non_ascii_uppercase(c: char) -> bool;

/// `char::is_uppercase`: among ASCII characters, the capital letters.
pub open spec fn unicode_uppercase(c: char) -> bool {
    if (c as u32) < 128 {
        'A' <= c && c <= 'Z'
    } else {
        non_ascii_uppercase(c)
    }
}

/// The first character that `char::to_lowercase` yields for a character
/// beyond ASCII.
pub uninterp spec fn non_ascii_lower_first(c: char) -> char;

/// The first character that `char::to_lowercase` yields for `c`: an ASCII
/// character's lowercase form is ASCII.
pub open spec fn lower_first(c: char) -> Option<char> {
    if (c as u32) < 128 {
        Some(ascii_lower(c))
    } else {
        Some(non_ascii_lower_first(c))
    }
}

/// `str::to_lowercase` on text that is not all ASCII: the Unicode lowercase
/// mapping of a whole string.
pub uninterp spec fn lowercase_non_ascii(s: Seq<char>) -> Seq<char>;

/// Every character of `s` is ASCII.
pub open spec fn all_ascii(s: Seq<char>) -> bool {
    forall|i: int| 0 <= i < s.len() ==> (#[trigger] s[i] as u32) < 128
}

/// A character with its ASCII capital letters made small.
pub open spec fn ascii_lower(c: char) -> char {
    if 'A' <= c && c <= 'Z' {
        ((c as u32) + 32) as char
    } else {
        c
    }
}

/// What `str::to_lowercase` makes of `s`: all-ASCII text has each capital
/// letter made small, one for one; other text is `lowercase_non_ascii`.
#[verifier::opaque]
pub open spec fn lowercase_str(s: Seq<char>) -> Seq<char> {
    if all_ascii(s) {
        s.map_values(|c: char| ascii_lower(c))
    } else {
        lowercase_non_ascii(s)
    }
}

/// `char::is_whitespace`: whether `c` has the Unicode `White_Space`
/// property.
pub(crate) fn char_is_whitespace(c: char) -> (r: bool)
    ensures
        r == unicode_white_space(c),
{
    let n = c as u32;
    (0x09 <= n && n <= 0x0D) || n == 0x20 || n == 0x85 || n == 0xA0 || n == 0x1680 || (0x2000 <= n && n <= 0x200A)
        || n == 0x2028 || n == 0x2029 || n == 0x202F || n == 0x205F || n == 0x3000
}

/// Calls `char::is_alphanumeric`: `unicode_alphanumeric(c)`, which among
/// ASCII characters holds of letters and digits alone; beyond ASCII the
/// result is named `non_ascii_alphanumeric`.
#[verifier::external_body]
pub(crate) fn char_is_alphanumeric(c: char) -> (r: bool)
    ensures
        r == unicode_alphanumeric(c),
        (c as u32) >= 128 ==> r == non_ascii_alphanumeric(c),
{
    c.is_alphanumeric()
}

/// Calls `char::is_lowercase`: `unicode_lowercase(c)`, which among ASCII
/// characters holds of the small letters alone; beyond ASCII the result is
/// named `non_ascii_lowercase`.
#[verifier::external_body]
pub(crate) fn char_is_lowercase(c: char) -> (r: bool)
    ensures
        r == unicode_lowercase(c),
        (c as u32) >= 128 ==> r == non_ascii_lowercase(c),
{
    c.is_lowercase()
}

/// Calls `char::is_uppercase`: `unicode_uppercase(c)`, which among ASCII
/// characters holds of the capital letters alone; beyond ASCII the result
/// is named `non_ascii_uppercase`.
#[verifier::external_body]
pub(crate) fn char_is_uppercase(c: char) -> (r: bool)
    ensures
        r == unicode_uppercase(c),
        (c as u32) >= 128 ==> r == non_ascii_uppercase(c),
{
    c.is_uppercase()
}

/// Calls `char::to_lowercase` and takes the first character it yields:
/// `lower_first(c)`. The documentation says the mapping yields one or more
/// characters, so there is one, and an ASCII character maps to its ASCII
/// lowercase form; beyond ASCII the character is named
/// `non_ascii_lower_first`.
#[verifier::external_body]
pub(crate) fn char_lower_first(c: char) -> (r: Option<char>)
    ensures
        r == lower_first(c),
        (c as u32) >= 128 ==> r == Some(non_ascii_lower_first(c)),
{
    c.to_lowercase().next()
}

/// `str::to_uppercase` on text that is not all ASCII: every character
/// mapped to its Unicode uppercase form (which may be several characters).
pub uninterp spec fn uppercase_non_ascii(s: Seq<char>) -> Seq<char>;

/// A character with its ASCII small letters made capital.
pub open spec fn ascii_upper(c: char) -> char {
    if 'a' <= c && c <= 'z' {
        ((c as u32) - 32) as char
    } else {
        c
    }
}

/// What `str::to_uppercase` makes of `s`: all-ASCII text has each small
/// letter made capital, one for one; other text is `uppercase_non_ascii`.
pub open spec fn uppercase_str(s: Seq<char>) -> Seq<char> {
    if all_ascii(s) {
        s.map_values(|c: char| ascii_upper(c))
    } else {
        uppercase_non_ascii(s)
    }
}

/// Calls `str::to_uppercase`: `uppercase_str(s)`. ASCII text has its small
/// letters made capital and nothing else changed; the uppercase of other
/// text is named `uppercase_non_ascii`.
#[verifier::external_body]
pub(crate) fn str_to_uppercase(s: &str) -> (r: String)
    ensures
        r@ == uppercase_str(s@),
        !all_ascii(s@) ==> r@ == uppercase_non_ascii(s@),
{
    s.to_uppercase()
}

/// Calls `str::to_lowercase`. As its documentation shows, ASCII text has
/// its capital letters made small and nothing else changed; the lowercase
/// of other text is named `lowercase_non_ascii`.
#[verifier::external_body]
pub(crate) fn str_to_lowercase(s: &str) -> (r: String)
    ensures
        r@ == lowercase_str(s@),
        all_ascii(s@) ==> r@ == s@.map_values(|c: char| ascii_lower(c)),
        !all_ascii(s@) ==> r@ == lowercase_non_ascii(s@),
{
    s.to_lowercase()
}

/// Calls `String::push`, which appends one character.
#[verifier::external_body]
pub(crate) fn push_char(s: &mut String, c: char)
    ensures
        final(s)@ == old(s)@.push(c),
{
    s.push(c);
}

/// Every character of `s`, in order.
pub fn chars_of(s: &str) -> (r: Vec<char>)
    ensures
        r@ == s@,
{
    let mut r: Vec<char> = Vec::new();
    for c in it: s.chars()
        invariant
            r@ == it.seq().take(it.index() as int),
    {
        r.push(c);
    }
    r
}

/// The string whose characters are `v`.
pub fn string_from_chars(v: &[char]) -> (r: String)
    ensures
        r@ == v@,
{
    let mut r = String::new();
    let mut i: usize = 0;
    while i < v.len()
        invariant
            i <= v.len(),
            r@ == v@.take(i as int),
        decreases v.len() - i,
    {
        push_char(&mut r, v[i]);
        assert(v@.take(i as int).push(v@[i as int]) =~= v@.take(i + 1));
        i = i + 1;
    }
    assert(v@.take(v.len() as int) =~= v@);
    r
}

/// `s` followed by `t`.
pub fn concat_str(s: &str, t: &str) -> (r: String)
    ensures
        r@ == s@ + t@,
{
    let mut r = s.to_owned();
    let tc = chars_of(t);
    let mut i: usize = 0;
    while i < tc.len()
        invariant
            i <= tc.len(),
            tc@ == t@,
            r@ == s@ + t@.take(i as int),
        decreases tc.len() - i,
    {
        push_char(&mut r, tc[i]);
        assert(t@.take(i as int).push(t@[i as int]) =~= t@.take(i + 1));
        assert((s@ + t@.take(i as int)).push(t@[i as int]) =~= s@ + t@.take(i + 1));
        i = i + 1;
    }
    assert(t@.take(t@.len() as int) =~= t@);
    r
}

/// The number of leading characters of `s` that are whitespace.
pub open spec fn leading_ws(s: Seq<char>) -> nat
    decreases s.len(),
{
    if s.len() > 0 && unicode_white_space(s[0]) {
        1 + leading_ws(s.drop_first())
    } else {
        0
    }
}

/// The number of trailing characters of `s` that are whitespace.
pub open spec fn trailing_ws(s: Seq<char>) -> nat
    decreases s.len(),
{
    if s.len() > 0 && unicode_white_space(s.last()) {
        1 + trailing_ws(s.drop_last())
    } else {
        0
    }
}

/// `s` without its trailing whitespace (`str::trim_end`).
pub open spec fn trim_end_spec(s: Seq<char>) -> Seq<char> {
    s.take(s.len() - trailing_ws(s))
}

/// `s` without its leading whitespace (`str::trim_start`).
pub open spec fn trim_start_spec(s: Seq<char>) -> Seq<char> {
    s.skip(leading_ws(s) as int)
}

/// `s` without leading or trailing whitespace (`str::trim`).
pub open spec fn trim_spec(s: Seq<char>) -> Seq<char> {
    trim_end_spec(trim_start_spec(s))
}

pub proof fn lemma_trailing_ws_bound(s: Seq<char>)
    ensures
        trailing_ws(s) <= s.len(),
    decreases s.len(),
{
    if s.len() > 0 && unicode_white_space(s.last()) {
        lemma_trailing_ws_bound(s.drop_last());
    }
}

pub proof fn lemma_leading_ws_bound(s: Seq<char>)
    ensures
        leading_ws(s) <= s.len(),
    decreases s.len(),
{
    if s.len() > 0 && unicode_white_space(s[0]) {
        lemma_leading_ws_bound(s.drop_first());
    }
}

/// The number of trailing whitespace characters of the first `n` of `s`.
fn count_trailing_ws(s: &Vec<char>, n: usize) -> (r: usize)
    requires
        n <= s.len(),
    ensures
        r == trailing_ws(s@.take(n as int)),
        r <= n,
    decreases n,
{
    if n == 0 {
        assert(s@.take(0).len() == 0);
        0
    } else if char_is_whitespace(s[n - 1]) {
        assert(s@.take(n as int).drop_last() =~= s@.take(n - 1));
        let k = count_trailing_ws(s, n - 1);
        k + 1
    } else {
        0
    }
}

/// The number of leading whitespace characters of `s` from position `i` on.
fn count_leading_ws(s: &Vec<char>, i: usize) -> (r: usize)
    requires
        i <= s.len(),
    ensures
        r == leading_ws(s@.skip(i as int)),
        r <= s.len() - i,
    decreases s.len() - i,
{
    if i == s.len() {
        assert(s@.skip(i as int).len() == 0);
        0
    } else if char_is_whitespace(s[i]) {
        assert(s@.skip(i as int).drop_first() =~= s@.skip(i + 1));
        let k = count_leading_ws(s, i + 1);
        k + 1
    } else {
        0
    }
}

/// `s` with leading and trailing whitespace removed, as `str::trim` does.
pub fn trim_chars(s: &Vec<char>) -> (r: Vec<char>)
    ensures
        r@ == trim_spec(s@),
{
    let lead = count_leading_ws(s, 0);
    assert(s@.skip(0) =~= s@);
    let mut mid: Vec<char> = Vec::new();
    let mut i = lead;
    while i < s.len()
        invariant
            lead <= i <= s.len(),
            mid@ == s@.subrange(lead as int, i as int),
        decreases s.len() - i,
    {
        mid.push(s[i]);
        assert(s@.subrange(lead as int, i as int).push(s@[i as int]) =~= s@.subrange(lead as int, i + 1));
        i = i + 1;
    }
    assert(mid@ =~= trim_start_spec(s@));
    let tail = count_trailing_ws(&mid, mid.len());
    assert(mid@.take(mid.len() as int) =~= mid@);
    let keep = mid.len() - tail;
    let mut r: Vec<char> = Vec::new();
    let mut j: usize = 0;
    while j < keep
        invariant
            keep <= mid.len(),
            j <= keep,
            r@ == mid@.take(j as int),
        decreases keep - j,
    {
        r.push(mid[j]);
        assert(mid@.take(j as int).push(mid@[j as int]) =~= mid@.take(j + 1));
        j = j + 1;
    }
    r
}

/// `s` with trailing whitespace removed, as `str::trim_end` does.
pub fn trim_end_chars(s: &Vec<char>) -> (r: Vec<char>)
    ensures
        r@ == trim_end_spec(s@),
{
    let tail = count_trailing_ws(s, s.len());
    assert(s@.take(s.len() as int) =~= s@);
    let keep = s.len() - tail;
    let mut r: Vec<char> = Vec::new();
    let mut j: usize = 0;
    while j < keep
        invariant
            keep <= s.len(),
            j <= keep,
            r@ == s@.take(j as int),
        decreases keep - j,
    {
        r.push(s[j]);
        assert(s@.take(j as int).push(s@[j as int]) =~= s@.take(j + 1));
        j = j + 1;
    }
    r
}

} // verus!

verus! {

/// The decimal digits of `n`, most significant first, without leading zeros
/// (`"0"` for zero).
pub open spec fn decimal(n: nat) -> Seq<char>
    decreases n,
{
    if n < 10 {
        seq![digit_char(n)]
    } else {
        decimal(n / 10).push(digit_char(n % 10))
    }
}

/// The ASCII digit for `d` (which is below ten).
pub open spec fn digit_char(d: nat) -> char {
    if d == 0 { '0' }
    else if d == 1 { '1' }
    else if d == 2 { '2' }
    else if d == 3 { '3' }
    else if d == 4 { '4' }
    else if d == 5 { '5' }
    else if d == 6 { '6' }
    else if d == 7 { '7' }
    else if d == 8 { '8' }
    else { '9' }
}

fn digit_of(d: u64) -> (c: char)
    requires
        d < 10,
    ensures
        c == digit_char(d as nat),
{
    if d == 0 { '0' }
    else if d == 1 { '1' }
    else if d == 2 { '2' }
    else if d == 3 { '3' }
    else if d == 4 { '4' }
    else if d == 5 { '5' }
    else if d == 6 { '6' }
    else if d == 7 { '7' }
    else if d == 8 { '8' }
    else { '9' }
}

/// Appends the decimal digits of `n` to `s`, as `write!(s, "{n}")` does.
pub fn push_decimal(s: &mut String, n: u64)
    ensures
        final(s)@ == old(s)@ + decimal(n as nat),
    decreases n,
{
    if n < 10 {
        push_char(s, digit_of(n));
        assert(old(s)@.push(digit_char(n as nat)) =~= old(s)@ + decimal(n as nat));
    } else {
        push_decimal(s, n / 10);
        push_char(s, digit_of(n % 10));
        assert((old(s)@ + decimal((n / 10) as nat)).push(digit_char((n % 10) as nat)) =~= old(s)@
            + decimal(n as nat));
    }
}

/// The decimal representation of `n`.
pub fn decimal_string(n: u64) -> (r: String)
    ensures
        r@ == decimal(n as nat),
{
    let mut s = String::new();
    push_decimal(&mut s, n);
    assert(Seq::<char>::empty() + decimal(n as nat) =~= decimal(n as nat));
    s
}

} // verus!

verus! {

/// `s` cut to at most `max_len` characters: when it is longer, its first
/// `max_len - 1` characters (none when `max_len` is zero) followed by `…`.
pub open spec fn truncated(s: Seq<char>, max_len: nat) -> Seq<char> {
    if s.len() <= max_len {
        s
    } else {
        s.take(if max_len == 0 { 0 } else { max_len - 1 }).push('…')
    }
}

/// Shortens `s` to fit `max_len` characters, marking the cut with an ellipsis.
pub fn truncate_string(s: &str, max_len: usize) -> (r: String)
    ensures
        r@ == truncated(s@, max_len as nat),
{
    let chars = chars_of(s);
    if chars.len() <= max_len {
        s.to_owned()
    } else {
        let keep = if max_len == 0 { 0 } else { max_len - 1 };
        let mut r = String::new();
        let mut i: usize = 0;
        while i < keep
            invariant
                keep < chars.len(),
                chars@ == s@,
                i <= keep,
                r@ == s@.take(i as int),
            decreases keep - i,
        {
            push_char(&mut r, chars[i]);
            assert(s@.take(i as int).push(s@[i as int]) =~= s@.take(i + 1));
            i = i + 1;
        }
        push_char(&mut r, '…');
        r
    }
}

} // verus!

verus! {

/// `p` occurs in `s` starting at position `i`.
pub open spec fn occurs_at(s: Seq<char>, p: Seq<char>, i: int) -> bool {
    0 <= i && i + p.len() <= s.len() && s.subrange(i, i + p.len()) == p
}

/// `p` occurs somewhere in `s` (`str::contains`).
pub open spec fn seq_contains(s: Seq<char>, p: Seq<char>) -> bool {
    exists|i: int| occurs_at(s, p, i)
}

/// `s` with every occurrence of the non-empty `p` removed, scanning left to
/// right without overlaps (`str::replace(p, "")`).
pub open spec fn remove_all(s: Seq<char>, p: Seq<char>) -> Seq<char>
    decreases s.len(),
{
    if p.len() == 0 || s.len() == 0 {
        s
    } else if occurs_at(s, p, 0) {
        remove_all(s.skip(p.len() as int), p)
    } else {
        seq![s[0]] + remove_all(s.skip(1), p)
    }
}

/// Does `p` occur in `s` at position `i`?
pub fn occurs_at_exec(s: &Vec<char>, p: &Vec<char>, i: usize) -> (r: bool)
    requires
        i <= s.len(),
    ensures
        r == occurs_at(s@, p@, i as int),
{
    if p.len() > s.len() - i {
        return false;
    }
    let mut k: usize = 0;
    while k < p.len()
        invariant
            i + p.len() <= s.len(),
            k <= p.len(),
            forall|m: int| 0 <= m < k ==> s@[i + m] == p@[m],
        decreases p.len() - k,
    {
        if s[i + k] != p[k] {
            assert(s@.subrange(i as int, i + p.len())[k as int] != p@[k as int]);
            return false;
        }
        k = k + 1;
    }
    assert(s@.subrange(i as int, i + p.len()) =~= p@);
    true
}

/// Does `p` occur anywhere in `s`?
pub fn contains_chars(s: &Vec<char>, p: &Vec<char>) -> (r: bool)
    ensures
        r == seq_contains(s@, p@),
{
    if p.len() > s.len() {
        assert forall|m: int| !occurs_at(s@, p@, m) by {}
        return false;
    }
    let last = s.len() - p.len();
    let mut i: usize = 0;
    while i <= last
        invariant
            last == s.len() - p.len(),
            i <= last + 1,
            forall|m: int| 0 <= m < i ==> !occurs_at(s@, p@, m),
        decreases last + 1 - i,
    {
        if occurs_at_exec(s, p, i) {
            return true;
        }
        if i == last {
            assert forall|m: int| !occurs_at(s@, p@, m) by {
                if 0 <= m && m <= i {
                }
            }
            return false;
        }
        i = i + 1;
    }
    false
}

/// `s` with every occurrence of the non-empty `p` removed.
pub fn remove_all_chars(s: &Vec<char>, p: &Vec<char>) -> (r: Vec<char>)
    requires
        p.len() > 0,
    ensures
        r@ == remove_all(s@, p@),
{
    let mut out: Vec<char> = Vec::new();
    let mut i: usize = 0;
    assert(s@.skip(0) =~= s@);
    while i < s.len()
        invariant
            i <= s.len(),
            p.len() > 0,
            remove_all(s@, p@) == out@ + remove_all(s@.skip(i as int), p@),
        decreases s.len() - i,
    {
        let ghost rest = s@.skip(i as int);
        if occurs_at_exec(s, p, i) {
            assert(rest.subrange(0, p.len() as int) =~= s@.subrange(i as int, i + p.len()));
            assert(rest.skip(p.len() as int) =~= s@.skip(i + p.len()));
            i = i + p.len();
        } else {
            assert(!occurs_at(rest, p@, 0)) by {
                if i + p.len() <= s.len() {
                    assert(rest.subrange(0, p.len() as int) =~= s@.subrange(i as int, i + p.len()));
                }
            }
            assert(rest.skip(1) =~= s@.skip(i + 1));
            assert(rest[0] == s@[i as int]);
            assert(out@.push(s@[i as int]) + remove_all(rest.skip(1), p@) =~= out@ + (seq![rest[0]]
                + remove_all(rest.skip(1), p@)));
            out.push(s[i]);
            i = i + 1;
        }
    }
    assert(s@.skip(i as int).len() == 0);
    assert(out@ + s@.skip(i as int) =~= out@);
    out
}

/// `s` with every occurrence of the non-empty `p` replaced by `r`, scanning
/// left to right without overlaps (`str::replace`).
pub open spec fn replace_all(s: Seq<char>, p: Seq<char>, r: Seq<char>) -> Seq<char>
    decreases s.len(),
{
    if p.len() == 0 || s.len() == 0 {
        s
    } else if occurs_at(s, p, 0) {
        r + replace_all(s.skip(p.len() as int), p, r)
    } else {
        seq![s[0]] + replace_all(s.skip(1), p, r)
    }
}

/// `s` with every occurrence of the non-empty `p` replaced by `r`.
pub fn replace_all_chars(s: &Vec<char>, p: &Vec<char>, r: &Vec<char>) -> (out: Vec<char>)
    requires
        p.len() > 0,
    ensures
        out@ == replace_all(s@, p@, r@),
{
    let mut out: Vec<char> = Vec::new();
    let mut i: usize = 0;
    assert(s@.skip(0) =~= s@);
    while i < s.len()
        invariant
            i <= s.len(),
            p.len() > 0,
            replace_all(s@, p@, r@) == out@ + replace_all(s@.skip(i as int), p@, r@),
        decreases s.len() - i,
    {
        let ghost rest = s@.skip(i as int);
        if occurs_at_exec(s, p, i) {
            assert(rest.subrange(0, p.len() as int) =~= s@.subrange(i as int, i + p.len()));
            assert(rest.skip(p.len() as int) =~= s@.skip(i + p.len()));
            let ghost o = out@;
            let mut k: usize = 0;
            while k < r.len()
                invariant
                    k <= r.len(),
                    out@ == o + r@.take(k as int),
                decreases r.len() - k,
            {
                out.push(r[k]);
                assert(out@ =~= o + r@.take(k as int + 1));
                k = k + 1;
            }
            assert(r@.take(r.len() as int) =~= r@);
            assert(o + (r@ + replace_all(rest.skip(p.len() as int), p@, r@)) =~= out@ + replace_all(
                s@.skip(i + p.len()),
                p@,
                r@,
            ));
            i = i + p.len();
        } else {
            assert(!occurs_at(rest, p@, 0)) by {
                if i + p.len() <= s.len() {
                    assert(rest.subrange(0, p.len() as int) =~= s@.subrange(i as int, i + p.len()));
                }
            }
            assert(rest.skip(1) =~= s@.skip(i + 1));
            assert(rest[0] == s@[i as int]);
            assert(out@.push(s@[i as int]) + replace_all(rest.skip(1), p@, r@) =~= out@ + (seq![rest[0]]
                + replace_all(rest.skip(1), p@, r@)));
            out.push(s[i]);
            i = i + 1;
        }
    }
    assert(s@.skip(i as int).len() == 0);
    assert(out@ + s@.skip(i as int) =~= out@);
    out
}

/// The pieces of `s` between the occurrences of the non-empty `p`, found
/// left to right without overlaps (`str::split`), the first piece starting
/// with `cur`.
pub open spec fn split_from(s: Seq<char>, p: Seq<char>, cur: Seq<char>) -> Seq<Seq<char>>
    decreases s.len(),
{
    if p.len() == 0 || s.len() == 0 {
        seq![cur + s]
    } else if occurs_at(s, p, 0) {
        seq![cur] + split_from(s.skip(p.len() as int), p, Seq::empty())
    } else {
        split_from(s.skip(1), p, cur.push(s[0]))
    }
}

/// The pieces of `s` between the occurrences of `p` (`str::split`).
pub open spec fn split_on(s: Seq<char>, p: Seq<char>) -> Seq<Seq<char>> {
    split_from(s, p, Seq::empty())
}

/// Splits `s` at each occurrence of the non-empty `p`.
pub fn split_chars(s: &Vec<char>, p: &Vec<char>) -> (out: Vec<Vec<char>>)
    requires
        p.len() > 0,
    ensures
        out@.map_values(|v: Vec<char>| v@) == split_on(s@, p@),
{
    let mut out: Vec<Vec<char>> = Vec::new();
    let mut cur: Vec<char> = Vec::new();
    let mut i: usize = 0;
    assert(s@.skip(0) =~= s@);
    while i < s.len()
        invariant
            i <= s.len(),
            p.len() > 0,
            split_on(s@, p@) == out@.map_values(|v: Vec<char>| v@) + split_from(s@.skip(i as int), p@, cur@),
        decreases s.len() - i,
    {
        let ghost rest = s@.skip(i as int);
        let ghost before = out@.map_values(|v: Vec<char>| v@);
        let ghost c0 = cur@;
        if occurs_at_exec(s, p, i) {
            assert(rest.subrange(0, p.len() as int) =~= s@.subrange(i as int, i + p.len()));
            assert(rest.skip(p.len() as int) =~= s@.skip(i + p.len()));
            out.push(cur);
            cur = Vec::new();
            assert(out@.map_values(|v: Vec<char>| v@) =~= before.push(c0));
            assert(before + (seq![c0] + split_from(s@.skip(i + p.len()), p@, Seq::empty())) =~= before.push(c0)
                + split_from(s@.skip(i + p.len()), p@, Seq::empty()));
            i = i + p.len();
        } else {
            assert(!occurs_at(rest, p@, 0)) by {
                if i + p.len() <= s.len() {
                    assert(rest.subrange(0, p.len() as int) =~= s@.subrange(i as int, i + p.len()));
                }
            }
            assert(rest.skip(1) =~= s@.skip(i + 1));
            assert(rest[0] == s@[i as int]);
            cur.push(s[i]);
            i = i + 1;
        }
    }
    let ghost before = out@.map_values(|v: Vec<char>| v@);
    assert(s@.skip(i as int) =~= Seq::<char>::empty());
    assert(cur@ + s@.skip(i as int) =~= cur@);
    let ghost c0 = cur@;
    out.push(cur);
    assert(out@.map_values(|v: Vec<char>| v@) =~= before + seq![c0]);
    out
}

/// Are the characters `v` exactly the text `lit`?
pub fn chars_eq_str(v: &Vec<char>, lit: &str) -> (r: bool)
    ensures
        r == (v@ == lit@),
{
    let l = chars_of(lit);
    if l.len() != v.len() {
        return false;
    }
    let mut k: usize = 0;
    while k < v.len()
        invariant
            l@ == lit@,
            l.len() == v.len(),
            k <= v.len(),
            forall|m: int| 0 <= m < k ==> v@[m] == l@[m],
        decreases v.len() - k,
    {
        if v[k] != l[k] {
            return false;
        }
        k = k + 1;
    }
    assert(v@ =~= l@);
    true
}

/// Removes the last character, if there is one (`String::pop`).
pub fn pop_char(s: &mut String)
    ensures
        final(s)@ == if old(s)@.len() > 0 { old(s)@.drop_last() } else { old(s)@ },
{
    let cs = chars_of(s.as_str());
    if cs.len() == 0 {
        return;
    }
    let n = cs.len() - 1;
    let mut keep: Vec<char> = Vec::new();
    let mut i: usize = 0;
    while i < n
        invariant
            i <= n,
            n + 1 == cs.len(),
            keep@ == cs@.take(i as int),
        decreases n - i,
    {
        keep.push(cs[i]);
        i = i + 1;
        assert(keep@ =~= cs@.take(i as int));
    }
    assert(keep@ =~= cs@.drop_last());
    *s = string_from_chars(keep.as_slice());
}

/// The text with leading and trailing whitespace removed (`str::trim`).
pub fn trim_string(s: &str) -> (r: String)
    ensures
        r@ == trim_spec(s@),
{
    let t = trim_chars(&chars_of(s));
    string_from_chars(t.as_slice())
}

/// Are the texts `a` and `b` the same?
pub fn str_eq(a: &str, b: &str) -> (r: bool)
    ensures
        r == (a@ == b@),
{
    let va = chars_of(a);
    chars_eq_str(&va, b)
}

} // verus!

verus! {

/// The position of the first `c` in `s`.
pub open spec fn first_index_of(s: Seq<char>, c: char) -> Option<int>
    decreases s.len(),
{
    if s.len() == 0 {
        None
    } else if s[0] == c {
        Some(0)
    } else {
        match first_index_of(s.skip(1), c) {
            Some(k) => Some(k + 1),
            None => None,
        }
    }
}

/// `first_index_of` finds the earliest occurrence, and `None` means there is
/// none.
pub proof fn lemma_first_index_of(s: Seq<char>, c: char)
    ensures
        first_index_of(s, c) matches Some(k) ==> 0 <= k < s.len() && s[k] == c && forall|m: int|
            0 <= m < k ==> s[m] != c,
        first_index_of(s, c) is None ==> forall|m: int| 0 <= m < s.len() ==> s[m] != c,
    decreases s.len(),
{
    if s.len() > 0 && s[0] != c {
        lemma_first_index_of(s.skip(1), c);
        assert forall|m: int| 1 <= m < s.len() implies s[m] == s.skip(1)[m - 1] by {}
    }
}

/// A position `k` with `s[k] == c` and no earlier `c` is the first one.
pub proof fn lemma_first_index_at(s: Seq<char>, c: char, k: int)
    requires
        0 <= k < s.len(),
        s[k] == c,
        forall|m: int| 0 <= m < k ==> s[m] != c,
    ensures
        first_index_of(s, c) == Some(k),
{
    lemma_first_index_of(s, c);
    match first_index_of(s, c) {
        Some(j) => {
            if j < k {
            } else if j > k {
            }
        },
        None => {},
    }
}

/// The first `c` in `s` at or after `from`.
pub fn find_char_from(s: &Vec<char>, c: char, from: usize) -> (r: Option<usize>)
    requires
        from <= s.len(),
    ensures
        match r {
            Some(k) => from <= k < s.len() && first_index_of(s@.skip(from as int), c) == Some(k - from),
            None => first_index_of(s@.skip(from as int), c) is None,
        },
{
    let mut k = from;
    while k < s.len()
        invariant
            from <= k <= s.len(),
            forall|m: int| from <= m < k ==> s@[m] != c,
        decreases s.len() - k,
    {
        if s[k] == c {
            proof {
                lemma_first_index_at(s@.skip(from as int), c, k - from);
            }
            return Some(k);
        }
        k = k + 1;
    }
    proof {
        lemma_first_index_of(s@.skip(from as int), c);
        if let Some(j) = first_index_of(s@.skip(from as int), c) {
            assert(s@.skip(from as int)[j] == s@[from + j]);
        }
    }
    None
}

} // verus!

verus! {

/// `a` sorts before `b`: they first differ at a character where `a`'s is the
/// smaller, or `a` is a proper prefix of `b`. On UTF-8 strings this is the
/// order of `String`'s `Ord`, since UTF-8 keeps the order of code points.
pub open spec fn seq_lt(a: Seq<char>, b: Seq<char>) -> bool
    decreases a.len(),
{
    if b.len() == 0 {
        false
    } else if a.len() == 0 {
        true
    } else if a[0] != b[0] {
        a[0] < b[0]
    } else {
        seq_lt(a.drop_first(), b.drop_first())
    }
}

proof fn lemma_seq_lt_pair(a: Seq<char>, b: Seq<char>)
    ensures
        !seq_lt(a, a),
        seq_lt(a, b) ==> !seq_lt(b, a),
        a != b ==> seq_lt(a, b) || seq_lt(b, a),
    decreases a.len(),
{
    if a.len() > 0 {
        lemma_seq_lt_pair(a.drop_first(), a.drop_first());
    }
    if a.len() > 0 && b.len() > 0 {
        lemma_seq_lt_pair(a.drop_first(), b.drop_first());
        if a != b && a[0] == b[0] {
            assert(a.drop_first() != b.drop_first()) by {
                if a.drop_first() == b.drop_first() {
                    assert(a =~= seq![a[0]] + a.drop_first());
                    assert(b =~= seq![b[0]] + b.drop_first());
                }
            }
        }
    }
    if a.len() == 0 && b.len() == 0 {
        assert(a =~= b);
    }
}

proof fn lemma_seq_lt_trans(a: Seq<char>, b: Seq<char>, c: Seq<char>)
    ensures
        seq_lt(a, b) && seq_lt(b, c) ==> seq_lt(a, c),
    decreases a.len(),
{
    if a.len() > 0 && b.len() > 0 && c.len() > 0 {
        lemma_seq_lt_trans(a.drop_first(), b.drop_first(), c.drop_first());
    }
}

/// The order is strict and transitive, and any two different texts are
/// ordered one way or the other.
pub proof fn lemma_seq_lt_order(a: Seq<char>, b: Seq<char>, c: Seq<char>)
    ensures
        !seq_lt(a, a),
        seq_lt(a, b) ==> !seq_lt(b, a),
        seq_lt(a, b) && seq_lt(b, c) ==> seq_lt(a, c),
        a != b ==> seq_lt(a, b) || seq_lt(b, a),
{
    lemma_seq_lt_pair(a, b);
    lemma_seq_lt_trans(a, b, c);
}

/// Does `a` sort before `b`?
pub fn str_lt(a: &str, b: &str) -> (r: bool)
    ensures
        r == seq_lt(a@, b@),
{
    let x = chars_of(a);
    let y = chars_of(b);
    let mut i: usize = 0;
    assert(a@.skip(0) =~= a@ && b@.skip(0) =~= b@);
    while i < x.len() && i < y.len()
        invariant
            x@ == a@,
            y@ == b@,
            i <= x.len(),
            i <= y.len(),
            seq_lt(a@, b@) == seq_lt(a@.skip(i as int), b@.skip(i as int)),
        decreases x.len() - i,
    {
        let ghost sa = a@.skip(i as int);
        let ghost sb = b@.skip(i as int);
        assert(sa[0] == x@[i as int] && sb[0] == y@[i as int]);
        if x[i] != y[i] {
            return x[i] < y[i];
        }
        assert(sa.drop_first() =~= a@.skip(i + 1));
        assert(sb.drop_first() =~= b@.skip(i + 1));
        i = i + 1;
    }
    i < y.len()
}

} // verus!
