//! Regular-expression searches, made with the `regex` crate. The patterns
//! are the callers'; what a search finds is named here.
use vstd::prelude::*;
use crate::model::opt_view;

verus! {

/// The text of the first match of `pattern` in `text`, as `regex::Regex::find`
/// finds it; `None` also when the pattern does not compile.
pub uninterp spec fn regex_first_match(pattern: Seq<char>, text: Seq<char>) -> Option<Seq<char>>;

/// Group `group` of the first match of `pattern` in `text`, as
/// `Regex::captures` and `Captures::get` give it; `None` also when the
/// pattern does not compile.
pub uninterp spec fn regex_first_group(pattern: Seq<char>, text: Seq<char>, group: nat) -> Option<Seq<char>>;

/// Group `group` of every match of `pattern` in `text`, in order, as
/// `Regex::captures_iter` finds them (empty for a match in which the group
/// took no part); no matches when the pattern does not compile.
pub uninterp spec fn regex_all_groups(pattern: Seq<char>, text: Seq<char>, group: nat) -> Seq<Seq<char>>;

/// `text` with every match of `pattern` replaced by `replacement` (in which
/// `$n` stands for group `n`), as `Regex::replace_all` leaves it; `text`
/// itself when the pattern does not compile.
pub uninterp spec fn regex_replaced(pattern: Seq<char>, text: Seq<char>, replacement: Seq<char>) -> Seq<char>;

/// Compiles `pattern` and calls `Regex::find`; the result is named
/// `regex_first_match`.
#[verifier::external_body]
pub(crate) fn regex_find(pattern: &str, text: &str) -> (r: Option<String>)
    ensures
        opt_view(r) == regex_first_match(pattern@, text@),
{
    let re = regex::Regex::new(pattern).ok()?;
    re.find(text).map(|m| m.as_str().to_owned())
}

/// Compiles `pattern` and calls `Regex::captures`, then `Captures::get`;
/// the result is named `regex_first_group`.
#[verifier::external_body]
pub(crate) fn regex_capture(pattern: &str, text: &str, group: usize) -> (r: Option<String>)
    ensures
        opt_view(r) == regex_first_group(pattern@, text@, group as nat),
{
    let re = regex::Regex::new(pattern).ok()?;
    re.captures(text).and_then(|c| c.get(group)).map(|m| m.as_str().to_owned())
}

/// Compiles `pattern` and calls `Regex::captures_iter`, taking group `group`
/// of each match; the result is named `regex_all_groups`.
#[verifier::external_body]
pub(crate) fn regex_captures_all(pattern: &str, text: &str, group: usize) -> (r: Vec<String>)
    ensures
        r@.map_values(|s: String| s@) == regex_all_groups(pattern@, text@, group as nat),
{
    match regex::Regex::new(pattern) {
        Ok(re) => re.captures_iter(text).map(|c| c.get(group).map(|m| m.as_str().to_owned()).unwrap_or_default()).collect(),
        Err(_) => Vec::new(),
    }
}

/// Compiles `pattern` and calls `Regex::replace_all`; the result is named
/// `regex_replaced`.
#[verifier::external_body]
pub(crate) fn regex_replace_all(pattern: &str, text: &str, replacement: &str) -> (r: String)
    ensures
        r@ == regex_replaced(pattern@, text@, replacement@),
{
    match regex::Regex::new(pattern) {
        Ok(re) => re.replace_all(text, replacement).into_owned(),
        Err(_) => text.to_owned(),
    }
}

} // verus!
