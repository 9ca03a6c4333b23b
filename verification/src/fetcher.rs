//! Turning what a feed server sends into the library's feeds and articles:
//! cleaning HTML into plain text, snippets, feed auto-discovery, and the
//! article records made from a parsed feed.
use vstd::prelude::*;
use crate::model::{clone_opt_text, opt_view, Article, Feed};
use crate::storage::as_text;
use crate::reader::texts;
use crate::pattern::{regex_capture, regex_find, regex_first_group, regex_first_match};
use crate::text::{
    concat_str, str_eq,
    char_is_whitespace, chars_of, find_char_from, first_index_of, leading_ws, lemma_first_index_of, lemma_leading_ws_bound, lemma_trailing_ws_bound,
    push_char, string_from_chars, trim_chars, trim_end_chars, trim_end_spec, trim_spec,
    unicode_white_space,
};

verus! {

/// What `html_escape::decode_html_entities` makes of text holding an `&`:
/// every HTML entity replaced by the character it stands for.
pub uninterp spec fn entities_replaced(s: Seq<char>) -> Seq<char>;

/// What `html_escape::decode_html_entities` makes of `s`: an entity starts
/// with `&`, so text without one comes back as it was.
pub open spec fn html_entities_decoded(s: Seq<char>) -> Seq<char> {
    if s.contains('&') {
        entities_replaced(s)
    } else {
        s
    }
}

/// Calls `html_escape::decode_html_entities`: `html_entities_decoded(s)`,
/// what it makes of text holding an `&` being named `entities_replaced`.
#[verifier::external_body]
pub(crate) fn decode_html_entities(s: &str) -> (r: String)
    ensures
        r@ == html_entities_decoded(s@),
        s@.contains('&') ==> r@ == entities_replaced(s@),
{
    html_escape::decode_html_entities(s).into_owned()
}

/// `s` with every tag `<...>` replaced by one space, as the pattern `<[^>]*>`
/// replaces them: each `<` that has a `>` after it starts a tag that runs to
/// the first such `>`.
pub open spec fn tags_to_spaces(s: Seq<char>) -> Seq<char>
    decreases s.len(),
{
    if s.len() == 0 {
        s
    } else if s[0] == '<' && first_index_of(s, '>') is Some {
        proof {
            lemma_first_index_of(s, '>');
        }
        seq![' '] + tags_to_spaces(s.skip(first_index_of(s, '>')->0 + 1))
    } else {
        seq![s[0]] + tags_to_spaces(s.skip(1))
    }
}

/// `s` with every run of whitespace replaced by one space, as the pattern
/// `\s+` replaces them.
pub open spec fn collapse_whitespace(s: Seq<char>) -> Seq<char>
    decreases s.len(),
{
    if s.len() == 0 {
        s
    } else if unicode_white_space(s[0]) {
        proof {
            lemma_leading_ws_bound(s);
        }
        seq![' '] + collapse_whitespace(s.skip(leading_ws(s) as int))
    } else {
        seq![s[0]] + collapse_whitespace(s.skip(1))
    }
}

/// The plain text of an HTML fragment: entities decoded, tags turned into
/// spaces, whitespace runs collapsed, and the ends trimmed.
pub open spec fn cleaned_html(s: Seq<char>) -> Seq<char> {
    trim_spec(collapse_whitespace(tags_to_spaces(html_entities_decoded(s))))
}

fn strip_tags_to_spaces(s: &Vec<char>) -> (r: Vec<char>)
    ensures
        r@ == tags_to_spaces(s@),
{
    let mut out: Vec<char> = Vec::new();
    let mut i: usize = 0;
    assert(s@.skip(0) =~= s@);
    while i < s.len()
        invariant
            i <= s.len(),
            tags_to_spaces(s@) == out@ + tags_to_spaces(s@.skip(i as int)),
        decreases s.len() - i,
    {
        let ghost rest = s@.skip(i as int);
        assert(rest[0] == s@[i as int]);
        if s[i] == '<' {
            match find_char_from(s, '>', i + 1) {
                Some(j) => {
                    proof {
                        assert(rest.skip(1) =~= s@.skip(i + 1));
                        assert(first_index_of(rest, '>') == Some((j - i) as int));
                        assert(rest.skip(j - i + 1) =~= s@.skip(j + 1));
                        assert((out@.push(' ')) + tags_to_spaces(s@.skip(j + 1)) =~= out@ + (seq![' ']
                            + tags_to_spaces(rest.skip(j - i + 1))));
                    }
                    out.push(' ');
                    i = j + 1;
                },
                None => {
                    proof {
                        assert(rest.skip(1) =~= s@.skip(i + 1));
                        lemma_first_index_of(rest.skip(1), '>');
                        lemma_first_index_of(rest, '>');
                        assert(first_index_of(rest, '>') is None);
                        assert((out@.push('<')) + tags_to_spaces(s@.skip(i + 1)) =~= out@ + (seq![rest[0]]
                            + tags_to_spaces(rest.skip(1))));
                    }
                    out.push('<');
                    i = i + 1;
                },
            }
        } else {
            proof {
                assert(rest.skip(1) =~= s@.skip(i + 1));
                assert((out@.push(s@[i as int])) + tags_to_spaces(s@.skip(i + 1)) =~= out@ + (seq![rest[0]]
                    + tags_to_spaces(rest.skip(1))));
            }
            out.push(s[i]);
            i = i + 1;
        }
    }
    assert(out@ + s@.skip(i as int) =~= out@);
    out
}

proof fn lemma_leading_ws_skip(s: Seq<char>, i: int)
    requires
        0 <= i < s.len(),
        unicode_white_space(s[i]),
    ensures
        leading_ws(s.skip(i)) == 1 + leading_ws(s.skip(i + 1)),
{
    assert(s.skip(i).drop_first() =~= s.skip(i + 1));
}

fn collapse_ws(s: &Vec<char>) -> (r: Vec<char>)
    ensures
        r@ == collapse_whitespace(s@),
{
    let mut out: Vec<char> = Vec::new();
    let mut i: usize = 0;
    assert(s@.skip(0) =~= s@);
    while i < s.len()
        invariant
            i <= s.len(),
            collapse_whitespace(s@) == out@ + collapse_whitespace(s@.skip(i as int)),
        decreases s.len() - i,
    {
        let ghost rest = s@.skip(i as int);
        assert(rest[0] == s@[i as int]);
        if char_is_whitespace(s[i]) {
            let mut j = i;
            while j < s.len() && char_is_whitespace(s[j])
                invariant
                    i <= j <= s.len(),
                    leading_ws(rest) == (j - i) + leading_ws(s@.skip(j as int)),
                decreases s.len() - j,
            {
                proof {
                    lemma_leading_ws_skip(s@, j as int);
                }
                j = j + 1;
            }
            proof {
                if j < s.len() {
                    assert(s@.skip(j as int)[0] == s@[j as int]);
                } else {
                    assert(s@.skip(j as int).len() == 0);
                }
                assert(leading_ws(s@.skip(j as int)) == 0);
                assert(rest.skip(j - i) =~= s@.skip(j as int));
                assert((out@.push(' ')) + collapse_whitespace(s@.skip(j as int)) =~= out@ + (seq![' ']
                    + collapse_whitespace(rest.skip(leading_ws(rest) as int))));
            }
            out.push(' ');
            i = j;
        } else {
            proof {
                assert(rest.skip(1) =~= s@.skip(i + 1));
                assert((out@.push(s@[i as int])) + collapse_whitespace(s@.skip(i + 1)) =~= out@ + (seq![rest[0]]
                    + collapse_whitespace(rest.skip(1))));
            }
            out.push(s[i]);
            i = i + 1;
        }
    }
    assert(out@ + s@.skip(i as int) =~= out@);
    out
}

/// The text of an HTML fragment with its tags made spaces, runs of
/// whitespace made one space, and the ends trimmed.
pub open spec fn stripped_text(s: Seq<char>) -> Seq<char> {
    trim_spec(collapse_whitespace(tags_to_spaces(s)))
}

/// Strips the tags of an HTML fragment (entities are left as they are).
pub fn strip_tags_chars(s: &Vec<char>) -> (r: Vec<char>)
    ensures
        r@ == stripped_text(s@),
{
    let stripped = strip_tags_to_spaces(s);
    let collapsed = collapse_ws(&stripped);
    trim_chars(&collapsed)
}

fn clean_html_chars(input: &str) -> (r: Vec<char>)
    ensures
        r@ == cleaned_html(input@),
{
    let unescaped = decode_html_entities(input);
    let chars = chars_of(unescaped.as_str());
    let stripped = strip_tags_to_spaces(&chars);
    let collapsed = collapse_ws(&stripped);
    trim_chars(&collapsed)
}

/// The plain text of an HTML fragment.
pub fn clean_html_tags(input: &str) -> (r: String)
    ensures
        r@ == cleaned_html(input@),
{
    let c = clean_html_chars(input);
    string_from_chars(c.as_slice())
}

/// A preview of an HTML fragment: its plain text when that has at most
/// `max_len` characters, else the first `max_len` characters with trailing
/// whitespace dropped and an ellipsis added.
pub open spec fn snippet_of(input: Seq<char>, max_len: nat) -> Seq<char> {
    let clean = cleaned_html(input);
    if clean.len() <= max_len {
        clean
    } else {
        trim_end_spec(clean.take(max_len as int)).push('…')
    }
}

/// A short plain-text preview of an HTML fragment.
pub fn generate_snippet(input: &str, max_len: usize) -> (r: String)
    ensures
        r@ == snippet_of(input@, max_len as nat),
        r@.len() <= max_len + 1,
{
    let clean = clean_html_chars(input);
    if clean.len() <= max_len {
        string_from_chars(clean.as_slice())
    } else {
        let mut head: Vec<char> = Vec::new();
        let mut i: usize = 0;
        while i < max_len
            invariant
                max_len < clean.len(),
                i <= max_len,
                head@ == clean@.take(i as int),
            decreases max_len - i,
        {
            head.push(clean[i]);
            assert(clean@.take(i as int).push(clean@[i as int]) =~= clean@.take(i + 1));
            i = i + 1;
        }
        let mut t = trim_end_chars(&head);
        proof {
            lemma_trailing_ws_bound(head@);
        }
        t.push('…');
        string_from_chars(t.as_slice())
    }
}

/// One entry of a parsed feed, as plain values.
#[derive(Debug, Clone)]
pub struct ParsedEntry {
    /// The entry's id; empty when the document gave none.
    pub id: String,
    pub title: Option<String>,
    /// The addresses of the entry's links, in order.
    pub links: Vec<String>,
    /// The names of the entry's authors, in order.
    pub authors: Vec<String>,
    pub summary: Option<String>,
    /// The body of the entry's content.
    pub content: Option<String>,
    /// Seconds since the Unix epoch.
    pub published: Option<i64>,
    pub updated: Option<i64>,
}

/// A parsed RSS, Atom or JSON feed, as plain values.
#[derive(Debug, Clone)]
pub struct ParsedFeed {
    pub title: Option<String>,
    /// The addresses of the feed's links, in order.
    pub links: Vec<String>,
    pub entries: Vec<ParsedEntry>,
}

/// An entry as a parsed document holds it: title, summary, link
/// addresses, author names, content body, publication and update times (in
/// seconds since the Unix epoch), and its id where that is not made up at
/// random.
pub type EntryDoc = (
    Option<Seq<char>>,
    Option<Seq<char>>,
    Seq<Seq<char>>,
    Seq<Seq<char>>,
    Option<Seq<char>>,
    Option<i64>,
    Option<i64>,
    Option<Seq<char>>,
);

/// What `feed_rs::parser::parse` makes of `bytes`, as far as it depends on
/// them alone: the text of its error's message when it fails; else the text
/// of the document's title, the addresses of its links, and its entries,
/// both in document order. An entry's id is left out (`None`) where feed-rs
/// makes one up at random, which it does for an entry with neither an id
/// nor a link.
pub uninterp spec fn feed_document(bytes: Seq<u8>) -> Result<(Option<Seq<char>>, Seq<Seq<char>>, Seq<EntryDoc>), Seq<char>>;

/// The entry holds what the document says of it.
pub open spec fn entry_matches(e: ParsedEntry, d: EntryDoc) -> bool {
    &&& opt_view(e.title) == d.0
    &&& opt_view(e.summary) == d.1
    &&& texts(e.links@) == d.2
    &&& texts(e.authors@) == d.3
    &&& opt_view(e.content) == d.4
    &&& e.published == d.5
    &&& e.updated == d.6
    &&& (d.7 matches Some(id) ==> e.id@ == id)
}

/// The parse result holds what `feed_document` names, entry by entry.
pub open spec fn document_is(p: ParsedFeed, d: (Option<Seq<char>>, Seq<Seq<char>>, Seq<EntryDoc>)) -> bool {
    &&& opt_view(p.title) == d.0
    &&& texts(p.links@) == d.1
    &&& p.entries@.len() == d.2.len()
    &&& forall|i: int| 0 <= i < d.2.len() ==> entry_matches(#[trigger] p.entries@[i], d.2[i])
}

/// Calls `feed_rs::parser::parse` on the downloaded bytes and copies the
/// document out as plain values: the text of its title, the addresses of
/// its links, and its entries (their title, summary, link addresses, author
/// names, content body, and times through `DateTime::timestamp`), in
/// document order; a parse failure gives the error's message. The result is
/// named `feed_document`.
#[verifier::external_body]
fn parse_document(bytes: &[u8]) -> (r: Result<ParsedFeed, String>)
    ensures
        match r {
            Ok(p) => feed_document(bytes@) matches Ok(d) && document_is(p, d),
            Err(e) => feed_document(bytes@) == Err::<(Option<Seq<char>>, Seq<Seq<char>>, Seq<EntryDoc>), Seq<char>>(e@),
        },
{
    match feed_rs::parser::parse(bytes) {
        Ok(f) => Ok(ParsedFeed {
            title: f.title.map(|t| t.content),
            links: f.links.into_iter().map(|l| l.href).collect(),
            entries: f.entries.into_iter().map(entry_parts).collect(),
        }),
        Err(e) => Err(e.to_string()),
    }
}

/// Copies the fields of a `feed_rs::model::Entry` that the reader uses into
/// plain values (timestamps through `DateTime::timestamp`, as seconds since
/// the Unix epoch); [`parse_document`] states what they are.
#[verifier::external_body]
fn entry_parts(e: feed_rs::model::Entry) -> (r: ParsedEntry) {
    ParsedEntry {
        id: e.id, title: e.title.map(|t| t.content), summary: e.summary.map(|t| t.content),
        links: e.links.into_iter().map(|l| l.href).collect(),
        authors: e.authors.into_iter().map(|a| a.name).collect(),
        content: e.content.and_then(|c| c.body),
        published: e.published.map(|d| d.timestamp()), updated: e.updated.map(|d| d.timestamp()),
    }
}

#[verifier::external_type_specification]
#[verifier::external_body]
pub struct ExFeedEntry(feed_rs::model::Entry);

/// `parsed` is what parsing `bytes` gives, as far as `feed_document`
/// names it: the document, entry by entry, or the error's message.
pub open spec fn parsed_from(bytes: Seq<u8>, parsed: Result<ParsedFeed, String>) -> bool {
    match parsed {
        Ok(p) => feed_document(bytes) matches Ok(d) && document_is(p, d),
        Err(e) => feed_document(bytes) == Err::<(Option<Seq<char>>, Seq<Seq<char>>, Seq<EntryDoc>), Seq<char>>(e@),
    }
}

/// Parses downloaded bytes as an RSS, Atom or JSON feed and copies out, in
/// document order, the entries the reader stores: the document as
/// `feed_document` names it.
pub fn parse_feed_bytes(bytes: &[u8]) -> (r: Result<ParsedFeed, String>)
    ensures
        parsed_from(bytes@, r),
{
    parse_document(bytes)
}

/// Calls `uuid::Uuid::new_v4` and formats it; the id is random, so nothing is
/// stated of it.
#[verifier::external_body]
fn random_uuid() -> (r: String) {
    uuid::Uuid::new_v4().to_string()
}

/// The title a feed shows once fetched: a feed still without a title (empty,
/// or the placeholder "Untitled Feed") takes the document's, cleaned.
pub open spec fn updated_title(feed: Feed, parsed: ParsedFeed) -> Seq<char> {
    if feed.title@.len() == 0 || feed.title@ == "Untitled Feed"@ {
        match parsed.title {
            Some(t) => cleaned_html(t@),
            None => feed.title@,
        }
    } else {
        feed.title@
    }
}

/// The feed after a successful fetch at `now`: titled, given the document's
/// first link as its site when it had none, stamped and cleared of errors.
pub open spec fn feed_updated(feed: Feed, parsed: ParsedFeed, now: i64, r: Feed) -> bool {
    &&& r == Feed {
        title: r.title,
        site_url: if feed.site_url is None && parsed.links@.len() > 0 {
            Some(parsed.links@[0])
        } else {
            feed.site_url
        },
        last_updated: Some(now),
        error: None,
        ..feed
    }
    &&& r.title@ == updated_title(feed, parsed)
}

/// The summary an entry gets: its own, cleaned; else a snippet of its body;
/// else nothing but empty text.
pub open spec fn entry_summary(e: ParsedEntry) -> Seq<char> {
    match e.summary {
        Some(s) => cleaned_html(s@),
        None => match e.content {
            Some(b) => snippet_of(b@, 280),
            None => Seq::empty(),
        },
    }
}

/// The article made from entry `e` of `feed` (whose updated title is
/// `feed_title`) fetched at `now`.
pub open spec fn entry_article(feed: Feed, feed_title: String, e: ParsedEntry, now: i64, a: Article) -> bool {
    &&& if e.id@.len() > 0 {
        a.id@ == feed.id@ + "-"@ + e.id@
    } else if e.links@.len() > 0 {
        a.id@ == feed.id@ + "-"@ + e.links@[0]@
    } else {
        a.id@.len() >= feed.id@.len() + 1 && a.id@.take(feed.id@.len() + 1int) == feed.id@ + "-"@
    }
    &&& a.feed_id == feed.id
    &&& a.feed_title == feed_title
    &&& a.title@ == match e.title {
        Some(t) => cleaned_html(t@),
        None => "Untitled Article"@,
    }
    &&& a.author == if e.authors@.len() > 0 { Some(e.authors@[0]) } else { None }
    &&& a.summary matches Some(s) && s@ == entry_summary(e)
    &&& a.content == e.content
    &&& a.url == if e.links@.len() > 0 {
        e.links@[0]
    } else {
        match feed.site_url {
            Some(u) => u,
            None => feed.url,
        }
    }
    &&& a.published == match e.published {
        Some(p) => Some(p),
        None => e.updated,
    }
    &&& !a.read && !a.starred && a.created_at == now
}

fn prefixed_id(feed_id: &str, rest: &str) -> (r: String)
    ensures
        r@ == feed_id@ + "-"@ + rest@,
{
    let head = concat_str(feed_id, "-");
    proof {
        reveal_strlit("-");
    }
    concat_str(head.as_str(), rest)
}

/// The article made from one entry.
pub fn article_from_entry(feed: &Feed, feed_title: &String, e: &ParsedEntry, now: i64) -> (a: Article)
    ensures
        entry_article(*feed, *feed_title, *e, now, a),
{
    proof {
        reveal_strlit("-");
    }
    let id = if !e.id.as_str().is_empty() {
        prefixed_id(feed.id.as_str(), e.id.as_str())
    } else if e.links.len() > 0 {
        prefixed_id(feed.id.as_str(), e.links[0].as_str())
    } else {
        let u = random_uuid();
        let r = prefixed_id(feed.id.as_str(), u.as_str());
        assert(r@.take(feed.id@.len() + 1int) =~= feed.id@ + "-"@);
        r
    };
    let title = match &e.title {
        Some(t) => clean_html_tags(t.as_str()),
        None => {
            proof {
                reveal_strlit("Untitled Article");
            }
            "Untitled Article".to_owned()
        },
    };
    let author = if e.authors.len() > 0 { Some(e.authors[0].clone()) } else { None };
    let summary = match &e.summary {
        Some(s) => clean_html_tags(s.as_str()),
        None => match &e.content {
            Some(b) => generate_snippet(b.as_str(), 280),
            None => String::new(),
        },
    };
    let url = if e.links.len() > 0 {
        e.links[0].clone()
    } else {
        match &feed.site_url {
            Some(u) => u.clone(),
            None => feed.url.clone(),
        }
    };
    let published = match e.published {
        Some(p) => Some(p),
        None => e.updated,
    };
    Article {
        id,
        feed_id: feed.id.clone(),
        feed_title: feed_title.clone(),
        title,
        author,
        summary: Some(summary),
        content: clone_opt_text(&e.content),
        url,
        published,
        read: false,
        starred: false,
        created_at: now,
    }
}


/// An article made from an entry links to the entry's own first address
/// when it has one, whatever the feed's site; only an entry without links
/// falls back to the feed's site, or the feed's own address.
pub proof fn lemma_article_links_to_entry(feed: Feed, feed_title: String, e: ParsedEntry, now: i64, a: Article)
    requires
        entry_article(feed, feed_title, e, now, a),
    ensures
        e.links@.len() > 0 ==> a.url == e.links@[0],
        e.links@.len() == 0 && feed.site_url is Some ==> a.url == feed.site_url->0,
        e.links@.len() == 0 && feed.site_url is None ==> a.url == feed.url,
        e.id@.len() > 0 ==> a.id@ == feed.id@ + "-"@ + e.id@,
        e.id@.len() == 0 && e.links@.len() > 0 ==> a.id@ == feed.id@ + "-"@ + e.links@[0]@,
        a.feed_id == feed.id,
        a.feed_title == feed_title,
        e.title is None ==> a.title@ == "Untitled Article"@,
        a.author == (if e.authors@.len() > 0 { Some(e.authors@[0]) } else { None }),
        a.content == e.content,
        e.published is Some ==> a.published == e.published,
        e.published is None ==> a.published == e.updated,
        !a.read && !a.starred && a.created_at == now,
{
}

/// The feed and its articles after a successful fetch at `now`.
pub fn build_feed_update(feed: &Feed, parsed: &ParsedFeed, now: i64) -> (r: (Feed, Vec<Article>))
    ensures
        feed_updated(*feed, *parsed, now, r.0),
        r.1@.len() == parsed.entries@.len(),
        forall|i: int| 0 <= i < r.1@.len() ==> entry_article(*feed, r.0.title, #[trigger] parsed.entries@[i], now, r.1@[i]),
{
    proof {
        reveal_strlit("Untitled Feed");
    }
    let title = if feed.title.as_str().is_empty() || str_eq(feed.title.as_str(), "Untitled Feed") {
        match &parsed.title {
            Some(t) => clean_html_tags(t.as_str()),
            None => feed.title.clone(),
        }
    } else {
        feed.title.clone()
    };
    let site_url = if feed.site_url.is_none() && parsed.links.len() > 0 {
        Some(parsed.links[0].clone())
    } else {
        clone_opt_text(&feed.site_url)
    };
    let updated = Feed {
        id: feed.id.clone(),
        title,
        url: feed.url.clone(),
        site_url,
        folder: clone_opt_text(&feed.folder),
        custom_icon: clone_opt_text(&feed.custom_icon),
        last_updated: Some(now),
        error: None,
        unread_count: feed.unread_count,
        total_count: feed.total_count,
    };
    let mut articles: Vec<Article> = Vec::new();
    let mut i: usize = 0;
    while i < parsed.entries.len()
        invariant
            i <= parsed.entries.len(),
            articles@.len() == i,
            forall|k: int| 0 <= k < i ==> entry_article(*feed, updated.title, #[trigger] parsed.entries@[k], now, articles@[k]),
        decreases parsed.entries.len() - i,
    {
        let a = article_from_entry(feed, &updated.title, &parsed.entries[i], now);
        articles.push(a);
        i = i + 1;
    }
    (updated, articles)
}

/// The feed `<link>` tag a page announces: the first `<link ...>` tag (any
/// case) whose `type` is `application/rss+xml`, `application/atom+xml` or
/// `application/json`.
pub open spec fn feed_link_tag(html: Seq<char>) -> Option<Seq<char>> {
    regex_first_match("(?i)<link\\s+[^>]*type=[\"\\']application/(rss\\+xml|atom\\+xml|json)[\"\\'][^>]*>"@, html)
}

/// The value of the first `href="..."` (or single-quoted) attribute in a tag.
pub open spec fn href_in(tag: Seq<char>) -> Option<Seq<char>> {
    regex_first_group("(?i)href=[\"\\']([^\"\\']+)[\"\\']"@, tag, 1)
}

/// `base` parsed as a URL and `relative` resolved against it, as
/// `url::Url::parse` and `Url::join` do; `None` when either fails.
pub uninterp spec fn url_joined(base: Seq<char>, relative: Seq<char>) -> Option<Seq<char>>;

/// Finds the feed `<link>` tag of a page.
fn find_feed_link_tag(html: &str) -> (r: Option<String>)
    ensures
        opt_view(r) == feed_link_tag(html@),
{
    regex_find("(?i)<link\\s+[^>]*type=[\"\\']application/(rss\\+xml|atom\\+xml|json)[\"\\'][^>]*>", html)
}

/// Reads the `href` value of a tag.
fn find_href(tag: &str) -> (r: Option<String>)
    ensures
        opt_view(r) == href_in(tag@),
{
    regex_capture("(?i)href=[\"\\']([^\"\\']+)[\"\\']", tag, 1)
}

/// Calls `Url::parse` (the `url` crate, through `reqwest`) and `Url::join`;
/// the result is named `url_joined`.
#[verifier::external_body]
fn join_url(base: &str, relative: &str) -> (r: Option<String>)
    ensures
        opt_view(r) == url_joined(base@, relative@),
{
    reqwest::Url::parse(base).ok()?.join(relative).ok().map(|u| u.to_string())
}

/// `relative` resolved against `base`: absolute http(s) addresses stay as
/// they are; others are joined to the base, or kept when that fails.
pub open spec fn resolved_url(base: Seq<char>, relative: Seq<char>) -> Seq<char> {
    if starts_with(relative, "http://"@) || starts_with(relative, "https://"@) {
        relative
    } else {
        match url_joined(base, relative) {
            Some(j) => j,
            None => relative,
        }
    }
}

/// `s` begins with `p`.
pub open spec fn starts_with(s: Seq<char>, p: Seq<char>) -> bool {
    p.len() <= s.len() && s.take(p.len() as int) == p
}

fn starts_with_exec(s: &str, p: &str) -> (r: bool)
    ensures
        r == starts_with(s@, p@),
{
    let sc = chars_of(s);
    let pc = chars_of(p);
    if pc.len() > sc.len() {
        return false;
    }
    let mut i: usize = 0;
    while i < pc.len()
        invariant
            sc@ == s@,
            pc@ == p@,
            pc.len() <= sc.len(),
            i <= pc.len(),
            forall|k: int| 0 <= k < i ==> sc@[k] == pc@[k],
        decreases pc.len() - i,
    {
        if sc[i] != pc[i] {
            return false;
        }
        i = i + 1;
    }
    assert(s@.take(p@.len() as int) =~= p@);
    true
}

/// Resolves a link found in a page against the page's address.
pub fn resolve_url(base: &str, relative: &str) -> (r: String)
    ensures
        r@ == resolved_url(base@, relative@),
{
    if starts_with_exec(relative, "http://") || starts_with_exec(relative, "https://") {
        return relative.to_owned();
    }
    match join_url(base, relative) {
        Some(j) => j,
        None => relative.to_owned(),
    }
}

/// The feed address a web page announces: the `href` of its feed `<link>`
/// tag, resolved against the page's address; failing that, `/feed` on the
/// page's site.
pub open spec fn discovered_feed(html: Seq<char>, base: Seq<char>) -> Option<Seq<char>> {
    let announced = match feed_link_tag(html) {
        Some(tag) => match href_in(tag) {
            Some(h) => Some(resolved_url(base, h)),
            None => None,
        },
        None => None,
    };
    match announced {
        Some(u) => Some(u),
        None => url_joined(base, "/feed"@),
    }
}

/// Finds the feed a web page announces.
pub fn discover_feed_url(html: &str, base_url: &str) -> (r: Option<String>)
    ensures
        opt_view(r) == discovered_feed(html@, base_url@),
{
    if let Some(tag) = find_feed_link_tag(html) {
        if let Some(href) = find_href(tag.as_str()) {
            return Some(resolve_url(base_url, href.as_str()));
        }
    }
    join_url(base_url, "/feed")
}

/// What a fetch does next after a download.
#[derive(Debug, Clone)]
pub enum FetchStep {
    /// The feed was read: the updated feed and its articles.
    Done(Feed, Vec<Article>),
    /// The download was a web page announcing a feed at this address:
    /// download that and call [`after_discovered_download`].
    FetchDiscovered(String),
    /// The fetch failed with this message.
    Failed(String),
}

/// The next step given how the first download parsed: a feed is read; a
/// page that is not a feed is searched for the feed it announces; otherwise
/// the parse error is reported.
pub open spec fn step_after_parse(
    feed: Feed,
    parsed: Result<ParsedFeed, String>,
    page: Option<Seq<char>>,
    now: i64,
    r: FetchStep,
) -> bool {
    match parsed {
        Ok(p) => r matches FetchStep::Done(f, arts) && feed_updated(feed, p, now, f) && arts@.len() == p.entries@.len()
            && forall|i: int| 0 <= i < arts@.len() ==> entry_article(feed, f.title, #[trigger] p.entries@[i], now, arts@[i]),
        Err(e) => match page {
            Some(html) => match discovered_feed(html, feed.url@) {
                Some(u) => r matches FetchStep::FetchDiscovered(v) && v@ == u,
                None => r matches FetchStep::Failed(m) && m@ == "Feed parse error: "@ + e@,
            },
            None => r matches FetchStep::Failed(m) && m@ == "Feed parse error: "@ + e@,
        },
    }
}

/// Decides the next step from the parse result and, when the download is
/// UTF-8 text, that text.
pub fn next_step(feed: &Feed, parsed: Result<ParsedFeed, String>, page: Option<String>, now: i64) -> (r: FetchStep)
    ensures
        step_after_parse(*feed, parsed, opt_view(page), now, r),
{
    proof {
        reveal_strlit("Feed parse error: ");
    }
    match parsed {
        Ok(p) => {
            let (f, arts) = build_feed_update(feed, &p, now);
            FetchStep::Done(f, arts)
        },
        Err(e) => {
            if let Some(html) = &page {
                if let Some(u) = discover_feed_url(html.as_str(), feed.url.as_str()) {
                    return FetchStep::FetchDiscovered(u);
                }
            }
            FetchStep::Failed(concat_str("Feed parse error: ", e.as_str()))
        },
    }
}

/// The feed after a fetch at `now` that read a document titled `title`
/// with links `links`: titled and given a site as [`feed_updated`] says,
/// stamped, and cleared of errors.
pub open spec fn feed_refreshed(feed: Feed, title: Option<Seq<char>>, links: Seq<Seq<char>>, now: i64, r: Feed) -> bool {
    &&& r == Feed { title: r.title, site_url: r.site_url, last_updated: Some(now), error: None, ..feed }
    &&& r.title@ == (if feed.title@.len() == 0 || feed.title@ == "Untitled Feed"@ {
        match title {
            Some(t) => cleaned_html(t),
            None => feed.title@,
        }
    } else {
        feed.title@
    })
    &&& opt_view(r.site_url) == (if feed.site_url is None && links.len() > 0 { Some(links[0]) } else { opt_view(feed.site_url) })
}

/// The step after a download, by what the parser found in it: a document
/// gives the refreshed feed and one article per entry; else a page that
/// announces a feed sends the fetch there, and anything else fails.
pub open spec fn step_for_document(feed: Feed, body: Seq<u8>, now: i64, r: FetchStep) -> bool {
    match feed_document(body) {
        Ok((title, links, entries)) => r matches FetchStep::Done(f, arts) && feed_refreshed(feed, title, links, now, f)
            && arts@.len() == entries.len(),
        Err(msg) => match as_text(body) {
            Some(html) => match discovered_feed(html, feed.url@) {
                Some(u) => r matches FetchStep::FetchDiscovered(v) && v@ == u,
                None => r matches FetchStep::Failed(m) && m@ == "Feed parse error: "@ + msg,
            },
            None => r matches FetchStep::Failed(m) && m@ == "Feed parse error: "@ + msg,
        },
    }
}

proof fn lemma_refreshed(feed: Feed, p: ParsedFeed, now: i64, f: Feed)
    requires
        feed_updated(feed, p, now, f),
    ensures
        feed_refreshed(feed, opt_view(p.title), texts(p.links@), now, f),
{
    if feed.site_url is None && p.links@.len() > 0 {
        assert(texts(p.links@)[0] == p.links@[0]@);
    }
}

/// After the first download of `feed` at `now`: parses it and decides what
/// follows (see [`step_after_parse`]); whatever the parser returned, a
/// successful step carries the feed updated as [`feed_updated`] says.
pub fn after_download(feed: &Feed, body: &[u8], now: i64) -> (r: FetchStep)
    ensures
        exists|parsed: Result<ParsedFeed, String>| #[trigger] step_after_parse(*feed, parsed, as_text(body@), now, r)
            && parsed_from(body@, parsed),
        step_for_document(*feed, body@, now, r),
{
    let parsed = parse_feed_bytes(body);
    let ghost g = parsed;
    let page = crate::storage::utf8_bytes_text(body);
    let r = next_step(feed, parsed, page, now);
    assert(step_after_parse(*feed, g, as_text(body@), now, r));
    proof {
        if g is Ok && r is Done {
            lemma_refreshed(*feed, g->Ok_0, now, r->Done_0);
        }
    }
    r
}

/// The step after downloading the address a page announced: the feed is
/// read, or the parse error is reported.
pub open spec fn step_after_discovered(feed: Feed, parsed: Result<ParsedFeed, String>, now: i64, r: FetchStep) -> bool {
    match parsed {
        Ok(p) => r matches FetchStep::Done(f, arts) && feed_updated(feed, p, now, f) && arts@.len() == p.entries@.len()
            && forall|i: int| 0 <= i < arts@.len() ==> entry_article(feed, f.title, #[trigger] p.entries@[i], now, arts@[i]),
        Err(e) => r matches FetchStep::Failed(m) && m@ == "Failed to parse discovered feed: "@ + e@,
    }
}

/// Decides the step after the announced feed's download parsed (or not).
pub fn discovered_step(feed: &Feed, parsed: Result<ParsedFeed, String>, now: i64) -> (r: FetchStep)
    ensures
        step_after_discovered(*feed, parsed, now, r),
{
    proof {
        reveal_strlit("Failed to parse discovered feed: ");
    }
    match parsed {
        Ok(p) => {
            let (f, arts) = build_feed_update(feed, &p, now);
            FetchStep::Done(f, arts)
        },
        Err(e) => FetchStep::Failed(concat_str("Failed to parse discovered feed: ", e.as_str())),
    }
}

/// After downloading the announced feed: parses it and decides.
pub fn after_discovered_download(feed: &Feed, body: &[u8], now: i64) -> (r: FetchStep)
    ensures
        exists|parsed: Result<ParsedFeed, String>| #[trigger] step_after_discovered(*feed, parsed, now, r)
            && parsed_from(body@, parsed),
        match feed_document(body@) {
            Ok((title, links, entries)) => r matches FetchStep::Done(f, arts) && feed_refreshed(*feed, title, links, now, f)
                && arts@.len() == entries.len(),
            Err(msg) => r matches FetchStep::Failed(m) && m@ == "Failed to parse discovered feed: "@ + msg,
        },
{
    let parsed = parse_feed_bytes(body);
    let ghost g = parsed;
    let r = discovered_step(feed, parsed, now);
    assert(step_after_discovered(*feed, g, now, r));
    proof {
        if g is Ok && r is Done {
            lemma_refreshed(*feed, g->Ok_0, now, r->Done_0);
        }
    }
    r
}

} // verus!
