//! OPML subscription lists: reading the feeds (and their folders) out of an
//! OPML document, writing them back as one, and the ids feeds are keyed by.
use vstd::prelude::*;
use crate::model::{group_by_folder, groups_by_folder, opt_view, Feed, FolderGroup};
use crate::text::{all_ascii, ascii_lower, chars_of, concat_str, push_char, str_to_lowercase, lowercase_str};
use quick_xml::events::{BytesDecl, BytesEnd, BytesStart, BytesText, Event};
use quick_xml::{Reader, Writer};
use std::io::Cursor;
use std::collections::hash_map::DefaultHasher;
use std::hash::Hasher;
use vstd::std_specs::hash::DefaultHasherAdditionalSpecFns;
use vstd::utf8::{decode_utf8, encode_utf8, valid_utf8};

verus! {

/// An outline of an OPML document.
#[derive(Debug, Clone)]
pub struct OpmlOutline {
    pub text: String,
    pub title: Option<String>,
    pub xml_url: Option<String>,
    pub html_url: Option<String>,
    pub folder: Option<String>,
}

/// One XML event, as plain values: element names and attributes as the
/// document spells them (values unescaped).
#[derive(Debug, Clone)]
pub enum XmlEvent {
    /// The `<?xml ...?>` declaration, with its version and encoding.
    Decl(String, String),
    Start(String, Vec<(String, String)>),
    /// A self-closing element.
    Empty(String, Vec<(String, String)>),
    End(String),
    Text(String),
    Eof,
    /// Anything else: comments, processing instructions, text when reading.
    Other,
}

/// The content of an XML event.
pub enum XmlView {
    Decl(Seq<char>, Seq<char>),
    Start(Seq<char>, Seq<(Seq<char>, Seq<char>)>),
    Empty(Seq<char>, Seq<(Seq<char>, Seq<char>)>),
    End(Seq<char>),
    Text(Seq<char>),
    Eof,
    Other,
}

/// The content of attributes.
pub open spec fn attrs_view(a: Seq<(String, String)>) -> Seq<(Seq<char>, Seq<char>)> {
    a.map_values(|p: (String, String)| (p.0@, p.1@))
}

impl View for XmlEvent {
    type V = XmlView;

    open spec fn view(&self) -> XmlView {
        match self {
            XmlEvent::Decl(v, e) => XmlView::Decl(v@, e@),
            XmlEvent::Start(n, a) => XmlView::Start(n@, attrs_view(a@)),
            XmlEvent::Empty(n, a) => XmlView::Empty(n@, attrs_view(a@)),
            XmlEvent::End(n) => XmlView::End(n@),
            XmlEvent::Text(t) => XmlView::Text(t@),
            XmlEvent::Eof => XmlView::Eof,
            XmlEvent::Other => XmlView::Other,
        }
    }
}

#[verifier::external_type_specification]
#[verifier::external_body]
#[verifier::reject_recursive_types(R)]
pub struct ExXmlReader<R>(quick_xml::Reader<R>);

#[verifier::external_type_specification]
#[verifier::external_body]
#[verifier::reject_recursive_types(W)]
pub struct ExXmlWriter<W>(quick_xml::Writer<W>);

#[verifier::external_type_specification]
#[verifier::external_body]
#[verifier::reject_recursive_types(T)]
pub struct ExCursor<T>(std::io::Cursor<T>);

/// The document a `quick_xml::Reader` reads, and whether it trims text.
pub uninterp spec fn reader_source(r: Reader<&[u8]>) -> (Seq<char>, bool);

/// How many events the reader has reported so far.
pub uninterp spec fn reader_reads(r: Reader<&[u8]>) -> nat;

/// The `k`th event (counting from zero) that `Reader::read_event` reports
/// for the document `content`, read from its start with text trimmed when
/// `trim` holds, taken apart as [`read_xml_event`] takes it; `None` where
/// the reader reports an error. It depends on these alone.
pub uninterp spec fn xml_event_at(content: Seq<char>, trim: bool, k: nat) -> Option<XmlView>;

/// Calls `quick_xml::Reader::from_str` and `Config::trim_text` with `trim`:
/// a reader of `content` that has reported nothing yet.
#[verifier::external_body]
fn xml_reader<'a>(content: &'a str, trim: bool) -> (r: quick_xml::Reader<&'a [u8]>)
    ensures
        reader_source(r) == (content@, trim),
        reader_reads(r) == 0,
{
    let mut reader = quick_xml::Reader::from_str(content);
    reader.config_mut().trim_text(trim);
    reader
}

/// Calls `Reader::read_event` and takes the event apart: the element name
/// of a start, empty or end tag (`BytesStart::name`, `BytesEnd::name`, as
/// lossy UTF-8) and, for a start or empty tag, each well-formed attribute
/// (`BytesStart::attributes`: key as lossy UTF-8, value unescaped, empty
/// when it cannot be); the end of the input is `Eof` and any other event is
/// `Other`. A read failure gives its message. The event is the reader's
/// next one, named `xml_event_at`.
#[verifier::external_body]
fn read_xml_event(reader: &mut Reader<&[u8]>) -> (r: Result<XmlEvent, String>)
    ensures
        reader_source(*final(reader)) == reader_source(*old(reader)),
        reader_reads(*final(reader)) == reader_reads(*old(reader)) + 1,
        match r {
            Ok(e) => xml_event_at(reader_source(*old(reader)).0, reader_source(*old(reader)).1, reader_reads(*old(reader)))
                == Some(e@) && !(e is Decl) && !(e is Text),
            Err(_) => xml_event_at(reader_source(*old(reader)).0, reader_source(*old(reader)).1, reader_reads(*old(reader))) is None,
        },
{
    let s = |b: &[u8]| String::from_utf8_lossy(b).into_owned();
    let at = |t: &BytesStart| t.attributes().flatten().map(|a| (s(a.key.0), a.unescape_value().unwrap_or_default().into_owned())).collect();
    Ok(match reader.read_event().map_err(|e| e.to_string())? {
        Event::Start(t) => XmlEvent::Start(s(t.name().0), at(&t)),
        Event::Empty(t) => XmlEvent::Empty(s(t.name().0), at(&t)),
        Event::End(t) => XmlEvent::End(s(t.name().0)),
        Event::Eof => XmlEvent::Eof,
        _ => XmlEvent::Other,
    })
}

/// Reads the next event of the document as plain values: a start, empty or
/// end tag, the end of the input, or `Other` for anything else; a read
/// failure gives the reader's message.
fn next_xml_event(reader: &mut Reader<&[u8]>) -> (r: Result<XmlEvent, String>)
    ensures
        reader_source(*final(reader)) == reader_source(*old(reader)),
        reader_reads(*final(reader)) == reader_reads(*old(reader)) + 1,
        match r {
            Ok(e) => xml_event_at(reader_source(*old(reader)).0, reader_source(*old(reader)).1, reader_reads(*old(reader)))
                == Some(e@) && !(e is Decl) && !(e is Text),
            Err(_) => xml_event_at(reader_source(*old(reader)).0, reader_source(*old(reader)).1, reader_reads(*old(reader))) is None,
        },
{
    read_xml_event(reader)
}

/// The bytes a `quick_xml::Writer` over an in-memory buffer has written so
/// far: the buffer's contents.
pub uninterp spec fn writer_bytes(w: Writer<Cursor<Vec<u8>>>) -> Seq<u8>;

/// What `Writer::write_event` (with no indentation) writes for the event,
/// as text: it depends on the event alone, and the bytes written are this
/// text's UTF-8 (names, values and text are UTF-8 strings, and what the
/// writer adds is ASCII).
pub uninterp spec fn xml_event_text(ev: XmlView) -> Seq<char>;

/// Calls `quick_xml::Writer::new` over an empty in-memory buffer: nothing is
/// written yet.
#[verifier::external_body]
fn xml_writer() -> (r: Writer<Cursor<Vec<u8>>>)
    ensures
        writer_bytes(r) == Seq::<u8>::empty(),
{
    Writer::new(Cursor::new(Vec::new()))
}

/// Calls `Writer::write_event` with the declaration `BytesDecl::new` makes
/// of the version and encoding (no standalone attribute). `write_event`
/// fails only on an I/O error, which an in-memory buffer never raises: it
/// succeeds and appends the event's bytes to the buffer.
#[verifier::external_body]
fn write_decl(w: &mut Writer<Cursor<Vec<u8>>>, version: &str, encoding: &str) -> (r: Result<(), String>)
    ensures
        r is Ok,
        writer_bytes(*final(w)) == writer_bytes(*old(w)) + encode_utf8(xml_event_text(XmlView::Decl(version@, encoding@))),
{
    w.write_event(Event::Decl(BytesDecl::new(version, Some(encoding), None))).map_err(|e| e.to_string())
}

/// Calls `Writer::write_event` with the tag `BytesStart::new` and
/// `with_attributes` make of the element and its attributes, in order: a
/// start tag, or a self-closing one when `empty`. Into an in-memory buffer
/// it succeeds and appends the event's bytes.
#[verifier::external_body]
fn write_tag(w: &mut Writer<Cursor<Vec<u8>>>, name: &String, attrs: &Vec<(String, String)>, empty: bool) -> (r: Result<(), String>)
    ensures
        r is Ok,
        writer_bytes(*final(w)) == writer_bytes(*old(w)) + encode_utf8(xml_event_text(
            if empty { XmlView::Empty(name@, attrs_view(attrs@)) } else { XmlView::Start(name@, attrs_view(attrs@)) },
        )),
{
    let t = BytesStart::new(name.as_str()).with_attributes(attrs.iter().map(|(k, v)| (k.as_str(), v.as_str())));
    w.write_event(if empty { Event::Empty(t) } else { Event::Start(t) }).map_err(|e| e.to_string())
}

/// Calls `Writer::write_event` with `BytesEnd::new` of the element. Into an
/// in-memory buffer it succeeds and appends the event's bytes.
#[verifier::external_body]
fn write_end(w: &mut Writer<Cursor<Vec<u8>>>, name: &str) -> (r: Result<(), String>)
    ensures
        r is Ok,
        writer_bytes(*final(w)) == writer_bytes(*old(w)) + encode_utf8(xml_event_text(XmlView::End(name@))),
{
    w.write_event(Event::End(BytesEnd::new(name))).map_err(|e| e.to_string())
}

/// Calls `Writer::write_event` with `BytesText::new` of the text, which
/// escapes it as it is written. Into an in-memory buffer it succeeds and
/// appends the event's bytes.
#[verifier::external_body]
fn write_text(w: &mut Writer<Cursor<Vec<u8>>>, text: &str) -> (r: Result<(), String>)
    ensures
        r is Ok,
        writer_bytes(*final(w)) == writer_bytes(*old(w)) + encode_utf8(xml_event_text(XmlView::Text(text@))),
{
    w.write_event(Event::Text(BytesText::new(text))).map_err(|e| e.to_string())
}

/// The text an event adds to a document: none for the end of the input
/// and for events that are only read.
pub open spec fn event_chars(ev: XmlView) -> Seq<char> {
    match ev {
        XmlView::Eof => Seq::empty(),
        XmlView::Other => Seq::empty(),
        _ => xml_event_text(ev),
    }
}

/// The text of the events in turn.
pub open spec fn events_text(evs: Seq<XmlView>) -> Seq<char>
    decreases evs.len(),
{
    if evs.len() == 0 {
        Seq::empty()
    } else {
        events_text(evs.drop_last()) + event_chars(evs.last())
    }
}

proof fn lemma_encode_append(a: Seq<char>, b: Seq<char>)
    ensures
        encode_utf8(a + b) == encode_utf8(a) + encode_utf8(b),
    decreases a.len(),
{
    if a.len() == 0 {
        assert(a + b =~= b);
    } else {
        lemma_encode_append(a.drop_first(), b);
        assert((a + b).drop_first() =~= a.drop_first() + b);
        assert((a + b)[0] == a[0]);
        assert(encode_utf8(a + b) =~= encode_utf8(a) + encode_utf8(b));
    }
}

/// Writes one event given as plain values (nothing for `Eof` and `Other`).
fn write_xml_event(w: &mut Writer<Cursor<Vec<u8>>>, ev: &XmlEvent) -> (r: Result<(), String>)
    ensures
        r is Ok,
        writer_bytes(*final(w)) == writer_bytes(*old(w)) + encode_utf8(event_chars(ev@)),
        (ev@ is Eof || ev@ is Other) ==> *final(w) == *old(w),
{
    match ev {
        XmlEvent::Decl(v, e) => write_decl(w, v.as_str(), e.as_str()),
        XmlEvent::Start(n, a) => write_tag(w, n, a, false),
        XmlEvent::Empty(n, a) => write_tag(w, n, a, true),
        XmlEvent::End(n) => write_end(w, n.as_str()),
        XmlEvent::Text(t) => write_text(w, t.as_str()),
        XmlEvent::Eof | XmlEvent::Other => {
            assert(encode_utf8(event_chars(ev@)) =~= Seq::<u8>::empty());
            assert(writer_bytes(*w) + encode_utf8(event_chars(ev@)) =~= writer_bytes(*w));
            Ok(())
        },
    }
}

/// The bytes an in-memory buffer holds.
pub uninterp spec fn cursor_bytes(c: Cursor<Vec<u8>>) -> Seq<u8>;

/// Calls `Writer::into_inner`: the buffer, holding what was written.
#[verifier::external_body]
fn writer_buffer(w: Writer<Cursor<Vec<u8>>>) -> (r: Cursor<Vec<u8>>)
    ensures
        cursor_bytes(r) == writer_bytes(w),
{
    w.into_inner()
}

/// Calls `Cursor::into_inner`: the bytes the buffer holds.
#[verifier::external_body]
fn buffer_bytes(c: Cursor<Vec<u8>>) -> (r: Vec<u8>)
    ensures
        r@ == cursor_bytes(c),
{
    c.into_inner()
}

/// The text written, when the bytes are valid UTF-8.
fn xml_written_text(w: Writer<Cursor<Vec<u8>>>) -> (r: Option<String>)
    ensures
        r is Some <==> valid_utf8(writer_bytes(w)),
        r matches Some(s) ==> s@ == decode_utf8(writer_bytes(w)),
{
    crate::storage::utf8_string(buffer_bytes(writer_buffer(w)))
}

/// What `Hash::hash` for `str` leaves in a `DefaultHasher` that had seen the
/// writes `state`: the writes it makes of the text are added.
pub uninterp spec fn str_hashed_into(state: Seq<Seq<u8>>, s: Seq<char>) -> Seq<Seq<u8>>;

/// Calls `Hash::hash` for `str` with the hasher; the writes it makes are
/// named `str_hashed_into`.
#[verifier::external_body]
fn hash_str_into(s: &str, h: &mut DefaultHasher)
    ensures
        final(h)@ == str_hashed_into(old(h)@, s@),
{
    std::hash::Hash::hash(s, h)
}

/// The number a fresh `DefaultHasher` gives the text: every hasher made by
/// `new` starts from no writes, so equal text gets the same number.
pub open spec fn default_hash(s: Seq<char>) -> u64 {
    DefaultHasher::spec_finish(str_hashed_into(Seq::empty(), s))
}

/// Hashes the text with a fresh `DefaultHasher`.
fn hash_text(s: &str) -> (r: u64)
    ensures
        r == default_hash(s@),
{
    let mut h = DefaultHasher::new();
    hash_str_into(s, &mut h);
    h.finish()
}

/// The lowercase hexadecimal digit of `d` (below 16).
pub open spec fn hex_digit(d: int) -> char {
    if d < 10 {
        (('0' as int) + d) as char
    } else {
        (('a' as int) + d - 10) as char
    }
}

/// `n` as `width` lowercase hexadecimal digits, most significant first.
pub open spec fn hex_digits(n: nat, width: nat) -> Seq<char>
    decreases width,
{
    if width == 0 {
        Seq::empty()
    } else {
        hex_digits(n / 16, (width - 1) as nat).push(hex_digit((n % 16) as int))
    }
}

/// The id of the feed at `url`: `feed-` and sixteen hex digits of its hash.
pub open spec fn feed_id_text(url: Seq<char>) -> Seq<char> {
    "feed-"@ + hex_digits(default_hash(url) as nat, 16)
}

fn hex_char(d: u64) -> (c: char)
    requires
        d < 16,
    ensures
        c == hex_digit(d as int),
{
    if d < 10 {
        assert((('0' as u32) + (d as u32)) as int == ('0' as int) + d);
        char_of(('0' as u32) + (d as u32))
    } else {
        char_of(('a' as u32) + (d as u32) - 10)
    }
}

/// The character with this ASCII code.
fn char_of(code: u32) -> (c: char)
    requires
        code < 128,
    ensures
        c as u32 == code,
{
    let b = code as u8;
    let c = b as char;
    c
}

fn push_hex(s: &mut String, n: u64, width: u64)
    requires
        width <= 16,
    ensures
        final(s)@ == old(s)@ + hex_digits(n as nat, width as nat),
    decreases width,
{
    if width == 0 {
        assert(old(s)@ + Seq::<char>::empty() =~= old(s)@);
        return;
    }
    push_hex(s, n / 16, width - 1);
    let c = hex_char(n % 16);
    push_char(s, c);
    assert(old(s)@ + hex_digits((n / 16) as nat, (width - 1) as nat) + seq![c] =~= old(s)@ + hex_digits(
        n as nat,
        width as nat,
    ));
}

/// The id a feed at `url` is stored under.
pub fn generate_feed_id(url: &str) -> (r: String)
    ensures
        r@ == feed_id_text(url@),
{
    let h = hash_text(url);
    let mut s = "feed-".to_owned();
    push_hex(&mut s, h, 16);
    proof {
        reveal_strlit("feed-");
    }
    s
}

/// The placeholder a new subscription starts as, before its first fetch.
pub fn new_feed_for(url: &str, folder: Option<String>) -> (r: Feed)
    ensures
        r.id@ == feed_id_text(url@),
        r.title@ == "Loading feed..."@,
        r.url@ == url@,
        r.site_url is None,
        r.folder == folder,
        r.custom_icon is None && r.last_updated is None && r.error is None,
        r.unread_count == 0 && r.total_count == 0,
{
    proof {
        reveal_strlit("Loading feed...");
    }
    Feed::new(generate_feed_id(url), "Loading feed...".to_owned(), url.to_owned(), None, folder)
}

/// The value of the last attribute whose key, lowercased, is `k1` or `k2`;
/// empty when there is none.
pub open spec fn attr_value(attrs: Seq<(Seq<char>, Seq<char>)>, k1: Seq<char>, k2: Seq<char>) -> Seq<char>
    decreases attrs.len(),
{
    if attrs.len() == 0 {
        Seq::empty()
    } else if lowercase_str(attrs.last().0) == k1 || lowercase_str(attrs.last().0) == k2 {
        attrs.last().1
    } else {
        attr_value(attrs.drop_last(), k1, k2)
    }
}

proof fn lemma_attr_step(a: Seq<(Seq<char>, Seq<char>)>, k1: Seq<char>, k2: Seq<char>)
    requires
        a.len() > 0,
    ensures
        attr_value(a, k1, k2) == if lowercase_str(a.last().0) == k1 || lowercase_str(a.last().0) == k2 {
            a.last().1
        } else {
            attr_value(a.drop_last(), k1, k2)
        },
{
}

/// The title an outline shows: its `title`, else its `text`, else
/// "Untitled Feed".
pub open spec fn outline_title(attrs: Seq<(Seq<char>, Seq<char>)>) -> Seq<char> {
    let title = attr_value(attrs, "title"@, "title"@);
    let text = attr_value(attrs, "text"@, "text"@);
    if title.len() > 0 {
        title
    } else if text.len() > 0 {
        text
    } else {
        "Untitled Feed"@
    }
}

/// The feed address of an outline.
pub open spec fn outline_xml_url(attrs: Seq<(Seq<char>, Seq<char>)>) -> Seq<char> {
    attr_value(attrs, "xmlurl"@, "xml_url"@)
}

/// The site address of an outline.
pub open spec fn outline_html_url(attrs: Seq<(Seq<char>, Seq<char>)>) -> Seq<char> {
    attr_value(attrs, "htmlurl"@, "html_url"@)
}

fn text_is(s: &String, lit: &str) -> (r: bool)
    ensures
        r == (s@ == lit@),
{
    crate::text::str_eq(s.as_str(), lit)
}

/// Reads an outline's attributes: its title, feed address and site address.
pub fn parse_outline_attrs(attrs: &Vec<(String, String)>) -> (r: (String, String, String))
    ensures
        r.0@ == outline_title(attrs_view(attrs@)),
        r.1@ == outline_xml_url(attrs_view(attrs@)),
        r.2@ == outline_html_url(attrs_view(attrs@)),
{
    proof {
        reveal_strlit("text");
        reveal_strlit("title");
        reveal_strlit("xmlurl");
        reveal_strlit("xml_url");
        reveal_strlit("htmlurl");
        reveal_strlit("html_url");
        reveal_strlit("Untitled Feed");
        assert("xml_url"@[0] != "htmlurl"@[0]);
        assert("xmlurl"@.len() != "htmlurl"@.len() && "xmlurl"@.len() != "html_url"@.len());
        assert("xml_url"@.len() != "html_url"@.len() && "text"@.len() != "title"@.len());
    }
    let mut text = String::new();
    let mut title = String::new();
    let mut xml_url = String::new();
    let mut html_url = String::new();
    let mut i: usize = 0;
    while i < attrs.len()
        invariant
            i <= attrs.len(),
            text@ == attr_value(attrs_view(attrs@.take(i as int)), "text"@, "text"@),
            title@ == attr_value(attrs_view(attrs@.take(i as int)), "title"@, "title"@),
            xml_url@ == attr_value(attrs_view(attrs@.take(i as int)), "xmlurl"@, "xml_url"@),
            html_url@ == attr_value(attrs_view(attrs@.take(i as int)), "htmlurl"@, "html_url"@),
        decreases attrs.len() - i,
    {
        let key = str_to_lowercase(attrs[i].0.as_str());
        proof {
            reveal_strlit("text");
            reveal_strlit("title");
            reveal_strlit("xmlurl");
            reveal_strlit("xml_url");
            reveal_strlit("htmlurl");
            reveal_strlit("html_url");
            let av = attrs_view(attrs@.take(i as int + 1));
            lemma_attr_step(av, "text"@, "text"@);
            lemma_attr_step(av, "title"@, "title"@);
            lemma_attr_step(av, "xmlurl"@, "xml_url"@);
            lemma_attr_step(av, "htmlurl"@, "html_url"@);
            assert(attrs_view(attrs@.take(i as int + 1)).drop_last() =~= attrs_view(attrs@.take(i as int)));
            assert(attrs_view(attrs@.take(i as int + 1)).last() == (attrs@[i as int].0@, attrs@[i as int].1@));
        }
        // The four keys are distinct, so at most one of these holds.
        if text_is(&key, "text") {
            text = attrs[i].1.clone();
        }
        if text_is(&key, "title") {
            title = attrs[i].1.clone();
        }
        if text_is(&key, "xmlurl") || text_is(&key, "xml_url") {
            xml_url = attrs[i].1.clone();
        }
        if text_is(&key, "htmlurl") || text_is(&key, "html_url") {
            html_url = attrs[i].1.clone();
        }
        i = i + 1;
    }
    assert(attrs@.take(attrs.len() as int) =~= attrs@);
    let display = if !title.as_str().is_empty() {
        title
    } else if !text.as_str().is_empty() {
        text
    } else {
        "Untitled Feed".to_owned()
    };
    (display, xml_url, html_url)
}

/// A feed an OPML document lists: title, feed address, site address and
/// folder.
pub type OutlineFeed = (Seq<char>, Seq<char>, Option<Seq<char>>, Option<Seq<char>>);

/// The folder the innermost open folder outline names: the open outlines
/// are listed outermost first, a folder by its name and any other outline
/// as `None`.
pub open spec fn innermost(stack: Seq<Option<Seq<char>>>) -> Option<Seq<char>>
    decreases stack.len(),
{
    if stack.len() == 0 {
        None
    } else {
        match stack.last() {
            Some(name) => Some(name),
            None => innermost(stack.drop_last()),
        }
    }
}

/// The innermost folder is the one opened last among the outlines still
/// open: the last folder of the stack, whatever outlines opened after it
/// that are not folders, and whatever folders enclose it.
pub proof fn lemma_innermost_is_last_folder(stack: Seq<Option<Seq<char>>>, j: int)
    requires
        0 <= j < stack.len(),
        stack[j] is Some,
        forall|k: int| j < k < stack.len() ==> (#[trigger] stack[k]) is None,
    ensures
        innermost(stack) == stack[j],
    decreases stack.len(),
{
    if j < stack.len() - 1 {
        let d = stack.drop_last();
        assert forall|k: int| j < k < d.len() implies (#[trigger] d[k]) is None by {
            assert(d[k] == stack[k]);
        }
        lemma_innermost_is_last_folder(d, j);
        assert(d[j] == stack[j]);
    }
}

/// With no folder among the open outlines, a feed is in no folder.
pub proof fn lemma_innermost_without_folders(stack: Seq<Option<Seq<char>>>)
    requires
        forall|k: int| 0 <= k < stack.len() ==> (#[trigger] stack[k]) is None,
    ensures
        innermost(stack) is None,
    decreases stack.len(),
{
    if stack.len() > 0 {
        let d = stack.drop_last();
        assert forall|k: int| 0 <= k < d.len() implies (#[trigger] d[k]) is None by {
            assert(d[k] == stack[k]);
        }
        lemma_innermost_without_folders(d);
    }
}

/// An outline written as an opening and a closing tag leaves the same
/// outlines open as before it: a folder closes again, and a feed written so
/// does not close the folder it is in; it lists one feed when it has a feed
/// address, and none otherwise.
pub proof fn lemma_outline_open_close(st: (Seq<OutlineFeed>, Seq<Option<Seq<char>>>), attrs: Seq<(Seq<char>, Seq<char>)>)
    ensures
        ({
            let after = opml_step(opml_step(st, XmlView::Start("outline"@, attrs)), XmlView::End("outline"@));
            &&& after.1 == st.1
            &&& outline_xml_url(attrs).len() > 0 ==> after.0 == st.0.push(outline_feed(attrs, st.1))
            &&& outline_xml_url(attrs).len() == 0 ==> after.0 == st.0
        }),
{
    let st1 = opml_step(st, XmlView::Start("outline"@, attrs));
    assert(st1.1.len() > 0);
    assert(st1.1.drop_last() =~= st.1);
}

/// A feed outline read right after a folder outline opens is listed in that
/// folder, whatever folders were open before it.
pub proof fn lemma_feed_in_folder_just_opened(
    st: (Seq<OutlineFeed>, Seq<Option<Seq<char>>>),
    folder: Seq<(Seq<char>, Seq<char>)>,
    feed: Seq<(Seq<char>, Seq<char>)>,
)
    requires
        outline_xml_url(folder).len() == 0,
        outline_title(folder).len() > 0,
        outline_xml_url(feed).len() > 0,
    ensures
        ({
            let after = opml_step(opml_step(st, XmlView::Start("outline"@, folder)), XmlView::Empty("outline"@, feed));
            &&& after.0.len() == st.0.len() + 1
            &&& after.0.last().0 == outline_title(feed)
            &&& after.0.last().1 == outline_xml_url(feed)
            &&& after.0.last().3 == Some(outline_title(folder))
        }),
{
    let st1 = opml_step(st, XmlView::Start("outline"@, folder));
    assert(st1.1 == st.1.push(Some(outline_title(folder))));
    lemma_innermost_is_last_folder(st1.1, st.1.len() as int);
}

/// The feed an outline with these attributes lists, inside the folders
/// `stack`.
pub open spec fn outline_feed(attrs: Seq<(Seq<char>, Seq<char>)>, stack: Seq<Option<Seq<char>>>) -> OutlineFeed {
    let h = outline_html_url(attrs);
    (
        outline_title(attrs),
        outline_xml_url(attrs),
        if h.len() > 0 { Some(h) } else { None },
        innermost(stack),
    )
}

/// The feeds listed and the outlines open after reading one more event: an
/// outline with a feed address lists a feed in the innermost open folder;
/// an opening outline without one, but with a title, opens a folder of that
/// name; every opening outline is open until the next closing outline, which
/// closes it, so that a feed written as an opening and a closing outline
/// leaves its folder open.
pub open spec fn opml_step(st: (Seq<OutlineFeed>, Seq<Option<Seq<char>>>), ev: XmlView) -> (Seq<OutlineFeed>, Seq<Option<Seq<char>>>) {
    let (feeds, stack) = st;
    match ev {
        XmlView::Start(n, attrs) => if n == "outline"@ {
            if outline_xml_url(attrs).len() > 0 {
                (feeds.push(outline_feed(attrs, stack)), stack.push(None))
            } else if outline_title(attrs).len() > 0 {
                (feeds, stack.push(Some(outline_title(attrs))))
            } else {
                (feeds, stack.push(None))
            }
        } else {
            st
        },
        XmlView::Empty(n, attrs) => if n == "outline"@ && outline_xml_url(attrs).len() > 0 {
            (feeds.push(outline_feed(attrs, stack)), stack)
        } else {
            st
        },
        XmlView::End(n) => if n == "outline"@ && stack.len() > 0 {
            (feeds, stack.drop_last())
        } else {
            st
        },
        _ => st,
    }
}

/// The feeds listed and folders open after reading `events`.
pub open spec fn opml_read(events: Seq<XmlView>) -> (Seq<OutlineFeed>, Seq<Option<Seq<char>>>)
    decreases events.len(),
{
    if events.len() == 0 {
        (Seq::empty(), Seq::empty())
    } else {
        opml_step(opml_read(events.drop_last()), events.last())
    }
}

/// `f` is the feed an OPML outline listed: stored under the id of its
/// address, never fetched.
pub open spec fn is_outline_feed(f: Feed, o: OutlineFeed) -> bool {
    &&& f.id@ == feed_id_text(o.1)
    &&& f.title@ == o.0
    &&& f.url@ == o.1
    &&& opt_view(f.site_url) == o.2
    &&& opt_view(f.folder) == o.3
    &&& f.custom_icon is None && f.last_updated is None && f.error is None
    &&& f.unread_count == 0 && f.total_count == 0
}

/// The feeds are those the outlines list, in order.
pub open spec fn lists_outline_feeds(feeds: Seq<Feed>, outlines: Seq<OutlineFeed>) -> bool {
    &&& feeds.len() == outlines.len()
    &&& forall|i: int| 0 <= i < feeds.len() ==> is_outline_feed(#[trigger] feeds[i], outlines[i])
}

fn text_opt(s: String) -> (r: Option<String>)
    ensures
        opt_view(r) == if s@.len() > 0 { Some(s@) } else { None::<Seq<char>> },
{
    if s.as_str().is_empty() {
        None
    } else {
        Some(s)
    }
}

fn is_outline(name: &String) -> (r: bool)
    ensures
        r == (name@ == "outline"@),
{
    text_is(name, "outline")
}

/// The open outlines as their folder names.
pub open spec fn stack_view(stack: Seq<Option<String>>) -> Seq<Option<Seq<char>>> {
    stack.map_values(|s: Option<String>| opt_view(s))
}

/// The folder the innermost open folder outline names.
fn innermost_of(stack: &Vec<Option<String>>) -> (r: Option<String>)
    ensures
        opt_view(r) == innermost(stack_view(stack@)),
{
    let ghost v = stack_view(stack@);
    let mut i = stack.len();
    assert(v.take(i as int) =~= v);
    while i > 0
        invariant
            i <= stack.len(),
            v == stack_view(stack@),
            innermost(v) == innermost(v.take(i as int)),
        decreases i,
    {
        assert(v.take(i as int).last() == opt_view(stack@[i - 1]));
        assert(v.take(i as int).drop_last() =~= v.take(i - 1));
        match &stack[i - 1] {
            Some(n) => {
                return Some(n.clone());
            },
            None => {},
        }
        i = i - 1;
    }
    None
}

/// The feeds the events of an OPML document list.
pub fn feeds_from_events(events: &Vec<XmlEvent>) -> (r: Vec<Feed>)
    ensures
        lists_outline_feeds(r@, opml_read(events@.map_values(|e: XmlEvent| e@)).0),
{
    let mut feeds: Vec<Feed> = Vec::new();
    let mut stack: Vec<Option<String>> = Vec::new();
    let mut i: usize = 0;
    while i < events.len()
        invariant
            i <= events.len(),
            lists_outline_feeds(feeds@, opml_read(events@.take(i as int).map_values(|e: XmlEvent| e@)).0),
            stack_view(stack@) == opml_read(events@.take(i as int).map_values(|e: XmlEvent| e@)).1,
        decreases events.len() - i,
    {
        let ghost before = events@.take(i as int).map_values(|e: XmlEvent| e@);
        proof {
            assert(events@.take(i as int + 1).map_values(|e: XmlEvent| e@).drop_last() =~= before);
            assert(events@.take(i as int + 1).map_values(|e: XmlEvent| e@).last() == events@[i as int]@);
        }
        let ghost old_feeds = feeds@;
        let ghost old_stack = stack@;
        match &events[i] {
            XmlEvent::Start(name, attrs) => {
                if is_outline(name) {
                    let (display, xml_url, html_url) = parse_outline_attrs(attrs);
                    if !xml_url.as_str().is_empty() {
                        let folder = innermost_of(&stack);
                        let f = Feed::new(generate_feed_id(xml_url.as_str()), display, xml_url, text_opt(html_url), folder);
                        feeds.push(f);
                        stack.push(None);
                        proof {
                            assert(feeds@.drop_last() == old_feeds);
                            assert(stack_view(stack@) =~= stack_view(old_stack).push(None));
                        }
                    } else if !display.as_str().is_empty() {
                        let ghost d = display@;
                        stack.push(Some(display));
                        proof {
                            assert(stack_view(stack@) =~= stack_view(old_stack).push(Some(d)));
                        }
                    } else {
                        stack.push(None);
                        proof {
                            assert(stack_view(stack@) =~= stack_view(old_stack).push(None));
                        }
                    }
                }
            },
            XmlEvent::Empty(name, attrs) => {
                if is_outline(name) {
                    let (display, xml_url, html_url) = parse_outline_attrs(attrs);
                    if !xml_url.as_str().is_empty() {
                        let folder = innermost_of(&stack);
                        let f = Feed::new(generate_feed_id(xml_url.as_str()), display, xml_url, text_opt(html_url), folder);
                        feeds.push(f);
                        proof {
                            assert(feeds@.drop_last() == old_feeds);
                        }
                    }
                }
            },
            XmlEvent::End(name) => {
                if is_outline(name) && stack.len() > 0 {
                    stack.pop();
                    proof {
                        assert(stack_view(stack@) =~= stack_view(old_stack).drop_last());
                    }
                }
            },
            _ => {},
        }
        i = i + 1;
    }
    assert(events@.take(events.len() as int) =~= events@);
    feeds
}

/// The feeds are those some sequence of XML events lists.
#[verifier::opaque]
pub open spec fn is_opml_listing(feeds: Seq<Feed>) -> bool {
    exists|events: Seq<XmlView>| #[trigger] lists_outline_feeds(feeds, opml_read(events).0)
}

/// The events read from the document `content`, from the `k`th on, up to
/// the end of the input, when at most `fuel` reads reach it: `None` when
/// the reader reports an error first, or the end is not reached.
pub open spec fn document_events(content: Seq<char>, k: nat, fuel: nat) -> Option<Seq<XmlView>>
    decreases fuel,
{
    if fuel == 0 {
        None
    } else {
        match xml_event_at(content, true, k) {
            None => None,
            Some(XmlView::Eof) => Some(Seq::empty()),
            Some(e) => match document_events(content, k + 1, (fuel - 1) as nat) {
                Some(rest) => Some(seq![e] + rest),
                None => None,
            },
        }
    }
}

/// `o` with `pre` in front of what it holds.
pub open spec fn prefixed(pre: Seq<XmlView>, o: Option<Seq<XmlView>>) -> Option<Seq<XmlView>> {
    match o {
        Some(rest) => Some(pre + rest),
        None => None,
    }
}

/// The events of an OPML document: those the reader reports, trimming
/// text, up to the end of the input, which must come within one read more
/// than the document has bytes (every event but the end consumes one).
pub open spec fn opml_document(content: Seq<char>) -> Option<Seq<XmlView>> {
    document_events(content, 0, encode_utf8(content).len() + 1)
}

/// Reads the feeds an OPML document lists, with the folder each is filed
/// under: the feeds its events describe (see [`opml_read`]), in order. It
/// fails when the reader reports an error or the document does not end,
/// with a message saying so.
pub fn parse_opml_str(xml_content: &str) -> (r: Result<Vec<Feed>, String>)
    ensures
        r is Ok <==> opml_document(xml_content@) is Some,
        r matches Ok(feeds) ==> lists_outline_feeds(feeds@, opml_read(opml_document(xml_content@)->0).0),
        r matches Ok(feeds) ==> is_opml_listing(feeds@),
        r matches Err(m) ==> exists|e: Seq<char>| m@ == "OPML XML parse error: "@ + e,
{
    let mut reader = xml_reader(xml_content, true);
    let mut events: Vec<XmlEvent> = Vec::new();
    let ghost content = xml_content@;
    // Every event but the end of the document consumes at least one byte.
    let mut left: usize = xml_content.as_bytes().len();
    let ghost fuel0: nat = (left + 1) as nat;
    assert(left == encode_utf8(content).len());
    assert(events@.map_values(|e: XmlEvent| e@) =~= Seq::<XmlView>::empty());
    loop
        invariant
            content == xml_content@,
            fuel0 == encode_utf8(content).len() + 1,
            reader_source(reader) == (content, true),
            reader_reads(reader) == events@.len(),
            events@.len() + left + 1 == fuel0,
            opml_document(content) == prefixed(
                events@.map_values(|e: XmlEvent| e@),
                document_events(content, events@.len(), (left + 1) as nat),
            ),
        decreases left,
    {
        let ghost pre = events@.map_values(|e: XmlEvent| e@);
        let ghost k = events@.len();
        match next_xml_event(&mut reader) {
            Ok(XmlEvent::Eof) => {
                assert(document_events(content, k, (left + 1) as nat) == Some(Seq::<XmlView>::empty()));
                assert(pre + Seq::<XmlView>::empty() =~= pre);
                let feeds = feeds_from_events(&events);
                assert(lists_outline_feeds(feeds@, opml_read(pre).0));
                assert(is_opml_listing(feeds@)) by {
                    reveal(is_opml_listing);
                }
                return Ok(feeds);
            },
            Ok(ev) => {
                let ghost e = ev@;
                events.push(ev);
                proof {
                    assert(events@.map_values(|x: XmlEvent| x@) =~= pre.push(e));
                    assert(document_events(content, k, (left + 1) as nat) == prefixed(
                        seq![e],
                        document_events(content, k + 1, left as nat),
                    ));
                    match document_events(content, k + 1, left as nat) {
                        Some(rest) => {
                            assert(pre + (seq![e] + rest) =~= pre.push(e) + rest);
                        },
                        None => {},
                    }
                }
                if left == 0 {
                    assert(document_events(content, k + 1, 0) is None);
                    let m = concat_str("OPML XML parse error: ", "the document does not end");
                    assert(m@ == "OPML XML parse error: "@ + "the document does not end"@);
                    return Err(m);
                }
                left = left - 1;
            },
            Err(e) => {
                assert(document_events(content, k, (left + 1) as nat) is None);
                let m = concat_str("OPML XML parse error: ", e.as_str());
                assert(m@ == "OPML XML parse error: "@ + e@);
                return Err(m);
            },
        }
    }
}

/// The attributes of a feed's outline.
pub open spec fn feed_outline_attrs(f: Feed) -> Seq<(Seq<char>, Seq<char>)> {
    let base = seq![("type"@, "rss"@), ("text"@, f.title@), ("title"@, f.title@), ("xmlUrl"@, f.url@)];
    match f.site_url {
        Some(site) => base.push(("htmlUrl"@, site@)),
        None => base,
    }
}

/// The events a folder group of an export writes: a folder outline around
/// its feeds' outlines, or the bare outlines of the feeds in no folder.
pub open spec fn group_events(feeds: Seq<Feed>, members: Seq<usize>) -> Seq<XmlView> {
    let rows = members.map_values(|m: usize| XmlView::Empty("outline"@, feed_outline_attrs(feeds[m as int])));
    match feeds[members[0] as int].folder {
        Some(name) => seq![XmlView::Start("outline"@, seq![("text"@, name@), ("title"@, name@)])] + rows + seq![
            XmlView::End("outline"@),
        ],
        None => rows,
    }
}

/// The events of the folder groups in turn.
pub open spec fn groups_events(feeds: Seq<Feed>, groups: Seq<FolderGroup>) -> Seq<XmlView>
    decreases groups.len(),
{
    if groups.len() == 0 {
        Seq::empty()
    } else {
        groups_events(feeds, groups.drop_last()) + group_events(feeds, groups.last().members@)
    }
}

/// The opening of an exported document titled `title`, up to `<body>`.
pub open spec fn opml_head(title: Seq<char>) -> Seq<XmlView> {
    seq![
        XmlView::Decl("1.0"@, "UTF-8"@),
        XmlView::Start("opml"@, seq![("version"@, "2.0"@)]),
        XmlView::Start("head"@, Seq::empty()),
        XmlView::Start("title"@, Seq::empty()),
        XmlView::Text(title),
        XmlView::End("title"@),
        XmlView::End("head"@),
        XmlView::Start("body"@, Seq::empty()),
    ]
}

/// The close of an exported document.
pub open spec fn opml_tail() -> Seq<XmlView> {
    seq![XmlView::End("body"@), XmlView::End("opml"@)]
}

/// `events` are the OPML 2.0 export of `feeds`: the head with the title,
/// then each folder group in folder order, its feeds in list order.
pub open spec fn is_opml_export(feeds: Seq<Feed>, title: Seq<char>, events: Seq<XmlView>) -> bool {
    exists|groups: Seq<FolderGroup>|
        #[trigger] groups_by_folder(feeds, groups) && events == opml_head(title) + groups_events(feeds, groups)
            + opml_tail()
}

fn pair(k: &str, v: &str) -> (r: (String, String))
    ensures
        r.0@ == k@ && r.1@ == v@,
{
    (k.to_owned(), v.to_owned())
}

fn feed_outline_event(f: &Feed) -> (r: XmlEvent)
    ensures
        r@ == XmlView::Empty("outline"@, feed_outline_attrs(*f)),
{
    proof {
        reveal_strlit("outline");
    }
    let mut attrs: Vec<(String, String)> = Vec::new();
    attrs.push(pair("type", "rss"));
    attrs.push(pair("text", f.title.as_str()));
    attrs.push(pair("title", f.title.as_str()));
    attrs.push(pair("xmlUrl", f.url.as_str()));
    if let Some(site) = &f.site_url {
        attrs.push(pair("htmlUrl", site.as_str()));
    }
    let r = XmlEvent::Empty("outline".to_owned(), attrs);
    assert(attrs_view(attrs@) =~= feed_outline_attrs(*f));
    r
}

fn push_event(events: &mut Vec<XmlEvent>, e: XmlEvent)
    ensures
        final(events)@.map_values(|x: XmlEvent| x@) == old(events)@.map_values(|x: XmlEvent| x@).push(e@),
{
    events.push(e);
    assert(final(events)@.map_values(|x: XmlEvent| x@) =~= old(events)@.map_values(|x: XmlEvent| x@).push(e@));
}

fn start_event(name: &str, attrs: Vec<(String, String)>) -> (r: XmlEvent)
    ensures
        r@ == XmlView::Start(name@, attrs_view(attrs@)),
{
    XmlEvent::Start(name.to_owned(), attrs)
}

fn end_event(name: &str) -> (r: XmlEvent)
    ensures
        r@ == XmlView::End(name@),
{
    XmlEvent::End(name.to_owned())
}

fn opml_head_events(title: &str) -> (r: Vec<XmlEvent>)
    ensures
        r@.map_values(|e: XmlEvent| e@) == opml_head(title@),
{
    proof {
        reveal_strlit("opml");
        reveal_strlit("version");
        reveal_strlit("2.0");
        reveal_strlit("head");
        reveal_strlit("title");
        reveal_strlit("body");
    }
    let mut events: Vec<XmlEvent> = Vec::new();
    push_event(&mut events, XmlEvent::Decl("1.0".to_owned(), "UTF-8".to_owned()));
    let mut version: Vec<(String, String)> = Vec::new();
    version.push(pair("version", "2.0"));
    assert(attrs_view(version@) =~= seq![("version"@, "2.0"@)]);
    push_event(&mut events, start_event("opml", version));
    let empty1: Vec<(String, String)> = Vec::new();
    assert(attrs_view(empty1@) =~= Seq::empty());
    push_event(&mut events, start_event("head", empty1));
    let empty2: Vec<(String, String)> = Vec::new();
    assert(attrs_view(empty2@) =~= Seq::empty());
    push_event(&mut events, start_event("title", empty2));
    push_event(&mut events, XmlEvent::Text(title.to_owned()));
    push_event(&mut events, end_event("title"));
    push_event(&mut events, end_event("head"));
    let empty3: Vec<(String, String)> = Vec::new();
    assert(attrs_view(empty3@) =~= Seq::empty());
    push_event(&mut events, start_event("body", empty3));
    assert(events@.map_values(|e: XmlEvent| e@) =~= opml_head(title@));
    events
}

fn push_group_events(events: &mut Vec<XmlEvent>, feeds: &[Feed], members: &Vec<usize>)
    requires
        members@.len() > 0,
        forall|j: int| 0 <= j < members@.len() ==> (#[trigger] members@[j] as int) < feeds.len(),
    ensures
        final(events)@.map_values(|e: XmlEvent| e@) == old(events)@.map_values(|e: XmlEvent| e@) + group_events(
            feeds@,
            members@,
        ),
{
    proof {
        reveal_strlit("outline");
        reveal_strlit("text");
        reveal_strlit("title");
    }
    let ghost start = events@.map_values(|e: XmlEvent| e@);
    let ghost rows = members@.map_values(|m: usize| XmlView::Empty("outline"@, feed_outline_attrs(feeds@[m as int])));
    let first = &feeds[members[0]];
    let ghost opening: Seq<XmlView> = match &first.folder {
        Some(name) => seq![XmlView::Start("outline"@, seq![("text"@, name@), ("title"@, name@)])],
        None => Seq::empty(),
    };
    match &first.folder {
        Some(name) => {
            let mut attrs: Vec<(String, String)> = Vec::new();
            attrs.push(pair("text", name.as_str()));
            attrs.push(pair("title", name.as_str()));
            assert(attrs_view(attrs@) =~= seq![("text"@, name@), ("title"@, name@)]);
            push_event(events, start_event("outline", attrs));
        },
        None => {},
    }
    assert(events@.map_values(|e: XmlEvent| e@) =~= start + opening);
    let mut j: usize = 0;
    while j < members.len()
        invariant
            j <= members@.len(),
            forall|m: int| 0 <= m < members@.len() ==> (#[trigger] members@[m] as int) < feeds.len(),
            rows == members@.map_values(|m: usize| XmlView::Empty("outline"@, feed_outline_attrs(feeds@[m as int]))),
            events@.map_values(|e: XmlEvent| e@) == start + opening + rows.take(j as int),
        decreases members@.len() - j,
    {
        push_event(events, feed_outline_event(&feeds[members[j]]));
        assert(rows.take(j as int + 1) =~= rows.take(j as int).push(rows[j as int]));
        assert(start + opening + rows.take(j as int + 1) =~= (start + opening + rows.take(j as int)).push(rows[j as int]));
        j = j + 1;
    }
    assert(rows.take(members@.len() as int) =~= rows);
    if first.folder.is_some() {
        push_event(events, end_event("outline"));
        assert(events@.map_values(|e: XmlEvent| e@) =~= start + group_events(feeds@, members@));
    } else {
        assert(events@.map_values(|e: XmlEvent| e@) =~= start + group_events(feeds@, members@));
    }
}

/// The events of an OPML export of `feeds` titled `title`.
pub fn opml_document_events(feeds: &[Feed], title: &str) -> (r: Vec<XmlEvent>)
    ensures
        is_opml_export(feeds@, title@, r@.map_values(|e: XmlEvent| e@)),
{
    proof {
        reveal_strlit("body");
        reveal_strlit("opml");
    }
    let mut events = opml_head_events(title);
    let groups = group_by_folder(feeds);
    let mut g: usize = 0;
    while g < groups.len()
        invariant
            g <= groups@.len(),
            groups_by_folder(feeds@, groups@),
            events@.map_values(|e: XmlEvent| e@) == opml_head(title@) + groups_events(feeds@, groups@.take(g as int)),
        decreases groups@.len() - g,
    {
        assert(groups@[g as int].members@.len() > 0);
        assert forall|j: int| 0 <= j < groups@[g as int].members@.len() implies (#[trigger] groups@[g as int].members@[j]
            as int) < feeds.len() by {}
        push_group_events(&mut events, feeds, &groups[g].members);
        proof {
            assert(groups@.take(g as int + 1).drop_last() =~= groups@.take(g as int));
            assert(groups@.take(g as int + 1).last() == groups@[g as int]);
            assert(opml_head(title@) + groups_events(feeds@, groups@.take(g as int + 1)) =~= opml_head(title@)
                + groups_events(feeds@, groups@.take(g as int)) + group_events(feeds@, groups@[g as int].members@));
        }
        g = g + 1;
    }
    assert(groups@.take(groups@.len() as int) =~= groups@);
    push_event(&mut events, end_event("body"));
    push_event(&mut events, end_event("opml"));
    assert(events@.map_values(|e: XmlEvent| e@) =~= opml_head(title@) + groups_events(feeds@, groups@) + opml_tail());
    events
}

/// Writes an OPML 2.0 document listing `feeds` under `title`: the feeds in
/// no folder first, then each folder (by name) as an outline around its
/// feeds. The text is what the XML writer makes of the export's events.
pub fn export_opml(feeds: &[Feed], title: &str) -> (r: Result<String, String>)
    ensures
        r is Ok,
        r matches Ok(s) ==> exists|events: Seq<XmlView>| #[trigger] is_opml_export(feeds@, title@, events)
            && s@ == events_text(events),
{
    let events = opml_document_events(feeds, title);
    let ghost evs = events@.map_values(|e: XmlEvent| e@);
    let mut w = xml_writer();
    let mut i: usize = 0;
    assert(evs.take(0) =~= Seq::<XmlView>::empty());
    while i < events.len()
        invariant
            i <= events.len(),
            evs == events@.map_values(|e: XmlEvent| e@),
            writer_bytes(w) == encode_utf8(events_text(evs.take(i as int))),
        decreases events.len() - i,
    {
        if let Err(e) = write_xml_event(&mut w, &events[i]) {
            return Err(e);
        }
        proof {
            assert(evs.take(i + 1).drop_last() =~= evs.take(i as int));
            assert(evs.take(i + 1).last() == evs[i as int]);
            lemma_encode_append(events_text(evs.take(i as int)), event_chars(evs[i as int]));
        }
        i = i + 1;
    }
    assert(evs.take(events.len() as int) =~= evs);
    proof {
        broadcast use vstd::utf8::encode_utf8_valid_utf8, vstd::utf8::encode_utf8_decode_utf8;
        assert(valid_utf8(encode_utf8(events_text(evs))));
    }
    let r = match xml_written_text(w) {
        Some(text) => Ok(text),
        None => Err("the export is not valid UTF-8".to_string()),
    };
    assert(is_opml_export(feeds@, title@, evs));
    r
}

/// The feed an export lists for `f`: its title, addresses and folder.
pub open spec fn outline_of(f: Feed) -> OutlineFeed {
    (f.title@, f.url@, opt_view(f.site_url), opt_view(f.folder))
}

/// The feeds of the folder groups in turn, as an export lists them.
pub open spec fn exported_outlines(feeds: Seq<Feed>, groups: Seq<FolderGroup>) -> Seq<OutlineFeed>
    decreases groups.len(),
{
    if groups.len() == 0 {
        Seq::empty()
    } else {
        exported_outlines(feeds, groups.drop_last()) + groups.last().members@.map_values(
            |m: usize| outline_of(feeds[m as int]),
        )
    }
}

/// A feed an export carries whole: its title and addresses, and its folder's
/// name when it has one, are not empty (an empty one reads back as a
/// placeholder title, or as no site, or not at all).
pub open spec fn round_trips(f: Feed) -> bool {
    &&& f.title@.len() > 0
    &&& f.url@.len() > 0
    &&& (f.site_url matches Some(u) ==> u@.len() > 0)
    &&& (f.folder matches Some(n) ==> n@.len() > 0)
}

/// The feeds listed and folders open after reading `events` from `st`.
pub open spec fn opml_read_from(st: (Seq<OutlineFeed>, Seq<Option<Seq<char>>>), events: Seq<XmlView>) -> (Seq<OutlineFeed>, Seq<Option<Seq<char>>>)
    decreases events.len(),
{
    if events.len() == 0 {
        st
    } else {
        opml_step(opml_read_from(st, events.drop_last()), events.last())
    }
}

proof fn lemma_read_from_concat(st: (Seq<OutlineFeed>, Seq<Option<Seq<char>>>), a: Seq<XmlView>, b: Seq<XmlView>)
    ensures
        opml_read_from(st, a + b) == opml_read_from(opml_read_from(st, a), b),
    decreases b.len(),
{
    if b.len() == 0 {
        assert(a + b =~= a);
    } else {
        lemma_read_from_concat(st, a, b.drop_last());
        assert((a + b).drop_last() =~= a + b.drop_last());
        assert((a + b).last() == b.last());
    }
}

proof fn lemma_read_is_read_from(events: Seq<XmlView>)
    ensures
        opml_read(events) == opml_read_from((Seq::empty(), Seq::empty()), events),
    decreases events.len(),
{
    if events.len() > 0 {
        lemma_read_is_read_from(events.drop_last());
    }
}

proof fn lemma_lowercase_word(s: Seq<char>, t: Seq<char>)
    requires
        all_ascii(s),
        s.map_values(|c: char| ascii_lower(c)) == t,
    ensures
        lowercase_str(s) == t,
{
    reveal(lowercase_str);
}

/// The keys an export writes are ASCII, so the reader lowers them one for
/// one.
proof fn lemma_export_keys()
    ensures
        lowercase_str("type"@) == "type"@,
        lowercase_str("text"@) == "text"@,
        lowercase_str("title"@) == "title"@,
        lowercase_str("xmlUrl"@) == "xmlurl"@,
        lowercase_str("htmlUrl"@) == "htmlurl"@,
{
    reveal_strlit("type");
    reveal_strlit("text");
    reveal_strlit("title");
    reveal_strlit("xmlUrl");
    reveal_strlit("xmlurl");
    reveal_strlit("htmlUrl");
    reveal_strlit("htmlurl");
    assert("type"@.map_values(|c: char| ascii_lower(c)) =~= "type"@);
    lemma_lowercase_word("type"@, "type"@);
    assert("text"@.map_values(|c: char| ascii_lower(c)) =~= "text"@);
    lemma_lowercase_word("text"@, "text"@);
    assert("title"@.map_values(|c: char| ascii_lower(c)) =~= "title"@);
    lemma_lowercase_word("title"@, "title"@);
    assert("xmlUrl"@.map_values(|c: char| ascii_lower(c)) =~= "xmlurl"@);
    lemma_lowercase_word("xmlUrl"@, "xmlurl"@);
    assert("htmlUrl"@.map_values(|c: char| ascii_lower(c)) =~= "htmlurl"@);
    lemma_lowercase_word("htmlUrl"@, "htmlurl"@);
}

/// The names an export and its reader use tell apart by their lengths (and
/// the two of seven letters by their first).
proof fn lemma_name_lengths()
    ensures
        "type"@.len() == 4,
        "text"@.len() == 4,
        "title"@.len() == 5,
        "xmlurl"@.len() == 6,
        "xml_url"@.len() == 7,
        "htmlurl"@.len() == 7,
        "html_url"@.len() == 8,
        "outline"@.len() == 7,
        "opml"@.len() == 4,
        "head"@.len() == 4,
        "body"@.len() == 4,
        "htmlurl"@[0] == 'h',
        "xml_url"@[0] == 'x',
{
    reveal_strlit("type");
    reveal_strlit("text");
    reveal_strlit("title");
    reveal_strlit("xmlurl");
    reveal_strlit("xml_url");
    reveal_strlit("htmlurl");
    reveal_strlit("html_url");
    reveal_strlit("outline");
    reveal_strlit("opml");
    reveal_strlit("head");
    reveal_strlit("body");
}

proof fn lemma_attr_push(a: Seq<(Seq<char>, Seq<char>)>, p: (Seq<char>, Seq<char>), k1: Seq<char>, k2: Seq<char>)
    ensures
        attr_value(a.push(p), k1, k2) == if lowercase_str(p.0) == k1 || lowercase_str(p.0) == k2 {
            p.1
        } else {
            attr_value(a, k1, k2)
        },
{
    assert(a.push(p).drop_last() =~= a);
}

/// A feed's outline reads back as the feed.
proof fn lemma_feed_outline_reads(f: Feed, stack: Seq<Option<Seq<char>>>)
    requires
        round_trips(f),
        innermost(stack) == opt_view(f.folder),
    ensures
        outline_xml_url(feed_outline_attrs(f)).len() > 0,
        outline_feed(feed_outline_attrs(f), stack) == outline_of(f),
{
    lemma_export_keys();
    reveal_strlit("type");
    reveal_strlit("text");
    reveal_strlit("title");
    reveal_strlit("xmlurl");
    reveal_strlit("xml_url");
    reveal_strlit("htmlurl");
    reveal_strlit("html_url");
    reveal_strlit("rss");
    let t = f.title@;
    let b0 = Seq::<(Seq<char>, Seq<char>)>::empty();
    let b1 = b0.push(("type"@, "rss"@));
    let b2 = b1.push(("text"@, t));
    let b3 = b2.push(("title"@, t));
    let base = b3.push(("xmlUrl"@, f.url@));
    assert(base =~= seq![("type"@, "rss"@), ("text"@, t), ("title"@, t), ("xmlUrl"@, f.url@)]);
    let a = feed_outline_attrs(f);
    lemma_attr_push(b3, ("xmlUrl"@, f.url@), "xmlurl"@, "xml_url"@);
    lemma_attr_push(b3, ("xmlUrl"@, f.url@), "title"@, "title"@);
    lemma_attr_push(b2, ("title"@, t), "title"@, "title"@);
    lemma_name_lengths();
    assert(attr_value(base, "title"@, "title"@) == attr_value(b3, "title"@, "title"@));
    assert(attr_value(b3, "title"@, "title"@) == t);
    assert(attr_value(base, "title"@, "title"@) == t);
    assert(attr_value(base, "xmlurl"@, "xml_url"@) == f.url@);
    lemma_attr_push(b3, ("xmlUrl"@, f.url@), "htmlurl"@, "html_url"@);
    lemma_attr_push(b2, ("title"@, t), "htmlurl"@, "html_url"@);
    lemma_attr_push(b1, ("text"@, t), "htmlurl"@, "html_url"@);
    lemma_attr_push(b0, ("type"@, "rss"@), "htmlurl"@, "html_url"@);
    assert(attr_value(base, "htmlurl"@, "html_url"@) == Seq::<char>::empty());
    match f.site_url {
        Some(u) => {
            lemma_attr_push(base, ("htmlUrl"@, u@), "htmlurl"@, "html_url"@);
            lemma_attr_push(base, ("htmlUrl"@, u@), "xmlurl"@, "xml_url"@);
            lemma_attr_push(base, ("htmlUrl"@, u@), "title"@, "title"@);
            assert(outline_html_url(a) == u@);
            assert(outline_xml_url(a) == f.url@);
            assert(outline_title(a) == f.title@);
        },
        None => {
            assert(outline_html_url(a) == Seq::<char>::empty());
            assert(outline_xml_url(a) == f.url@);
            assert(outline_title(a) == f.title@);
        },
    }
}

/// The outlines of a folder group's feeds, read inside the folders `stack`.
proof fn lemma_rows_read(feeds: Seq<Feed>, members: Seq<usize>, fs: Seq<OutlineFeed>, stack: Seq<Option<Seq<char>>>)
    requires
        forall|j: int| 0 <= j < members.len() ==> (#[trigger] members[j] as int) < feeds.len(),
        forall|j: int| 0 <= j < members.len() ==> round_trips(#[trigger] feeds[members[j] as int]),
        forall|j: int| 0 <= j < members.len() ==> opt_view(#[trigger] feeds[members[j] as int].folder) == innermost(stack),
    ensures
        opml_read_from(
            (fs, stack),
            members.map_values(|m: usize| XmlView::Empty("outline"@, feed_outline_attrs(feeds[m as int]))),
        ) == (fs + members.map_values(|m: usize| outline_of(feeds[m as int])), stack),
    decreases members.len(),
{
    let rows = members.map_values(|m: usize| XmlView::Empty("outline"@, feed_outline_attrs(feeds[m as int])));
    if members.len() == 0 {
        assert(fs + members.map_values(|m: usize| outline_of(feeds[m as int])) =~= fs);
    } else {
        let init = members.drop_last();
        lemma_rows_read(feeds, init, fs, stack);
        assert(rows.drop_last() =~= init.map_values(|m: usize| XmlView::Empty("outline"@, feed_outline_attrs(feeds[m as int]))));
        let f = feeds[members.last() as int];
        assert(round_trips(feeds[members[members.len() - 1] as int]));
        lemma_feed_outline_reads(f, stack);
        assert(fs + members.map_values(|m: usize| outline_of(feeds[m as int])) =~= (fs + init.map_values(
            |m: usize| outline_of(feeds[m as int]),
        )).push(outline_of(f)));
    }
}

/// A folder group of an export reads back as its feeds, the folders closed
/// again after it.
proof fn lemma_group_read(feeds: Seq<Feed>, members: Seq<usize>, fs: Seq<OutlineFeed>)
    requires
        members.len() > 0,
        forall|j: int| 0 <= j < members.len() ==> (#[trigger] members[j] as int) < feeds.len(),
        forall|j: int| 0 <= j < members.len() ==> round_trips(#[trigger] feeds[members[j] as int]),
        forall|j: int| 0 <= j < members.len() ==> opt_view(#[trigger] feeds[members[j] as int].folder) == opt_view(
            feeds[members[0] as int].folder,
        ),
    ensures
        opml_read_from((fs, Seq::empty()), group_events(feeds, members)) == (
            fs + members.map_values(|m: usize| outline_of(feeds[m as int])),
            Seq::<Option<Seq<char>>>::empty(),
        ),
{
    let rows = members.map_values(|m: usize| XmlView::Empty("outline"@, feed_outline_attrs(feeds[m as int])));
    assert(round_trips(feeds[members[0] as int]));
    match feeds[members[0] as int].folder {
        Some(name) => {
            lemma_export_keys();
            lemma_name_lengths();
            reveal_with_fuel(opml_read_from, 2);
            let start = seq![XmlView::Start("outline"@, seq![("text"@, name@), ("title"@, name@)])];
            let end = seq![XmlView::End("outline"@)];
            let attrs = seq![("text"@, name@), ("title"@, name@)];
            let c0 = Seq::<(Seq<char>, Seq<char>)>::empty();
            let c1 = c0.push(("text"@, name@));
            assert(attrs =~= c1.push(("title"@, name@)));
            lemma_attr_push(c1, ("title"@, name@), "xmlurl"@, "xml_url"@);
            lemma_attr_push(c0, ("text"@, name@), "xmlurl"@, "xml_url"@);
            lemma_attr_push(c1, ("title"@, name@), "title"@, "title"@);
            assert(outline_xml_url(attrs).len() == 0);
            assert(outline_title(attrs) == name@);
            assert(start.drop_last() =~= Seq::<XmlView>::empty());
            assert(name@.len() > 0);
            let st1 = opml_read_from((fs, Seq::empty()), start);
            assert(st1 == (fs, seq![Some(name@)]));
            lemma_rows_read(feeds, members, fs, seq![Some(name@)]);
            lemma_read_from_concat((fs, Seq::empty()), start, rows);
            lemma_read_from_concat((fs, Seq::empty()), start + rows, end);
            assert(end.drop_last() =~= Seq::<XmlView>::empty());
            assert(seq![Some(name@)].drop_last() =~= Seq::<Option<Seq<char>>>::empty());
        },
        None => {
            lemma_rows_read(feeds, members, fs, Seq::empty());
        },
    }
}

/// Exported folder groups read back as their feeds, group after group.
proof fn lemma_groups_read(feeds: Seq<Feed>, groups: Seq<FolderGroup>, fs: Seq<OutlineFeed>)
    requires
        forall|g: int| 0 <= g < groups.len() ==> #[trigger] groups[g].members@.len() > 0,
        forall|g: int, j: int|
            0 <= g < groups.len() && 0 <= j < groups[g].members@.len() ==> (#[trigger] groups[g].members@[j]
                as int) < feeds.len() && opt_view(feeds[groups[g].members@[j] as int].folder) == opt_view(
                groups[g].folder,
            ),
        forall|i: int| 0 <= i < feeds.len() ==> round_trips(#[trigger] feeds[i]),
    ensures
        opml_read_from((fs, Seq::empty()), groups_events(feeds, groups)) == (
            fs + exported_outlines(feeds, groups),
            Seq::<Option<Seq<char>>>::empty(),
        ),
    decreases groups.len(),
{
    if groups.len() == 0 {
        assert(fs + exported_outlines(feeds, groups) =~= fs);
    } else {
        let init = groups.drop_last();
        assert forall|g: int, j: int|
            0 <= g < init.len() && 0 <= j < init[g].members@.len() implies (#[trigger] init[g].members@[j]
                as int) < feeds.len() && opt_view(feeds[init[g].members@[j] as int].folder) == opt_view(
                init[g].folder,
            ) by {
            assert(init[g] == groups[g]);
            assert(groups[g].members@[j] == init[g].members@[j]);
        }
        assert forall|g: int| 0 <= g < init.len() implies #[trigger] init[g].members@.len() > 0 by {
            assert(init[g] == groups[g]);
        }
        lemma_groups_read(feeds, init, fs);
        let g = groups.last();
        let members = g.members@;
        assert(groups[groups.len() - 1] == g);
        assert(members.len() > 0);
        assert forall|j: int| 0 <= j < members.len() implies (#[trigger] members[j] as int) < feeds.len()
            && round_trips(feeds[members[j] as int])
            && opt_view(feeds[members[j] as int].folder) == opt_view(feeds[members[0] as int].folder) by {
            assert((groups[groups.len() - 1].members@[j] as int) < feeds.len());
            assert((groups[groups.len() - 1].members@[0] as int) < feeds.len());
            assert(round_trips(feeds[members[j] as int]));
        }
        let mid = fs + exported_outlines(feeds, init);
        lemma_group_read(feeds, members, mid);
        lemma_read_from_concat((fs, Seq::empty()), groups_events(feeds, init), group_events(feeds, members));
        assert(mid + members.map_values(|m: usize| outline_of(feeds[m as int])) =~= fs + exported_outlines(feeds, groups));
    }
}


/// An event the OPML reader passes over whatever it has read.
pub open spec fn inert(e: XmlView) -> bool {
    match e {
        XmlView::Start(n, _) => n != "outline"@,
        XmlView::Empty(n, _) => n != "outline"@,
        XmlView::End(n) => n != "outline"@,
        _ => true,
    }
}

proof fn lemma_inert_read(st: (Seq<OutlineFeed>, Seq<Option<Seq<char>>>), events: Seq<XmlView>)
    requires
        forall|i: int| 0 <= i < events.len() ==> inert(#[trigger] events[i]),
    ensures
        opml_read_from(st, events) == st,
    decreases events.len(),
{
    if events.len() > 0 {
        assert(inert(events[events.len() - 1]));
        lemma_inert_read(st, events.drop_last());
    }
}

proof fn lemma_head_inert(title: Seq<char>, st: (Seq<OutlineFeed>, Seq<Option<Seq<char>>>))
    ensures
        opml_read_from(st, opml_head(title)) == st,
{
    reveal_strlit("opml");
    reveal_strlit("head");
    reveal_strlit("title");
    reveal_strlit("body");
    reveal_strlit("outline");
    lemma_name_lengths();
    let h = opml_head(title);
    assert forall|i: int| 0 <= i < h.len() implies inert(#[trigger] h[i]) by {
        if i == 0 {
        } else if i == 1 {
        } else if i == 2 {
        } else if i == 3 {
        } else if i == 4 {
        } else if i == 5 {
        } else if i == 6 {
        } else {
        }
    }
    lemma_inert_read(st, h);
}

proof fn lemma_tail_inert(st: (Seq<OutlineFeed>, Seq<Option<Seq<char>>>))
    ensures
        opml_read_from(st, opml_tail()) == st,
{
    reveal_strlit("opml");
    reveal_strlit("body");
    reveal_strlit("outline");
    lemma_name_lengths();
    let t = opml_tail();
    assert forall|i: int| 0 <= i < t.len() implies inert(#[trigger] t[i]) by {
        if i == 0 {
        } else {
        }
    }
    lemma_inert_read(st, t);
}

/// Reading an export back gives the feeds it was made from, folder group by
/// folder group (the loose feeds first, then each folder by name, each
/// group in list order), each with its title, feed address, site address and
/// folder; nothing is left open. This holds for feeds whose titles,
/// addresses and folder names are not empty.
pub proof fn lemma_export_reads_back(feeds: Seq<Feed>, title: Seq<char>, events: Seq<XmlView>)
    requires
        is_opml_export(feeds, title, events),
        forall|i: int| 0 <= i < feeds.len() ==> round_trips(#[trigger] feeds[i]),
    ensures
        exists|groups: Seq<FolderGroup>|
            #[trigger] groups_by_folder(feeds, groups) && opml_read(events) == (
                exported_outlines(feeds, groups),
                Seq::<Option<Seq<char>>>::empty(),
            ),
{
    let groups = choose|groups: Seq<FolderGroup>|
        #[trigger] groups_by_folder(feeds, groups) && events == opml_head(title) + groups_events(feeds, groups)
            + opml_tail();
    let empty: (Seq<OutlineFeed>, Seq<Option<Seq<char>>>) = (Seq::empty(), Seq::empty());
    let done: (Seq<OutlineFeed>, Seq<Option<Seq<char>>>) = (exported_outlines(feeds, groups), Seq::empty());
    lemma_head_inert(title, empty);
    lemma_tail_inert(done);
    lemma_groups_read(feeds, groups, Seq::empty());
    assert(Seq::<OutlineFeed>::empty() + exported_outlines(feeds, groups) =~= exported_outlines(feeds, groups));
    lemma_read_is_read_from(events);
    lemma_read_from_concat(empty, opml_head(title), groups_events(feeds, groups));
    lemma_read_from_concat(empty, opml_head(title) + groups_events(feeds, groups), opml_tail());
}

} // verus!
