//! How article bodies are stored: Zstandard-compressed blobs tagged with a
//! `ZSTD` prefix, or plain UTF-8 text written before compression existed.
use vstd::prelude::*;
use vstd::utf8::{decode_utf8, encode_utf8, valid_utf8};
use crate::text::str_eq;

verus! {

broadcast use {vstd::utf8::encode_utf8_decode_utf8, vstd::utf8::encode_utf8_valid_utf8};

/// The compression level bodies are written with.
pub const ZSTD_LEVEL: i32 = 3;

/// The four bytes `ZSTD` that mark a compressed body.
pub open spec fn zstd_magic() -> Seq<u8> {
    seq![0x5Au8, 0x53u8, 0x54u8, 0x44u8]
}

/// The frame `zstd::encode_all` writes for `data` at `level`.
pub uninterp spec fn zstd_frame(data: Seq<u8>, level: int) -> Seq<u8>;

/// What `zstd::decode_all` makes of `data`: the decoded bytes, or `None`
/// when `data` is not a sequence of valid frames.
pub uninterp spec fn zstd_decoded(data: Seq<u8>) -> Option<Seq<u8>>;

/// Calls `zstd::encode_all` on `data`, read from a slice into a `Vec`, at
/// one of zstd's standard levels: it succeeds (reading a slice and writing
/// a `Vec` raise no I/O error), and the frame is named `zstd_frame`.
#[verifier::external_body]
fn zstd_encode(data: &[u8], level: i32) -> (r: Option<Vec<u8>>)
    requires
        1 <= level <= 19,
    ensures
        r is Some,
        r matches Some(v) ==> v@ == zstd_frame(data@, level as int),
{
    zstd::encode_all(data, level).ok()
}

/// Calls `zstd::decode_all` on `data`; the outcome is named `zstd_decoded`.
/// Decoding a frame that `zstd::encode_all` wrote at the library's level
/// gives back the bytes it was written from.
#[verifier::external_body]
fn zstd_decode(data: &[u8]) -> (r: Option<Vec<u8>>)
    ensures
        r is Some <==> zstd_decoded(data@) is Some,
        r matches Some(v) ==> zstd_decoded(data@) == Some(v@),
        forall|d: Seq<u8>| #[trigger] zstd_frame(d, ZSTD_LEVEL as int) == data@ ==> r is Some && r->0@ == d,
{
    zstd::decode_all(data).ok()
}

/// Calls `String::from_utf8`: the text the bytes encode, when they are valid
/// UTF-8.
#[verifier::external_body]
pub(crate) fn utf8_string(bytes: Vec<u8>) -> (r: Option<String>)
    ensures
        r is Some <==> valid_utf8(bytes@),
        r matches Some(s) ==> s@ == decode_utf8(bytes@),
{
    String::from_utf8(bytes).ok()
}

fn bytes_to_vec(b: &[u8]) -> (r: Vec<u8>)
    ensures
        r@ == b@,
{
    let mut v: Vec<u8> = Vec::new();
    let mut i: usize = 0;
    while i < b.len()
        invariant
            i <= b.len(),
            v@ == b@.take(i as int),
        decreases b.len() - i,
    {
        v.push(b[i]);
        assert(b@.take(i as int).push(b@[i as int]) =~= b@.take(i + 1));
        i = i + 1;
    }
    assert(b@.take(b.len() as int) =~= b@);
    v
}

/// What is stored for `text`: nothing for the empty text, else the `ZSTD`
/// tag followed by the Zstandard frame of its UTF-8 bytes.
pub open spec fn stored_form(text: Seq<char>) -> Seq<u8> {
    if text.len() == 0 {
        Seq::empty()
    } else {
        zstd_magic() + zstd_frame(encode_utf8(text), ZSTD_LEVEL as int)
    }
}

/// Compresses `text` with Zstandard and tags it with the `ZSTD` prefix.
pub fn compress_text(text: &str) -> (r: Vec<u8>)
    ensures
        r@ == stored_form(text@),
{
    if text.is_empty() {
        return Vec::new();
    }
    let bytes = text.as_bytes();
    match zstd_encode(bytes, ZSTD_LEVEL) {
        Some(compressed) => {
            let mut result: Vec<u8> = Vec::new();
            result.push(0x5A);
            result.push(0x53);
            result.push(0x54);
            result.push(0x44);
            let mut i: usize = 0;
            while i < compressed.len()
                invariant
                    i <= compressed.len(),
                    result@ == zstd_magic() + compressed@.take(i as int),
                decreases compressed.len() - i,
            {
                result.push(compressed[i]);
                assert(compressed@.take(i as int).push(compressed@[i as int]) =~= compressed@.take(i + 1));
                assert((zstd_magic() + compressed@.take(i as int)).push(compressed@[i as int]) =~= zstd_magic()
                    + compressed@.take(i + 1));
                i = i + 1;
            }
            assert(compressed@.take(compressed.len() as int) =~= compressed@);
            result
        },
        None => bytes_to_vec(bytes),
    }
}

/// Does `bytes` start with the `ZSTD` tag?
pub open spec fn has_magic(bytes: Seq<u8>) -> bool {
    bytes.len() >= 4 && bytes.take(4) == zstd_magic()
}

/// Decoded bytes as text, when they are valid UTF-8.
pub open spec fn as_text(bytes: Seq<u8>) -> Option<Seq<char>> {
    if valid_utf8(bytes) {
        Some(decode_utf8(bytes))
    } else {
        None
    }
}

/// The text a stored body holds: the payload after the tag (or, untagged,
/// the whole value) is decoded as Zstandard when it can be, and read as
/// UTF-8 as it is when it cannot.
pub open spec fn stored_text(bytes: Seq<u8>) -> Option<Seq<char>> {
    if bytes.len() == 0 {
        None
    } else {
        let payload = if has_magic(bytes) {
            bytes.skip(4)
        } else {
            bytes
        };
        match zstd_decoded(payload) {
            Some(d) => as_text(d),
            None => as_text(bytes),
        }
    }
}

/// Recovers the text of a stored body, compressed or legacy. What
/// `compress_text` stored for a non-empty text gives that text back.
pub fn decompress_text(bytes: &[u8]) -> (r: Option<String>)
    ensures
        match r {
            Some(s) => stored_text(bytes@) == Some(s@),
            None => stored_text(bytes@) is None,
        },
        forall|t: Seq<char>| t.len() > 0 && bytes@ == #[trigger] stored_form(t) ==> (r matches Some(s) && s@ == t),
{
    if bytes.len() == 0 {
        return None;
    }
    let magic = bytes.len() >= 4 && bytes[0] == 0x5A && bytes[1] == 0x53 && bytes[2] == 0x54
        && bytes[3] == 0x44;
    proof {
        if bytes@.len() >= 4 {
            assert(magic == (bytes@.take(4) =~= zstd_magic()));
        }
    }
    let payload: Vec<u8> = if magic {
        let mut p: Vec<u8> = Vec::new();
        let mut i: usize = 4;
        while i < bytes.len()
            invariant
                4 <= i <= bytes.len(),
                p@ == bytes@.subrange(4, i as int),
            decreases bytes.len() - i,
        {
            p.push(bytes[i]);
            assert(bytes@.subrange(4, i as int).push(bytes@[i as int]) =~= bytes@.subrange(4, i + 1));
            i = i + 1;
        }
        assert(p@ =~= bytes@.skip(4));
        p
    } else {
        bytes_to_vec(bytes)
    };
    proof {
        assert forall|t: Seq<char>| t.len() > 0 && bytes@ == #[trigger] stored_form(t)
            implies payload@ == zstd_frame(encode_utf8(t), ZSTD_LEVEL as int) by {
            assert(bytes@.take(4) =~= zstd_magic());
            assert(bytes@.skip(4) =~= zstd_frame(encode_utf8(t), ZSTD_LEVEL as int));
        }
    }
    match zstd_decode(payload.as_slice()) {
        Some(d) => utf8_string(d),
        None => utf8_string(bytes_to_vec(bytes)),
    }
}

/// The text the bytes encode, when they are valid UTF-8.
pub fn utf8_bytes_text(b: &[u8]) -> (r: Option<String>)
    ensures
        crate::model::opt_view(r) == as_text(b@),
{
    utf8_string(bytes_to_vec(b))
}

/// A `summary` or `content` column as SQLite stored it.
#[derive(Debug, Clone, PartialEq, Eq)]
pub enum ColumnValue {
    Null,
    Blob(Vec<u8>),
    Text(Vec<u8>),
    /// An integer or a real: something else wrote the column.
    Other,
}

/// The body text a column yields: blobs are decompressed, legacy text is read
/// as UTF-8, and anything else yields no body rather than losing the row.
pub open spec fn column_text(v: ColumnValue) -> Option<Seq<char>> {
    match v {
        ColumnValue::Null => None,
        ColumnValue::Blob(b) => stored_text(b@),
        ColumnValue::Text(b) => as_text(b@),
        ColumnValue::Other => None,
    }
}

/// Reads a body column whatever form it was stored in.
pub fn read_body_column(v: ColumnValue) -> (r: Option<String>)
    ensures
        match r {
            Some(s) => column_text(v) == Some(s@),
            None => column_text(v) is None,
        },
{
    match v {
        ColumnValue::Null => None,
        ColumnValue::Blob(b) => decompress_text(b.as_slice()),
        ColumnValue::Text(b) => utf8_string(b),
        ColumnValue::Other => None,
    }
}

/// The unread and total counts of one feed or folder, by its id or name.
pub type CountEntry = (String, usize, usize);

/// The counts the sidebar shows.
#[derive(Debug, Clone)]
pub struct UnreadCounts {
    /// Unread articles published today.
    pub today: usize,
    pub all_unread: usize,
    pub starred: usize,
    pub all_articles: usize,
    /// Per feed id: (unread, total).
    pub feed_counts: Vec<CountEntry>,
    /// Per folder name: (unread, total).
    pub folder_counts: Vec<CountEntry>,
}

impl UnreadCounts {
    /// Each feed id and each folder name has one entry at most.
    pub open spec fn well_formed(&self) -> bool {
        counts_unique(self.feed_counts@) && counts_unique(self.folder_counts@)
    }
}

impl Default for UnreadCounts {
    fn default() -> (r: Self)
        ensures
            r.today == 0 && r.all_unread == 0 && r.starred == 0 && r.all_articles == 0,
            r.feed_counts@.len() == 0 && r.folder_counts@.len() == 0,
            r.well_formed(),
    {
        UnreadCounts {
            today: 0,
            all_unread: 0,
            starred: 0,
            all_articles: 0,
            feed_counts: Vec::new(),
            folder_counts: Vec::new(),
        }
    }
}

/// The counts recorded for `key`: those of its first entry, or none at all.
pub open spec fn count_entry(entries: Seq<CountEntry>, key: Seq<char>) -> (usize, usize)
    decreases entries.len(),
{
    if entries.len() == 0 {
        (0, 0)
    } else if entries[0].0@ == key {
        (entries[0].1, entries[0].2)
    } else {
        count_entry(entries.drop_first(), key)
    }
}

/// Looks up the (unread, total) counts recorded for `key`, (0, 0) when there
/// are none.
pub fn lookup_counts(entries: &Vec<CountEntry>, key: &str) -> (r: (usize, usize))
    ensures
        r == count_entry(entries@, key@),
{
    let mut i: usize = 0;
    assert(entries@.skip(0) =~= entries@);
    while i < entries.len()
        invariant
            i <= entries.len(),
            count_entry(entries@, key@) == count_entry(entries@.skip(i as int), key@),
        decreases entries.len() - i,
    {
        let e = &entries[i];
        proof {
            assert(entries@.skip(i as int)[0] == entries@[i as int]);
            assert(entries@.skip(i as int).drop_first() =~= entries@.skip(i as int + 1));
        }
        if str_eq(e.0.as_str(), key) {
            return (e.1, e.2);
        }
        i = i + 1;
    }
    (0, 0)
}

/// No two entries share a key, as in the map the counts are read into.
pub open spec fn counts_unique(entries: Seq<CountEntry>) -> bool {
    forall|i: int, j: int| 0 <= i < j < entries.len() ==> #[trigger] entries[i].0@ != #[trigger] entries[j].0@
}

/// The counts of `key` are those of the first entry that holds it.
pub proof fn lemma_count_entry_first(entries: Seq<CountEntry>, key: Seq<char>, i: int)
    requires
        0 <= i < entries.len(),
        entries[i].0@ == key,
        forall|j: int| 0 <= j < i ==> #[trigger] entries[j].0@ != key,
    ensures
        count_entry(entries, key) == (entries[i].1, entries[i].2),
    decreases i,
{
    if i > 0 {
        assert(entries[0].0@ != key);
        let rest = entries.drop_first();
        assert forall|j: int| 0 <= j < i - 1 implies #[trigger] rest[j].0@ != key by {
            assert(rest[j] == entries[j + 1]);
        }
        lemma_count_entry_first(rest, key, i - 1);
    }
}

/// A key that no entry holds has no counts.
pub proof fn lemma_count_entry_none(entries: Seq<CountEntry>, key: Seq<char>)
    requires
        forall|j: int| 0 <= j < entries.len() ==> #[trigger] entries[j].0@ != key,
    ensures
        count_entry(entries, key) == (0usize, 0usize),
    decreases entries.len(),
{
    if entries.len() > 0 {
        assert(entries[0].0@ != key);
        let rest = entries.drop_first();
        assert forall|j: int| 0 <= j < rest.len() implies #[trigger] rest[j].0@ != key by {
            assert(rest[j] == entries[j + 1]);
        }
        lemma_count_entry_none(rest, key);
    }
}

/// With keys unique, the counts of `key` are those of the one entry that holds
/// it, and (0, 0) when none does.
proof fn lemma_count_entry_unique(entries: Seq<CountEntry>, key: Seq<char>)
    requires
        counts_unique(entries),
    ensures
        forall|i: int| 0 <= i < entries.len() && #[trigger] entries[i].0@ == key
            ==> count_entry(entries, key) == (entries[i].1, entries[i].2),
        (forall|j: int| 0 <= j < entries.len() ==> #[trigger] entries[j].0@ != key)
            ==> count_entry(entries, key) == (0usize, 0usize),
{
    assert forall|i: int| 0 <= i < entries.len() && #[trigger] entries[i].0@ == key
        implies count_entry(entries, key) == (entries[i].1, entries[i].2) by {
        assert forall|j: int| 0 <= j < i implies #[trigger] entries[j].0@ != key by {
            assert(entries[j].0@ != entries[i].0@);
        }
        lemma_count_entry_first(entries, key, i);
    }
    if forall|j: int| 0 <= j < entries.len() ==> #[trigger] entries[j].0@ != key {
        lemma_count_entry_none(entries, key);
    }
}

/// Records the counts of `key`, replacing those it had: afterwards `key` reads
/// back as `(unread, total)`, every other key reads as before, and no key
/// occurs twice.
pub fn record_count(entries: &mut Vec<CountEntry>, key: String, unread: usize, total: usize)
    requires
        counts_unique(old(entries)@),
    ensures
        counts_unique(final(entries)@),
        count_entry(final(entries)@, key@) == (unread, total),
        forall|k: Seq<char>| k != key@ ==> #[trigger] count_entry(final(entries)@, k) == count_entry(old(entries)@, k),
{
    let ghost before = entries@;
    let mut i: usize = 0;
    while i < entries.len()
        invariant
            i <= entries.len(),
            entries@ == before,
            before == old(entries)@,
            counts_unique(before),
            forall|j: int| 0 <= j < i ==> #[trigger] entries@[j].0@ != key@,
        decreases entries.len() - i,
    {
        if str_eq(entries[i].0.as_str(), key.as_str()) {
            entries.set(i, (key, unread, total));
            proof {
                let after = entries@;
                assert forall|a: int, b: int| 0 <= a < b < after.len() implies #[trigger] after[a].0@
                    != #[trigger] after[b].0@ by {
                    assert(before[a].0@ != before[b].0@);
                }
                lemma_count_entry_unique(after, key@);
                assert(after[i as int].0@ == key@);
                assert forall|k: Seq<char>| k != key@ implies #[trigger] count_entry(after, k) == count_entry(
                    before,
                    k,
                ) by {
                    lemma_count_entry_unique(after, k);
                    lemma_count_entry_unique(before, k);
                    if exists|j: int| 0 <= j < before.len() && #[trigger] before[j].0@ == k {
                        let j = choose|j: int| 0 <= j < before.len() && #[trigger] before[j].0@ == k;
                        assert(j != i);
                        assert(after[j] == before[j]);
                    } else {
                        assert forall|j: int| 0 <= j < after.len() implies #[trigger] after[j].0@ != k by {
                            if j != i {
                                assert(after[j] == before[j]);
                            }
                        }
                    }
                }
            }
            return;
        }
        i = i + 1;
    }
    entries.push((key, unread, total));
    proof {
        let after = entries@;
        let n = before.len() as int;
        assert forall|a: int, b: int| 0 <= a < b < after.len() implies #[trigger] after[a].0@
            != #[trigger] after[b].0@ by {
            if b < n {
                assert(before[a].0@ != before[b].0@);
            } else {
                assert(after[a] == before[a]);
            }
        }
        lemma_count_entry_unique(after, key@);
        assert(after[n].0@ == key@);
        assert forall|k: Seq<char>| k != key@ implies #[trigger] count_entry(after, k) == count_entry(before, k) by {
            lemma_count_entry_unique(after, k);
            lemma_count_entry_unique(before, k);
            if exists|j: int| 0 <= j < before.len() && #[trigger] before[j].0@ == k {
                let j = choose|j: int| 0 <= j < before.len() && #[trigger] before[j].0@ == k;
                assert(after[j] == before[j]);
            } else {
                assert forall|j: int| 0 <= j < after.len() implies #[trigger] after[j].0@ != k by {
                    if j < n {
                        assert(after[j] == before[j]);
                    }
                }
            }
        }
    }
}

/// Facts about the database file shown in the configuration menu.
#[derive(Debug, Clone)]
pub struct DatabaseStats {
    pub db_path: String,
    pub file_size_bytes: u64,
    pub total_articles: usize,
    pub total_feeds: usize,
    /// How bodies are stored, for display.
    pub compression: String,
    pub wal_mode: bool,
}

/// Where the article database lives.
#[derive(Debug, Clone)]
pub struct Database {
    db_path: String,
}

impl Database {
    pub closed spec fn path_spec(&self) -> Seq<char> {
        self.db_path@
    }

    /// The database stored at `path`.
    pub fn at_path(path: String) -> (r: Self)
        ensures
            r.path_spec() == path@,
    {
        Database { db_path: path }
    }

    /// The path of the database file.
    pub fn get_path(&self) -> (r: &String)
        ensures
            r@ == self.path_spec(),
    {
        &self.db_path
    }
}

} // verus!
