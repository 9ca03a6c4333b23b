//! The reader's data model: feeds, articles, the sidebar's entries, the pane
//! focus and the current article filter.
//!
//! Times are whole seconds since the Unix epoch (UTC).
use vstd::prelude::*;
use crate::text::{lemma_seq_lt_order, seq_lt, str_lt};

verus! {

/// A subscribed feed.
#[derive(Debug, Clone, PartialEq, Eq)]
pub struct Feed {
    pub id: String,
    pub title: String,
    pub url: String,
    pub site_url: Option<String>,
    pub folder: Option<String>,
    pub custom_icon: Option<String>,
    /// When the feed was last fetched successfully.
    pub last_updated: Option<i64>,
    pub error: Option<String>,
    pub unread_count: usize,
    pub total_count: usize,
}

impl Feed {
    /// A feed that has never been fetched: no icon, no update time, no error,
    /// no counts.
    pub fn new(
        id: String,
        title: String,
        url: String,
        site_url: Option<String>,
        folder: Option<String>,
    ) -> (r: Self)
        ensures
            r.id == id,
            r.title == title,
            r.url == url,
            r.site_url == site_url,
            r.folder == folder,
            r.custom_icon is None,
            r.last_updated is None,
            r.error is None,
            r.unread_count == 0,
            r.total_count == 0,
    {
        Feed {
            id,
            title,
            url,
            site_url,
            folder,
            custom_icon: None,
            last_updated: None,
            error: None,
            unread_count: 0,
            total_count: 0,
        }
    }
}

/// A copy of a feed.
pub fn clone_feed(f: &Feed) -> (r: Feed)
    ensures
        r == *f,
{
    Feed {
        id: f.id.clone(),
        title: f.title.clone(),
        url: f.url.clone(),
        site_url: clone_opt_text(&f.site_url),
        folder: clone_opt_text(&f.folder),
        custom_icon: clone_opt_text(&f.custom_icon),
        last_updated: f.last_updated,
        error: clone_opt_text(&f.error),
        unread_count: f.unread_count,
        total_count: f.total_count,
    }
}

/// One article of a feed.
#[derive(Debug, Clone, PartialEq, Eq)]
pub struct Article {
    pub id: String,
    pub feed_id: String,
    pub feed_title: String,
    pub title: String,
    pub author: Option<String>,
    pub summary: Option<String>,
    pub content: Option<String>,
    pub url: String,
    pub published: Option<i64>,
    pub read: bool,
    pub starred: bool,
    pub created_at: i64,
}

/// A copy of an article.
pub fn clone_article(a: &Article) -> (r: Article)
    ensures
        r == *a,
{
    Article {
        id: a.id.clone(),
        feed_id: a.feed_id.clone(),
        feed_title: a.feed_title.clone(),
        title: a.title.clone(),
        author: clone_opt_text(&a.author),
        summary: clone_opt_text(&a.summary),
        content: clone_opt_text(&a.content),
        url: a.url.clone(),
        published: a.published,
        read: a.read,
        starred: a.starred,
        created_at: a.created_at,
    }
}

/// A borrowed view of the article list as it is currently displayed: the full
/// list, plus an optional index of the rows a search matched.
#[derive(Clone, Copy)]
pub struct ArticleSlice<'a> {
    pub all: &'a [Article],
    pub filtered: Option<&'a [u32]>,
}

impl<'a> ArticleSlice<'a> {
    /// The number of rows shown: the matches when searching, else every article.
    pub open spec fn shown_len(&self) -> nat {
        match self.filtered {
            Some(idx) => idx@.len(),
            None => self.all@.len(),
        }
    }

    /// The article shown at row `pos`, if that row exists and points at one.
    pub open spec fn shown_at(&self, pos: int) -> Option<Article> {
        match self.filtered {
            Some(idx) => if 0 <= pos < idx@.len() && (idx@[pos] as int) < self.all@.len() {
                Some(self.all@[idx@[pos] as int])
            } else {
                None
            },
            None => if 0 <= pos < self.all@.len() {
                Some(self.all@[pos])
            } else {
                None
            },
        }
    }

    pub fn len(&self) -> (r: usize)
        ensures
            r == self.shown_len(),
    {
        match self.filtered {
            Some(idx) => idx.len(),
            None => self.all.len(),
        }
    }

    pub fn is_empty(&self) -> (r: bool)
        ensures
            r == (self.shown_len() == 0),
    {
        self.len() == 0
    }

    pub fn get(&self, pos: usize) -> (r: Option<&'a Article>)
        ensures
            match r {
                Some(a) => self.shown_at(pos as int) == Some(*a),
                None => self.shown_at(pos as int) is None,
            },
    {
        match self.filtered {
            Some(idx) => {
                if pos < idx.len() {
                    let i = idx[pos] as usize;
                    if i < self.all.len() {
                        Some(&self.all[i])
                    } else {
                        None
                    }
                } else {
                    None
                }
            },
            None => {
                if pos < self.all.len() {
                    Some(&self.all[pos])
                } else {
                    None
                }
            },
        }
    }
}

/// The built-in views that gather articles across feeds.
#[derive(Debug, Clone, Copy, PartialEq, Eq, Hash, Structural)]
pub enum SmartFeedKind {
    Today,
    AllUnread,
    Starred,
    AllArticles,
}

impl SmartFeedKind {
    pub open spec fn title_spec(self) -> Seq<char> {
        match self {
            SmartFeedKind::Today => "Today"@,
            SmartFeedKind::AllUnread => "All Unread"@,
            SmartFeedKind::Starred => "Starred"@,
            SmartFeedKind::AllArticles => "All Articles"@,
        }
    }

    pub open spec fn icon_spec(self) -> Seq<char> {
        match self {
            SmartFeedKind::Today => "☀️"@,
            SmartFeedKind::AllUnread => "🔵"@,
            SmartFeedKind::Starred => "⭐"@,
            SmartFeedKind::AllArticles => "📜"@,
        }
    }

    pub fn title(&self) -> (r: &'static str)
        ensures
            r@ == self.title_spec(),
    {
        match self {
            SmartFeedKind::Today => "Today",
            SmartFeedKind::AllUnread => "All Unread",
            SmartFeedKind::Starred => "Starred",
            SmartFeedKind::AllArticles => "All Articles",
        }
    }

    pub fn icon(&self) -> (r: &'static str)
        ensures
            r@ == self.icon_spec(),
    {
        match self {
            SmartFeedKind::Today => "☀️",
            SmartFeedKind::AllUnread => "🔵",
            SmartFeedKind::Starred => "⭐",
            SmartFeedKind::AllArticles => "📜",
        }
    }
}

/// One row of the sidebar.
#[derive(Debug, Clone, PartialEq, Eq)]
pub enum SidebarItem {
    SmartHeader,
    /// A smart view and its count.
    Smart(SmartFeedKind, usize),
    FolderHeader { name: String, is_expanded: bool, unread_count: usize, feed_count: usize },
    Feed {
        feed_id: String,
        title: String,
        folder: Option<String>,
        unread_count: usize,
        has_error: bool,
    },
}

/// The pane that has keyboard focus, left to right.
#[derive(Debug, Clone, Copy, PartialEq, Eq, Structural)]
pub enum ActivePane {
    Sidebar,
    ArticleList,
    Reader,
}

impl ActivePane {
    /// The pane to the right, wrapping from the reader to the sidebar.
    pub open spec fn next_spec(self) -> ActivePane {
        match self {
            ActivePane::Sidebar => ActivePane::ArticleList,
            ActivePane::ArticleList => ActivePane::Reader,
            ActivePane::Reader => ActivePane::Sidebar,
        }
    }

    /// The pane to the left, wrapping from the sidebar to the reader.
    pub open spec fn prev_spec(self) -> ActivePane {
        match self {
            ActivePane::Sidebar => ActivePane::Reader,
            ActivePane::ArticleList => ActivePane::Sidebar,
            ActivePane::Reader => ActivePane::ArticleList,
        }
    }

    pub fn next(&self) -> (r: Self)
        ensures
            r == self.next_spec(),
    {
        match self {
            ActivePane::Sidebar => ActivePane::ArticleList,
            ActivePane::ArticleList => ActivePane::Reader,
            ActivePane::Reader => ActivePane::Sidebar,
        }
    }

    pub fn prev(&self) -> (r: Self)
        ensures
            r == self.prev_spec(),
    {
        match self {
            ActivePane::Sidebar => ActivePane::Reader,
            ActivePane::ArticleList => ActivePane::Sidebar,
            ActivePane::Reader => ActivePane::ArticleList,
        }
    }
}

/// Moving focus right and then left (or left and then right) returns to the
/// same pane, and three moves in one direction cycle through every pane back
/// to the start.
pub proof fn lemma_pane_cycle(p: ActivePane)
    ensures
        p.next_spec().prev_spec() == p,
        p.prev_spec().next_spec() == p,
        p.next_spec().next_spec().next_spec() == p,
        p.prev_spec().prev_spec().prev_spec() == p,
        p.next_spec() != p,
        p.prev_spec() != p,
{
}

/// Which articles the list shows.
#[derive(Debug, Clone, PartialEq, Eq)]
pub enum CurrentFilter {
    Smart(SmartFeedKind),
    Folder(String),
    /// A single feed, by id.
    Feed(String),
}


/// The view of an optional text.
pub open spec fn opt_view(o: Option<String>) -> Option<Seq<char>> {
    match o {
        Some(s) => Some(s@),
        None => None,
    }
}

/// The folder a feed is filed under, as text.
pub open spec fn folder_key(f: Feed) -> Option<Seq<char>> {
    opt_view(f.folder)
}

/// The order of folder keys: no folder first, then folders by name.
pub open spec fn key_lt(a: Option<Seq<char>>, b: Option<Seq<char>>) -> bool {
    match (a, b) {
        (None, Some(_)) => true,
        (Some(x), Some(y)) => seq_lt(x, y),
        _ => false,
    }
}

proof fn lemma_key_lt_order(a: Option<Seq<char>>, b: Option<Seq<char>>, c: Option<Seq<char>>)
    ensures
        !key_lt(a, a),
        key_lt(a, b) ==> !key_lt(b, a),
        key_lt(a, b) && key_lt(b, c) ==> key_lt(a, c),
        a != b ==> key_lt(a, b) || key_lt(b, a),
{
    match (a, b, c) {
        (Some(x), Some(y), Some(z)) => {
            lemma_seq_lt_order(x, y, z);
        },
        (Some(x), Some(y), None) => {
            lemma_seq_lt_order(x, y, y);
        },
        (Some(x), None, _) => {
            lemma_seq_lt_order(x, x, x);
        },
        (None, Some(y), _) => {
            lemma_seq_lt_order(y, y, y);
        },
        _ => {},
    }
}

fn opt_text_eq(a: &Option<String>, b: &Option<String>) -> (r: bool)
    ensures
        r == (opt_view(*a) == opt_view(*b)),
{
    match (a, b) {
        (Some(x), Some(y)) => x.eq(y),
        (None, None) => true,
        _ => false,
    }
}

fn opt_text_lt(a: &Option<String>, b: &Option<String>) -> (r: bool)
    ensures
        r == key_lt(opt_view(*a), opt_view(*b)),
{
    match (a, b) {
        (None, Some(_)) => true,
        (Some(x), Some(y)) => str_lt(x.as_str(), y.as_str()),
        _ => false,
    }
}

/// A copy of an optional text.
pub fn clone_opt_text(a: &Option<String>) -> (r: Option<String>)
    ensures
        r == *a,
{
    match a {
        Some(s) => Some(s.clone()),
        None => None,
    }
}

/// The feeds filed under one folder (or under none).
#[derive(Debug, Clone)]
pub struct FolderGroup {
    pub folder: Option<String>,
    /// Positions of the member feeds in the list, in list order.
    pub members: Vec<usize>,
}

/// Feed `i` is a member of one of the groups.
pub open spec fn in_some_group(groups: Seq<FolderGroup>, i: int) -> bool {
    exists|g: int, j: int|
        0 <= g < groups.len() && 0 <= j < groups[g].members@.len() && #[trigger] groups[g].members@[j] == i
}

/// How many entries of `s` are `false`.
pub open spec fn count_false(s: Seq<bool>) -> nat
    decreases s.len(),
{
    if s.len() == 0 {
        0
    } else {
        count_false(s.drop_last()) + if !s.last() { 1nat } else { 0nat }
    }
}

proof fn lemma_count_false_shrinks(s: Seq<bool>, t: Seq<bool>, k: int)
    requires
        s.len() == t.len(),
        forall|i: int| 0 <= i < s.len() && s[i] ==> t[i],
        0 <= k < s.len(),
        !s[k] && t[k],
    ensures
        count_false(t) < count_false(s),
    decreases s.len(),
{
    if k < s.len() - 1 {
        lemma_count_false_shrinks(s.drop_last(), t.drop_last(), k);
    } else {
        lemma_count_false_mono(s.drop_last(), t.drop_last());
    }
}

proof fn lemma_count_false_mono(s: Seq<bool>, t: Seq<bool>)
    requires
        s.len() == t.len(),
        forall|i: int| 0 <= i < s.len() && s[i] ==> t[i],
    ensures
        count_false(t) <= count_false(s),
    decreases s.len(),
{
    if s.len() > 0 {
        lemma_count_false_mono(s.drop_last(), t.drop_last());
    }
}

/// `groups` partitions the `feeds` by folder: each group is non-empty, lists
/// its members in list order, and holds exactly the feeds of its folder;
/// every feed is in a group; and the groups come in folder order, no folder
/// first, each folder once.
pub open spec fn groups_by_folder(feeds: Seq<Feed>, groups: Seq<FolderGroup>) -> bool {
    &&& forall|g: int| 0 <= g < groups.len() ==> #[trigger] groups[g].members@.len() > 0
    &&& forall|g: int, j: int|
        0 <= g < groups.len() && 0 <= j < groups[g].members@.len() ==> (#[trigger] groups[g].members@[j]
            as int) < feeds.len() && folder_key(feeds[groups[g].members@[j] as int]) == opt_view(
            groups[g].folder,
        )
    &&& forall|g: int, j: int|
        0 <= g < groups.len() && 0 < j < groups[g].members@.len() ==> groups[g].members@[j - 1]
            < #[trigger] groups[g].members@[j]
    &&& forall|i: int| 0 <= i < feeds.len() ==> #[trigger] in_some_group(groups, i)
    &&& forall|g: int|
        0 < g < groups.len() ==> key_lt(opt_view(groups[g - 1].folder), opt_view(#[trigger] groups[g].folder))
}

/// Splits the feeds into folder groups, in folder order.
pub fn group_by_folder(feeds: &[Feed]) -> (r: Vec<FolderGroup>)
    ensures
        groups_by_folder(feeds@, r@),
{
    let n = feeds.len();
    let mut used: Vec<bool> = Vec::new();
    let mut k: usize = 0;
    while k < n
        invariant
            k <= n,
            n == feeds.len(),
            used.len() == k,
            forall|i: int| 0 <= i < k ==> !used@[i],
        decreases n - k,
    {
        used.push(false);
        k = k + 1;
    }
    let mut groups: Vec<FolderGroup> = Vec::new();
    loop
        invariant
            n == feeds.len(),
            used.len() == n,
            forall|g: int| 0 <= g < groups.len() ==> #[trigger] groups@[g].members@.len() > 0,
            forall|g: int, j: int|
                0 <= g < groups.len() && 0 <= j < groups@[g].members@.len() ==> (#[trigger] groups@[g].members@[j]
                    as int) < n && used@[groups@[g].members@[j] as int] && folder_key(
                    feeds@[groups@[g].members@[j] as int],
                ) == opt_view(groups@[g].folder),
            forall|g: int, j: int|
                0 <= g < groups.len() && 0 < j < groups@[g].members@.len() ==> groups@[g].members@[j - 1]
                    < #[trigger] groups@[g].members@[j],
            forall|i: int| 0 <= i < n && used@[i] ==> #[trigger] in_some_group(groups@, i),
            forall|g: int|
                0 < g < groups.len() ==> key_lt(
                    opt_view(groups@[g - 1].folder),
                    opt_view(#[trigger] groups@[g].folder),
                ),
            groups.len() > 0 ==> forall|i: int|
                0 <= i < n && !used@[i] ==> key_lt(
                    opt_view(groups@[groups.len() - 1].folder),
                    #[trigger] folder_key(feeds@[i]),
                ),
        ensures
            forall|i: int| 0 <= i < n ==> used@[i],
        decreases count_false(used@),
    {
        // The smallest folder among the feeds not yet grouped.
        let mut best: Option<usize> = None;
        let mut i: usize = 0;
        while i < n
            invariant
                n == feeds.len(),
                used.len() == n,
                i <= n,
                best matches Some(b) ==> b < i && !used@[b as int],
                best is None ==> forall|m: int| 0 <= m < i ==> used@[m],
                best matches Some(b) ==> forall|m: int|
                    0 <= m < i && !used@[m] ==> !key_lt(
                        #[trigger] folder_key(feeds@[m]),
                        folder_key(feeds@[b as int]),
                    ),
            decreases n - i,
        {
            if !used[i] {
                match best {
                    None => {
                        best = Some(i);
                        proof {
                            lemma_key_lt_order(folder_key(feeds@[i as int]), folder_key(feeds@[i as int]), folder_key(feeds@[i as int]));
                        }
                    },
                    Some(b) => {
                        if opt_text_lt(&feeds[i].folder, &feeds[b].folder) {
                            proof {
                                assert forall|m: int|
                                    0 <= m < i + 1 && !used@[m] implies !key_lt(
                                    #[trigger] folder_key(feeds@[m]),
                                    folder_key(feeds@[i as int]),
                                ) by {
                                    lemma_key_lt_order(folder_key(feeds@[m]), folder_key(feeds@[i as int]), folder_key(feeds@[b as int]));
                                    lemma_key_lt_order(folder_key(feeds@[i as int]), folder_key(feeds@[i as int]), folder_key(feeds@[i as int]));
                                }
                            }
                            best = Some(i);
                        }
                    },
                }
            }
            i = i + 1;
        }
        let b = match best {
            None => {
                break;
            },
            Some(b) => b,
        };
        let folder = clone_opt_text(&feeds[b].folder);
        let mut members: Vec<usize> = Vec::new();
        let ghost old_used = used@;
        let mut i: usize = 0;
        while i < n
            invariant
                n == feeds.len(),
                used.len() == n,
                i <= n,
                b < n,
                old_used.len() == n,
                !old_used[b as int],
                opt_view(folder) == folder_key(feeds@[b as int]),
                forall|m: int| 0 <= m < i ==> #[trigger] used@[m] == (old_used[m] || folder_key(feeds@[m]) == opt_view(folder)),
                forall|m: int| i <= m < n ==> used@[m] == old_used[m],
                forall|j: int| 0 <= j < members.len() ==> (#[trigger] members@[j] as int) < i,
                forall|j: int| 0 <= j < members.len() ==> !old_used[#[trigger] members@[j] as int]
                    && folder_key(feeds@[members@[j] as int]) == opt_view(folder),
                forall|j: int| 0 < j < members.len() ==> members@[j - 1] < #[trigger] members@[j],
                forall|m: int|
                    0 <= m < i && !old_used[m] && folder_key(feeds@[m]) == opt_view(folder) ==> exists|j: int|
                        0 <= j < members.len() && #[trigger] members@[j] == m,
                b < i ==> members.len() > 0,
            decreases n - i,
        {
            let ghost used_before = used@;
            if !used[i] && opt_text_eq(&feeds[i].folder, &folder) {
                let ghost prev_members = members@;
                members.push(i);
                used.set(i, true);
                proof {
                    assert(members@[members.len() - 1] == i);
                    assert forall|m: int|
                        0 <= m < i + 1 && !old_used[m] && folder_key(feeds@[m]) == opt_view(folder) implies exists|j: int|
                            0 <= j < members.len() && #[trigger] members@[j] == m by {
                        if m < i {
                            let j = choose|j: int| 0 <= j < prev_members.len() && #[trigger] prev_members[j] == m;
                            assert(members@[j] == m);
                        } else {
                            assert(members@[members.len() - 1] == m);
                        }
                    }
                }
            }
            proof {
                assert forall|m: int| 0 <= m < i + 1 implies #[trigger] used@[m] == (old_used[m] || folder_key(feeds@[m])
                    == opt_view(folder)) by {
                    if m < i {
                        assert(used@[m] == used_before[m]);
                    } else {
                        assert(used_before[m] == old_used[m]);
                        if old_used[m] {
                            assert(used@[m]);
                        } else if folder_key(feeds@[m]) == opt_view(folder) {
                            assert(used@[m]);
                        } else {
                            assert(!used@[m]);
                        }
                    }
                }
            }
            i = i + 1;
        }
        proof {
            lemma_count_false_shrinks(old_used, used@, b as int);
        }
        let ghost prev_groups = groups@;
        groups.push(FolderGroup { folder, members });
        proof {
            let last = groups.len() - 1;
            assert(groups@[last as int].members@.len() > 0);
            assert forall|m: int| 0 <= m < n && !used@[m] implies key_lt(
                opt_view(groups@[last as int].folder),
                #[trigger] folder_key(feeds@[m]),
            ) by {
                assert(!old_used[m]);
                assert(!key_lt(folder_key(feeds@[m]), folder_key(feeds@[b as int])));
                lemma_key_lt_order(folder_key(feeds@[m]), folder_key(feeds@[b as int]), folder_key(feeds@[b as int]));
            }
            assert forall|i: int| 0 <= i < n && used@[i] implies #[trigger] in_some_group(groups@, i) by {
                if old_used[i] {
                    assert(in_some_group(prev_groups, i));
                    let (g, j) = choose|g: int, j: int|
                        0 <= g < prev_groups.len() && 0 <= j < prev_groups[g].members@.len()
                            && #[trigger] prev_groups[g].members@[j] == i;
                    assert(groups@[g] == prev_groups[g]);
                    assert(groups@[g].members@[j] == i);
                } else {
                    let j = choose|j: int| 0 <= j < groups@[last as int].members@.len() && #[trigger] groups@[last as int].members@[j] == i;
                    assert(groups@[last as int].members@[j] == i);
                }
            }
            if prev_groups.len() > 0 {
                assert(key_lt(opt_view(prev_groups[prev_groups.len() - 1].folder), folder_key(feeds@[b as int])));
            }
        }
    }
    proof {
        assert forall|i: int| 0 <= i < n implies #[trigger] in_some_group(groups@, i) by {
            assert(used@[i]);
        }
    }
    groups
}

} // verus!
