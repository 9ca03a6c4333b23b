//! Moving through the panes and acting on the selected article or sidebar row.
use vstd::prelude::*;
use crate::model::{clone_feed, clone_opt_text, Article, ActivePane, CurrentFilter, Feed, SidebarItem, SmartFeedKind};
use crate::text::{concat_str, str_eq};
use super::{selected_article, shown_article, shown_len, toast_text, App, ArticleView, Effect, Layout, SyncState};

verus! {

/// The number of unread articles.
pub open spec fn count_unread(arts: Seq<Article>) -> nat
    decreases arts.len(),
{
    if arts.len() == 0 {
        0
    } else {
        count_unread(arts.drop_last()) + if arts.last().read { 0nat } else { 1nat }
    }
}

/// Marking the selected article read: when it is shown and unread, it is
/// written read and everything reloaded; otherwise nothing happens.
pub open spec fn mark_read_effects(s: App) -> Seq<Effect> {
    match selected_article(s) {
        Some(a) => if !a.read {
            seq![Effect::SetArticleRead { article_id: a.id, read: true }, Effect::ReloadData]
        } else {
            Seq::empty()
        },
        None => Seq::empty(),
    }
}

/// The sidebar row at `i`, if there is one.
pub open spec fn item_at(items: Seq<SidebarItem>, i: int) -> Option<SidebarItem> {
    if 0 <= i < items.len() {
        Some(items[i])
    } else {
        None
    }
}

/// Opening the selected sidebar row: a smart view, a folder or a feed
/// becomes the article filter, titled after it, with the first article
/// selected and the articles reloaded; the smart-view header and a missing
/// row do nothing.
pub open spec fn selection_applied(a: App, b: App, e: Seq<Effect>) -> bool {
    match item_at(a.library.sidebar_items@, a.view.sidebar_selected_idx as int) {
        Some(SidebarItem::Smart(kind, _)) => {
            &&& b == App {
                view: ArticleView {
                    current_filter: CurrentFilter::Smart(kind),
                    current_view_title: b.view.current_view_title,
                    article_selected_idx: 0,
                    ..a.view
                },
                ..a
            }
            &&& b.view.current_view_title@ == kind.title_spec()
            &&& e == seq![Effect::ReloadArticles]
        },
        Some(SidebarItem::FolderHeader { name, .. }) => {
            &&& b == App {
                view: ArticleView {
                    current_filter: CurrentFilter::Folder(name),
                    current_view_title: b.view.current_view_title,
                    article_selected_idx: 0,
                    ..a.view
                },
                ..a
            }
            &&& b.view.current_view_title@ == "Folder: "@ + name@
            &&& e == seq![Effect::ReloadArticles]
        },
        Some(SidebarItem::Feed { feed_id, title, .. }) => {
            &&& b == App {
                view: ArticleView {
                    current_filter: CurrentFilter::Feed(feed_id),
                    current_view_title: title,
                    article_selected_idx: 0,
                    ..a.view
                },
                ..a
            }
            &&& e == seq![Effect::ReloadArticles]
        },
        _ => b == a && e.len() == 0,
    }
}

/// The reader scrolled down by `n` lines, stopping at the largest offset.
pub open spec fn reader_scrolled_down(a: App, b: App, n: int) -> bool {
    b == App { view: ArticleView { reader_scroll_offset: sat_add(a.view.reader_scroll_offset as int, n), ..a.view }, ..a }
}

/// The reader scrolled up by `n` lines, stopping at the top.
pub open spec fn reader_scrolled_up(a: App, b: App, n: int) -> bool {
    b == App { view: ArticleView { reader_scroll_offset: sat_sub(a.view.reader_scroll_offset as int, n), ..a.view }, ..a }
}

/// `a - n`, stopping at zero.
pub open spec fn sat_sub(a: int, n: int) -> usize {
    if a >= n {
        (a - n) as usize
    } else {
        0usize
    }
}

/// Selecting article row `k` of the list, scrolling the reader to the top,
/// and marking it read when the configuration asks for it.
pub open spec fn article_moved_to(a: App, b: App, e: Seq<Effect>, k: int) -> bool {
    &&& b == App { view: ArticleView { article_selected_idx: k as usize, reader_scroll_offset: 0, ..a.view }, ..a }
    &&& e == if a.config.mark_read_on_open { mark_read_effects(b) } else { Seq::empty() }
}

/// The sidebar selection moved to row `k`, and that row was opened.
pub open spec fn sidebar_moved_to(a: App, b: App, e: Seq<Effect>, k: int) -> bool {
    selection_applied(App { view: ArticleView { sidebar_selected_idx: k as usize, ..a.view }, ..a }, b, e)
}

/// One step down in the focused pane: the next sidebar row (skipping the
/// smart-view header), the next article, or two lines of the reader.
pub open spec fn navigated_down(a: App, b: App, e: Seq<Effect>) -> bool {
    match a.layout.active_pane {
        ActivePane::Sidebar => if a.view.sidebar_selected_idx + 1 < a.library.sidebar_items@.len() {
            let k = a.view.sidebar_selected_idx + 1;
            let k2 = if a.library.sidebar_items@[k] is SmartHeader { k + 1 } else { k };
            sidebar_moved_to(a, b, e, k2)
        } else {
            b == a && e.len() == 0
        },
        ActivePane::ArticleList => if a.view.article_selected_idx + 1 < shown_len(a) {
            article_moved_to(a, b, e, a.view.article_selected_idx + 1)
        } else {
            b == a && e.len() == 0
        },
        ActivePane::Reader => reader_scrolled_down(a, b, 2) && e.len() == 0,
    }
}

/// One step up in the focused pane.
pub open spec fn navigated_up(a: App, b: App, e: Seq<Effect>) -> bool {
    match a.layout.active_pane {
        ActivePane::Sidebar => if a.view.sidebar_selected_idx > 0 {
            let k = a.view.sidebar_selected_idx - 1;
            let k2 = if k < a.library.sidebar_items@.len() && a.library.sidebar_items@[k] is SmartHeader && k > 0 {
                k - 1
            } else {
                k
            };
            sidebar_moved_to(a, b, e, k2)
        } else {
            b == a && e.len() == 0
        },
        ActivePane::ArticleList => if a.view.article_selected_idx > 0 {
            article_moved_to(a, b, e, a.view.article_selected_idx - 1)
        } else {
            b == a && e.len() == 0
        },
        ActivePane::Reader => reader_scrolled_up(a, b, 2) && e.len() == 0,
    }
}

/// `n - 1`, or zero.
pub open spec fn last_index(n: int) -> int {
    if n > 0 {
        n - 1
    } else {
        0
    }
}

/// A page down: eight sidebar rows (stopping at the last), six articles
/// (stopping at the last), or fifteen reader lines.
pub open spec fn paged_down(a: App, b: App, e: Seq<Effect>) -> bool {
    match a.layout.active_pane {
        ActivePane::Sidebar => {
            let want = a.view.sidebar_selected_idx + 8;
            let last = last_index(a.library.sidebar_items@.len() as int);
            sidebar_moved_to(a, b, e, if want < last { want } else { last })
        },
        ActivePane::ArticleList => {
            let want = a.view.article_selected_idx + 6;
            let last = last_index(shown_len(a));
            b == App {
                view: ArticleView {
                    article_selected_idx: (if want < last { want } else { last }) as usize,
                    reader_scroll_offset: 0,
                    ..a.view
                },
                ..a
            } && e.len() == 0
        },
        ActivePane::Reader => reader_scrolled_down(a, b, 15) && e.len() == 0,
    }
}

/// A page up: eight sidebar rows, six articles or fifteen reader lines,
/// stopping at the top.
pub open spec fn paged_up(a: App, b: App, e: Seq<Effect>) -> bool {
    match a.layout.active_pane {
        ActivePane::Sidebar => sidebar_moved_to(
            a,
            b,
            e,
            if a.view.sidebar_selected_idx >= 8 { a.view.sidebar_selected_idx - 8 } else { 0 },
        ),
        ActivePane::ArticleList => b == App {
            view: ArticleView {
                article_selected_idx: sat_sub(a.view.article_selected_idx as int, 6),
                reader_scroll_offset: 0,
                ..a.view
            },
            ..a
        } && e.len() == 0,
        ActivePane::Reader => reader_scrolled_up(a, b, 15) && e.len() == 0,
    }
}

/// To the top: the first smart view, the first article, or the reader's
/// first line.
pub open spec fn jumped_top(a: App, b: App, e: Seq<Effect>) -> bool {
    match a.layout.active_pane {
        ActivePane::Sidebar => sidebar_moved_to(a, b, e, 1),
        ActivePane::ArticleList => b == App {
            view: ArticleView { article_selected_idx: 0, reader_scroll_offset: 0, ..a.view },
            ..a
        } && e.len() == 0,
        ActivePane::Reader => b == App { view: ArticleView { reader_scroll_offset: 0, ..a.view }, ..a } && e.len() == 0,
    }
}

/// To the bottom: the last sidebar row, the last article, or a hundred
/// reader lines further.
pub open spec fn jumped_bottom(a: App, b: App, e: Seq<Effect>) -> bool {
    match a.layout.active_pane {
        ActivePane::Sidebar => sidebar_moved_to(a, b, e, last_index(a.library.sidebar_items@.len() as int)),
        ActivePane::ArticleList => b == App {
            view: ArticleView {
                article_selected_idx: last_index(shown_len(a)) as usize,
                reader_scroll_offset: 0,
                ..a.view
            },
            ..a
        } && e.len() == 0,
        ActivePane::Reader => reader_scrolled_down(a, b, 100) && e.len() == 0,
    }
}

/// Enter: a folder row is expanded or collapsed; another sidebar row is
/// opened and the list focused; in the list the reader is focused and the
/// article marked read; in the reader the article opens in the browser.
pub open spec fn entered(a: App, b: App, e: Seq<Effect>) -> bool {
    match a.layout.active_pane {
        ActivePane::Sidebar => match item_at(a.library.sidebar_items@, a.view.sidebar_selected_idx as int) {
            Some(SidebarItem::FolderHeader { name, .. }) => b == a && e == seq![
                Effect::ToggleFolderExpanded(name),
                Effect::ReloadData,
            ],
            _ => exists|m: App| #[trigger] selection_applied(a, m, e) && b == App { layout: Layout { active_pane: ActivePane::ArticleList, ..m.layout }, ..m },
        },
        ActivePane::ArticleList => {
            let m = App { layout: Layout { active_pane: ActivePane::Reader, ..a.layout }, ..a };
            b == m && e == mark_read_effects(m)
        },
        ActivePane::Reader => b == a && e == open_effects(a),
    }
}

/// Opening the selected article in the browser, when it has an address.
pub open spec fn open_effects(s: App) -> Seq<Effect> {
    match selected_article(s) {
        Some(art) => if art.url@.len() > 0 {
            seq![Effect::OpenInBrowser(art.url)]
        } else {
            Seq::empty()
        },
        None => Seq::empty(),
    }
}

/// Copying the selected article's address.
pub open spec fn copy_effects(s: App) -> Seq<Effect> {
    match selected_article(s) {
        Some(art) => seq![Effect::CopyUrl(art.url)],
        None => Seq::empty(),
    }
}

/// Flipping the read state of the selected article, with a toast.
pub open spec fn toggle_read_effects(s: App, e: Seq<Effect>) -> bool {
    match selected_article(s) {
        Some(art) => {
            &&& e.len() == 3
            &&& e[0] == Effect::SetArticleRead { article_id: art.id, read: !art.read }
            &&& e[1] == Effect::ReloadData
            &&& toast_text(e[2], if !art.read { "Marked article as read"@ } else { "Marked article as unread"@ })
        },
        None => e.len() == 0,
    }
}

/// Flipping the star of the selected article, with a toast.
pub open spec fn toggle_star_effects(s: App, e: Seq<Effect>) -> bool {
    match selected_article(s) {
        Some(art) => {
            &&& e.len() == 3
            &&& e[0] == Effect::SetArticleStarred { article_id: art.id, starred: !art.starred }
            &&& e[1] == Effect::ReloadData
            &&& toast_text(e[2], if !art.starred { "Article starred ★"@ } else { "Article unstarred"@ })
        },
        None => e.len() == 0,
    }
}

/// Marking every article of the view read, with a toast naming the view.
pub open spec fn mark_all_effects(s: App, e: Seq<Effect>) -> bool {
    &&& e.len() == 3
    &&& e[0] == Effect::MarkAllReadInFilter(s.view.current_filter)
    &&& e[1] == Effect::ReloadData
    &&& toast_text(e[2], "Marked all articles in "@ + s.view.current_view_title@ + " as read"@)
}

/// The first feed with this id.
pub open spec fn feed_index(feeds: Seq<Feed>, id: Seq<char>) -> Option<int>
    decreases feeds.len(),
{
    if feeds.len() == 0 {
        None
    } else {
        match feed_index(feeds.drop_last(), id) {
            Some(i) => Some(i),
            None => if feeds.last().id@ == id {
                Some(feeds.len() - 1)
            } else {
                None
            },
        }
    }
}

/// `a + n`, stopping at the largest count.
pub open spec fn sat_add(a: int, n: int) -> usize {
    if a + n <= usize::MAX {
        (a + n) as usize
    } else {
        usize::MAX
    }
}

/// Refreshing every feed: with none there is nothing to do and syncing
/// stops; otherwise every feed is fetched in the background.
pub open spec fn refreshed_all(a: App, b: App, e: Seq<Effect>) -> bool {
    if a.library.feeds@.len() == 0 {
        b == App { sync: SyncState { is_syncing: false, ..a.sync }, ..a } && e.len() == 0
    } else {
        &&& b == App {
            sync: SyncState {
                pending_fetches: sat_add(a.sync.pending_fetches as int, a.library.feeds@.len() as int),
                is_syncing: true,
                ..a.sync
            },
            ..a
        }
        &&& e.len() == 2
        &&& e[0] matches Effect::FetchFeeds(fs) && fs@ == a.library.feeds@
        &&& toast_text(e[1], "Refreshing feeds in background..."@)
    }
}

/// Refreshing the current view: a feed view fetches that feed; any other
/// view refreshes everything.
pub open spec fn refreshed_current(a: App, b: App, e: Seq<Effect>) -> bool {
    let target = match a.view.current_filter {
        CurrentFilter::Feed(id) => feed_index(a.library.feeds@, id@),
        _ => None,
    };
    match target {
        Some(i) => {
            &&& b == App {
                sync: SyncState { pending_fetches: sat_add(a.sync.pending_fetches as int, 1), is_syncing: true, ..a.sync },
                ..a
            }
            &&& e.len() == 2
            &&& e[0] matches Effect::FetchFeeds(fs) && fs@ == seq![a.library.feeds@[i]]
            &&& toast_text(e[1], "Refreshing "@ + a.library.feeds@[i].title@ + "..."@)
        },
        None => refreshed_all(a, b, e),
    }
}

/// Deleting the selected folder or feed, reloading, and saying so.
pub open spec fn delete_effects(s: App, e: Seq<Effect>) -> bool {
    match item_at(s.library.sidebar_items@, s.view.sidebar_selected_idx as int) {
        Some(SidebarItem::FolderHeader { name, .. }) => {
            &&& e.len() == 3
            &&& e[0] == Effect::DeleteFolder(name)
            &&& e[1] == Effect::ReloadData
            &&& toast_text(e[2], "Deleted folder: "@ + name@)
        },
        Some(SidebarItem::Feed { feed_id, title, .. }) => {
            &&& e.len() == 3
            &&& e[0] == Effect::DeleteFeed(feed_id)
            &&& e[1] == Effect::ReloadData
            &&& toast_text(e[2], "Deleted feed: "@ + title@)
        },
        _ => e.len() == 0,
    }
}

/// A copy of a sidebar row.
pub fn clone_item(item: &SidebarItem) -> (r: SidebarItem)
    ensures
        r == *item,
{
    match item {
        SidebarItem::SmartHeader => SidebarItem::SmartHeader,
        SidebarItem::Smart(k, n) => SidebarItem::Smart(*k, *n),
        SidebarItem::FolderHeader { name, is_expanded, unread_count, feed_count } => SidebarItem::FolderHeader {
            name: name.clone(),
            is_expanded: *is_expanded,
            unread_count: *unread_count,
            feed_count: *feed_count,
        },
        SidebarItem::Feed { feed_id, title, folder, unread_count, has_error } => SidebarItem::Feed {
            feed_id: feed_id.clone(),
            title: title.clone(),
            folder: clone_opt_text(folder),
            unread_count: *unread_count,
            has_error: *has_error,
        },
    }
}

/// The filter a sidebar row opens, and the title the list then shows.
pub open spec fn row_target(item: SidebarItem, filter: CurrentFilter, title: Seq<char>) -> bool {
    match item {
        SidebarItem::Smart(kind, _) => filter == CurrentFilter::Smart(kind) && title == kind.title_spec(),
        SidebarItem::FolderHeader { name, .. } => filter == CurrentFilter::Folder(name) && title == "Folder: "@ + name@,
        SidebarItem::Feed { feed_id, title: t, .. } => filter == CurrentFilter::Feed(feed_id) && title == t@,
        SidebarItem::SmartHeader => false,
    }
}

fn selection_target(item: &SidebarItem) -> (r: Option<(CurrentFilter, String)>)
    ensures
        match r {
            Some((f, t)) => row_target(*item, f, t@) && (item matches SidebarItem::Feed { title, .. } ==> t == title),
            None => item is SmartHeader,
        },
{
    match item {
        SidebarItem::SmartHeader => None,
        SidebarItem::Smart(kind, _) => Some((CurrentFilter::Smart(*kind), kind.title().to_owned())),
        SidebarItem::FolderHeader { name, .. } => {
            proof {
                reveal_strlit("Folder: ");
            }
            Some((CurrentFilter::Folder(name.clone()), concat_str("Folder: ", name.as_str())))
        },
        SidebarItem::Feed { feed_id, title, .. } => Some((CurrentFilter::Feed(feed_id.clone()), title.clone())),
    }
}

/// A list of one effect.
pub fn one_effect(e: Effect) -> (r: Vec<Effect>)
    ensures
        r@ == seq![e],
{
    let r = vec![e];
    assert(r@ =~= seq![e]);
    r
}

/// A list of two effects.
pub fn two_effects(e: Effect, f: Effect) -> (r: Vec<Effect>)
    ensures
        r@ == seq![e, f],
{
    let r = vec![e, f];
    assert(r@ =~= seq![e, f]);
    r
}

fn toast(text: &str) -> (e: Effect)
    ensures
        toast_text(e, text@),
{
    Effect::Toast(text.to_owned())
}

/// The position of the first feed with this id.
pub fn find_feed(feeds: &Vec<Feed>, id: &str) -> (r: Option<usize>)
    ensures
        match r {
            Some(i) => feed_index(feeds@, id@) == Some(i as int) && i < feeds.len(),
            None => feed_index(feeds@, id@) is None,
        },
{
    let mut i: usize = 0;
    while i < feeds.len()
        invariant
            i <= feeds.len(),
            feed_index(feeds@.take(i as int), id@) is None,
        decreases feeds.len() - i,
    {
        proof {
            assert(feeds@.take(i as int + 1).drop_last() =~= feeds@.take(i as int));
        }
        if str_eq(feeds[i].id.as_str(), id) {
            proof {
                lemma_feed_index_prefix(feeds@, id@, i as int + 1);
            }
            return Some(i);
        }
        i = i + 1;
    }
    assert(feeds@.take(feeds.len() as int) =~= feeds@);
    None
}

proof fn lemma_feed_index_prefix(feeds: Seq<Feed>, id: Seq<char>, n: int)
    requires
        0 < n <= feeds.len(),
        feed_index(feeds.take(n), id) is Some,
    ensures
        feed_index(feeds, id) == feed_index(feeds.take(n), id),
    decreases feeds.len(),
{
    if n < feeds.len() {
        assert(feeds.drop_last().take(n) =~= feeds.take(n));
        lemma_feed_index_prefix(feeds.drop_last(), id, n);
    } else {
        assert(feeds.take(n) =~= feeds);
    }
}

/// A copy of the feeds.
pub fn clone_feeds(feeds: &Vec<Feed>) -> (r: Vec<Feed>)
    ensures
        r@ == feeds@,
{
    let mut r: Vec<Feed> = Vec::new();
    let mut i: usize = 0;
    while i < feeds.len()
        invariant
            i <= feeds.len(),
            r@ == feeds@.take(i as int),
        decreases feeds.len() - i,
    {
        r.push(clone_feed(&feeds[i]));
        i = i + 1;
        assert(r@ =~= feeds@.take(i as int));
    }
    assert(feeds@.take(feeds.len() as int) =~= feeds@);
    r
}

fn count_unread_exec(arts: &Vec<Article>) -> (r: usize)
    ensures
        r == count_unread(arts@),
{
    let mut n: usize = 0;
    let mut i: usize = 0;
    while i < arts.len()
        invariant
            i <= arts.len(),
            n == count_unread(arts@.take(i as int)),
            n <= i,
        decreases arts.len() - i,
    {
        proof {
            assert(arts@.take(i as int + 1).drop_last() =~= arts@.take(i as int));
        }
        if !arts[i].read {
            n = n + 1;
        }
        i = i + 1;
    }
    assert(arts@.take(arts.len() as int) =~= arts@);
    n
}

impl App {
    /// What marking the selected article read takes.
    pub fn mark_current_article_read(&self) -> (e: Vec<Effect>)
        ensures
            e@ == mark_read_effects(*self),
    {
        match self.shown_article(self.view.article_selected_idx) {
            Some(a) => {
                if !a.read {
                    vec![Effect::SetArticleRead { article_id: a.id.clone(), read: true }, Effect::ReloadData]
                } else {
                    Vec::new()
                }
            },
            None => Vec::new(),
        }
    }

    /// Takes the freshly read articles of the current filter: counts the
    /// unread ones, keeps the selection on an article, scrolls the reader to
    /// the top, and, when the reader has focus and the configuration asks
    /// for it, marks the selected article read.
    pub fn load_articles(&mut self, articles: Vec<Article>) -> (e: Vec<Effect>)
        ensures
            ({
                let n = articles@.len();
                let b = App {
                    view: ArticleView {
                        articles,
                        current_view_unread_count: count_unread(articles@) as usize,
                        article_selected_idx: if old(self).view.article_selected_idx >= n && n > 0 {
                            (n - 1) as usize
                        } else {
                            old(self).view.article_selected_idx
                        },
                        reader_scroll_offset: 0,
                        ..old(self).view
                    },
                    ..*old(self)
                };
                &&& *final(self) == b
                &&& e@ == if b.config.mark_read_on_open && b.layout.active_pane == ActivePane::Reader {
                    mark_read_effects(b)
                } else {
                    Seq::empty()
                }
            }),
    {
        self.view.current_view_unread_count = count_unread_exec(&articles);
        self.view.articles = articles;
        if self.view.article_selected_idx >= self.view.articles.len() && self.view.articles.len() > 0 {
            self.view.article_selected_idx = self.view.articles.len() - 1;
        }
        self.view.reader_scroll_offset = 0;
        if self.config.mark_read_on_open && self.layout.active_pane == ActivePane::Reader {
            self.mark_current_article_read()
        } else {
            Vec::new()
        }
    }

    /// Opens the selected sidebar row as the article filter.
    pub fn apply_sidebar_selection(&mut self) -> (e: Vec<Effect>)
        ensures
            selection_applied(*old(self), *final(self), e@),
    {
        if self.view.sidebar_selected_idx >= self.library.sidebar_items.len() {
            return Vec::new();
        }
        let target = selection_target(&self.library.sidebar_items[self.view.sidebar_selected_idx]);
        let (filter, title) = match target {
            Some(t) => t,
            None => {
                return Vec::new();
            },
        };
        self.view.current_filter = filter;
        self.view.current_view_title = title;
        self.view.article_selected_idx = 0;
        one_effect(Effect::ReloadArticles)
    }

    fn select_article_row(&mut self, k: usize) -> (e: Vec<Effect>)
        ensures
            article_moved_to(*old(self), *final(self), e@, k as int),
    {
        self.view.article_selected_idx = k;
        self.view.reader_scroll_offset = 0;
        if self.config.mark_read_on_open {
            self.mark_current_article_read()
        } else {
            Vec::new()
        }
    }

    fn select_sidebar_row(&mut self, k: usize) -> (e: Vec<Effect>)
        ensures
            sidebar_moved_to(*old(self), *final(self), e@, k as int),
    {
        self.view.sidebar_selected_idx = k;
        self.apply_sidebar_selection()
    }

    /// One step down in the focused pane.
    pub fn navigate_down(&mut self) -> (e: Vec<Effect>)
        ensures
            navigated_down(*old(self), *final(self), e@),
    {
        match self.layout.active_pane {
            ActivePane::Sidebar => {
                if self.library.sidebar_items.len() > 0 && self.view.sidebar_selected_idx < self.library.sidebar_items.len() - 1 {
                    let k = self.view.sidebar_selected_idx + 1;
                    let k2 = if matches!(self.library.sidebar_items[k], SidebarItem::SmartHeader) { k + 1 } else { k };
                    self.select_sidebar_row(k2)
                } else {
                    Vec::new()
                }
            },
            ActivePane::ArticleList => {
                let n = self.shown_count();
                if self.view.article_selected_idx < n && self.view.article_selected_idx + 1 < n {
                    self.select_article_row(self.view.article_selected_idx + 1)
                } else {
                    Vec::new()
                }
            },
            ActivePane::Reader => {
                self.view.reader_scroll_offset = self.view.reader_scroll_offset.saturating_add(2);
                Vec::new()
            },
        }
    }

    /// One step up in the focused pane.
    pub fn navigate_up(&mut self) -> (e: Vec<Effect>)
        ensures
            navigated_up(*old(self), *final(self), e@),
    {
        match self.layout.active_pane {
            ActivePane::Sidebar => {
                if self.view.sidebar_selected_idx > 0 {
                    let k = self.view.sidebar_selected_idx - 1;
                    let k2 = if k < self.library.sidebar_items.len() && matches!(self.library.sidebar_items[k], SidebarItem::SmartHeader) && k > 0 {
                        k - 1
                    } else {
                        k
                    };
                    self.select_sidebar_row(k2)
                } else {
                    Vec::new()
                }
            },
            ActivePane::ArticleList => {
                if self.view.article_selected_idx > 0 {
                    self.select_article_row(self.view.article_selected_idx - 1)
                } else {
                    Vec::new()
                }
            },
            ActivePane::Reader => {
                self.view.reader_scroll_offset = self.view.reader_scroll_offset.saturating_sub(2);
                Vec::new()
            },
        }
    }

    /// A page down in the focused pane.
    pub fn page_down(&mut self) -> (e: Vec<Effect>)
        ensures
            paged_down(*old(self), *final(self), e@),
    {
        match self.layout.active_pane {
            ActivePane::Sidebar => {
                let last = self.library.sidebar_items.len().saturating_sub(1);
                let want = self.view.sidebar_selected_idx.saturating_add(8);
                let k = if want < last { want } else { last };
                self.select_sidebar_row(k)
            },
            ActivePane::ArticleList => {
                let last = self.shown_count().saturating_sub(1);
                let want = self.view.article_selected_idx.saturating_add(6);
                self.view.article_selected_idx = if want < last { want } else { last };
                self.view.reader_scroll_offset = 0;
                Vec::new()
            },
            ActivePane::Reader => {
                self.view.reader_scroll_offset = self.view.reader_scroll_offset.saturating_add(15);
                Vec::new()
            },
        }
    }

    /// A page up in the focused pane.
    pub fn page_up(&mut self) -> (e: Vec<Effect>)
        ensures
            paged_up(*old(self), *final(self), e@),
    {
        match self.layout.active_pane {
            ActivePane::Sidebar => {
                let k = self.view.sidebar_selected_idx.saturating_sub(8);
                self.select_sidebar_row(k)
            },
            ActivePane::ArticleList => {
                self.view.article_selected_idx = self.view.article_selected_idx.saturating_sub(6);
                self.view.reader_scroll_offset = 0;
                Vec::new()
            },
            ActivePane::Reader => {
                self.view.reader_scroll_offset = self.view.reader_scroll_offset.saturating_sub(15);
                Vec::new()
            },
        }
    }

    /// Space: twelve reader lines further, whatever pane has focus.
    pub fn space_advance(&mut self)
        ensures
            reader_scrolled_down(*old(self), *final(self), 12),
    {
        self.view.reader_scroll_offset = self.view.reader_scroll_offset.saturating_add(12);
    }

    /// To the top of the focused pane.
    pub fn jump_to_top(&mut self) -> (e: Vec<Effect>)
        ensures
            jumped_top(*old(self), *final(self), e@),
    {
        match self.layout.active_pane {
            ActivePane::Sidebar => self.select_sidebar_row(1),
            ActivePane::ArticleList => {
                self.view.article_selected_idx = 0;
                self.view.reader_scroll_offset = 0;
                Vec::new()
            },
            ActivePane::Reader => {
                self.view.reader_scroll_offset = 0;
                Vec::new()
            },
        }
    }

    /// To the bottom of the focused pane.
    pub fn jump_to_bottom(&mut self) -> (e: Vec<Effect>)
        ensures
            jumped_bottom(*old(self), *final(self), e@),
    {
        match self.layout.active_pane {
            ActivePane::Sidebar => {
                let k = self.library.sidebar_items.len().saturating_sub(1);
                self.select_sidebar_row(k)
            },
            ActivePane::ArticleList => {
                self.view.article_selected_idx = self.shown_count().saturating_sub(1);
                self.view.reader_scroll_offset = 0;
                Vec::new()
            },
            ActivePane::Reader => {
                self.view.reader_scroll_offset = self.view.reader_scroll_offset.saturating_add(100);
                Vec::new()
            },
        }
    }

    /// What opening the selected article in the browser takes.
    pub fn open_current_article_in_browser(&self) -> (e: Vec<Effect>)
        ensures
            e@ == open_effects(*self),
    {
        match self.shown_article(self.view.article_selected_idx) {
            Some(a) => {
                if !a.url.as_str().is_empty() {
                    vec![Effect::OpenInBrowser(a.url.clone())]
                } else {
                    Vec::new()
                }
            },
            None => Vec::new(),
        }
    }

    /// What copying the selected article's address takes.
    pub fn copy_current_article_url(&self) -> (e: Vec<Effect>)
        ensures
            e@ == copy_effects(*self),
    {
        match self.shown_article(self.view.article_selected_idx) {
            Some(a) => vec![Effect::CopyUrl(a.url.clone())],
            None => Vec::new(),
        }
    }

    /// Enter in the focused pane.
    pub fn handle_enter_key(&mut self) -> (e: Vec<Effect>)
        ensures
            entered(*old(self), *final(self), e@),
    {
        match self.layout.active_pane {
            ActivePane::Sidebar => {
                if self.view.sidebar_selected_idx < self.library.sidebar_items.len() {
                    if let SidebarItem::FolderHeader { name, .. } = &self.library.sidebar_items[self.view.sidebar_selected_idx] {
                        return two_effects(Effect::ToggleFolderExpanded(name.clone()), Effect::ReloadData);
                    }
                }
                let ghost a = *self;
                let e = self.apply_sidebar_selection();
                let ghost m = *self;
                self.layout.active_pane = ActivePane::ArticleList;
                assert(selection_applied(a, m, e@));
                e
            },
            ActivePane::ArticleList => {
                self.layout.active_pane = ActivePane::Reader;
                self.mark_current_article_read()
            },
            ActivePane::Reader => self.open_current_article_in_browser(),
        }
    }

    /// What flipping the selected article's read state takes.
    pub fn toggle_current_article_read(&self) -> (e: Vec<Effect>)
        ensures
            toggle_read_effects(*self, e@),
    {
        match self.shown_article(self.view.article_selected_idx) {
            Some(a) => {
                let new_read = !a.read;
                let msg = if new_read { toast("Marked article as read") } else { toast("Marked article as unread") };
                vec![Effect::SetArticleRead { article_id: a.id.clone(), read: new_read }, Effect::ReloadData, msg]
            },
            None => Vec::new(),
        }
    }

    /// What flipping the selected article's star takes.
    pub fn toggle_current_article_star(&self) -> (e: Vec<Effect>)
        ensures
            toggle_star_effects(*self, e@),
    {
        match self.shown_article(self.view.article_selected_idx) {
            Some(a) => {
                let new_starred = !a.starred;
                let msg = if new_starred { toast("Article starred ★") } else { toast("Article unstarred") };
                vec![Effect::SetArticleStarred { article_id: a.id.clone(), starred: new_starred }, Effect::ReloadData, msg]
            },
            None => Vec::new(),
        }
    }

    /// What marking the whole view read takes.
    pub fn mark_all_in_view_read(&self) -> (e: Vec<Effect>)
        ensures
            mark_all_effects(*self, e@),
    {
        let filter = match &self.view.current_filter {
            CurrentFilter::Smart(k) => CurrentFilter::Smart(*k),
            CurrentFilter::Folder(n) => CurrentFilter::Folder(n.clone()),
            CurrentFilter::Feed(id) => CurrentFilter::Feed(id.clone()),
        };
        let head = concat_str("Marked all articles in ", self.view.current_view_title.as_str());
        let msg = concat_str(head.as_str(), " as read");
        proof {
            reveal_strlit("Marked all articles in ");
            reveal_strlit(" as read");
        }
        vec![Effect::MarkAllReadInFilter(filter), Effect::ReloadData, Effect::Toast(msg)]
    }

    /// Fetches every feed in the background.
    #[verifier::rlimit(50)]
    pub fn refresh_all_feeds(&mut self) -> (e: Vec<Effect>)
        ensures
            refreshed_all(*old(self), *final(self), e@),
    {
        if self.library.feeds.len() == 0 {
            self.sync.is_syncing = false;
            return Vec::new();
        }
        self.sync.pending_fetches = self.sync.pending_fetches.saturating_add(self.library.feeds.len());
        self.sync.is_syncing = true;
        let all = clone_feeds(&self.library.feeds);
        vec![Effect::FetchFeeds(all), toast("Refreshing feeds in background...")]
    }

    /// Fetches the feed of the current view, or every feed.
    pub fn refresh_current_feed(&mut self) -> (e: Vec<Effect>)
        ensures
            refreshed_current(*old(self), *final(self), e@),
    {
        let target = match &self.view.current_filter {
            CurrentFilter::Feed(id) => find_feed(&self.library.feeds, id.as_str()),
            _ => None,
        };
        match target {
            Some(i) => {
                let feed = clone_feed(&self.library.feeds[i]);
                let head = concat_str("Refreshing ", feed.title.as_str());
                let msg = concat_str(head.as_str(), "...");
                proof {
                    reveal_strlit("Refreshing ");
                    reveal_strlit("...");
                }
                self.sync.pending_fetches = self.sync.pending_fetches.saturating_add(1);
                self.sync.is_syncing = true;
                let ghost f = feed;
                let v = vec![feed];
                assert(v@ == seq![f]);
                vec![Effect::FetchFeeds(v), Effect::Toast(msg)]
            },
            None => self.refresh_all_feeds(),
        }
    }

    /// What deleting the selected folder or feed takes.
    pub fn confirm_delete_selected(&self) -> (e: Vec<Effect>)
        ensures
            delete_effects(*self, e@),
    {
        if self.view.sidebar_selected_idx >= self.library.sidebar_items.len() {
            return Vec::new();
        }
        match &self.library.sidebar_items[self.view.sidebar_selected_idx] {
            SidebarItem::FolderHeader { name, .. } => {
                let msg = concat_str("Deleted folder: ", name.as_str());
                proof {
                    reveal_strlit("Deleted folder: ");
                }
                vec![Effect::DeleteFolder(name.clone()), Effect::ReloadData, Effect::Toast(msg)]
            },
            SidebarItem::Feed { feed_id, title, .. } => {
                let msg = concat_str("Deleted feed: ", title.as_str());
                proof {
                    reveal_strlit("Deleted feed: ");
                }
                vec![Effect::DeleteFeed(feed_id.clone()), Effect::ReloadData, Effect::Toast(msg)]
            },
            _ => Vec::new(),
        }
    }

    /// The name of what the delete popup would delete, and whether it is a
    /// folder.
    pub fn get_delete_target_info(&self) -> (r: (String, bool))
        ensures
            match item_at(self.library.sidebar_items@, self.view.sidebar_selected_idx as int) {
                Some(SidebarItem::FolderHeader { name, .. }) => r.0 == name && r.1,
                Some(SidebarItem::Feed { title, .. }) => r.0 == title && !r.1,
                _ => r.0@ == "Item"@ && !r.1,
            },
    {
        proof {
            reveal_strlit("Item");
        }
        if self.view.sidebar_selected_idx >= self.library.sidebar_items.len() {
            return ("Item".to_owned(), false);
        }
        match &self.library.sidebar_items[self.view.sidebar_selected_idx] {
            SidebarItem::FolderHeader { name, .. } => (name.clone(), true),
            SidebarItem::Feed { title, .. } => (title.clone(), false),
            _ => ("Item".to_owned(), false),
        }
    }
}

} // verus!
