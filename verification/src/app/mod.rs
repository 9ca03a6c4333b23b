//! The reader's interface state and the decisions taken on it: what the
//! sidebar lists, which article is selected, what each key and click does.
//!
//! The state holds plain values only. Work that touches the database, the
//! network, the clipboard, the browser or the disk is handed back to the
//! caller as a list of [`Effect`]s, performed in order; the caller reports
//! the outcome through the `load_*` and `*_finished` methods.
pub mod sidebar;
pub mod nav;
pub mod keys;
pub mod input;
pub mod dispatch;
pub mod mouse;
pub mod events;
pub mod laws;




use vstd::prelude::*;
use crate::config::{AppConfig, KeyBindingsConfig};
use crate::model::{clone_article, clone_feed, Article, ActivePane, CurrentFilter, Feed, SidebarItem, SmartFeedKind};
use crate::storage::UnreadCounts;
use crate::text::{
    chars_of, concat_str, contains_chars, lowercase_str, seq_contains, str_to_lowercase, trim_chars,
    trim_spec,
};
use crate::ui::modals::ConfigSubView;
use self::sidebar::{
    build_feed_search_items, build_sidebar_items, is_feed_search_of, is_sidebar_of,
};

verus! {

/// Work the caller performs on behalf of the state, in order.
#[derive(Debug, Clone, PartialEq, Eq)]
pub enum Effect {
    /// Write the configuration to disk.
    SaveConfig,
    /// Show a transient message in the status bar.
    Toast(String),
    /// Switch to the theme at this position of the theme list.
    ApplyTheme(usize),
    SetArticleRead { article_id: String, read: bool },
    SetArticleStarred { article_id: String, starred: bool },
    /// Mark every article the filter selects as read.
    MarkAllReadInFilter(CurrentFilter),
    /// Flip whether the folder is shown expanded.
    ToggleFolderExpanded(String),
    DeleteFolder(String),
    /// Delete the feed with this id and its articles.
    DeleteFeed(String),
    /// Read the feeds, counts and collapsed folders again and hand them to
    /// [`App::load_library`], then the articles to [`App::load_articles`].
    ReloadData,
    /// Read the articles of the current filter and hand them to
    /// [`App::load_articles`].
    ReloadArticles,
    OpenInBrowser(String),
    CopyUrl(String),
    /// Fetch these feeds in the background; each reports through
    /// [`App::feed_refresh_finished`].
    FetchFeeds(Vec<Feed>),
    /// Discover and fetch a new feed; reports through
    /// [`App::add_feed_finished`].
    AddFeed { url: String, folder: Option<String> },
    /// Import the OPML file at this path; reports through
    /// [`App::opml_import_finished`].
    ImportOpml(String),
    /// Write the subscriptions as OPML to this path; reports through
    /// [`App::export_finished`].
    ExportOpml(String),
    /// Store a newly added feed and its first articles.
    StoreFeed { feed: Feed, articles: Vec<Article> },
    /// Once the data is reloaded, refresh every feed: perform what
    /// [`App::refresh_all_feeds`] returns.
    RefreshAll,
}

/// Where the panes are and which has focus.
#[derive(Debug, Clone)]
pub struct Layout {
    pub active_pane: ActivePane,
    /// Pane widths in percent of the terminal.
    pub sidebar_width_percent: u16,
    pub article_width_percent: u16,
    pub reader_width_percent: u16,
    /// Only the focused pane is shown.
    pub is_zen_mode: bool,
}

/// The subscriptions as last read, and the sidebar rows made of them.
#[derive(Debug, Clone)]
pub struct Library {
    pub feeds: Vec<Feed>,
    pub sidebar_items: Vec<SidebarItem>,
    pub unread_counts: UnreadCounts,
    /// The folders the reader collapsed.
    pub collapsed_folders: Vec<String>,
}

/// What the panes show and where their selections and scroll offsets are.
#[derive(Debug, Clone)]
pub struct ArticleView {
    pub sidebar_selected_idx: usize,
    pub sidebar_scroll_offset: usize,
    pub current_filter: CurrentFilter,
    pub current_view_title: String,
    pub current_view_unread_count: usize,
    /// The articles of the current filter.
    pub articles: Vec<Article>,
    pub article_selected_idx: usize,
    pub article_scroll_offset: usize,
    pub reader_scroll_offset: usize,
}

/// The article search and the sidebar's fuzzy feed finder.
#[derive(Debug, Clone)]
pub struct Search {
    pub search_query: String,
    pub is_searching: bool,
    pub feed_search_query: String,
    pub is_searching_feeds: bool,
}

/// Which popups are open.
#[derive(Debug, Clone)]
pub struct Popups {
    pub show_help_modal: bool,
    pub show_config_modal: bool,
    pub show_theme_modal: bool,
    pub show_add_modal: bool,
    pub show_export_modal: bool,
    pub show_delete_modal: bool,
}

/// The settings popup's selection.
#[derive(Debug, Clone)]
pub struct ConfigMenu {
    pub config_menu_selected_idx: usize,
    pub config_menu_subview: ConfigSubView,
    pub config_keybind_selected_idx: usize,
}

/// The add-feed popup's form.
#[derive(Debug, Clone)]
pub struct AddForm {
    pub modal_url_input: String,
    pub modal_folder_input: String,
    /// The first field names an OPML file to import rather than a feed.
    pub modal_is_opml_mode: bool,
    /// 0 for the address field, 1 for the folder field.
    pub modal_focused_field: usize,
    pub modal_error: Option<String>,
    pub modal_is_loading: bool,
}

/// The export popup's form.
#[derive(Debug, Clone)]
pub struct ExportForm {
    pub modal_export_path: String,
    pub modal_export_status: Option<String>,
}

/// The themes on offer and the one in use.
#[derive(Debug, Clone)]
pub struct Themes {
    /// The names of the themes the picker offers, in its order.
    pub theme_names: Vec<String>,
    /// The name of the theme in use.
    pub theme_name: String,
    pub theme_picker_selected_idx: usize,
}

/// Background fetching.
#[derive(Debug, Clone)]
pub struct SyncState {
    pub is_syncing: bool,
    pub pending_fetches: usize,
    pub tick_count: usize,
}

/// The interface state.
#[derive(Debug, Clone)]
pub struct App {
    pub config: AppConfig,
    pub layout: Layout,
    pub library: Library,
    pub view: ArticleView,
    pub search: Search,
    pub popups: Popups,
    pub config_menu: ConfigMenu,
    pub add_form: AddForm,
    pub export_form: ExportForm,
    pub themes: Themes,
    pub sync: SyncState,
    pub should_quit: bool,
}

/// The optional text, or the empty text.
pub open spec fn text_or_empty(o: Option<String>) -> Seq<char> {
    match o {
        Some(s) => s@,
        None => Seq::empty(),
    }
}

/// The article search `q` (already lowercase) finds `a` in its title, its
/// feed's title, its summary or its author.
pub open spec fn article_matches(a: Article, q: Seq<char>) -> bool {
    ||| seq_contains(lowercase_str(a.title@), q)
    ||| seq_contains(lowercase_str(a.feed_title@), q)
    ||| seq_contains(lowercase_str(text_or_empty(a.summary)), q)
    ||| seq_contains(lowercase_str(text_or_empty(a.author)), q)
}

/// The positions of the articles the search `q` finds, in list order.
pub open spec fn match_positions(arts: Seq<Article>, q: Seq<char>) -> Seq<usize>
    decreases arts.len(),
{
    if arts.len() == 0 {
        Seq::empty()
    } else {
        let rest = match_positions(arts.drop_last(), q);
        if article_matches(arts.last(), q) {
            rest.push((arts.len() - 1) as usize)
        } else {
            rest
        }
    }
}

/// The positions of the articles `arts` a list searched for `query` shows:
/// the matches of the lowercase query when it is more than blanks, else all.
#[verifier::opaque]
pub open spec fn positions_shown(arts: Seq<Article>, query: Seq<char>) -> Seq<usize> {
    if trim_spec(query).len() > 0 {
        match_positions(arts, lowercase_str(query))
    } else {
        Seq::new(arts.len(), |i: int| i as usize)
    }
}

/// The positions of the articles the list shows.
pub open spec fn shown_positions(s: App) -> Seq<usize> {
    positions_shown(s.view.articles@, s.search.search_query@)
}

/// How many articles the list shows.
pub open spec fn shown_len(s: App) -> int {
    shown_positions(s).len() as int
}

/// The article the list shows at row `k`.
pub open spec fn shown_article(s: App, k: int) -> Option<Article> {
    if 0 <= k < shown_len(s) {
        Some(s.view.articles@[shown_positions(s)[k] as int])
    } else {
        None
    }
}

/// The selected article, if the selection is on a shown row.
pub open spec fn selected_article(s: App) -> Option<Article> {
    shown_article(s, s.view.article_selected_idx as int)
}

/// The feed finder is narrowing the sidebar: it is open with some query.
pub open spec fn finding_feeds(s: Search) -> bool {
    s.is_searching_feeds && s.feed_search_query@.len() > 0
}

/// `items` are the sidebar rows for these feeds, counts and collapsed
/// folders: the matches of the feed finder while it has a query, else the
/// whole tree.
#[verifier::opaque]
pub open spec fn sidebar_rows_ok(
    feeds: Seq<Feed>,
    counts: UnreadCounts,
    collapsed: Seq<String>,
    finding: bool,
    query: Seq<char>,
    items: Seq<SidebarItem>,
) -> bool {
    if finding {
        is_feed_search_of(feeds, counts, lowercase_str(query), items)
    } else {
        is_sidebar_of(feeds, counts, collapsed, items)
    }
}

/// The sidebar rows agree with the feeds, the counts and the finder.
pub open spec fn sidebar_ok(lib: Library, search: Search) -> bool {
    sidebar_rows_ok(
        lib.feeds@,
        lib.unread_counts,
        lib.collapsed_folders@,
        finding_feeds(search),
        search.feed_search_query@,
        lib.sidebar_items@,
    )
}

/// The effect is a toast with this text.
pub open spec fn toast_text(e: Effect, text: Seq<char>) -> bool {
    e matches Effect::Toast(t) && t@ == text
}

/// The state a start shows: the sidebar on "Today", nothing loaded, no
/// popup open, and the pane ratios of the configuration.
pub open spec fn fresh(s: App, config: AppConfig) -> bool {
    &&& s.config == config
    &&& s.layout.active_pane == ActivePane::Sidebar
    &&& s.layout.sidebar_width_percent == config.sidebar_ratio
    &&& s.layout.article_width_percent == config.article_list_ratio
    &&& s.layout.reader_width_percent == config.reader_ratio
    &&& !s.layout.is_zen_mode
    &&& s.library.feeds@.len() == 0
    &&& s.library.sidebar_items@.len() == 0
    &&& s.library.collapsed_folders@.len() == 0
    &&& s.view.sidebar_selected_idx == 1
    &&& s.view.sidebar_scroll_offset == 0
    &&& s.view.current_filter == CurrentFilter::Smart(SmartFeedKind::Today)
    &&& s.view.current_view_title@ == "Today"@
    &&& s.view.current_view_unread_count == 0
    &&& s.view.articles@.len() == 0
    &&& s.view.article_selected_idx == 0 && s.view.article_scroll_offset == 0 && s.view.reader_scroll_offset == 0
    &&& s.search.search_query@.len() == 0 && !s.search.is_searching
    &&& s.search.feed_search_query@.len() == 0 && !s.search.is_searching_feeds
    &&& !s.popups.show_help_modal && !s.popups.show_config_modal && !s.popups.show_theme_modal
    &&& !s.popups.show_add_modal && !s.popups.show_export_modal && !s.popups.show_delete_modal
    &&& s.config_menu.config_menu_selected_idx == 0
    &&& s.config_menu.config_menu_subview == ConfigSubView::Main && s.config_menu.config_keybind_selected_idx == 0
    &&& s.add_form.modal_url_input@.len() == 0 && s.add_form.modal_folder_input@.len() == 0
    &&& !s.add_form.modal_is_opml_mode && s.add_form.modal_focused_field == 0
    &&& s.add_form.modal_error is None && !s.add_form.modal_is_loading
    &&& s.export_form.modal_export_path@ == "subscriptions.opml"@ && s.export_form.modal_export_status is None
    &&& s.themes.theme_picker_selected_idx == 0
    &&& !s.sync.is_syncing && s.sync.pending_fetches == 0 && s.sync.tick_count == 0
    &&& !s.should_quit
}

/// The sidebar rows for the feeds, counts, finder and collapsed folders.
fn sidebar_rows(lib: &Library, search: &Search) -> (r: Vec<SidebarItem>)
    ensures
        sidebar_ok(Library { sidebar_items: r, ..*lib }, *search),
{
    reveal(sidebar_rows_ok);
    if search.is_searching_feeds && !search.feed_search_query.as_str().is_empty() {
        let q = str_to_lowercase(search.feed_search_query.as_str());
        build_feed_search_items(lib.feeds.as_slice(), &lib.unread_counts, q.as_str())
    } else {
        build_sidebar_items(lib.feeds.as_slice(), &lib.unread_counts, &lib.collapsed_folders)
    }
}

/// The sidebar selection kept on a row of `n`: moved to the last row when
/// past it.
pub open spec fn clamped_to(idx: usize, n: int) -> usize {
    if idx >= n && n > 0 {
        (n - 1) as usize
    } else {
        idx
    }
}

/// The sidebar was rebuilt from the library and the finder, and the
/// selection kept on a row.
pub open spec fn sidebar_rebuilt(a: App, b: App) -> bool {
    &&& sidebar_ok(b.library, b.search)
    &&& b == App {
        library: Library { sidebar_items: b.library.sidebar_items, ..a.library },
        view: ArticleView {
            sidebar_selected_idx: clamped_to(a.view.sidebar_selected_idx, b.library.sidebar_items@.len() as int),
            ..a.view
        },
        ..a
    }
}

impl App {
    /// The state at start, before anything is loaded: `theme_names` are the
    /// themes the picker offers and `theme_name` the one in use.
    pub fn new(config: AppConfig, theme_names: Vec<String>, theme_name: String) -> (r: App)
        ensures
            fresh(r, config),
            r.themes.theme_names == theme_names,
            r.themes.theme_name == theme_name,
    {
        let sidebar = config.sidebar_ratio;
        let article = config.article_list_ratio;
        let reader = config.reader_ratio;
        App {
            config,
            layout: Layout {
                active_pane: ActivePane::Sidebar,
                sidebar_width_percent: sidebar,
                article_width_percent: article,
                reader_width_percent: reader,
                is_zen_mode: false,
            },
            library: Library {
                feeds: Vec::new(),
                sidebar_items: Vec::new(),
                unread_counts: UnreadCounts::default(),
                collapsed_folders: Vec::new(),
            },
            view: ArticleView {
                sidebar_selected_idx: 1,
                sidebar_scroll_offset: 0,
                current_filter: CurrentFilter::Smart(SmartFeedKind::Today),
                current_view_title: "Today".to_owned(),
                current_view_unread_count: 0,
                articles: Vec::new(),
                article_selected_idx: 0,
                article_scroll_offset: 0,
                reader_scroll_offset: 0,
            },
            search: Search {
                search_query: String::new(),
                is_searching: false,
                feed_search_query: String::new(),
                is_searching_feeds: false,
            },
            popups: Popups {
                show_help_modal: false,
                show_config_modal: false,
                show_theme_modal: false,
                show_add_modal: false,
                show_export_modal: false,
                show_delete_modal: false,
            },
            config_menu: ConfigMenu {
                config_menu_selected_idx: 0,
                config_menu_subview: ConfigSubView::Main,
                config_keybind_selected_idx: 0,
            },
            add_form: AddForm {
                modal_url_input: String::new(),
                modal_folder_input: String::new(),
                modal_is_opml_mode: false,
                modal_focused_field: 0,
                modal_error: None,
                modal_is_loading: false,
            },
            export_form: ExportForm {
                modal_export_path: "subscriptions.opml".to_owned(),
                modal_export_status: None,
            },
            themes: Themes { theme_names, theme_name, theme_picker_selected_idx: 0 },
            sync: SyncState { is_syncing: false, pending_fetches: 0, tick_count: 0 },
            should_quit: false,
        }
    }

    /// Rebuilds the sidebar rows from the feeds and counts, as the finder
    /// and the collapsed folders have them, and keeps the selection on a row.
    pub fn rebuild_sidebar_items(&mut self)
        ensures
            sidebar_rebuilt(*old(self), *final(self)),
    {
        let items = sidebar_rows(&self.library, &self.search);
        self.library.sidebar_items = items;
        if self.view.sidebar_selected_idx >= self.library.sidebar_items.len() && self.library.sidebar_items.len() > 0 {
            self.view.sidebar_selected_idx = self.library.sidebar_items.len() - 1;
        }
    }

    /// Takes freshly read feeds, counts and collapsed folders, and rebuilds
    /// the sidebar from them.
    pub fn load_library(&mut self, feeds: Vec<Feed>, counts: UnreadCounts, collapsed: Vec<String>)
        ensures
            sidebar_rebuilt(
                App {
                    library: Library {
                        feeds,
                        unread_counts: counts,
                        collapsed_folders: collapsed,
                        ..old(self).library
                    },
                    ..*old(self)
                },
                *final(self),
            ),
    {
        self.library.feeds = feeds;
        self.library.unread_counts = counts;
        self.library.collapsed_folders = collapsed;
        self.rebuild_sidebar_items();
    }

    /// The positions of the articles the list shows, in order.
    pub fn shown_positions(&self) -> (r: Vec<usize>)
        ensures
            r@ == shown_positions(*self),
    {
        reveal(positions_shown);
        let trimmed = trim_chars(&chars_of(self.search.search_query.as_str()));
        let n = self.view.articles.len();
        let mut r: Vec<usize> = Vec::new();
        if trimmed.len() == 0 {
            let mut i: usize = 0;
            while i < n
                invariant
                    i <= n,
                    n == self.view.articles@.len(),
                    r@ == Seq::new(i as nat, |k: int| k as usize),
                decreases n - i,
            {
                r.push(i);
                i = i + 1;
                assert(r@ =~= Seq::new(i as nat, |k: int| k as usize));
            }
            return r;
        }
        let q = chars_of(str_to_lowercase(self.search.search_query.as_str()).as_str());
        let mut i: usize = 0;
        while i < n
            invariant
                i <= n,
                n == self.view.articles@.len(),
                q@ == lowercase_str(self.search.search_query@),
                r@ == match_positions(self.view.articles@.take(i as int), q@),
            decreases n - i,
        {
            let a = &self.view.articles[i];
            proof {
                assert(self.view.articles@.take(i as int + 1).drop_last() =~= self.view.articles@.take(i as int));
                assert(self.view.articles@.take(i as int + 1).last() == *a);
            }
            if article_matches_exec(a, &q) {
                r.push(i);
            }
            i = i + 1;
        }
        assert(self.view.articles@.take(n as int) =~= self.view.articles@);
        r
    }

    /// The article the list shows at row `k`.
    pub fn shown_article(&self, k: usize) -> (r: Option<&Article>)
        ensures
            match r {
                Some(a) => shown_article(*self, k as int) == Some(*a),
                None => shown_article(*self, k as int) is None,
            },
    {
        let pos = self.shown_positions();
        if k < pos.len() {
            proof {
                lemma_shown_in_range(*self);
            }
            Some(&self.view.articles[pos[k]])
        } else {
            None
        }
    }

    /// Copies of the articles the list shows, in order: all of them, or
    /// those the search matches.
    pub fn get_filtered_articles(&self) -> (r: Vec<Article>)
        ensures
            r@ == shown_positions(*self).map_values(|p: usize| self.view.articles@[p as int]),
    {
        let positions = self.shown_positions();
        proof {
            lemma_shown_in_range(*self);
        }
        let mut r: Vec<Article> = Vec::new();
        let mut i: usize = 0;
        while i < positions.len()
            invariant
                i <= positions.len(),
                positions@ == shown_positions(*self),
                forall|k: int| 0 <= k < positions@.len() ==> (#[trigger] positions@[k] as int) < self.view.articles@.len(),
                r@ == positions@.take(i as int).map_values(|p: usize| self.view.articles@[p as int]),
            decreases positions.len() - i,
        {
            let a = clone_article(&self.view.articles[positions[i]]);
            r.push(a);
            i = i + 1;
            assert(r@ =~= positions@.take(i as int).map_values(|p: usize| self.view.articles@[p as int]));
        }
        assert(positions@.take(positions@.len() as int) =~= positions@);
        r
    }

    /// How many articles the list shows.
    pub fn shown_count(&self) -> (r: usize)
        ensures
            r == shown_len(*self),
    {
        self.shown_positions().len()
    }
}

/// Does the search `q` find `a`?
fn article_matches_exec(a: &Article, q: &Vec<char>) -> (r: bool)
    ensures
        r == article_matches(*a, q@),
{
    if contains_chars(&chars_of(str_to_lowercase(a.title.as_str()).as_str()), q) {
        return true;
    }
    if contains_chars(&chars_of(str_to_lowercase(a.feed_title.as_str()).as_str()), q) {
        return true;
    }
    proof {
        reveal_strlit("");
    }
    let summary = match &a.summary {
        Some(s) => s.as_str(),
        None => "",
    };
    assert(summary@ == text_or_empty(a.summary));
    if contains_chars(&chars_of(str_to_lowercase(summary).as_str()), q) {
        return true;
    }
    let author = match &a.author {
        Some(s) => s.as_str(),
        None => "",
    };
    assert(author@ == text_or_empty(a.author));
    contains_chars(&chars_of(str_to_lowercase(author).as_str()), q)
}

proof fn lemma_match_positions_has(arts: Seq<Article>, q: Seq<char>, i: usize)
    requires
        i < arts.len(),
        arts.len() <= usize::MAX,
    ensures
        match_positions(arts, q).contains(i) <==> article_matches(arts[i as int], q),
    decreases arts.len(),
{
    let rest = match_positions(arts.drop_last(), q);
    lemma_match_positions_in_range(arts.drop_last(), q);
    let full = match_positions(arts, q);
    let m = article_matches(arts.last(), q);
    assert(m ==> full == rest.push((arts.len() - 1) as usize));
    assert(!m ==> full == rest);
    if (i as int) < arts.len() - 1 {
        lemma_match_positions_has(arts.drop_last(), q, i);
        assert(arts.drop_last()[i as int] == arts[i as int]);
        if full.contains(i) {
            let k = choose|k: int| 0 <= k < full.len() && full[k] == i;
            if m && k == rest.len() {
                assert(false);
            }
            assert(rest[k] == i);
            assert(rest.contains(i));
        }
        if rest.contains(i) {
            let k = choose|k: int| 0 <= k < rest.len() && rest[k] == i;
            assert(full[k] == rest[k]);
            assert(full.contains(i));
        }
    } else {
        assert(arts.last() == arts[i as int]);
        if m {
            assert(full[rest.len() as int] == i);
            assert(full.contains(i));
        } else if full.contains(i) {
            let k = choose|k: int| 0 <= k < full.len() && full[k] == i;
            assert((rest[k] as int) < arts.drop_last().len());
            assert(false);
        }
    }
}

proof fn lemma_match_positions_sorted(arts: Seq<Article>, q: Seq<char>)
    requires
        arts.len() <= usize::MAX,
    ensures
        forall|a: int, b: int| 0 <= a < b < match_positions(arts, q).len()
            ==> #[trigger] match_positions(arts, q)[a] < #[trigger] match_positions(arts, q)[b],
    decreases arts.len(),
{
    if arts.len() > 0 {
        let d = arts.drop_last();
        lemma_match_positions_sorted(d, q);
        lemma_match_positions_in_range(d, q);
        let rest = match_positions(d, q);
        let full = match_positions(arts, q);
        assert forall|a: int, b: int| 0 <= a < b < full.len() implies #[trigger] full[a] < #[trigger] full[b] by {
            if b < rest.len() {
                assert(full[a] == rest[a] && full[b] == rest[b]);
            } else {
                assert(full[a] == rest[a]);
                assert((rest[a] as int) < d.len());
                assert(full[b] == (arts.len() - 1) as usize);
            }
        }
    }
}

/// The articles a list shows stand in list order, each once, and are
/// articles of the list.
pub proof fn lemma_shown_in_list_order(arts: Seq<Article>, query: Seq<char>)
    requires
        arts.len() <= usize::MAX,
    ensures
        forall|a: int, b: int| 0 <= a < b < positions_shown(arts, query).len()
            ==> #[trigger] positions_shown(arts, query)[a] < #[trigger] positions_shown(arts, query)[b],
        forall|a: int| 0 <= a < positions_shown(arts, query).len() ==> (#[trigger] positions_shown(arts, query)[a] as int) < arts.len(),
{
    reveal(positions_shown);
    lemma_match_positions_sorted(arts, lowercase_str(query));
    lemma_match_positions_in_range(arts, lowercase_str(query));
}

/// The article list searched for a query that is more than blanks shows an
/// article exactly when the lowercased query occurs in its lowercased
/// title, feed title, summary or author; a blank query shows every article.
pub proof fn lemma_search_shows_matches(arts: Seq<Article>, query: Seq<char>, i: usize)
    requires
        i < arts.len(),
        arts.len() <= usize::MAX,
    ensures
        trim_spec(query).len() > 0 ==> (positions_shown(arts, query).contains(i) <==> {
            let q = lowercase_str(query);
            ||| seq_contains(lowercase_str(arts[i as int].title@), q)
            ||| seq_contains(lowercase_str(arts[i as int].feed_title@), q)
            ||| seq_contains(lowercase_str(match arts[i as int].summary { Some(s) => s@, None => Seq::empty() }), q)
            ||| seq_contains(lowercase_str(match arts[i as int].author { Some(s) => s@, None => Seq::empty() }), q)
        }),
        trim_spec(query).len() == 0 ==> positions_shown(arts, query).contains(i),
{
    reveal(positions_shown);
    if trim_spec(query).len() > 0 {
        lemma_match_positions_has(arts, lowercase_str(query), i);
    } else {
        assert(positions_shown(arts, query)[i as int] == i);
    }
}

proof fn lemma_match_positions_in_range(arts: Seq<Article>, q: Seq<char>)
    ensures
        forall|k: int| 0 <= k < match_positions(arts, q).len() ==> (#[trigger] match_positions(arts, q)[k] as int) < arts.len(),
    decreases arts.len(),
{
    if arts.len() > 0 {
        lemma_match_positions_in_range(arts.drop_last(), q);
        let rest = match_positions(arts.drop_last(), q);
        assert forall|k: int| 0 <= k < match_positions(arts, q).len() implies (#[trigger] match_positions(arts, q)[k] as int) < arts.len() by {
            if k < rest.len() {
                assert((rest[k] as int) < arts.drop_last().len());
            }
        }
    }
}

/// Every shown position is that of an article.
pub proof fn lemma_shown_in_range(s: App)
    ensures
        forall|k: int| 0 <= k < shown_len(s) ==> (#[trigger] shown_positions(s)[k] as int) < s.view.articles@.len(),
{
    reveal(positions_shown);
    lemma_match_positions_in_range(s.view.articles@, lowercase_str(s.search.search_query@));
}

} // verus!
