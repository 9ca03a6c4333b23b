use chrono::Utc;
use ratarss::config::AppConfig;
use ratarss::fetcher::{discover_feed_url, next_step, resolve_url, build_feed_update, FetchStep, ParsedEntry, ParsedFeed};
use ratarss::model::{Article, Feed};
use ratarss::opml::{export_opml, generate_feed_id, new_feed_for, parse_opml_str};
use ratarss::reader::{render_article_to_text, wrap_text};
use ratarss::sample_data::default_feeds;
use ratarss::storage::Database;
use ratarss::theme::{parse_color, find_preset, TermColor};
use ratarss::ui::widgets::{pane_padding, visible_window};
use ratarss::ui::sidebar::{sidebar_row, RowTone};
use ratarss::ui::config_menu::{binding_rows, list_scroll_of, settings_rows};
use ratarss::ui::article_list::{card_text, relative_time_label};
use ratarss::model::{SidebarItem, SmartFeedKind};

fn article(n: usize) -> Article {
    Article {
        id: format!("a{n}"),
        feed_id: "f".to_string(),
        feed_title: "Feed".to_string(),
        title: format!("Article {n}"),
        author: None,
        summary: Some("summary".to_string()),
        content: None,
        url: "https://example.com".to_string(),
        published: Some(1_700_000_000),
        read: false,
        starred: false,
        created_at: 1_700_000_000,
    }
}

#[test]
fn test_opml_roundtrip() {
    let feeds = vec![
        Feed::new(
            "bloomberg".to_string(),
            "Bloomberg Markets".to_string(),
            "https://feeds.bloomberg.com/markets/news.rss".to_string(),
            Some("https://bloomberg.com".to_string()),
            Some("Fin Econ".to_string()),
        ),
        Feed::new(
            "hn".to_string(),
            "Hacker News".to_string(),
            "https://news.ycombinator.com/rss".to_string(),
            None,
            None,
        ),
    ];

    let xml = export_opml(&feeds, "Subscriptions").expect("export failed");
    assert!(xml.contains("Bloomberg Markets"));
    assert!(xml.contains("Fin Econ"));
    assert!(xml.contains("https://news.ycombinator.com/rss"));

    let parsed = parse_opml_str(&xml).expect("parse failed");
    assert_eq!(parsed.len(), 2);
}

#[test]
fn test_reader_rendering() {
    let article = Article {
        id: "test-1".to_string(),
        feed_id: "test-feed".to_string(),
        feed_title: "Tech News".to_string(),
        title: "Rust 2026 Edition Released".to_string(),
        author: Some("Ferris".to_string()),
        summary: Some("Summary preview".to_string()),
        content: Some(
            "<p>Hello <strong>World</strong>!</p><blockquote>Quoted wisdom</blockquote>".to_string(),
        ),
        url: "https://example.com/rust".to_string(),
        published: Some(Utc::now().timestamp()),
        read: false,
        starred: true,
        created_at: Utc::now().timestamp(),
    };

    let formatted = render_article_to_text(&article, None, 80);
    assert!(formatted.total_lines > 0);
    assert!(formatted.links.contains(&"https://example.com/rust".to_string()));
}

#[test]
fn html_with_multibyte_characters_after_tags_renders() {
    let mut a = article(1);
    a.title = "Curly ’quotes’".to_string();

    for html in [
        "<p>It’s fine</p>",
        "<’>",
        "<b>—</b><br/>naïve café ’’’",
        "<blockquote>“Quoted”</blockquote><li>é</li>",
    ] {
        let formatted = render_article_to_text(&a, Some(html), 40);
        assert!(formatted.total_lines > 0, "{html:?} produced nothing");
    }
}

#[test]
fn old_search_binding_migrates_but_custom_one_survives() {
    let mut cfg = AppConfig::default();
    cfg.theme = "Nord".to_string();
    cfg.keybindings.search = "ctrl+f, ctrl+s".to_string();
    assert_eq!(cfg.keybindings.search_feeds, "ctrl+f");
    cfg.keybindings.migrate();
    assert_eq!(cfg.keybindings.search, "ctrl+a");

    let mut custom = AppConfig::default();
    custom.keybindings.search = "ctrl+k".to_string();
    custom.keybindings.migrate();
    assert_eq!(custom.keybindings.search, "ctrl+k");
}

#[test]
fn reader_lays_out_header_body_and_links() {
    let mut a = article(1);
    a.author = Some("Ferris".to_string());
    let html = "<h1>Big</h1><p>See <a href=\"https://example.com/x\">this</a> now.</p>";
    let f = render_article_to_text(&a, Some(html), 44);
    assert_eq!(f.links, vec!["https://example.com".to_string(), "https://example.com/x".to_string()]);
    let text: Vec<String> = f.lines.iter().map(|l| l.iter().map(|s| s.text.as_str()).collect()).collect();
    assert_eq!(text[0], "FEED • Ferris");
    assert_eq!(text[2], "Article 1");
    assert!(text.iter().any(|l| l == "Big"));
    assert!(text.iter().any(|l| l == "See this now."));
    assert_eq!(f.total_lines, f.lines.len());
    // A body with nothing in it gets a note.
    let empty = render_article_to_text(&a, Some("   "), 44);
    let all: Vec<String> = empty.lines.iter().map(|l| l.iter().map(|s| s.text.as_str()).collect()).collect();
    assert!(all.iter().any(|l| l == "No content preview available."));
}

#[test]
fn wrapping_keeps_words_whole() {
    assert_eq!(wrap_text("the quick brown fox", 9), vec!["the quick", "brown fox"]);
    assert_eq!(wrap_text("a\nb", 10), vec!["a", "b"]);
    assert_eq!(wrap_text("", 10), vec![""]);
    assert_eq!(wrap_text("unbreakableword", 4), vec!["unbreakableword"]);
}

#[test]
fn colors_parse_from_hex_and_names() {
    assert_eq!(parse_color("#ff8000"), TermColor::Rgb(255, 128, 0));
    assert_eq!(parse_color("#f80"), TermColor::Rgb(255, 136, 0));
    assert_eq!(parse_color(" light_blue "), TermColor::LightBlue);
    assert_eq!(parse_color("Reset"), TermColor::Reset);
    assert_eq!(parse_color("nonsense"), TermColor::Reset);
}

#[test]
fn presets_are_found_by_name_and_old_alias() {
    let names = vec!["RataRSS Dark".to_string(), "RataRSS Light".to_string(), "Nord".to_string()];
    assert_eq!(find_preset(&names, "nord"), Some(2));
    assert_eq!(find_preset(&names, "NetNewsWire Dark"), Some(0));
    assert_eq!(find_preset(&names, "NetNewsWire Light"), Some(1));
    assert_eq!(find_preset(&names, "Nope"), None);
}

#[test]
fn feed_ids_are_stable_and_hex() {
    let a = generate_feed_id("https://example.com/feed");
    let b = generate_feed_id("https://example.com/feed");
    let c = generate_feed_id("https://example.com/other");
    assert_eq!(a, b);
    assert_ne!(a, c);
    assert!(a.starts_with("feed-"));
    assert_eq!(a.len(), "feed-".len() + 16);
    assert!(a["feed-".len()..].chars().all(|ch| ch.is_ascii_hexdigit()));

    let f = new_feed_for("https://example.com/feed", Some("Tech".to_string()));
    assert_eq!(f.id, a);
    assert_eq!(f.title, "Loading feed...");
    assert_eq!(f.folder.as_deref(), Some("Tech"));
}

#[test]
fn opml_folders_nest_and_titles_fall_back() {
    let xml = r#"<?xml version="1.0"?>
<opml version="2.0"><head><title>x</title></head><body>
<outline text="Tech"><outline text="Site" xmlUrl="https://a.org/rss"/></outline>
<outline title="Loose" xmlUrl="https://b.org/rss" htmlUrl="https://b.org"/>
<outline xmlUrl="https://c.org/rss"/>
</body></opml>"#;
    let feeds = parse_opml_str(xml).expect("parse failed");
    assert_eq!(feeds.len(), 3);
    assert_eq!(feeds[0].title, "Site");
    assert_eq!(feeds[0].folder.as_deref(), Some("Tech"));
    assert_eq!(feeds[1].title, "Loose");
    assert_eq!(feeds[1].folder, None);
    assert_eq!(feeds[1].site_url.as_deref(), Some("https://b.org"));
    assert_eq!(feeds[2].url, "https://c.org/rss");
    let bad = parse_opml_str("<opml></body>");
    assert!(bad.unwrap_err().starts_with("OPML XML parse error: "));
}

#[test]
fn relative_feed_links_resolve_against_the_page() {
    assert_eq!(resolve_url("https://a.org/blog/", "https://b.org/rss"), "https://b.org/rss");
    assert_eq!(resolve_url("https://a.org/blog/", "feed.xml"), "https://a.org/blog/feed.xml");
    assert_eq!(resolve_url("https://a.org/blog/", "/rss"), "https://a.org/rss");
    let page = r#"<html><head><link rel="alternate" type="application/rss+xml" href="/rss.xml"></head></html>"#;
    assert_eq!(discover_feed_url(page, "https://a.org/x"), Some("https://a.org/rss.xml".to_string()));
    assert_eq!(discover_feed_url("<html></html>", "https://a.org/x"), Some("https://a.org/feed".to_string()));
    assert_eq!(discover_feed_url("<html></html>", "not a url"), None);
}

fn entry(id: &str, title: Option<&str>) -> ParsedEntry {
    ParsedEntry {
        id: id.to_string(),
        title: title.map(|t| t.to_string()),
        links: vec![format!("https://a.org/{id}")],
        authors: vec!["Ann".to_string()],
        summary: Some("<p>Short &amp; sweet</p>".to_string()),
        content: None,
        published: Some(1_600_000_000),
        updated: None,
    }
}

#[test]
fn a_fetched_feed_takes_its_title_and_articles() {
    let feed = Feed::new("f1".to_string(), "Untitled Feed".to_string(), "https://a.org/rss".to_string(), None, None);
    let parsed = ParsedFeed {
        title: Some("A <b>Site</b>".to_string()),
        links: vec!["https://a.org".to_string()],
        entries: vec![entry("e1", Some("One")), entry("e2", None)],
    };
    let (f, articles) = build_feed_update(&feed, &parsed, 1_700_000_000);
    assert_eq!(f.title, "A Site");
    assert_eq!(f.last_updated, Some(1_700_000_000));
    assert_eq!(f.error, None);
    assert_eq!(articles.len(), 2);
    assert_eq!(articles[0].feed_id, "f1");
    assert_eq!(articles[0].title, "One");
    assert_eq!(articles[0].url, "https://a.org/e1");
    assert_eq!(articles[0].author.as_deref(), Some("Ann"));
    assert_eq!(articles[0].published, Some(1_600_000_000));

    match next_step(&feed, Err("bad xml".to_string()), None, 5) {
        FetchStep::Failed(m) => assert!(m.contains("bad xml")),
        other => panic!("expected a failure, got {other:?}"),
    }
}

#[test]
fn windows_keep_the_selection_visible() {
    assert_eq!(visible_window(0, 0, 5, 20), (0, 5));
    let (start, end) = visible_window(12, 0, 5, 20);
    assert!(start <= 12 && 12 < end);
    assert_eq!(end - start, 5);
    let (start, end) = visible_window(2, 10, 5, 20);
    assert!(start <= 2 && 2 < end);
    assert_eq!(pane_padding(2, 100), (2, 96));
}

#[test]
fn sample_library_and_database_path() {
    let feeds = default_feeds();
    assert_eq!(feeds.len(), 10);
    assert!(feeds.iter().all(|f| f.error.is_none() && f.last_updated.is_none()));
    let db = Database::at_path("/tmp/x.db".to_string());
    assert_eq!(db.get_path(), "/tmp/x.db");
}

fn line_width(f: &ratarss::reader::FormattedArticle, i: usize) -> u16 {
    f.lines[i].iter().map(|s| unicode_width::UnicodeWidthStr::width(s.text.as_str())).sum::<usize>() as u16
}

#[test]
fn body_links_are_styled_and_hit_testable() {
    let a = article(1);
    let html = "<p>Go read <a href=\"https://example.com/story\">this fine story</a> today \
                and then <a href=\"https://example.com/other\">another</a>.</p>";

    let formatted = render_article_to_text(&a, Some(html), 60);

    assert!(formatted.links.iter().any(|l| l == "https://example.com/story"));
    assert!(formatted.links.iter().any(|l| l == "https://example.com/other"));

    // Every hit must land on the text it claims to cover.
    assert!(!formatted.hits.is_empty());
    for hit in &formatted.hits {
        let url = formatted.links[hit.link].clone();
        let found = formatted
            .link_at(hit.line, hit.start_col)
            .expect("hit start must resolve to its link");
        assert_eq!(found, url);
        assert_eq!(formatted.link_at(hit.line, hit.end_col - 1).unwrap(), url);
        // The columns must be inside the line that was drawn.
        let line_width = line_width(&formatted, hit.line);
        assert!(
            hit.end_col <= line_width,
            "hit {:?} runs past its {line_width}-wide line",
            hit
        );
    }

    // A column outside every hit is not a link.
    let body_hit = formatted.hits.last().unwrap();
    assert!(formatted.link_at(body_hit.line, body_hit.end_col).is_none());
}

#[test]
fn header_url_and_wrapped_links_resolve() {
    let a = article(1);
    let long = "<p><a href=\"https://example.com/x\">a very long anchor label that will \
                certainly need to wrap across more than one line of the pane</a></p>";

    let formatted = render_article_to_text(&a, Some(long), 40);

    // article(1).url is https://example.com
    assert!(formatted.links.iter().any(|l| l == "https://example.com"));
    let header = formatted.hits.first().unwrap();
    assert_eq!(
        formatted.link_at(header.line, header.start_col).unwrap(),
        "https://example.com"
    );

    let wrapped: Vec<_> = formatted
        .hits
        .iter()
        .filter(|h| formatted.links[h.link] == "https://example.com/x")
        .collect();
    assert!(wrapped.len() > 1, "the long anchor should span several lines");
    let lines: std::collections::BTreeSet<usize> = wrapped.iter().map(|h| h.line).collect();
    assert!(lines.len() > 1);
}

#[test]
fn link_hits_name_the_words_they_cover() {
    let a = article(1);
    let f = render_article_to_text(&a, Some("<p>x <a href=\"https://b.org\">two words</a> y</p>"), 80);
    let body: Vec<_> = f.hits.iter().filter(|h| f.links[h.link] == "https://b.org").collect();
    assert_eq!(body.len(), 2);
    let line: String = f.lines[body[0].line].iter().map(|s| s.text.as_str()).collect();
    assert_eq!(line, "x two words y");
    assert_eq!((body[0].start_col, body[0].end_col), (2, 5));
    assert_eq!((body[1].start_col, body[1].end_col), (6, 11));
    assert_eq!(f.link_at(body[0].line, 1), None);
    assert_eq!(f.link_at(body[0].line, 7), Some("https://b.org".to_string()));
    // The header address sits after the link icon.
    assert_eq!(f.hits[0].link, 0);
    assert_eq!(f.hits[0].start_col, 3);
}

#[test]
fn an_export_reads_back_folder_by_folder() {
    let mut feeds = default_feeds();
    feeds[0].site_url = None;
    let xml = export_opml(&feeds, "Mine").expect("export failed");
    assert!(xml.starts_with("<?xml version=\"1.0\" encoding=\"UTF-8\"?>"));
    let back = parse_opml_str(&xml).expect("parse failed");
    assert_eq!(back.len(), feeds.len());
    // Loose feeds first, then "2020s", then "Fin Econ", each in list order.
    let folders: Vec<Option<&str>> = back.iter().map(|f| f.folder.as_deref()).collect();
    let mut expected: Vec<Option<&str>> = Vec::new();
    for key in [None, Some("2020s"), Some("Fin Econ")] {
        for f in &feeds {
            if f.folder.as_deref() == key {
                expected.push(key);
            }
        }
    }
    assert_eq!(folders, expected);
    for f in &feeds {
        let g = back.iter().find(|g| g.url == f.url).expect("every feed comes back");
        assert_eq!(g.title, f.title);
        assert_eq!(g.site_url, f.site_url);
        assert_eq!(g.folder, f.folder);
        assert_eq!(g.id, generate_feed_id(&f.url));
    }
}

#[test]
fn sample_articles_are_dated_before_now() {
    let now = 1_750_000_000;
    let articles = ratarss::sample_data::sample_articles(now);
    assert_eq!(articles.len(), 6);
    let ages: Vec<i64> = articles.iter().map(|a| now - a.created_at).collect();
    assert_eq!(ages, vec![900, 2880, 7200, 10800, 14400, 21600]);
    assert!(articles.iter().all(|a| a.published == Some(a.created_at)));
    assert_eq!(articles[0].id, "nse-ipo-bloomberg");
    assert!(articles[0].starred && !articles[0].read);
    assert!(articles[3].read);
}

const RSS: &str = r#"<?xml version="1.0"?>
<rss version="2.0"><channel><title>Example &amp; Co</title><link>https://ex.org</link>
<item><title>First post</title><link>https://ex.org/1</link><guid>p1</guid>
<description>&lt;p&gt;Hello there&lt;/p&gt;</description><pubDate>Tue, 14 Nov 2023 22:13:20 GMT</pubDate></item>
</channel></rss>"#;

#[test]
fn rss_documents_parse_into_plain_values() {
    let parsed = ratarss::fetcher::parse_feed_bytes(RSS.as_bytes()).expect("rss parses");
    assert_eq!(parsed.title.as_deref(), Some("Example & Co"));
    assert!(parsed.links.first().map(|s| s.starts_with("https://ex.org")).unwrap_or(false));
    assert_eq!(parsed.entries.len(), 1);
    let e = &parsed.entries[0];
    assert_eq!(e.id, "p1");
    assert_eq!(e.title.as_deref(), Some("First post"));
    assert_eq!(e.published, Some(1_700_000_000));
    assert!(ratarss::fetcher::parse_feed_bytes(b"not a feed").is_err());
}

#[test]
fn a_download_becomes_the_feed_and_its_articles() {
    let feed = Feed::new("f".to_string(), "Untitled Feed".to_string(), "https://ex.org/rss".to_string(), None, None);
    match ratarss::fetcher::after_download(&feed, RSS.as_bytes(), 1_800_000_000) {
        FetchStep::Done(f, articles) => {
            assert_eq!(f.title, "Example & Co");
            assert_eq!(f.last_updated, Some(1_800_000_000));
            assert_eq!(articles.len(), 1);
            assert_eq!(articles[0].id, "f-p1");
            assert_eq!(articles[0].summary.as_deref(), Some("Hello there"));
            assert_eq!(articles[0].created_at, 1_800_000_000);
        }
        other => panic!("expected a feed, got {other:?}"),
    }
    let page = r#"<html><link rel="alternate" type="application/atom+xml" href="https://ex.org/atom"></html>"#;
    match ratarss::fetcher::after_download(&feed, page.as_bytes(), 1) {
        FetchStep::FetchDiscovered(url) => assert_eq!(url, "https://ex.org/atom"),
        other => panic!("expected a discovered feed, got {other:?}"),
    }
}

#[test]
fn the_reader_dates_articles_in_capitals() {
    let a = article(1);
    let f = render_article_to_text(&a, None, 80);
    let text: Vec<String> = f.lines.iter().map(|l| l.iter().map(|s| s.text.as_str()).collect()).collect();
    assert!(text.iter().any(|l| l == "14 NOV 2023 AT 10:13 PM UTC"), "{text:?}");
}

fn feed_item(title: &str, folder: Option<&str>, unread: usize, has_error: bool) -> SidebarItem {
    SidebarItem::Feed {
        feed_id: "f".to_string(),
        title: title.to_string(),
        folder: folder.map(|f| f.to_string()),
        unread_count: unread,
        has_error,
    }
}

#[test]
fn sidebar_rows_show_marker_status_and_pill() {
    let row = sidebar_row(&feed_item("Rust Blog", None, 3, false), false, false, 30);
    assert_eq!(row.text, "    • Rust Blog");
    assert_eq!(row.badge, Some("3".to_string()));
    assert_eq!(row.tone, RowTone::FeedStrong);

    let row = sidebar_row(&feed_item("Quiet", None, 0, false), false, false, 30);
    assert_eq!(row.text, "      Quiet");
    assert_eq!(row.badge, None);
    assert_eq!(row.tone, RowTone::FeedDim);

    let row = sidebar_row(&feed_item("Hacker News", Some("Tech"), 0, true), true, true, 16);
    assert_eq!(row.text, "▸      ⚠️ Hac…");
    assert_eq!(row.badge, None);
    assert_eq!(row.tone, RowTone::FeedStrong);

    let row = sidebar_row(&feed_item("Hacker News", Some("Tech"), 2, true), false, false, 40);
    assert_eq!(row.text, "       ! Hacker News");
}

#[test]
fn sidebar_pill_needs_room_beside_the_text() {
    // No room for the title: it shrinks to an ellipsis, seven cells of
    // text; with a pill of three and one spare cell, eleven is not enough.
    let row = sidebar_row(&feed_item("Blog", None, 5, false), false, false, 10);
    assert_eq!(row.text, "    • …");
    assert_eq!(row.badge, None);
    let row = sidebar_row(&feed_item("Blog", None, 5, false), false, false, 11);
    assert_eq!(row.badge, None);
    let row = sidebar_row(&feed_item("Blog", None, 5, false), false, false, 12);
    assert_eq!(row.text, "    • …");
    assert_eq!(row.badge, Some("5".to_string()));
}

#[test]
fn sidebar_headers_folders_and_smart_views() {
    let row = sidebar_row(&SidebarItem::SmartHeader, false, true, 30);
    assert_eq!(row.text, " SMART FEEDS");
    assert_eq!(row.badge, None);
    assert_eq!(row.tone, RowTone::Heading);

    let folder = SidebarItem::FolderHeader { name: "Tech".to_string(), is_expanded: true, unread_count: 12, feed_count: 2 };
    let row = sidebar_row(&folder, true, true, 30);
    assert_eq!(row.text, " ▸ ▾ 📂 Tech");
    assert_eq!(row.badge, Some("12".to_string()));
    assert_eq!(row.tone, RowTone::Folder);
    let closed = SidebarItem::FolderHeader { name: "Tech".to_string(), is_expanded: false, unread_count: 0, feed_count: 2 };
    assert_eq!(sidebar_row(&closed, false, false, 30).text, "   ▸ Tech");

    let smart = SidebarItem::Smart(SmartFeedKind::AllUnread, 7);
    let row = sidebar_row(&smart, false, false, 30);
    assert_eq!(row.text, "   All Unread");
    assert_eq!(row.badge, Some("7".to_string()));
    assert_eq!(row.tone, RowTone::Smart);
    let row = sidebar_row(&smart, true, true, 30);
    assert_eq!(row.text, " ▸ 🔵  All Unread");
}

fn card_article(title: &str, summary: Option<&str>, read: bool, starred: bool, published: Option<i64>, created_at: i64) -> Article {
    Article {
        id: "a1".to_string(),
        feed_id: "f1".to_string(),
        feed_title: "Blog".to_string(),
        title: title.to_string(),
        author: None,
        summary: summary.map(|s| s.to_string()),
        content: None,
        url: String::new(),
        published,
        read,
        starred,
        created_at,
    }
}

#[test]
fn relative_labels_follow_the_age() {
    let now: i64 = 1_700_000_000;
    assert_eq!(relative_time_label(now, now - 30), Some("Just now".to_string()));
    assert_eq!(relative_time_label(now, now + 3600), Some("Just now".to_string()));
    assert_eq!(relative_time_label(now, now - 5 * 60), Some("5m ago".to_string()));
    // 2023-11-14 22:13:20 UTC is `now`; three hours earlier is 07:13 PM.
    assert_eq!(relative_time_label(now, now - 3 * 3600), Some("07:13 PM".to_string()));
    assert_eq!(relative_time_label(now, now - 30 * 3600), Some("Yesterday".to_string()));
    assert_eq!(relative_time_label(now, now - 3 * 86400), Some("Sat 10:13 PM".to_string()));
    assert_eq!(relative_time_label(now, now - 30 * 86400), Some("Oct 15".to_string()));
}

#[test]
fn cards_truncate_to_the_width_and_place_the_time() {
    let now: i64 = 1_700_000_000;
    let a = card_article("A rather long article title", Some("First line of the summary"), false, true, Some(now - 120), 0);
    let card = card_text(&a, 20, now);
    assert_eq!(card.dot, "● ");
    assert_eq!(card.star, "★ ");
    // 20 - (4 + 1) = 15 characters: 14 of the title and an ellipsis.
    assert_eq!(card.title, "A rather long …");
    assert_eq!(card.summary, "First line of …");
    assert_eq!(card.feed, "    Blog");
    // Feed line 8 cells, label "2m ago " 7, two more: 20 > 17.
    assert_eq!(card.time, Some("2m ago ".to_string()));

    let narrow = card_text(&a, 16, now);
    assert_eq!(narrow.time, None);

    let read = card_article("Short", None, true, false, None, now - 10);
    let card = card_text(&read, 40, now);
    assert_eq!(card.dot, "  ");
    assert_eq!(card.star, "");
    assert_eq!(card.title, "Short");
    assert_eq!(card.summary, "");
    assert_eq!(card.time, Some("Just now ".to_string()));
}

#[test]
fn settings_rows_show_each_setting() {
    let mut c = AppConfig::default();
    c.show_icons = false;
    c.auto_refresh_on_startup = true;
    c.mark_read_on_open = false;
    c.refresh_interval_minutes = 30;
    c.sidebar_ratio = 20;
    c.article_list_ratio = 35;
    c.reader_ratio = 45;
    let rows = settings_rows(&c);
    assert_eq!(rows.len(), 8);
    assert_eq!(rows[0].0, "Theme");
    assert_eq!(rows[0].1, format!("◀  {}  ▶ (Enter / ← / → to change)", c.theme));
    assert_eq!(rows[1], ("Auto-Refresh on Startup".to_string(), "[✓] Enabled (Space / Enter to toggle)".to_string()));
    assert_eq!(rows[2].1, "◀  30 minutes  ▶ (← / → to change)");
    assert_eq!(rows[3].1, "[ ] Disabled (Space / Enter to toggle)");
    assert_eq!(rows[6], ("Layout Pane Ratios".to_string(), "Sidebar: 20%  |  Articles: 35%  |  Reader: 45%  (← / → adjust, = reset)".to_string()));
    assert_eq!(rows[7].1, "View & configure shortcuts (Press Enter to open)");
    c.show_icons = true;
    let rows = settings_rows(&c);
    assert_eq!(rows[0].0, "🎨 Theme");
    assert_eq!(rows[5], ("🖼️  Show Badges & Icons".to_string(), "[✓] Enabled (Space / Enter to toggle)".to_string()));
}

#[test]
fn binding_rows_list_the_configured_keys() {
    let c = AppConfig::default();
    let k = &c.keybindings;
    let rows = binding_rows(k);
    assert_eq!(rows.len(), 26);
    assert_eq!(rows[0], ("Toggle Config Menu".to_string(), k.toggle_config.clone(), "Open / close this popup".to_string()));
    assert_eq!(rows[19].1, "1, 2, 3");
    assert_eq!(rows[20].1, format!("{}, {}", k.nav_down, k.nav_up));
    assert_eq!(rows[24].1, "< / > / [ / ] / + / -");
    assert_eq!(rows[25], ("Reset Layout".to_string(), k.reset_layout.clone(), "Reset ratios to defaults".to_string()));
}

#[test]
fn long_lists_scroll_to_keep_the_selection_in_sight() {
    assert_eq!(list_scroll_of(0, 10, 26), 0);
    assert_eq!(list_scroll_of(9, 10, 26), 0);
    assert_eq!(list_scroll_of(10, 10, 26), 1);
    assert_eq!(list_scroll_of(25, 10, 26), 16);
    // Never past the end, and nothing to scroll in a short list.
    assert_eq!(list_scroll_of(40, 10, 26), 16);
    assert_eq!(list_scroll_of(3, 10, 5), 0);
    assert_eq!(list_scroll_of(usize::MAX, 0, 4), 4);
}

#[test]
fn feeds_written_as_open_and_close_pairs_keep_their_folder() {
    let xml = "<opml version='2.0'><body><outline text='Tech'><outline text='A' xmlUrl='https://a.example/rss'></outline><outline text='B' xmlUrl='https://b.example/rss'/></outline><outline text='C' xmlUrl='https://c.example/rss'/></body></opml>";
    let r = parse_opml_str(xml).unwrap();
    assert_eq!(r.len(), 3);
    assert_eq!(r[0].title, "A");
    assert_eq!(r[1].title, "B");
    assert_eq!(r[0].folder, Some("Tech".to_string()));
    assert_eq!(r[1].folder, Some("Tech".to_string()));
    assert_eq!(r[2].folder, None);
}

#[test]
fn an_unfinished_document_is_an_error() {
    let r = parse_opml_str("<opml><body><outline text='A'");
    assert!(r.is_err());
    assert!(r.unwrap_err().starts_with("OPML XML parse error: "));
}

#[test]
fn export_writes_every_feed() {
    let feeds = vec![
        Feed::new("bloomberg".to_string(), "Bloomberg Markets".to_string(), "https://feeds.bloomberg.com/markets/news.rss".to_string(), Some("https://bloomberg.com".to_string()), Some("Fin Econ".to_string())),
        Feed::new("hn".to_string(), "Hacker News".to_string(), "https://news.ycombinator.com/rss".to_string(), None, None),
    ];
    let xml = export_opml(&feeds, "Subscriptions").unwrap();
    assert!(xml.contains("Bloomberg Markets"));
    assert!(xml.contains("Fin Econ"));
    assert!(xml.contains("https://news.ycombinator.com/rss"));
}
