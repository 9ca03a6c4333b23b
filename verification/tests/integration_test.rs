use ratarss::config::{key_matches, AppConfig, KeyCode, KeyPress};
use ratarss::fetcher::{clean_html_tags, generate_snippet};
use ratarss::fuzzy::{score, score_any};
use ratarss::model::{ActivePane, Article, ArticleSlice, SmartFeedKind};
use ratarss::storage::{compress_text, decompress_text};
use ratarss::ui::article_list::{card_at_row, card_slots, card_top, spacing_label, CARD_HEIGHT};

fn press(code: KeyCode, ctrl: bool, shift: bool) -> KeyPress {
    KeyPress { code, ctrl, alt: false, shift }
}

fn article(n: usize) -> Article {
    let now = chrono::Utc::now().timestamp();
    Article {
        id: format!("a{n}"),
        feed_id: "f".to_string(),
        feed_title: "A Rather Long Feed Title".to_string(),
        title: "An article title that is long enough to need truncating".to_string(),
        author: None,
        summary: Some("Summary text that also runs past the pane edge".to_string()),
        content: None,
        url: "https://example.com".to_string(),
        published: Some(now),
        read: n % 2 == 0,
        starred: n % 3 == 0,
        created_at: now,
    }
}

#[test]
fn test_snippet_and_html_cleaning() {
    let raw = "<p>This is a &amp; test with <b>bold</b> and <a href='https://example.com'>link</a> text.</p>";
    let cleaned = clean_html_tags(raw);
    assert_eq!(cleaned, "This is a & test with bold and link text.");

    let snippet = generate_snippet(raw, 20);
    assert!(snippet.chars().count() <= 22);
}

#[test]
fn test_configurable_keybindings_matching() {
    let slash_key = press(KeyCode::Char('/'), false, false);
    assert!(key_matches(&slash_key, "/"));
    assert!(key_matches(&slash_key, "?, /"));

    let ctrl_f = press(KeyCode::Char('f'), true, false);
    assert!(key_matches(&ctrl_f, "ctrl+f"));
    assert!(key_matches(&ctrl_f, "ctrl+f, ctrl+s"));

    let shift_m = press(KeyCode::Char('M'), false, true);
    assert!(key_matches(&shift_m, "M"));

    let j_key = press(KeyCode::Char('j'), false, false);
    assert!(key_matches(&j_key, "j, down"));

    let down_key = press(KeyCode::Down, false, false);
    assert!(key_matches(&down_key, "j, down"));
}

#[test]
fn test_app_config_keybindings_defaults() {
    let config = AppConfig::default();
    assert_eq!(config.keybindings.toggle_config, "/");
    assert!(config.keybindings.quit.contains("q"));
    assert!(config.keybindings.search.contains("ctrl+a"));
    assert!(config.keybindings.search_feeds.contains("ctrl+f"));
}

#[test]
fn test_zstd_compression_and_decompression() {
    let sample_html = "<article><h1>Very Large Article Content</h1><p>".repeat(50);
    let compressed = compress_text(&sample_html);
    assert!(compressed.starts_with(b"ZSTD"));
    assert!(compressed.len() < sample_html.len(), "Zstd should significantly reduce text size");

    let decompressed = decompress_text(&compressed).expect("decompress failed");
    assert_eq!(decompressed, sample_html);
}

#[test]
fn half_row_spacing_distributes_and_round_trips() {
    assert_eq!(spacing_label(0), "0");
    assert_eq!(spacing_label(1), "0.5");
    assert_eq!(spacing_label(3), "1.5");

    // Half-row spacing: gaps alternate 0, 1, 0, 1 ...
    let gaps: Vec<u16> = (0..6)
        .map(|k| card_top(k + 1, 1) - card_top(k, 1) - CARD_HEIGHT)
        .collect();
    assert_eq!(gaps, vec![0, 1, 0, 1, 0, 1]);

    // Flush and whole-row spacing stay exact.
    assert_eq!(card_top(4, 0), 12);
    assert_eq!(card_top(4, 2), 16);

    for halves in 0..=6u16 {
        // Monotonic, and every row inside a card maps back to that card.
        for k in 0..12usize {
            let top = card_top(k, halves);
            assert!(k == 0 || top > card_top(k - 1, halves));
            for row in top..top + CARD_HEIGHT {
                assert_eq!(
                    card_at_row(row, halves),
                    k,
                    "halves {halves}: row {row} should hit card {k}"
                );
            }
        }
    }
}

#[test]
fn fuzzy_ranks_the_way_a_reader_expects() {
    // Subsequence, case-insensitive.
    assert!(score("Bloomberg Markets", "bm").is_some());
    assert!(score("Bloomberg Markets", "blmkt").is_some());
    // Out of order does not match.
    assert!(score("Hacker News", "nh").is_none());
    // Absent character does not match.
    assert!(score("Hacker News", "hz").is_none());
    // Empty needle matches everything; empty haystack matches nothing.
    assert_eq!(score("anything", ""), Some(0));
    assert!(score("", "a").is_none());

    // Word-start acronym beats an accidental mid-word subsequence.
    let acronym = score("Bloomberg Markets", "bm").unwrap();
    let midword = score("Abbreviated Plumber", "bm").unwrap();
    assert!(acronym > midword, "acronym {acronym} should beat {midword}");

    // A prefix match beats the same letters buried later.
    let prefix = score("Rust Blog", "rust").unwrap();
    let buried = score("The Trust Fall", "rust").unwrap();
    assert!(prefix > buried, "prefix {prefix} should beat {buried}");

    // Consecutive runs beat scattered characters.
    let tight = score("Hacker News", "hacker").unwrap();
    let loose = score("Have A Chance To Kill Every Rabbit", "hacker").unwrap();
    assert!(tight > loose, "tight {tight} should beat loose {loose}");

    // score_any takes the best field.
    let best = score_any(&["nothing here", "Hacker News"], "hn").unwrap();
    assert_eq!(best, score("Hacker News", "hn").unwrap());
    assert!(score_any(&["alpha", "beta"], "zz").is_none());
}

#[test]
fn article_slice_indexes_through_search_matches() {
    let articles: Vec<Article> = (0..5).map(article).collect();
    let filtered = [1u32, 4];
    let slice = ArticleSlice {
        all: &articles,
        filtered: Some(&filtered),
    };

    assert_eq!(slice.len(), 2);
    assert_eq!(slice.get(0).unwrap().id, "a1");
    assert_eq!(slice.get(1).unwrap().id, "a4");
    assert!(slice.get(2).is_none());
}

#[test]
fn panes_cycle_both_ways() {
    for p in [ActivePane::Sidebar, ActivePane::ArticleList, ActivePane::Reader] {
        assert_eq!(p.next().prev(), p);
        assert_eq!(p.prev().next(), p);
        assert_eq!(p.next().next().next(), p);
        assert_ne!(p.next(), p);
    }
    assert_eq!(ActivePane::Sidebar.next(), ActivePane::ArticleList);
    assert_eq!(ActivePane::Sidebar.prev(), ActivePane::Reader);
}

#[test]
fn smart_feed_titles_and_icons() {
    assert_eq!(SmartFeedKind::Today.title(), "Today");
    assert_eq!(SmartFeedKind::AllUnread.title(), "All Unread");
    assert_eq!(SmartFeedKind::Starred.title(), "Starred");
    assert_eq!(SmartFeedKind::AllArticles.title(), "All Articles");
    assert_eq!(SmartFeedKind::Starred.icon(), "⭐");
}

#[test]
fn a_binding_matches_when_either_of_its_keys_does() {
    let ctrl_r = press(KeyCode::Char('r'), true, false);
    let equals = press(KeyCode::Char('='), false, false);
    let other = press(KeyCode::Char('x'), false, false);
    assert!(!key_matches(&ctrl_r, ""));
    assert!(!key_matches(&equals, ""));
    assert!(key_matches(&ctrl_r, "=,ctrl+r"));
    assert!(key_matches(&equals, "=,ctrl+r"));
    assert!(!key_matches(&other, "=,ctrl+r"));
    assert!(key_matches(&ctrl_r, " = , ctrl+r "));
}

#[test]
fn list_fills_to_the_bottom_edge() {
    for height in 8u16..24 {
        for spacing in [0u16, 1, 2] {
            // The list sits inside a one-row border at the top and bottom.
            let inner = height - 2;
            let slots = card_slots(inner, spacing, 0, 40);
            let &(_, top, rows) = slots.last().unwrap();
            let blank = inner - (top + rows);
            assert!(blank <= spacing, "height {height} spacing {spacing}: {blank} dead rows at the bottom");
        }
    }
}

#[test]
fn card_slots_clip_the_last_card_and_stop_at_the_end_of_the_list() {
    assert_eq!(card_slots(10, 0, 0, 40), vec![(0, 0, 3), (1, 3, 3), (2, 6, 3), (3, 9, 1)]);
    assert_eq!(card_slots(10, 2, 5, 40), vec![(5, 0, 3), (6, 4, 3), (7, 8, 2)]);
    assert_eq!(card_slots(20, 0, 38, 40), vec![(38, 0, 3), (39, 3, 3)]);
    assert!(card_slots(20, 0, 40, 40).is_empty());
    assert!(card_slots(0, 0, 0, 40).is_empty());
}
