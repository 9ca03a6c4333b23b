//! The rows of the settings popup and of its key-binding list.
use vstd::prelude::*;
use crate::config::{AppConfig, KeyBindingsConfig};
use crate::text::{concat_str, decimal, decimal_string};

verus! {

/// A setting that is switched on or off, with the keys that switch it.
pub open spec fn switch_text(on: bool) -> Seq<char> {
    if on {
        "[✓] Enabled (Space / Enter to toggle)"@
    } else {
        "[ ] Disabled (Space / Enter to toggle)"@
    }
}

/// The label of settings row `i`, with its icon when icons are shown.
pub open spec fn settings_label(i: int, icons: bool) -> Seq<char> {
    if i == 0 {
        if icons { "🎨 Theme"@ } else { "Theme"@ }
    } else if i == 1 {
        if icons { "🔄 Auto-Refresh on Startup"@ } else { "Auto-Refresh on Startup"@ }
    } else if i == 2 {
        if icons { "⏱️  Refresh Interval"@ } else { "Refresh Interval"@ }
    } else if i == 3 {
        if icons { "📖 Mark Read on Open"@ } else { "Mark Read on Open"@ }
    } else if i == 4 {
        if icons { "🔤 Wrap Article Text"@ } else { "Wrap Article Text"@ }
    } else if i == 5 {
        if icons { "🖼️  Show Badges & Icons"@ } else { "Show Badges & Icons"@ }
    } else if i == 6 {
        if icons { "📏 Layout Pane Ratios"@ } else { "Layout Pane Ratios"@ }
    } else {
        if icons { "⌨️  Custom Keybindings"@ } else { "Custom Keybindings"@ }
    }
}

/// The value shown in settings row `i`.
pub open spec fn settings_value(c: AppConfig, i: int) -> Seq<char> {
    if i == 0 {
        "◀  "@ + c.theme@ + "  ▶ (Enter / ← / → to change)"@
    } else if i == 1 {
        switch_text(c.auto_refresh_on_startup)
    } else if i == 2 {
        "◀  "@ + decimal(c.refresh_interval_minutes as nat) + " minutes  ▶ (← / → to change)"@
    } else if i == 3 {
        switch_text(c.mark_read_on_open)
    } else if i == 4 {
        switch_text(c.wrap_article_text)
    } else if i == 5 {
        switch_text(c.show_icons)
    } else if i == 6 {
        "Sidebar: "@ + decimal(c.sidebar_ratio as nat) + "%  |  Articles: "@ + decimal(c.article_list_ratio as nat)
            + "%  |  Reader: "@ + decimal(c.reader_ratio as nat) + "%  (← / → adjust, = reset)"@
    } else {
        "View & configure shortcuts (Press Enter to open)"@
    }
}

/// The number of rows in the settings popup, one per item that its keys
/// and clicks select.
pub const SETTINGS_ROWS: usize = 8;

fn switch_exec(on: bool) -> (r: String)
    ensures
        r@ == switch_text(on),
{
    if on {
        "[✓] Enabled (Space / Enter to toggle)".to_owned()
    } else {
        "[ ] Disabled (Space / Enter to toggle)".to_owned()
    }
}

fn label_exec(i: usize, icons: bool) -> (r: String)
    ensures
        r@ == settings_label(i as int, icons),
{
    let (with, plain) = if i == 0 {
        ("🎨 Theme", "Theme")
    } else if i == 1 {
        ("🔄 Auto-Refresh on Startup", "Auto-Refresh on Startup")
    } else if i == 2 {
        ("⏱️  Refresh Interval", "Refresh Interval")
    } else if i == 3 {
        ("📖 Mark Read on Open", "Mark Read on Open")
    } else if i == 4 {
        ("🔤 Wrap Article Text", "Wrap Article Text")
    } else if i == 5 {
        ("🖼️  Show Badges & Icons", "Show Badges & Icons")
    } else if i == 6 {
        ("📏 Layout Pane Ratios", "Layout Pane Ratios")
    } else {
        ("⌨️  Custom Keybindings", "Custom Keybindings")
    };
    if icons { with.to_owned() } else { plain.to_owned() }
}

fn value_exec(c: &AppConfig, i: usize) -> (r: String)
    ensures
        r@ == settings_value(*c, i as int),
{
    if i == 0 {
        let a = concat_str("◀  ", c.theme.as_str());
        concat_str(a.as_str(), "  ▶ (Enter / ← / → to change)")
    } else if i == 1 {
        switch_exec(c.auto_refresh_on_startup)
    } else if i == 2 {
        let n = decimal_string(c.refresh_interval_minutes);
        let a = concat_str("◀  ", n.as_str());
        concat_str(a.as_str(), " minutes  ▶ (← / → to change)")
    } else if i == 3 {
        switch_exec(c.mark_read_on_open)
    } else if i == 4 {
        switch_exec(c.wrap_article_text)
    } else if i == 5 {
        switch_exec(c.show_icons)
    } else if i == 6 {
        let s = decimal_string(c.sidebar_ratio as u64);
        let a = decimal_string(c.article_list_ratio as u64);
        let r = decimal_string(c.reader_ratio as u64);
        let t1 = concat_str("Sidebar: ", s.as_str());
        let t2 = concat_str(t1.as_str(), "%  |  Articles: ");
        let t3 = concat_str(t2.as_str(), a.as_str());
        let t4 = concat_str(t3.as_str(), "%  |  Reader: ");
        let t5 = concat_str(t4.as_str(), r.as_str());
        concat_str(t5.as_str(), "%  (← / → adjust, = reset)")
    } else {
        "View & configure shortcuts (Press Enter to open)".to_owned()
    }
}

/// The settings popup's rows, label and value, in the order the selection
/// moves through them.
pub fn settings_rows(c: &AppConfig) -> (r: Vec<(String, String)>)
    ensures
        r@.len() == SETTINGS_ROWS,
        forall|i: int| 0 <= i < SETTINGS_ROWS ==> (#[trigger] r@[i]).0@ == settings_label(i, c.show_icons)
            && r@[i].1@ == settings_value(*c, i),
{
    let mut r: Vec<(String, String)> = Vec::new();
    let mut i: usize = 0;
    while i < SETTINGS_ROWS
        invariant
            i <= SETTINGS_ROWS,
            r@.len() == i,
            forall|j: int| 0 <= j < i ==> (#[trigger] r@[j]).0@ == settings_label(j, c.show_icons)
                && r@[j].1@ == settings_value(*c, j),
        decreases SETTINGS_ROWS - i,
    {
        r.push((label_exec(i, c.show_icons), value_exec(c, i)));
        i = i + 1;
    }
    r
}

/// Row `i` of the key-binding list: the action, its keys and what it does.
pub open spec fn binding_row(k: KeyBindingsConfig, i: int) -> (Seq<char>, Seq<char>, Seq<char>) {
    if i == 0 { ("Toggle Config Menu"@, k.toggle_config@, "Open / close this popup"@) }
    else if i == 1 { ("Quit Application"@, k.quit@, "Exit RataRSS"@) }
    else if i == 2 { ("Help / Cheatsheet"@, k.help@, "Open help modal"@) }
    else if i == 3 { ("Select Theme"@, k.theme_picker@, "Open theme picker dialog"@) }
    else if i == 4 { ("Add Feed / OPML"@, k.add_feed@, "Subscribe to new feed"@) }
    else if i == 5 { ("Export OPML"@, k.export_opml@, "Export subscriptions"@) }
    else if i == 6 { ("Delete Feed / Folder"@, k.delete_item@, "Remove selected item"@) }
    else if i == 7 { ("Zen / Fullscreen"@, k.toggle_zen@, "Maximize current pane"@) }
    else if i == 8 { ("Search Articles"@, k.search@, "Fuzzy-find articles in this view"@) }
    else if i == 9 { ("Search Feeds"@, k.search_feeds@, "Fuzzy-find a feed in the sidebar"@) }
    else if i == 10 { ("Refresh Feed"@, k.refresh_current@, "Sync current feed"@) }
    else if i == 11 { ("Refresh All Feeds"@, k.refresh_all@, "Sync all feeds"@) }
    else if i == 12 { ("Toggle Read / Unread"@, k.toggle_read@, "Toggle article read status"@) }
    else if i == 13 { ("Mark All Read"@, k.mark_all_read@, "Mark view as read"@) }
    else if i == 14 { ("Star / Bookmark"@, k.toggle_star@, "Toggle article starred"@) }
    else if i == 15 { ("Open in Browser"@, k.open_browser@, "Open article URL in browser"@) }
    else if i == 16 { ("Copy URL"@, k.copy_url@, "Copy article URL to clipboard"@) }
    else if i == 17 { ("Next Pane"@, k.focus_next_pane@, "Move focus right"@) }
    else if i == 18 { ("Previous Pane"@, k.focus_prev_pane@, "Move focus left"@) }
    else if i == 19 { ("Jump to Feeds / Articles / Reader"@, "1, 2, 3"@, "Direct pane focus"@) }
    else if i == 20 { ("Navigate Down / Up"@, k.nav_down@ + ", "@ + k.nav_up@, "Scroll / select items"@) }
    else if i == 21 { ("Page Down / Up"@, k.page_down@ + ", "@ + k.page_up@, "Page scroll"@) }
    else if i == 22 { ("Space Scroll / Advance"@, k.space_advance@, "Scroll reader / advance"@) }
    else if i == 23 { ("Jump Top / Bottom"@, k.jump_top@ + ", "@ + k.jump_bottom@, "Jump to extremes"@) }
    else if i == 24 { ("Resize Panes"@, "< / > / [ / ] / + / -"@, "Adjust layout ratios"@) }
    else { ("Reset Layout"@, k.reset_layout@, "Reset ratios to defaults"@) }
}

/// The number of rows in the key-binding list.
pub const BINDING_ROWS: usize = 26;

fn pair_exec(a: &String, b: &String) -> (r: String)
    ensures
        r@ == a@ + ", "@ + b@,
{
    let t = concat_str(a.as_str(), ", ");
    concat_str(t.as_str(), b.as_str())
}

fn binding_exec(k: &KeyBindingsConfig, i: usize) -> (r: (String, String, String))
    ensures
        (r.0@, r.1@, r.2@) == binding_row(*k, i as int),
{
    let (action, keys, what): (&str, String, &str) = if i == 0 {
        ("Toggle Config Menu", k.toggle_config.clone(), "Open / close this popup")
    } else if i == 1 {
        ("Quit Application", k.quit.clone(), "Exit RataRSS")
    } else if i == 2 {
        ("Help / Cheatsheet", k.help.clone(), "Open help modal")
    } else if i == 3 {
        ("Select Theme", k.theme_picker.clone(), "Open theme picker dialog")
    } else if i == 4 {
        ("Add Feed / OPML", k.add_feed.clone(), "Subscribe to new feed")
    } else if i == 5 {
        ("Export OPML", k.export_opml.clone(), "Export subscriptions")
    } else if i == 6 {
        ("Delete Feed / Folder", k.delete_item.clone(), "Remove selected item")
    } else if i == 7 {
        ("Zen / Fullscreen", k.toggle_zen.clone(), "Maximize current pane")
    } else if i == 8 {
        ("Search Articles", k.search.clone(), "Fuzzy-find articles in this view")
    } else if i == 9 {
        ("Search Feeds", k.search_feeds.clone(), "Fuzzy-find a feed in the sidebar")
    } else if i == 10 {
        ("Refresh Feed", k.refresh_current.clone(), "Sync current feed")
    } else if i == 11 {
        ("Refresh All Feeds", k.refresh_all.clone(), "Sync all feeds")
    } else if i == 12 {
        ("Toggle Read / Unread", k.toggle_read.clone(), "Toggle article read status")
    } else if i == 13 {
        ("Mark All Read", k.mark_all_read.clone(), "Mark view as read")
    } else if i == 14 {
        ("Star / Bookmark", k.toggle_star.clone(), "Toggle article starred")
    } else if i == 15 {
        ("Open in Browser", k.open_browser.clone(), "Open article URL in browser")
    } else if i == 16 {
        ("Copy URL", k.copy_url.clone(), "Copy article URL to clipboard")
    } else if i == 17 {
        ("Next Pane", k.focus_next_pane.clone(), "Move focus right")
    } else if i == 18 {
        ("Previous Pane", k.focus_prev_pane.clone(), "Move focus left")
    } else if i == 19 {
        ("Jump to Feeds / Articles / Reader", "1, 2, 3".to_owned(), "Direct pane focus")
    } else if i == 20 {
        ("Navigate Down / Up", pair_exec(&k.nav_down, &k.nav_up), "Scroll / select items")
    } else if i == 21 {
        ("Page Down / Up", pair_exec(&k.page_down, &k.page_up), "Page scroll")
    } else if i == 22 {
        ("Space Scroll / Advance", k.space_advance.clone(), "Scroll reader / advance")
    } else if i == 23 {
        ("Jump Top / Bottom", pair_exec(&k.jump_top, &k.jump_bottom), "Jump to extremes")
    } else if i == 24 {
        ("Resize Panes", "< / > / [ / ] / + / -".to_owned(), "Adjust layout ratios")
    } else {
        ("Reset Layout", k.reset_layout.clone(), "Reset ratios to defaults")
    };
    (action.to_owned(), keys, what.to_owned())
}

/// The key-binding list's rows, as they are drawn.
pub fn binding_rows(k: &KeyBindingsConfig) -> (r: Vec<(String, String, String)>)
    ensures
        r@.len() == BINDING_ROWS,
        forall|i: int| 0 <= i < BINDING_ROWS ==> ((#[trigger] r@[i]).0@, r@[i].1@, r@[i].2@) == binding_row(*k, i),
{
    let mut r: Vec<(String, String, String)> = Vec::new();
    let mut i: usize = 0;
    while i < BINDING_ROWS
        invariant
            i <= BINDING_ROWS,
            r@.len() == i,
            forall|j: int| 0 <= j < i ==> ((#[trigger] r@[j]).0@, r@[j].1@, r@[j].2@) == binding_row(*k, j),
        decreases BINDING_ROWS - i,
    {
        r.push(binding_exec(k, i));
        i = i + 1;
    }
    r
}

/// The first row a list of `n` rows shows in `visible` lines when row
/// `selected` is selected: the selection is kept in sight, and the list is
/// not scrolled past its end.
pub open spec fn list_scroll(selected: int, visible: int, n: int) -> int {
    let s = if selected >= visible { selected + 1 - visible } else { 0 };
    if s + visible > n {
        if n > visible { n - visible } else { 0 }
    } else {
        s
    }
}

/// The first row shown of a list of `n` rows in `visible` lines.
pub fn list_scroll_of(selected: usize, visible: usize, n: usize) -> (r: usize)
    ensures
        r as int == list_scroll(selected as int, visible as int, n as int),
{
    let last: usize = if n > visible { n - visible } else { 0 };
    if selected >= visible {
        let d = selected - visible;
        if d >= n || n - d - 1 < visible { last } else { d + 1 }
    } else if visible > n {
        last
    } else {
        0
    }
}

} // verus!
