//! The text of each sidebar row: its marker, icon, name and unread pill.
use vstd::prelude::*;
use crate::model::SidebarItem;
use crate::reader::{display_width, text_width};
use crate::text::{chars_of, concat_str, decimal, decimal_string, truncate_string, truncated};

verus! {

/// How a sidebar row's text is coloured.
#[derive(Debug, Clone, Copy, PartialEq, Eq, Structural)]
pub enum RowTone {
    /// The heading above the smart views.
    Heading,
    /// A smart view: the selection colour when selected, the plain one else.
    Smart,
    /// A folder: bold, in the folder colour.
    Folder,
    /// A feed that is selected or has unread articles: bold, in the feed colour.
    FeedStrong,
    /// Any other feed: dimmed.
    FeedDim,
}

/// One sidebar row as it is drawn.
pub struct SidebarRow {
    pub text: String,
    /// The unread count shown as a pill at the right edge, when there is
    /// one and it fits beside the text.
    pub badge: Option<String>,
    pub tone: RowTone,
}

/// The marker in front of a smart view or folder.
pub open spec fn marker(selected: bool) -> Seq<char> {
    if selected { " ▸ "@ } else { "   "@ }
}

/// The row's text in a pane whose text area is `width` cells wide.
pub open spec fn row_text(item: SidebarItem, selected: bool, icons: bool, width: nat) -> Seq<char> {
    match item {
        SidebarItem::SmartHeader => " SMART FEEDS"@,
        SidebarItem::Smart(kind, _) => if icons {
            marker(selected) + kind.icon_spec() + "  "@ + kind.title_spec()
        } else {
            marker(selected) + kind.title_spec()
        },
        SidebarItem::FolderHeader { name, is_expanded, .. } => {
            let arrow = if is_expanded { "▾"@ } else { "▸"@ };
            if icons {
                marker(selected) + arrow + " "@ + (if is_expanded { "📂"@ } else { "📁"@ }) + " "@ + name@
            } else {
                marker(selected) + arrow + " "@ + name@
            }
        },
        SidebarItem::Feed { title, folder, unread_count, has_error, .. } => {
            let lead = if selected { "▸"@ } else { " "@ };
            let indent = if folder is Some { "      "@ } else { "   "@ };
            let status = if has_error {
                if icons { "⚠️"@ } else { "!"@ }
            } else if unread_count > 0 {
                "•"@
            } else {
                " "@
            };
            lead + indent + status + " "@ + truncated(title@, if width >= 12 { (width - 12) as nat } else { 0 })
        },
    }
}

/// The unread count a row carries (none for the heading).
pub open spec fn row_count(item: SidebarItem) -> nat {
    match item {
        SidebarItem::SmartHeader => 0,
        SidebarItem::Smart(_, c) => c as nat,
        SidebarItem::FolderHeader { unread_count, .. } => unread_count as nat,
        SidebarItem::Feed { unread_count, .. } => unread_count as nat,
    }
}

/// The pill: the count in decimal, when it is not zero and the text area
/// is wider than the text, the pill (two cells wider than the count) and
/// one cell more.
pub open spec fn row_badge(item: SidebarItem, selected: bool, icons: bool, width: nat) -> Option<Seq<char>> {
    let c = row_count(item);
    if c > 0 && width > display_width(row_text(item, selected, icons, width)) + decimal(c).len() + 2 + 1 {
        Some(decimal(c))
    } else {
        None
    }
}

/// How the row's text is coloured.
pub open spec fn row_tone(item: SidebarItem, selected: bool) -> RowTone {
    match item {
        SidebarItem::SmartHeader => RowTone::Heading,
        SidebarItem::Smart(..) => RowTone::Smart,
        SidebarItem::FolderHeader { .. } => RowTone::Folder,
        SidebarItem::Feed { unread_count, .. } => if selected || unread_count > 0 {
            RowTone::FeedStrong
        } else {
            RowTone::FeedDim
        },
    }
}

fn marker_text(selected: bool) -> (r: &'static str)
    ensures
        r@ == marker(selected),
{
    if selected { " ▸ " } else { "   " }
}

fn row_text_exec(item: &SidebarItem, selected: bool, icons: bool, width: u16) -> (r: String)
    ensures
        r@ == row_text(*item, selected, icons, width as nat),
{
    match item {
        SidebarItem::SmartHeader => " SMART FEEDS".to_owned(),
        SidebarItem::Smart(kind, _) => {
            let m = marker_text(selected);
            if icons {
                let a = concat_str(m, kind.icon());
                let b = concat_str(a.as_str(), "  ");
                concat_str(b.as_str(), kind.title())
            } else {
                concat_str(m, kind.title())
            }
        },
        SidebarItem::FolderHeader { name, is_expanded, .. } => {
            let m = marker_text(selected);
            let arrow = if *is_expanded { "▾" } else { "▸" };
            let a = concat_str(m, arrow);
            let b = concat_str(a.as_str(), " ");
            if icons {
                let icon = if *is_expanded { "📂" } else { "📁" };
                let c = concat_str(b.as_str(), icon);
                let d = concat_str(c.as_str(), " ");
                concat_str(d.as_str(), name.as_str())
            } else {
                concat_str(b.as_str(), name.as_str())
            }
        },
        SidebarItem::Feed { title, folder, unread_count, has_error, .. } => {
            let lead = if selected { "▸" } else { " " };
            let indent = if folder.is_some() { "      " } else { "   " };
            let status = if *has_error {
                if icons { "⚠️" } else { "!" }
            } else if *unread_count > 0 {
                "•"
            } else {
                " "
            };
            let avail: usize = if width >= 12 { (width - 12) as usize } else { 0 };
            let shown = truncate_string(title.as_str(), avail);
            let a = concat_str(lead, indent);
            let b = concat_str(a.as_str(), status);
            let c = concat_str(b.as_str(), " ");
            concat_str(c.as_str(), shown.as_str())
        },
    }
}

fn row_count_exec(item: &SidebarItem) -> (r: usize)
    ensures
        r as nat == row_count(*item),
{
    match item {
        SidebarItem::SmartHeader => 0,
        SidebarItem::Smart(_, c) => *c,
        SidebarItem::FolderHeader { unread_count, .. } => *unread_count,
        SidebarItem::Feed { unread_count, .. } => *unread_count,
    }
}

/// The row for `item` in a sidebar whose text area is `width` cells wide.
pub fn sidebar_row(item: &SidebarItem, selected: bool, icons: bool, width: u16) -> (r: SidebarRow)
    ensures
        r.text@ == row_text(*item, selected, icons, width as nat),
        match r.badge {
            Some(b) => row_badge(*item, selected, icons, width as nat) == Some(b@),
            None => row_badge(*item, selected, icons, width as nat) is None,
        },
        r.tone == row_tone(*item, selected),
{
    let text = row_text_exec(item, selected, icons, width);
    let count = row_count_exec(item);
    let mut badge: Option<String> = None;
    if count > 0 {
        let digits = decimal_string(count as u64);
        let left = text_width(text.as_str());
        let pill = chars_of(digits.as_str()).len();
        let w = width as usize;
        if left < w && pill < w - left && w - left - pill > 3 {
            badge = Some(digits);
        }
    }
    let tone = match item {
        SidebarItem::SmartHeader => RowTone::Heading,
        SidebarItem::Smart(..) => RowTone::Smart,
        SidebarItem::FolderHeader { .. } => RowTone::Folder,
        SidebarItem::Feed { unread_count, .. } => if selected || *unread_count > 0 {
            RowTone::FeedStrong
        } else {
            RowTone::FeedDim
        },
    };
    SidebarRow { text, badge, tone }
}

} // verus!
