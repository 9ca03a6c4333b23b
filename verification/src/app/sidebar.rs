//! What the sidebar lists: the smart views, then each folder with its feeds
//! sorted by title, then the feeds filed under no folder.
use vstd::prelude::*;
use crate::model::{
    clone_feed, clone_opt_text, count_false, folder_key, group_by_folder, groups_by_folder, opt_view, Feed, FolderGroup,
    SidebarItem, SmartFeedKind,
};
use crate::storage::{count_entry, lookup_counts, UnreadCounts};
use crate::fuzzy::{fuzzy_score, score, MAX_HAYSTACK};
use crate::text::{chars_of, lemma_seq_lt_order, seq_lt, str_eq, str_lt};

verus! {

/// Feed `a` is listed before feed `b`: by title, and by list position among
/// equal titles (a stable sort by title).
pub open spec fn title_before(feeds: Seq<Feed>, a: int, b: int) -> bool {
    seq_lt(feeds[a].title@, feeds[b].title@) || (feeds[a].title@ == feeds[b].title@ && a < b)
}

proof fn lemma_title_before_order(feeds: Seq<Feed>, a: int, b: int, c: int)
    ensures
        !title_before(feeds, a, a),
        title_before(feeds, a, b) && title_before(feeds, b, c) ==> title_before(feeds, a, c),
        a != b ==> title_before(feeds, a, b) || title_before(feeds, b, a),
{
    lemma_seq_lt_order(feeds[a].title@, feeds[b].title@, feeds[c].title@);
    lemma_seq_lt_order(feeds[b].title@, feeds[a].title@, feeds[c].title@);
    lemma_seq_lt_order(feeds[a].title@, feeds[a].title@, feeds[a].title@);
    lemma_seq_lt_order(feeds[b].title@, feeds[c].title@, feeds[a].title@);
}

/// `order` lists the same feeds as `members`, sorted stably by title.
pub open spec fn sorted_by_title(feeds: Seq<Feed>, members: Seq<usize>, order: Seq<usize>) -> bool {
    &&& order.len() == members.len()
    &&& forall|x: usize| order.contains(x) <==> members.contains(x)
    &&& forall|j: int| 0 < j < order.len() ==> title_before(feeds, order[j - 1] as int, #[trigger] order[j] as int)
}

/// The feeds at positions `members` (distinct, in range), sorted by title and
/// then by position.
pub fn sort_by_title(feeds: &[Feed], members: &Vec<usize>) -> (r: Vec<usize>)
    requires
        forall|j: int| 0 <= j < members.len() ==> (#[trigger] members@[j] as int) < feeds.len(),
        forall|j: int| 0 < j < members.len() ==> members@[j - 1] < #[trigger] members@[j],
    ensures
        sorted_by_title(feeds@, members@, r@),
{
    let n = members.len();
    proof {
        assert forall|a: int, b: int| 0 <= a < b < n implies members@[a] < members@[b] by {
            lemma_increasing(members@, a, b);
        }
    }
    let mut taken: Vec<bool> = Vec::new();
    let mut k: usize = 0;
    while k < n
        invariant
            k <= n,
            n == members.len(),
            taken.len() == k,
            forall|i: int| 0 <= i < k ==> !taken@[i],
            count_false(taken@) == k,
        decreases n - k,
    {
        let ghost before = taken@;
        taken.push(false);
        proof {
            assert(taken@.drop_last() =~= before);
        }
        k = k + 1;
    }
    let mut order: Vec<usize> = Vec::new();
    loop
        invariant
            n == members.len(),
            taken.len() == n,
            forall|j: int| 0 <= j < n ==> (#[trigger] members@[j] as int) < feeds.len(),
            forall|a: int, b: int| 0 <= a < b < n ==> members@[a] < members@[b],
            forall|p: int| 0 <= p < n ==> (#[trigger] taken@[p] <==> order@.contains(members@[p])),
            forall|x: usize| order@.contains(x) ==> members@.contains(x),
            order.len() == n - count_false(taken@),
            count_false(taken@) <= n,
            forall|j: int| 0 < j < order.len() ==> title_before(feeds@, order@[j - 1] as int, #[trigger] order@[j] as int),
            order.len() > 0 ==> forall|p: int|
                0 <= p < n && !taken@[p] ==> title_before(feeds@, order@[order.len() - 1] as int, #[trigger] members@[p] as int),
        ensures
            forall|p: int| 0 <= p < n ==> taken@[p],
        decreases count_false(taken@),
    {
        let mut best: Option<usize> = None;
        let mut p: usize = 0;
        while p < n
            invariant
                n == members.len(),
                taken.len() == n,
                p <= n,
                forall|j: int| 0 <= j < n ==> (#[trigger] members@[j] as int) < feeds.len(),
                best matches Some(b) ==> b < p && !taken@[b as int],
                best is None ==> forall|m: int| 0 <= m < p ==> taken@[m],
                best matches Some(b) ==> forall|m: int|
                    0 <= m < p && !taken@[m] && m != b ==> title_before(feeds@, members@[b as int] as int, #[trigger] members@[m] as int),
                forall|a: int, c: int| 0 <= a < c < n ==> members@[a] < members@[c],
            decreases n - p,
        {
            if !taken[p] {
                match best {
                    None => {
                        best = Some(p);
                    },
                    Some(b) => {
                        let fp = members[p];
                        let fb = members[b];
                        let before = str_lt(feeds[fp].title.as_str(), feeds[fb].title.as_str())
                            || (feeds[fp].title.eq(&feeds[fb].title) && fp < fb);
                        proof {
                            lemma_title_before_order(feeds@, fp as int, fb as int, fb as int);
                            assert(fp != fb);
                        }
                        if before {
                            proof {
                                assert forall|m: int|
                                    0 <= m < p + 1 && !taken@[m] && m != p implies title_before(
                                    feeds@,
                                    fp as int,
                                    #[trigger] members@[m] as int,
                                ) by {
                                    if m != b {
                                        lemma_title_before_order(feeds@, fp as int, fb as int, members@[m] as int);
                                    }
                                }
                            }
                            best = Some(p);
                        } else {
                            proof {
                                lemma_title_before_order(feeds@, fb as int, fp as int, fp as int);
                            }
                        }
                    },
                }
            }
            p = p + 1;
        }
        let b = match best {
            None => {
                break;
            },
            Some(b) => b,
        };
        let ghost old_taken = taken@;
        let ghost old_order = order@;
        let pick = members[b];
        proof {
            if order.len() > 0 {
                assert(title_before(feeds@, old_order[old_order.len() - 1] as int, members@[b as int] as int));
            }
        }
        order.push(pick);
        taken.set(b, true);
        proof {
            assert forall|q: int| 0 <= q < n implies (#[trigger] taken@[q] <==> order@.contains(members@[q])) by {
                if q == b {
                    assert(order@[order.len() - 1] == members@[q]);
                } else {
                    assert(taken@[q] == old_taken[q]);
                    if order@.contains(members@[q]) {
                        let j = choose|j: int| 0 <= j < order@.len() && order@[j] == members@[q];
                        if j < old_order.len() {
                            assert(old_order[j] == members@[q]);
                        } else {
                            assert(members@[q] == members@[b as int]);
                            if q < b {
                                assert(members@[q] < members@[b as int]);
                            } else {
                                assert(members@[b as int] < members@[q]);
                            }
                        }
                    } else {
                        assert forall|j: int| 0 <= j < old_order.len() implies old_order[j] != members@[q] by {
                            assert(order@[j] == old_order[j]);
                        }
                    }
                }
            }
            assert forall|x: usize| order@.contains(x) implies members@.contains(x) by {
                let j = choose|j: int| 0 <= j < order@.len() && order@[j] == x;
                if j < old_order.len() {
                    assert(old_order[j] == x);
                    assert(old_order.contains(x));
                } else {
                    assert(members@[b as int] == x);
                }
            }
            lemma_count_false_shrinks_pub(old_taken, taken@, b as int);
            assert forall|q: int| 0 <= q < n && !taken@[q] implies title_before(
                feeds@,
                order@[order.len() - 1] as int,
                #[trigger] members@[q] as int,
            ) by {
                assert(!old_taken[q]);
                assert(q != b);
            }
        }
    }
    proof {
        assert forall|x: usize| members@.contains(x) implies order@.contains(x) by {
            let j = choose|j: int| 0 <= j < n && members@[j] == x;
            assert(taken@[j]);
        }
        lemma_count_false_all_true(taken@);
    }
    order
}

proof fn lemma_increasing(s: Seq<usize>, a: int, b: int)
    requires
        0 <= a < b < s.len(),
        forall|j: int| 0 < j < s.len() ==> s[j - 1] < #[trigger] s[j],
    ensures
        s[a] < s[b],
    decreases b - a,
{
    if b - 1 > a {
        lemma_increasing(s, a, b - 1);
    }
}

proof fn lemma_count_false_all_true(s: Seq<bool>)
    requires
        forall|i: int| 0 <= i < s.len() ==> s[i],
    ensures
        count_false(s) == 0,
    decreases s.len(),
{
    if s.len() > 0 {
        lemma_count_false_all_true(s.drop_last());
    }
}

proof fn lemma_count_false_shrinks_pub(s: Seq<bool>, t: Seq<bool>, k: int)
    requires
        s.len() == t.len(),
        forall|i: int| 0 <= i < s.len() && i != k ==> s[i] == t[i],
        0 <= k < s.len(),
        !s[k] && t[k],
    ensures
        count_false(t) + 1 == count_false(s),
    decreases s.len(),
{
    if k < s.len() - 1 {
        lemma_count_false_shrinks_pub(s.drop_last(), t.drop_last(), k);
    } else {
        assert(s.drop_last() =~= t.drop_last());
    }
}

/// The five rows the sidebar always starts with.
pub open spec fn smart_rows(c: UnreadCounts) -> Seq<SidebarItem> {
    seq![
        SidebarItem::SmartHeader,
        SidebarItem::Smart(SmartFeedKind::Today, c.today),
        SidebarItem::Smart(SmartFeedKind::AllUnread, c.all_unread),
        SidebarItem::Smart(SmartFeedKind::Starred, c.starred),
        SidebarItem::Smart(SmartFeedKind::AllArticles, c.all_articles),
    ]
}

/// The row of a feed.
pub open spec fn feed_row(f: Feed, c: UnreadCounts) -> SidebarItem {
    SidebarItem::Feed {
        feed_id: f.id,
        title: f.title,
        folder: f.folder,
        unread_count: count_entry(c.feed_counts@, f.id@).0,
        has_error: f.error is Some,
    }
}

/// A feed's row shows the unread number, the first of the two counts, of
/// the first entry recorded for its id, and 0 when none is recorded; its id,
/// title and folder are the feed's.
pub proof fn lemma_feed_row_shows_unread(f: Feed, c: UnreadCounts, j: int)
    requires
        0 <= j <= c.feed_counts@.len(),
        forall|k: int| 0 <= k < j ==> (#[trigger] c.feed_counts@[k]).0@ != f.id@,
        j < c.feed_counts@.len() ==> c.feed_counts@[j].0@ == f.id@,
    ensures
        feed_row(f, c) matches SidebarItem::Feed { feed_id, title, folder, unread_count, has_error }
            && feed_id == f.id && title == f.title && folder == f.folder && has_error == (f.error is Some)
            && unread_count == (if j < c.feed_counts@.len() { c.feed_counts@[j].1 } else { 0 }),
{
    if j < c.feed_counts@.len() {
        crate::storage::lemma_count_entry_first(c.feed_counts@, f.id@, j);
    } else {
        crate::storage::lemma_count_entry_none(c.feed_counts@, f.id@);
    }
}

/// The folder `name` is one the reader collapsed.
pub open spec fn is_collapsed(collapsed: Seq<String>, name: Seq<char>) -> bool {
    exists|i: int| 0 <= i < collapsed.len() && (#[trigger] collapsed[i])@ == name
}

/// The rows of one folder group, whose feeds sorted by title are `order`:
/// a folder gets a header row, and lists its feeds only when expanded; the
/// feeds in no folder are listed bare.
pub open spec fn group_block(
    feeds: Seq<Feed>,
    folder: Option<String>,
    order: Seq<usize>,
    c: UnreadCounts,
    collapsed: Seq<String>,
) -> Seq<SidebarItem> {
    let rows = order.map_values(|m: usize| feed_row(feeds[m as int], c));
    match folder {
        Some(name) => {
            let open = !is_collapsed(collapsed, name@);
            seq![SidebarItem::FolderHeader {
                name,
                is_expanded: open,
                unread_count: count_entry(c.folder_counts@, name@).0,
                feed_count: order.len() as usize,
            }] + if open { rows } else { Seq::empty() }
        },
        None => rows,
    }
}

/// A folder's header row shows the unread number, the first of the two
/// counts, of the first entry recorded for its name (0 when none is), and
/// how many feeds it holds; the feeds' rows follow it only when the folder
/// is expanded.
pub proof fn lemma_folder_header_shows_unread(
    feeds: Seq<Feed>,
    name: String,
    order: Seq<usize>,
    c: UnreadCounts,
    collapsed: Seq<String>,
    j: int,
)
    requires
        0 <= j <= c.folder_counts@.len(),
        forall|k: int| 0 <= k < j ==> (#[trigger] c.folder_counts@[k]).0@ != name@,
        j < c.folder_counts@.len() ==> c.folder_counts@[j].0@ == name@,
    ensures
        ({
            let rows = group_block(feeds, Some(name), order, c, collapsed);
            &&& rows[0] matches SidebarItem::FolderHeader { name: n, is_expanded, unread_count, feed_count }
                && n == name && is_expanded == !is_collapsed(collapsed, name@)
                && unread_count == (if j < c.folder_counts@.len() { c.folder_counts@[j].1 } else { 0 })
                && feed_count == order.len() as usize
            &&& rows.len() == 1 + (if is_collapsed(collapsed, name@) { 0 } else { order.len() })
        }),
{
    if j < c.folder_counts@.len() {
        crate::storage::lemma_count_entry_first(c.folder_counts@, name@, j);
    } else {
        crate::storage::lemma_count_entry_none(c.folder_counts@, name@);
    }
}

/// The rows of the folder groups in turn; the folder of a group is that of
/// its first feed.
pub open spec fn groups_layout(
    feeds: Seq<Feed>,
    groups: Seq<FolderGroup>,
    orders: Seq<Seq<usize>>,
    c: UnreadCounts,
    collapsed: Seq<String>,
) -> Seq<SidebarItem>
    decreases groups.len(),
{
    if groups.len() == 0 {
        Seq::empty()
    } else {
        let g = groups.len() - 1;
        groups_layout(feeds, groups.drop_last(), orders.drop_last(), c, collapsed) + group_block(
            feeds,
            feeds[groups[g].members@[0] as int].folder,
            orders[g],
            c,
            collapsed,
        )
    }
}

/// `items` is the sidebar of `feeds`: the smart views, then every folder
/// group in folder order with its feeds sorted by title.
pub open spec fn is_sidebar_of(
    feeds: Seq<Feed>,
    c: UnreadCounts,
    collapsed: Seq<String>,
    items: Seq<SidebarItem>,
) -> bool {
    exists|groups: Seq<FolderGroup>, orders: Seq<Seq<usize>>|
        {
            &&& groups_by_folder(feeds, groups)
            &&& orders.len() == groups.len()
            &&& forall|g: int|
                0 <= g < groups.len() ==> sorted_by_title(feeds, groups[g].members@, #[trigger] orders[g])
            &&& items == smart_rows(c) + groups_layout(feeds, groups, orders, c, collapsed)
        }
}

/// Is `name` among the collapsed folders?
pub fn folder_is_collapsed(collapsed: &Vec<String>, name: &str) -> (r: bool)
    ensures
        r == is_collapsed(collapsed@, name@),
{
    let mut i: usize = 0;
    while i < collapsed.len()
        invariant
            i <= collapsed.len(),
            forall|j: int| 0 <= j < i ==> (#[trigger] collapsed@[j])@ != name@,
        decreases collapsed.len() - i,
    {
        if str_eq(collapsed[i].as_str(), name) {
            return true;
        }
        i = i + 1;
    }
    false
}

fn make_feed_row(f: &Feed, c: &UnreadCounts) -> (r: SidebarItem)
    ensures
        r == feed_row(*f, *c),
{
    let (unread, _) = lookup_counts(&c.feed_counts, f.id.as_str());
    SidebarItem::Feed {
        feed_id: f.id.clone(),
        title: f.title.clone(),
        folder: clone_opt_text(&f.folder),
        unread_count: unread,
        has_error: f.error.is_some(),
    }
}

/// Appends the rows of the feeds at `order`.
fn push_feed_rows(items: &mut Vec<SidebarItem>, feeds: &[Feed], order: &Vec<usize>, c: &UnreadCounts)
    requires
        forall|j: int| 0 <= j < order.len() ==> (#[trigger] order@[j] as int) < feeds.len(),
    ensures
        final(items)@ == old(items)@ + order@.map_values(|m: usize| feed_row(feeds@[m as int], *c)),
{
    let ghost start = items@;
    let mut k: usize = 0;
    while k < order.len()
        invariant
            k <= order.len(),
            forall|j: int| 0 <= j < order.len() ==> (#[trigger] order@[j] as int) < feeds.len(),
            items@ == start + order@.take(k as int).map_values(|m: usize| feed_row(feeds@[m as int], *c)),
        decreases order.len() - k,
    {
        let row = make_feed_row(&feeds[order[k]], c);
        items.push(row);
        proof {
            assert(order@.take(k as int + 1).map_values(|m: usize| feed_row(feeds@[m as int], *c))
                =~= order@.take(k as int).map_values(|m: usize| feed_row(feeds@[m as int], *c)).push(row));
        }
        k = k + 1;
    }
    assert(order@.take(order.len() as int) =~= order@);
}

/// The sidebar rows for `feeds`, given the counts and the folders the reader
/// collapsed.
pub fn build_sidebar_items(feeds: &[Feed], counts: &UnreadCounts, collapsed: &Vec<String>) -> (r: Vec<SidebarItem>)
    ensures
        is_sidebar_of(feeds@, *counts, collapsed@, r@),
{
    let mut items: Vec<SidebarItem> = Vec::new();
    items.push(SidebarItem::SmartHeader);
    items.push(SidebarItem::Smart(SmartFeedKind::Today, counts.today));
    items.push(SidebarItem::Smart(SmartFeedKind::AllUnread, counts.all_unread));
    items.push(SidebarItem::Smart(SmartFeedKind::Starred, counts.starred));
    items.push(SidebarItem::Smart(SmartFeedKind::AllArticles, counts.all_articles));
    assert(items@ =~= smart_rows(*counts));
    let groups = group_by_folder(feeds);
    let ghost mut orders: Seq<Seq<usize>> = Seq::empty();
    let mut g: usize = 0;
    while g < groups.len()
        invariant
            g <= groups.len(),
            groups_by_folder(feeds@, groups@),
            orders.len() == g,
            forall|h: int| 0 <= h < g ==> sorted_by_title(feeds@, groups@[h].members@, #[trigger] orders[h]),
            items@ == smart_rows(*counts) + groups_layout(
                feeds@,
                groups@.take(g as int),
                orders,
                *counts,
                collapsed@,
            ),
        decreases groups.len() - g,
    {
        let group = &groups[g];
        assert(group.members@.len() > 0);
        let first = group.members[0];
        assert(forall|j: int| 0 <= j < group.members@.len() ==> (#[trigger] group.members@[j] as int) < feeds.len());
        let order = sort_by_title(feeds, &group.members);
        let ghost before = items@;
        assert forall|j: int| 0 <= j < order.len() implies (#[trigger] order@[j] as int) < feeds.len() by {
            assert(group.members@.contains(order@[j]));
        }
        match &feeds[first].folder {
            Some(name) => {
                let open = !folder_is_collapsed(collapsed, name.as_str());
                let (folder_unread, _) = lookup_counts(&counts.folder_counts, name.as_str());
                items.push(SidebarItem::FolderHeader {
                    name: name.clone(),
                    is_expanded: open,
                    unread_count: folder_unread,
                    feed_count: order.len(),
                });
                if open {
                    push_feed_rows(&mut items, feeds, &order, counts);
                }
            },
            None => {
                push_feed_rows(&mut items, feeds, &order, counts);
            },
        }
        proof {
            let ng = groups@.take(g as int + 1);
            assert(ng.drop_last() =~= groups@.take(g as int));
            assert(orders.push(order@).drop_last() =~= orders);
            assert(items@ =~= before + group_block(feeds@, feeds@[first as int].folder, order@, *counts, collapsed@));
            orders = orders.push(order@);
        }
        g = g + 1;
    }
    assert(groups@.take(groups.len() as int) =~= groups@);
    items
}

/// The fuzzy score of feed `i`'s title against `needle`; titles too long to
/// score do not match.
pub open spec fn title_score(feeds: Seq<Feed>, needle: Seq<char>, i: int) -> Option<int> {
    if feeds[i].title@.len() <= MAX_HAYSTACK {
        fuzzy_score(feeds[i].title@, needle)
    } else {
        None
    }
}

/// Feed `a` ranks above feed `b`: a better score, or an equal one and an
/// earlier place in the list.
pub open spec fn ranks_above(feeds: Seq<Feed>, needle: Seq<char>, a: int, b: int) -> bool {
    let sa = title_score(feeds, needle, a)->0;
    let sb = title_score(feeds, needle, b)->0;
    sa > sb || (sa == sb && a < b)
}

/// `order` lists, once each, the feeds whose title matches `needle`, best
/// match first.
pub open spec fn ranked_matches(feeds: Seq<Feed>, needle: Seq<char>, order: Seq<usize>) -> bool {
    &&& forall|j: int| 0 <= j < order.len() ==> (#[trigger] order[j] as int) < feeds.len()
    &&& forall|i: int| 0 <= i < feeds.len() ==> (order.contains(i as usize) <==> #[trigger] title_score(feeds, needle, i) is Some)
    &&& forall|a: int, b: int| 0 <= a < b < order.len() ==> order[a] != order[b]
    &&& forall|j: int| 0 < j < order.len() ==> ranks_above(feeds, needle, order[j - 1] as int, #[trigger] order[j] as int)
}

/// The feeds whose title fuzzy-matches `needle_lower`, best match first and
/// in list order among equal scores.
#[verifier::spinoff_prover]
#[verifier::rlimit(60)]
pub fn rank_feed_matches(feeds: &[Feed], needle_lower: &str) -> (r: Vec<usize>)
    ensures
        ranked_matches(feeds@, needle_lower@, r@),
{
    let n = feeds.len();
    let mut res: Vec<usize> = Vec::new();
    let mut sc: Vec<i32> = Vec::new();
    let mut i: usize = 0;
    while i < n
        invariant
            i <= n,
            n == feeds.len(),
            res.len() == sc.len(),
            forall|j: int| 0 <= j < res.len() ==> (#[trigger] res@[j] as int) < i,
            forall|j: int| 0 <= j < res.len() ==> title_score(feeds@, needle_lower@, #[trigger] res@[j] as int) == Some(sc@[j] as int),
            forall|k: int| 0 <= k < i ==> (res@.contains(k as usize) <==> #[trigger] title_score(feeds@, needle_lower@, k) is Some),
            forall|a: int, b: int| 0 <= a < b < res.len() ==> res@[a] != res@[b],
            forall|j: int| 0 < j < res.len() ==> (sc@[j - 1] > #[trigger] sc@[j] || (sc@[j - 1] == sc@[j] && res@[j - 1] < res@[j])),
        decreases n - i,
    {
        let title = feeds[i].title.as_str();
        let tc = chars_of(title);
        if tc.len() <= MAX_HAYSTACK {
            match score(title, needle_lower) {
                None => {},
                Some(s) => {
                    let mut p: usize = 0;
                    while p < res.len() && sc[p] >= s
                        invariant
                            p <= res.len(),
                            res.len() == sc.len(),
                            forall|j: int| 0 <= j < p ==> sc@[j] >= s,
                        decreases res.len() - p,
                    {
                        p = p + 1;
                    }
                    let ghost old_res = res@;
                    let ghost old_sc = sc@;
                    res.insert(p, i);
                    sc.insert(p, s);
                    proof {
                        assert forall|k: int| 0 <= k < i + 1 implies (res@.contains(k as usize) <==> #[trigger] title_score(feeds@, needle_lower@, k) is Some) by {
                            if k < i {
                                if old_res.contains(k as usize) {
                                    let j = choose|j: int| 0 <= j < old_res.len() && old_res[j] == k as usize;
                                    if j < p { assert(res@[j] == k as usize); } else { assert(res@[j + 1] == k as usize); }
                                }
                                if res@.contains(k as usize) {
                                    let j = choose|j: int| 0 <= j < res@.len() && res@[j] == k as usize;
                                    if j < p { assert(old_res[j] == k as usize); } else if j > p { assert(old_res[j - 1] == k as usize); }
                                }
                            } else {
                                assert(res@[p as int] == i);
                            }
                        }
                        assert forall|j: int| 0 < j < res.len() implies (sc@[j - 1] > #[trigger] sc@[j] || (sc@[j - 1] == sc@[j] && res@[j - 1] < res@[j])) by {
                            if j < p {
                                assert(sc@[j - 1] == old_sc[j - 1] && sc@[j] == old_sc[j]);
                            } else if j == p {
                                assert(sc@[j - 1] == old_sc[j - 1]);
                            } else if j == p + 1 {
                                assert(sc@[j] == old_sc[j - 1]);
                            } else {
                                assert(sc@[j - 1] == old_sc[j - 2] && sc@[j] == old_sc[j - 1]);
                            }
                        }
                        assert forall|a: int, b: int| 0 <= a < b < res.len() implies res@[a] != res@[b] by {
                            if a == p as int {
                                if b > p { assert(res@[b] == old_res[b - 1]); }
                            } else if b == p as int {
                                assert(res@[a] == old_res[a]);
                            } else {
                                let oa = if a < p { a } else { a - 1 };
                                let ob = if b < p { b } else { b - 1 };
                                assert(res@[a] == old_res[oa] && res@[b] == old_res[ob]);
                            }
                        }
                        assert forall|j: int| 0 <= j < res.len() implies title_score(feeds@, needle_lower@, #[trigger] res@[j] as int) == Some(sc@[j] as int) by {
                            if j < p { assert(res@[j] == old_res[j]); } else if j > p { assert(res@[j] == old_res[j - 1]); }
                        }
                    }
                },
            }
        }
        i = i + 1;
    }
    proof {
        assert forall|j: int| 0 < j < res.len() implies ranks_above(feeds@, needle_lower@, res@[j - 1] as int, #[trigger] res@[j] as int) by {
            assert(title_score(feeds@, needle_lower@, res@[j - 1] as int) == Some(sc@[j - 1] as int));
            assert(title_score(feeds@, needle_lower@, res@[j] as int) == Some(sc@[j] as int));
        }
    }
    res
}

/// The sidebar while the reader fuzzy-finds a feed: the rows of the matching
/// feeds, best match first.
pub open spec fn is_feed_search_of(
    feeds: Seq<Feed>,
    c: UnreadCounts,
    needle: Seq<char>,
    items: Seq<SidebarItem>,
) -> bool {
    exists|order: Seq<usize>|
        #[trigger] ranked_matches(feeds, needle, order) && items == order.map_values(
            |m: usize| feed_row(feeds[m as int], c),
        )
}

/// The sidebar rows of the feeds matching `needle_lower`.
pub fn build_feed_search_items(feeds: &[Feed], counts: &UnreadCounts, needle_lower: &str) -> (r: Vec<SidebarItem>)
    ensures
        is_feed_search_of(feeds@, *counts, needle_lower@, r@),
{
    let order = rank_feed_matches(feeds, needle_lower);
    let mut items: Vec<SidebarItem> = Vec::new();
    push_feed_rows(&mut items, feeds, &order, counts);
    assert(items@ =~= order@.map_values(|m: usize| feed_row(feeds@[m as int], *counts)));
    items
}

} // verus!
