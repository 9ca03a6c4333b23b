//! The subscriptions a new database starts with.
use vstd::prelude::*;
use crate::model::{opt_view, Article, Feed};

verus! {

/// A feed that has never been fetched.
pub open spec fn unfetched(f: Feed) -> bool {
    f.custom_icon is None && f.last_updated is None && f.error is None && f.unread_count == 0 && f.total_count == 0
}

/// The plain values of a feed: id, title, address, site and folder.
pub open spec fn feed_row(f: Feed) -> (Seq<char>, Seq<char>, Seq<char>, Option<Seq<char>>, Option<Seq<char>>) {
    (f.id@, f.title@, f.url@, opt_view(f.site_url), opt_view(f.folder))
}

/// The curated feeds, in order.
pub open spec fn default_feed_rows() -> Seq<(Seq<char>, Seq<char>, Seq<char>, Option<Seq<char>>, Option<Seq<char>>)> {
    seq![
        ("bloomberg-markets"@, "Bloomberg Markets"@, "https://feeds.bloomberg.com/markets/news.rss"@, Some("https://www.bloomberg.com/markets"@), Some("Fin Econ"@)),
        ("ft-alphaville"@, "FT Alphaville"@, "https://www.ft.com/alphaville?format=rss"@, Some("https://www.ft.com/alphaville"@), Some("Fin Econ"@)),
        ("marginal-revolution"@, "Marginal Revolution"@, "https://marginalrevolution.com/feed"@, Some("https://marginalrevolution.com"@), Some("Fin Econ"@)),
        ("econlib"@, "Econlib"@, "https://www.econlib.org/feed/"@, Some("https://www.econlib.org"@), Some("Fin Econ"@)),
        ("calculated-risk"@, "Calculated Risk"@, "https://calculatedrisk.substack.com/feed"@, Some("https://calculatedrisk.substack.com"@), Some("Fin Econ"@)),
        ("ars-technica"@, "Ars Technica"@, "https://feeds.arstechnica.com/arstechnica/index"@, Some("https://arstechnica.com"@), Some("2020s"@)),
        ("xkcd"@, "xkcd.com"@, "https://xkcd.com/rss.xml"@, Some("https://xkcd.com"@), Some("2020s"@)),
        ("data-colada"@, "Data Colada"@, "https://datacolada.org/feed"@, Some("https://datacolada.org"@), Some("2020s"@)),
        ("hacker-news"@, "Hacker News"@, "https://news.ycombinator.com/rss"@, Some("https://news.ycombinator.com"@), None::<Seq<char>>),
        ("rust-blog"@, "Rust Blog"@, "https://blog.rust-lang.org/feed.xml"@, Some("https://blog.rust-lang.org"@), None::<Seq<char>>),
    ]
}

/// The curated feeds a new database is seeded with, filed in their folders.
pub fn default_feeds() -> (r: Vec<Feed>)
    ensures
        r@.map_values(|f: Feed| feed_row(f)) == default_feed_rows(),
        forall|i: int| 0 <= i < r@.len() ==> unfetched(#[trigger] r@[i]),
{
    let mut feeds: Vec<Feed> = Vec::new();
    feeds.push(Feed::new(
        "bloomberg-markets".to_owned(),
        "Bloomberg Markets".to_owned(),
        "https://feeds.bloomberg.com/markets/news.rss".to_owned(),
        Some("https://www.bloomberg.com/markets".to_owned()),
        Some("Fin Econ".to_owned()),
    ));
    feeds.push(Feed::new(
        "ft-alphaville".to_owned(),
        "FT Alphaville".to_owned(),
        "https://www.ft.com/alphaville?format=rss".to_owned(),
        Some("https://www.ft.com/alphaville".to_owned()),
        Some("Fin Econ".to_owned()),
    ));
    feeds.push(Feed::new(
        "marginal-revolution".to_owned(),
        "Marginal Revolution".to_owned(),
        "https://marginalrevolution.com/feed".to_owned(),
        Some("https://marginalrevolution.com".to_owned()),
        Some("Fin Econ".to_owned()),
    ));
    feeds.push(Feed::new(
        "econlib".to_owned(),
        "Econlib".to_owned(),
        "https://www.econlib.org/feed/".to_owned(),
        Some("https://www.econlib.org".to_owned()),
        Some("Fin Econ".to_owned()),
    ));
    feeds.push(Feed::new(
        "calculated-risk".to_owned(),
        "Calculated Risk".to_owned(),
        "https://calculatedrisk.substack.com/feed".to_owned(),
        Some("https://calculatedrisk.substack.com".to_owned()),
        Some("Fin Econ".to_owned()),
    ));
    feeds.push(Feed::new(
        "ars-technica".to_owned(),
        "Ars Technica".to_owned(),
        "https://feeds.arstechnica.com/arstechnica/index".to_owned(),
        Some("https://arstechnica.com".to_owned()),
        Some("2020s".to_owned()),
    ));
    feeds.push(Feed::new(
        "xkcd".to_owned(),
        "xkcd.com".to_owned(),
        "https://xkcd.com/rss.xml".to_owned(),
        Some("https://xkcd.com".to_owned()),
        Some("2020s".to_owned()),
    ));
    feeds.push(Feed::new(
        "data-colada".to_owned(),
        "Data Colada".to_owned(),
        "https://datacolada.org/feed".to_owned(),
        Some("https://datacolada.org".to_owned()),
        Some("2020s".to_owned()),
    ));
    feeds.push(Feed::new(
        "hacker-news".to_owned(),
        "Hacker News".to_owned(),
        "https://news.ycombinator.com/rss".to_owned(),
        Some("https://news.ycombinator.com".to_owned()),
        None,
    ));
    feeds.push(Feed::new(
        "rust-blog".to_owned(),
        "Rust Blog".to_owned(),
        "https://blog.rust-lang.org/feed.xml".to_owned(),
        Some("https://blog.rust-lang.org".to_owned()),
        None,
    ));
    assert(feeds@.map_values(|f: Feed| feed_row(f)) =~= default_feed_rows());
    feeds
}


/// The plain values of an article: id, feed id, feed title, title, author,
/// address, and whether it is read and starred.
pub open spec fn article_row(a: Article) -> (Seq<char>, Seq<char>, Seq<char>, Seq<char>, Option<Seq<char>>, Seq<char>, bool, bool) {
    (a.id@, a.feed_id@, a.feed_title@, a.title@, opt_view(a.author), a.url@, a.read, a.starred)
}

/// The sample articles, in order.
pub open spec fn sample_rows() -> Seq<(Seq<char>, Seq<char>, Seq<char>, Seq<char>, Option<Seq<char>>, Seq<char>, bool, bool)> {
    seq![
        ("nse-ipo-bloomberg"@, "bloomberg-markets"@, "Bloomberg Markets"@, "NSE Said to Seek Up to $55 Billion Valuation in Record India IPO"@, Some("Rajesh Mascarenhas"@), "https://www.bloomberg.com/news/articles/2026-08-18/nse-said-to-seek-up-to-55-billion-valuation-in-record-india-ipo"@, false, true),
        ("hn-dont-enjoy-internet"@, "hacker-news"@, "Hacker News"@, "I don't enjoy the Internet any more"@, Some("btao"@), "https://btao.org/posts/2026-08-17-i-dont-enjoy-the-internet/"@, false, false),
        ("mr-morocco-facts"@, "marginal-revolution"@, "Marginal Revolution"@, "Morocco facts of the day, Morocco is not hopeless"@, Some("Tyler Cowen"@), "https://marginalrevolution.com/marginalrevolution/2026/08/morocco-facts-of-the-day.html"@, false, false),
        ("ft-yield-curve"@, "ft-alphaville"@, "FT Alphaville"@, "China's 10-year bond yield falls to 13-month low"@, Some("Global Economy Desk"@), "https://www.ft.com/content/yield-curve-record-low"@, true, false),
        ("ars-ai-boom"@, "ars-technica"@, "Ars Technica"@, "AI Boom, Debt Surge Fuel Long Bond Pain | Insight with Haslinda Amin"@, Some("Tech Policy Desk"@), "https://arstechnica.com/tech-policy/2026/08/ai-boom-datacenter-debt/"@, true, false),
        ("rust-blog-update"@, "rust-blog"@, "Rust Blog"@, "Announcing Rust 1.98.0: Faster Compilation and Stabilized Async Generators"@, Some("The Rust Release Team"@), "https://blog.rust-lang.org/2026/08/18/Rust-1.98.0.html"@, false, true),
    ]
}

/// The summary and the HTML body of each sample article, in order.
pub open spec fn sample_bodies() -> Seq<(Option<Seq<char>>, Option<Seq<char>>)> {
    seq![
        (Some("National Stock Exchange of India Ltd., the operator of the world's largest derivatives exchange by trading volume, is seeking a valuation of as much as 5.26 trillion rupees ($55 billion) in its planned initial public offering, according to people familiar with the matter."@), Some(r#"<p>National Stock Exchange of India Ltd., the operator of the world's largest derivatives exchange by trading volume, is seeking a valuation of as much as 5.26 trillion rupees ($55 billion) in its planned initial public offering, according to people familiar with the matter.</p>
<p>The exchange operator has proposed selling a 10% stake in the maiden share sale, the people said, asking not to be identified as the discussions are private.</p>
<h3>Key Highlights</h3>
<ul>
<li><strong>Target Valuation:</strong> Up to $55 Billion (5.26 trillion INR)</li>
<li><strong>Offering Size:</strong> 10% of total equity via secondary sale and fresh shares</li>
<li><strong>Global Position:</strong> World leader in derivatives volume for 5 consecutive years</li>
</ul>
<blockquote>"This landmark IPO marks a pivotal milestone for India's rapidly expanding financial markets and retail participation boom."</blockquote>
<p>Deliberations are ongoing, and details including the timing and valuation could change depending on regulatory clearances from the Securities and Exchange Board of India.</p>"#@)),
        (Some("Article URL: https://btao.org/posts/2026-08-17-i-dont-enjoy-the-internet/ - An essay exploring the shift from the personal web to algorithmic engagement feeds, and finding joy in RSS and small web protocols again."@), Some(r#"<p>I remember when browsing the web felt like exploring a vast, handcrafted library. Every blog had an individual personality, eccentric styling, and thoughtful writing without engagement farming.</p>
<p>Recently, opening the browser feels more like stepping into a noisy arcade where everything is optimized to trap your attention for ad impressions.</p>
<h3>Rediscovering the Calm Web</h3>
<p>Moving back to an RSS reader, plain text feeds, and direct subscriptions has completely changed my relationship with information consumption.</p>
<pre><code># The Simple Web Formula
1. Pick your sources intentionally via RSS
2. Read chronologically without algorithmic manipulation
3. Close the tab when you're done</code></pre>
<p>The internet hasn't died; it just got buried under algorithmic layers. Digging back to the fundamentals brings back the joy.</p>"#@)),
        (Some("For decades, South Africa was the great success story of African industrialization. Today, Morocco has become one of the premier automotive and aerospace manufacturing hubs on the Mediterranean."@), Some(r#"<p>For decades, South Africa was the great success story of African industrialization. Today, Morocco has quietly become one of the most impressive manufacturing hubs in the Mediterranean basin.</p>
<ul>
<li>Automotive exports now exceed agricultural exports by a factor of three.</li>
<li>The high-speed rail line (Al Boraq) between Tangier and Casablanca runs on renewable electricity.</li>
<li>Nearshoring from European manufacturers has accelerated significantly since 2022.</li>
</ul>
<p>Read the full analysis and policy papers linked at the Center for Global Development.</p>"#@)),
        (Some("Weak economic growth and domestic deflationary pressures push institutional investors into sovereign debt as central bank signals further easing measures."@), Some(r#"<p>China's 10-year sovereign bond yield dropped to a 13-month low on Tuesday as investors sought safety amid persistent deflationary signals and soft consumer spending figures.</p>
<p>Traders noted heavy buying by domestic state commercial banks, anticipating further reserve requirement ratio (RRR) cuts later this quarter.</p>"#@)),
        (Some("Massive capital expenditure on custom silicon, datacenter infrastructure, and grid interconnects challenges balance sheets across the semiconductor supply chain."@), Some(r#"<p>Hyperscalers are spending hundreds of billions on specialized silicon, advanced liquid cooling, and dedicated clean energy infrastructure.</p>
<p>While venture backing remains strong, debt markets are beginning to price in longer amortization cycles for generation-3 AI clusters.</p>"#@)),
        (Some("The Rust team is happy to announce a new version of Rust, 1.98.0. Rust is a programming language empowering everyone to build reliable and efficient software."@), Some(r#"<p>The Rust team is excited to announce the release of Rust 1.98.0!</p>
<h3>What's in 1.98.0 stable</h3>
<p>Highlights of this release include:</p>
<ul>
<li><strong>Async Generators:</strong> First-class async syntax for streaming pipelines</li>
<li><strong>Parallel Frontend:</strong> 25% average compilation speedup across large codebases</li>
<li><strong>Enhanced Const Eval:</strong> Additional standard library math and formatting functions in const context</li>
</ul>
<p>To upgrade your toolchain, run:</p>
<pre><code>rustup update stable</code></pre>"#@)),
    ]
}

/// How long before the moment of seeding each sample article appeared, in
/// seconds, in the order they are listed.
pub open spec fn sample_ages() -> Seq<i64> {
    seq![900, 2880, 7200, 10800, 14400, 21600]
}

/// The sample articles a new database is seeded with, dated relative to
/// `now` (seconds since the epoch): published and stored the given ages
/// before it.
pub fn sample_articles(now: i64) -> (r: Vec<Article>)
    requires
        now >= i64::MIN + 21600,
    ensures
        r@.len() == sample_ages().len(),
        r@.map_values(|a: Article| article_row(a)) == sample_rows(),
        r@.map_values(|a: Article| (opt_view(a.summary), opt_view(a.content))) == sample_bodies(),
        forall|i: int| 0 <= i < r@.len() ==> (#[trigger] r@[i]).published == Some((now - sample_ages()[i]) as i64)
            && r@[i].created_at == now - sample_ages()[i],
{
    let r = vec![
        Article {
            id: "nse-ipo-bloomberg".to_owned(),
            feed_id: "bloomberg-markets".to_owned(),
            feed_title: "Bloomberg Markets".to_owned(),
            title: "NSE Said to Seek Up to $55 Billion Valuation in Record India IPO".to_owned(),
            author: Some("Rajesh Mascarenhas".to_owned()),
            summary: Some("National Stock Exchange of India Ltd., the operator of the world's largest derivatives exchange by trading volume, is seeking a valuation of as much as 5.26 trillion rupees ($55 billion) in its planned initial public offering, according to people familiar with the matter.".to_owned()),
            content: Some(r#"<p>National Stock Exchange of India Ltd., the operator of the world's largest derivatives exchange by trading volume, is seeking a valuation of as much as 5.26 trillion rupees ($55 billion) in its planned initial public offering, according to people familiar with the matter.</p>
<p>The exchange operator has proposed selling a 10% stake in the maiden share sale, the people said, asking not to be identified as the discussions are private.</p>
<h3>Key Highlights</h3>
<ul>
<li><strong>Target Valuation:</strong> Up to $55 Billion (5.26 trillion INR)</li>
<li><strong>Offering Size:</strong> 10% of total equity via secondary sale and fresh shares</li>
<li><strong>Global Position:</strong> World leader in derivatives volume for 5 consecutive years</li>
</ul>
<blockquote>"This landmark IPO marks a pivotal milestone for India's rapidly expanding financial markets and retail participation boom."</blockquote>
<p>Deliberations are ongoing, and details including the timing and valuation could change depending on regulatory clearances from the Securities and Exchange Board of India.</p>"#.to_owned()),
            url: "https://www.bloomberg.com/news/articles/2026-08-18/nse-said-to-seek-up-to-55-billion-valuation-in-record-india-ipo".to_owned(),
            published: Some(now - 900),
            read: false,
            starred: true,
            created_at: now - 900,
        },
        Article {
            id: "hn-dont-enjoy-internet".to_owned(),
            feed_id: "hacker-news".to_owned(),
            feed_title: "Hacker News".to_owned(),
            title: "I don't enjoy the Internet any more".to_owned(),
            author: Some("btao".to_owned()),
            summary: Some("Article URL: https://btao.org/posts/2026-08-17-i-dont-enjoy-the-internet/ - An essay exploring the shift from the personal web to algorithmic engagement feeds, and finding joy in RSS and small web protocols again.".to_owned()),
            content: Some(r#"<p>I remember when browsing the web felt like exploring a vast, handcrafted library. Every blog had an individual personality, eccentric styling, and thoughtful writing without engagement farming.</p>
<p>Recently, opening the browser feels more like stepping into a noisy arcade where everything is optimized to trap your attention for ad impressions.</p>
<h3>Rediscovering the Calm Web</h3>
<p>Moving back to an RSS reader, plain text feeds, and direct subscriptions has completely changed my relationship with information consumption.</p>
<pre><code># The Simple Web Formula
1. Pick your sources intentionally via RSS
2. Read chronologically without algorithmic manipulation
3. Close the tab when you're done</code></pre>
<p>The internet hasn't died; it just got buried under algorithmic layers. Digging back to the fundamentals brings back the joy.</p>"#.to_owned()),
            url: "https://btao.org/posts/2026-08-17-i-dont-enjoy-the-internet/".to_owned(),
            published: Some(now - 2880),
            read: false,
            starred: false,
            created_at: now - 2880,
        },
        Article {
            id: "mr-morocco-facts".to_owned(),
            feed_id: "marginal-revolution".to_owned(),
            feed_title: "Marginal Revolution".to_owned(),
            title: "Morocco facts of the day, Morocco is not hopeless".to_owned(),
            author: Some("Tyler Cowen".to_owned()),
            summary: Some("For decades, South Africa was the great success story of African industrialization. Today, Morocco has become one of the premier automotive and aerospace manufacturing hubs on the Mediterranean.".to_owned()),
            content: Some(r#"<p>For decades, South Africa was the great success story of African industrialization. Today, Morocco has quietly become one of the most impressive manufacturing hubs in the Mediterranean basin.</p>
<ul>
<li>Automotive exports now exceed agricultural exports by a factor of three.</li>
<li>The high-speed rail line (Al Boraq) between Tangier and Casablanca runs on renewable electricity.</li>
<li>Nearshoring from European manufacturers has accelerated significantly since 2022.</li>
</ul>
<p>Read the full analysis and policy papers linked at the Center for Global Development.</p>"#.to_owned()),
            url: "https://marginalrevolution.com/marginalrevolution/2026/08/morocco-facts-of-the-day.html".to_owned(),
            published: Some(now - 7200),
            read: false,
            starred: false,
            created_at: now - 7200,
        },
        Article {
            id: "ft-yield-curve".to_owned(),
            feed_id: "ft-alphaville".to_owned(),
            feed_title: "FT Alphaville".to_owned(),
            title: "China's 10-year bond yield falls to 13-month low".to_owned(),
            author: Some("Global Economy Desk".to_owned()),
            summary: Some("Weak economic growth and domestic deflationary pressures push institutional investors into sovereign debt as central bank signals further easing measures.".to_owned()),
            content: Some(r#"<p>China's 10-year sovereign bond yield dropped to a 13-month low on Tuesday as investors sought safety amid persistent deflationary signals and soft consumer spending figures.</p>
<p>Traders noted heavy buying by domestic state commercial banks, anticipating further reserve requirement ratio (RRR) cuts later this quarter.</p>"#.to_owned()),
            url: "https://www.ft.com/content/yield-curve-record-low".to_owned(),
            published: Some(now - 10800),
            read: true,
            starred: false,
            created_at: now - 10800,
        },
        Article {
            id: "ars-ai-boom".to_owned(),
            feed_id: "ars-technica".to_owned(),
            feed_title: "Ars Technica".to_owned(),
            title: "AI Boom, Debt Surge Fuel Long Bond Pain | Insight with Haslinda Amin".to_owned(),
            author: Some("Tech Policy Desk".to_owned()),
            summary: Some("Massive capital expenditure on custom silicon, datacenter infrastructure, and grid interconnects challenges balance sheets across the semiconductor supply chain.".to_owned()),
            content: Some(r#"<p>Hyperscalers are spending hundreds of billions on specialized silicon, advanced liquid cooling, and dedicated clean energy infrastructure.</p>
<p>While venture backing remains strong, debt markets are beginning to price in longer amortization cycles for generation-3 AI clusters.</p>"#.to_owned()),
            url: "https://arstechnica.com/tech-policy/2026/08/ai-boom-datacenter-debt/".to_owned(),
            published: Some(now - 14400),
            read: true,
            starred: false,
            created_at: now - 14400,
        },
        Article {
            id: "rust-blog-update".to_owned(),
            feed_id: "rust-blog".to_owned(),
            feed_title: "Rust Blog".to_owned(),
            title: "Announcing Rust 1.98.0: Faster Compilation and Stabilized Async Generators".to_owned(),
            author: Some("The Rust Release Team".to_owned()),
            summary: Some("The Rust team is happy to announce a new version of Rust, 1.98.0. Rust is a programming language empowering everyone to build reliable and efficient software.".to_owned()),
            content: Some(r#"<p>The Rust team is excited to announce the release of Rust 1.98.0!</p>
<h3>What's in 1.98.0 stable</h3>
<p>Highlights of this release include:</p>
<ul>
<li><strong>Async Generators:</strong> First-class async syntax for streaming pipelines</li>
<li><strong>Parallel Frontend:</strong> 25% average compilation speedup across large codebases</li>
<li><strong>Enhanced Const Eval:</strong> Additional standard library math and formatting functions in const context</li>
</ul>
<p>To upgrade your toolchain, run:</p>
<pre><code>rustup update stable</code></pre>"#.to_owned()),
            url: "https://blog.rust-lang.org/2026/08/18/Rust-1.98.0.html".to_owned(),
            published: Some(now - 21600),
            read: false,
            starred: true,
            created_at: now - 21600,
        }
    ];
    assert(forall|i: int| 0 <= i < r@.len() ==> (#[trigger] r@[i]).published == Some((now - sample_ages()[i]) as i64)
        && r@[i].created_at == now - sample_ages()[i]) by {
        assert(sample_ages()[0] == 900);
        assert(sample_ages()[1] == 2880);
        assert(sample_ages()[2] == 7200);
        assert(sample_ages()[3] == 10800);
        assert(sample_ages()[4] == 14400);
        assert(sample_ages()[5] == 21600);
    }
    assert(r@.map_values(|a: Article| article_row(a)) =~= sample_rows());
    r
}

} // verus!
