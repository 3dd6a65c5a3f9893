use monarch_store::feed_dates::rfc2822_utc;
use monarch_store::news::{
    category_for_label, feed_specs_for_distro, is_critical_title, news_item_from_entry,
    has_no_play_times, news_items_from_entries, news_items_from_feed, sort_news, FeedEntry, FeedWarnings,
    NewsCategory, NewsItem,
};

fn entry(id: &str, title: Option<&str>, link: Option<&str>) -> FeedEntry {
    FeedEntry {
        id: id.to_string(),
        title: title.map(|s| s.to_string()),
        link: link.map(|s| s.to_string()),
        updated: None,
        published: None,
        content: None,
        summary: None,
    }
}

fn item(title: &str, category: NewsCategory, date: &str) -> NewsItem {
    NewsItem {
        id: title.to_string(),
        title: title.to_string(),
        link: String::new(),
        pub_date: date.to_string(),
        source_label: "Arch News".to_string(),
        is_critical: category == NewsCategory::Critical,
        category,
        content: None,
    }
}

#[test]
fn feeds_for_arch_and_cachyos() {
    let arch = feed_specs_for_distro("arch");
    assert_eq!(arch.len(), 2);
    assert_eq!(arch[0].label, "Flathub");
    assert_eq!(arch[0].url, "https://flathub.org/api/v2/feed/new");
    assert_eq!(arch[1].url, "https://archlinux.org/feeds/news/");
    let cachy = feed_specs_for_distro("cachyos");
    let labels: Vec<&str> = cachy.iter().map(|f| f.label.as_str()).collect();
    assert_eq!(labels, vec!["Flathub", "CachyOS", "Arch News"]);
}

#[test]
fn feeds_for_unknown_distro_fall_back_to_arch() {
    let other = feed_specs_for_distro("void");
    assert_eq!(other.len(), 2);
    assert_eq!(other[1].label, "Arch News");
    let manjaro = feed_specs_for_distro("manjaro");
    assert_eq!(manjaro[1].label, "Manjaro Stable");
}

#[test]
fn critical_titles() {
    assert!(is_critical_title("Manual Intervention required for glibc"));
    assert!(is_critical_title("Security fix in openssl"));
    assert!(is_critical_title("CVE-2024-1234 patched"));
    assert!(is_critical_title("[Stable Update] 2024-05-01"));
    assert!(!is_critical_title("New GNOME release"));
}

#[test]
fn flathub_feed_items_are_discoveries() {
    assert_eq!(category_for_label("Flathub"), NewsCategory::Discovery);
    assert_eq!(category_for_label("Arch News"), NewsCategory::System);
}

#[test]
fn entry_fields_and_fallbacks() {
    let e = FeedEntry {
        id: String::new(),
        title: None,
        link: None,
        updated: None,
        published: Some((1704067200, 0)),
        content: None,
        summary: Some("short".to_string()),
    };
    let it = news_item_from_entry(&e, "Arch News");
    assert_eq!(it.title, "Untitled");
    assert_eq!(it.link, "");
    assert_eq!(it.id, "Arch News:Untitled");
    assert_eq!(it.pub_date, "Mon, 1 Jan 2024 00:00:00 +0000");
    assert_eq!(it.content.as_deref(), Some("short"));
    assert_eq!(it.category, NewsCategory::System);
    assert!(!it.is_critical);
}

#[test]
fn entry_id_prefers_own_id_then_link() {
    let with_id = news_item_from_entry(&entry("urn:1", Some("A"), Some("https://x/1")), "L");
    assert_eq!(with_id.id, "urn:1");
    let with_link = news_item_from_entry(&entry("", Some("A"), Some("https://x/1")), "L");
    assert_eq!(with_link.id, "https://x/1");
    let long = "x".repeat(70);
    let neither = news_item_from_entry(&entry("", Some(&long), None), "L");
    assert_eq!(neither.id, format!("L:{}", "x".repeat(64)));
}

#[test]
fn critical_entry_goes_to_critical_group() {
    let items = news_items_from_entries(
        &vec![entry("1", Some("Manual intervention for foo"), None), entry("2", Some("New app"), None)],
        "Flathub",
    );
    assert_eq!(items.len(), 2);
    assert_eq!(items[0].category, NewsCategory::Critical);
    assert!(items[0].is_critical);
    assert_eq!(items[1].category, NewsCategory::Discovery);
    assert_eq!(items[1].source_label, "Flathub");
}

#[test]
fn unparsable_feed_gives_no_items() {
    assert!(news_items_from_feed(b"this is not a feed", "Arch News").is_empty());
}

#[test]
fn rss_feed_is_read() {
    let rss = br#"<?xml version="1.0"?><rss version="2.0"><channel><title>t</title>
<item><title>Security update for glibc</title><link>https://a/1</link><guid>g1</guid>
<pubDate>Mon, 01 Jan 2024 10:00:00 +0000</pubDate><description>body</description></item>
</channel></rss>"#;
    let items = news_items_from_feed(rss, "Arch News");
    assert_eq!(items.len(), 1);
    assert_eq!(items[0].title, "Security update for glibc");
    assert_eq!(items[0].link, "https://a/1");
    assert_eq!(items[0].pub_date, "Mon, 1 Jan 2024 10:00:00 +0000");
    assert!(items[0].is_critical);
    assert_eq!(items[0].category, NewsCategory::Critical);
}

#[test]
fn news_order_groups_then_newest_first() {
    let items = vec![
        item("discovery", NewsCategory::Discovery, "Tue, 02 Jan 2024 00:00:00 +0000"),
        item("old system", NewsCategory::System, "Mon, 01 Jan 2024 00:00:00 +0000"),
        item("undated system", NewsCategory::System, "not a date"),
        item("new system", NewsCategory::System, "Wed, 03 Jan 2024 00:00:00 +0000"),
        item("critical", NewsCategory::Critical, ""),
    ];
    let sorted = sort_news(&items);
    let titles: Vec<&str> = sorted.iter().map(|i| i.title.as_str()).collect();
    assert_eq!(titles, vec!["critical", "new system", "old system", "undated system", "discovery"]);
}

#[test]
fn equal_items_keep_their_order() {
    let items = vec![
        item("a", NewsCategory::System, "x"),
        item("b", NewsCategory::System, "y"),
    ];
    let sorted = sort_news(&items);
    assert_eq!(sorted[0].title, "a");
    assert_eq!(sorted[1].title, "b");
}

#[test]
fn feed_warnings_are_throttled() {
    let mut w = FeedWarnings::new();
    assert!(w.should_warn("https://a", 1_000));
    assert!(!w.should_warn("https://a", 1_000 + 599_999));
    assert!(w.should_warn("https://b", 2_000));
    assert!(w.should_warn("https://a", 1_000 + 600_000));
    assert_eq!(w.seen.len(), 2);
    assert_eq!(w.seen[0].0, "https://b");
    assert_eq!(w.seen[1], ("https://a".to_string(), 601_000));
}

#[test]
fn feed_dates_are_written_in_rfc2822() {
    assert_eq!(rfc2822_utc(0, 0), Some("Thu, 1 Jan 1970 00:00:00 +0000".to_string()));
    assert_eq!(rfc2822_utc(1057056757, 0), Some("Tue, 1 Jul 2003 10:52:37 +0000".to_string()));
    assert_eq!(rfc2822_utc(951782400, 0), Some("Tue, 29 Feb 2000 00:00:00 +0000".to_string()));
    assert_eq!(rfc2822_utc(-62167219200, 0), Some("Sat, 1 Jan 0000 00:00:00 +0000".to_string()));
    assert_eq!(rfc2822_utc(253402300799, 0), Some("Fri, 31 Dec 9999 23:59:59 +0000".to_string()));
    assert_eq!(rfc2822_utc(1483228799, 1_500_000_000), Some("Sat, 31 Dec 2016 23:59:60 +0000".to_string()));
    assert_eq!(rfc2822_utc(-62167219201, 0), None);
    assert_eq!(rfc2822_utc(253402300800, 0), None);
}

#[test]
fn feed_dates_outside_the_form_are_left_empty() {
    let mut e = entry("1", Some("Old"), None);
    e.updated = Some((-62167222800, 0));
    e.published = Some((0, 0));
    let it = news_item_from_entry(&e, "Arch News");
    assert_eq!(it.pub_date, "");
    let atom = br#"<?xml version="1.0" encoding="utf-8"?><feed xmlns="http://www.w3.org/2005/Atom"><title>t</title><id>f</id><updated>2024-01-01T00:00:00Z</updated>
<entry><title>Ancient</title><id>e1</id><updated>0000-01-01T00:00:00+01:00</updated></entry></feed>"#;
    let items = news_items_from_feed(atom, "Arch News");
    assert_eq!(items.len(), 1);
    assert_eq!(items[0].pub_date, "");
}

#[test]
fn play_time_markup_is_found() {
    assert!(has_no_play_times(b"<rss><item><title>The end of time</title></item></rss>"));
    assert!(has_no_play_times(b"<p>duration: 3 minutes, backend start</p>"));
    assert!(!has_no_play_times(b"<item><itunes:duration>12:00:00</itunes:duration></item>"));
    assert!(!has_no_play_times(b"<item><duration>1</duration></item>"));
    assert!(!has_no_play_times(b"<media:text start = \"1\">x</media:text>"));
    assert!(!has_no_play_times(b"<media:text end=\"1\">x</media:text>"));
    assert!(!has_no_play_times(b"<media:thumbnail url=\"u\" time\t=\"1\"/>"));
    assert!(!has_no_play_times(b"<rss>\0</rss>"));
    assert!(!has_no_play_times(b"\x1b$B"));
    assert!(has_no_play_times(b""));
    assert!(has_no_play_times(b"&lt;time datetime=&quot;2024&quot;&gt; https://v/?t=1&amp;start=30"));
    assert!(!has_no_play_times(b"<media:thumbnail url=\"u\"time=\"1\"/>"));
}

#[test]
fn feed_with_play_times_gives_no_items() {
    let rss = br#"<?xml version="1.0"?><rss version="2.0" xmlns:itunes="http://www.itunes.com/dtds/podcast-1.0.dtd"><channel><title>t</title>
<item><title>Episode</title><link>https://a/1</link><guid>g1</guid>
<itunes:duration>99999999999999999999999</itunes:duration></item>
</channel></rss>"#;
    assert!(news_items_from_feed(rss, "Arch News").is_empty());
    let media = br#"<?xml version="1.0"?><rss version="2.0" xmlns:media="http://search.yahoo.com/mrss/"><channel><title>t</title>
<item><title>Clip</title><link>https://a/2</link><media:thumbnail url="https://a/t.png" time="1:00:00"/></item>
</channel></rss>"#;
    assert!(news_items_from_feed(media, "Arch News").is_empty());
}

#[test]
fn feed_ids_of_linked_entries_are_stable() {
    let rss = br#"<?xml version="1.0"?><rss version="2.0"><channel><title>t</title>
<item><title>First</title><link>https://a/1</link><guid>g1</guid></item>
<item><title>Second</title><link>https://a/2</link></item>
</channel></rss>"#;
    let a = news_items_from_feed(rss, "Arch News");
    let b = news_items_from_feed(rss, "Arch News");
    assert_eq!(a.len(), 2);
    assert_eq!(a[0].id, "g1");
    assert!(!a[1].id.is_empty());
    assert_eq!(a[1].id, b[1].id);
}
