//! Distribution-aware news: which feeds to read for a distribution, how feed entries
//! become news items, which items are critical, the order in which they are shown, and
//! the throttling of repeated feed warnings.
use vstd::prelude::*;
use crate::feed_dates::{rfc2822_text, rfc2822_utc, writable};
use crate::text::{chars_of, contains, contains_str, eq_str, lower_chars, lowercase, string_of};

verus! {

/// The group a news item is shown in.
#[derive(Debug, Clone, Copy, PartialEq, Eq, Structural)]
pub enum NewsCategory {
    Critical,
    System,
    Discovery,
}

/// One news item from a distribution or Flathub feed.
#[derive(Debug, Clone)]
pub struct NewsItem {
    pub id: String,
    pub title: String,
    pub link: String,
    pub pub_date: String,
    pub source_label: String,
    pub is_critical: bool,
    pub category: NewsCategory,
    /// The article body or summary, for inline display.
    pub content: Option<String>,
}

/// A feed to read: its URL and the label its items are shown under.
#[derive(Debug, Clone)]
pub struct FeedSpec {
    pub url: String,
    pub label: String,
}

/// The fields of one parsed feed entry that news items are made from. Dates are instants
/// in UTC: seconds since the epoch and nanoseconds into that second.
#[derive(Debug, Clone)]
pub struct FeedEntry {
    pub id: String,
    pub title: Option<String>,
    pub link: Option<String>,
    pub updated: Option<(i64, u32)>,
    pub published: Option<(i64, u32)>,
    pub content: Option<String>,
    pub summary: Option<String>,
}

// ---------------------------------------------------------------------------
// Feeds per distribution
// ---------------------------------------------------------------------------

/// The Arch Linux news feed.
pub open spec fn arch_news() -> (Seq<char>, Seq<char>) {
    ("https://archlinux.org/feeds/news/"@, "Arch News"@)
}

/// The feeds read on distribution `d`: Flathub's new-apps feed first, then the
/// distribution's announcements (CachyOS adds Arch's news; unknown distributions read
/// Arch's news).
pub open spec fn feed_specs_of(d: Seq<char>) -> Seq<(Seq<char>, Seq<char>)> {
    let flathub = ("https://flathub.org/api/v2/feed/new"@, "Flathub"@);
    if d == "arch"@ {
        seq![flathub, arch_news()]
    } else if d == "manjaro"@ {
        seq![flathub, ("https://forum.manjaro.org/c/announcements.rss"@, "Manjaro Stable"@)]
    } else if d == "garuda"@ {
        seq![flathub, ("https://forum.garudalinux.org/c/announcements.rss"@, "Garuda News"@)]
    } else if d == "endeavouros"@ {
        seq![flathub, ("https://endeavouros.com/feed/"@, "EndeavourOS"@)]
    } else if d == "cachyos"@ {
        seq![
            flathub,
            ("https://discuss.cachyos.org/c/announcements.rss"@, "CachyOS"@),
            arch_news(),
        ]
    } else {
        seq![flathub, arch_news()]
    }
}

/// The URL and label of each feed.
pub open spec fn spec_views(v: Seq<FeedSpec>) -> Seq<(Seq<char>, Seq<char>)> {
    v.map_values(|f: FeedSpec| (f.url@, f.label@))
}

fn feed(url: &str, label: &str) -> (r: FeedSpec)
    ensures
        r.url@ == url@,
        r.label@ == label@,
{
    FeedSpec { url: String::from_str(url), label: String::from_str(label) }
}

/// The feeds to read on the distribution with id `distro_id`.
pub fn feed_specs_for_distro(distro_id: &str) -> (r: Vec<FeedSpec>)
    ensures
        spec_views(r@) == feed_specs_of(distro_id@),
{
    let d = chars_of(distro_id);
    let mut specs: Vec<FeedSpec> = Vec::new();
    specs.push(feed("https://flathub.org/api/v2/feed/new", "Flathub"));
    if eq_str(d.as_slice(), "arch") {
        specs.push(feed("https://archlinux.org/feeds/news/", "Arch News"));
    } else if eq_str(d.as_slice(), "manjaro") {
        specs.push(feed("https://forum.manjaro.org/c/announcements.rss", "Manjaro Stable"));
    } else if eq_str(d.as_slice(), "garuda") {
        specs.push(feed("https://forum.garudalinux.org/c/announcements.rss", "Garuda News"));
    } else if eq_str(d.as_slice(), "endeavouros") {
        specs.push(feed("https://endeavouros.com/feed/", "EndeavourOS"));
    } else if eq_str(d.as_slice(), "cachyos") {
        specs.push(feed("https://discuss.cachyos.org/c/announcements.rss", "CachyOS"));
        specs.push(feed("https://archlinux.org/feeds/news/", "Arch News"));
    } else {
        specs.push(feed("https://archlinux.org/feeds/news/", "Arch News"));
    }
    assert(spec_views(specs@) =~= feed_specs_of(distro_id@));
    specs
}

// ---------------------------------------------------------------------------
// Critical titles
// ---------------------------------------------------------------------------

/// A title is critical when, lower-cased, it mentions a manual intervention, a stable
/// update, security, a CVE or a vulnerability.
pub open spec fn is_critical(title: Seq<char>) -> bool {
    let l = lowercase(title);
    contains(l, "manual intervention"@) || contains(l, "stable update"@) || contains(
        l,
        "security"@,
    ) || contains(l, "cve"@) || contains(l, "vulnerability"@)
}

/// Whether a news title marks an item that must be read before updating.
pub fn is_critical_title(title: &str) -> (r: bool)
    ensures
        r == is_critical(title@),
{
    let l = lower_chars(title);
    contains_str(l.as_slice(), "manual intervention") || contains_str(
        l.as_slice(),
        "stable update",
    ) || contains_str(l.as_slice(), "security") || contains_str(l.as_slice(), "cve")
        || contains_str(l.as_slice(), "vulnerability")
}

// ---------------------------------------------------------------------------
// Feed entries to news items
// ---------------------------------------------------------------------------

/// The text of an optional string, if any.
pub open spec fn opt_text(o: Option<String>) -> Option<Seq<char>> {
    match o {
        Some(s) => Some(s@),
        None => None,
    }
}

/// An entry's title, or "Untitled".
pub open spec fn entry_title(e: FeedEntry) -> Seq<char> {
    match e.title {
        Some(t) => t@,
        None => "Untitled"@,
    }
}

/// An entry's first link, or the empty text.
pub open spec fn entry_link(e: FeedEntry) -> Seq<char> {
    match e.link {
        Some(l) => l@,
        None => Seq::empty(),
    }
}

/// The RFC 2822 text of an instant, or the empty text when its year cannot be written.
pub open spec fn date_text(d: (i64, u32)) -> Seq<char> {
    if writable(d.0 as int) {
        rfc2822_text(d.0 as int, d.1 as int)
    } else {
        Seq::empty()
    }
}

/// An entry's date: when it was updated, else when it was published, in RFC 2822 form;
/// empty when it has neither or when the year of the one it has is outside 0 to 9999.
pub open spec fn entry_date(e: FeedEntry) -> Seq<char> {
    match e.updated {
        Some(d) => date_text(d),
        None => match e.published {
            Some(d) => date_text(d),
            None => Seq::empty(),
        },
    }
}

/// An entry's body: its content, else its summary.
pub open spec fn entry_content(e: FeedEntry) -> Option<Seq<char>> {
    match e.content {
        Some(c) => Some(c@),
        None => opt_text(e.summary),
    }
}

/// At most the first 64 characters of `t`.
pub open spec fn first_64(t: Seq<char>) -> Seq<char> {
    if t.len() <= 64 {
        t
    } else {
        t.take(64)
    }
}

/// An entry's id: its own id; else its link; else the label, a colon and the first 64
/// characters of its title.
pub open spec fn entry_id(e: FeedEntry, label: Seq<char>) -> Seq<char> {
    if e.id@.len() > 0 {
        e.id@
    } else if entry_link(e).len() > 0 {
        entry_link(e)
    } else {
        label + ":"@ + first_64(entry_title(e))
    }
}

/// The group of a feed's items: Discovery for Flathub feeds, System for the others.
pub open spec fn feed_category(label: Seq<char>) -> NewsCategory {
    if contains(lowercase(label), "flathub"@) {
        NewsCategory::Discovery
    } else {
        NewsCategory::System
    }
}

/// `it` is the news item made from entry `e` of the feed labelled `label`.
pub open spec fn item_from_entry(it: NewsItem, e: FeedEntry, label: Seq<char>) -> bool {
    &&& it.id@ == entry_id(e, label)
    &&& it.title@ == entry_title(e)
    &&& it.link@ == entry_link(e)
    &&& it.pub_date@ == entry_date(e)
    &&& it.source_label@ == label
    &&& it.is_critical == is_critical(entry_title(e))
    &&& it.category == (if is_critical(entry_title(e)) {
        NewsCategory::Critical
    } else {
        feed_category(label)
    })
    &&& opt_text(it.content) == entry_content(e)
}

/// `items` are the news items made from `entries`, in order.
pub open spec fn items_from_entries(items: Seq<NewsItem>, entries: Seq<FeedEntry>, label: Seq<char>) -> bool {
    &&& items.len() == entries.len()
    &&& forall|k: int| 0 <= k < items.len() ==> item_from_entry(#[trigger] items[k], entries[k], label)
}

fn copy_string(s: &String) -> (r: String)
    ensures
        r@ == s@,
{
    string_of(chars_of(s.as_str()).as_slice())
}

fn copy_opt(o: &Option<String>) -> (r: Option<String>)
    ensures
        opt_text(r) == opt_text(*o),
{
    match o {
        Some(s) => Some(copy_string(s)),
        None => None,
    }
}

/// The group of the items of the feed labelled `label`.
pub fn category_for_label(label: &str) -> (r: NewsCategory)
    ensures
        r == feed_category(label@),
{
    let l = lower_chars(label);
    if contains_str(l.as_slice(), "flathub") {
        NewsCategory::Discovery
    } else {
        NewsCategory::System
    }
}

fn date_string(d: (i64, u32)) -> (r: String)
    ensures
        r@ == date_text(d),
{
    match rfc2822_utc(d.0, d.1) {
        Some(t) => t,
        None => String::new(),
    }
}

/// The news item made from one feed entry of the feed labelled `label`.
pub fn news_item_from_entry(e: &FeedEntry, label: &str) -> (r: NewsItem)
    ensures
        item_from_entry(r, *e, label@),
{
    let base = category_for_label(label);
    let title = match &e.title {
        Some(t) => copy_string(t),
        None => String::from_str("Untitled"),
    };
    let link = match &e.link {
        Some(l) => copy_string(l),
        None => String::new(),
    };
    let pub_date = match e.updated {
        Some(d) => date_string(d),
        None => match e.published {
            Some(d) => date_string(d),
            None => String::new(),
        },
    };
    let content = match &e.content {
        Some(c) => Some(copy_string(c)),
        None => copy_opt(&e.summary),
    };
    let id = if e.id.as_str().as_bytes().len() > 0 {
        proof {
            vstd::utf8::encode_utf8_decode_utf8(e.id@);
        }
        copy_string(&e.id)
    } else if link.as_str().as_bytes().len() > 0 {
        proof {
            vstd::utf8::encode_utf8_decode_utf8(link@);
        }
        copy_string(&link)
    } else {
        proof {
            assert(e.id@.len() == 0) by {
                lemma_empty_bytes(e.id@);
            }
            assert(link@.len() == 0) by {
                lemma_empty_bytes(link@);
            }
        }
        let tc = chars_of(title.as_str());
        let n: usize = if tc.len() <= 64 {
            tc.len()
        } else {
            64
        };
        let head = crate::text::slice_copy(tc.as_slice(), 0, n);
        let mut v = chars_of(label);
        v.push(':');
        let v2 = crate::text::concat(v.as_slice(), head.as_slice());
        assert(head@ == first_64(title@));
        assert(v2@ == label@ + ":"@ + first_64(title@)) by {
            reveal_strlit(":");
        }
        string_of(v2.as_slice())
    };
    let is_critical = is_critical_title(title.as_str());
    let category = if is_critical {
        NewsCategory::Critical
    } else {
        base
    };
    NewsItem {
        id,
        title,
        link,
        pub_date,
        source_label: String::from_str(label),
        is_critical,
        category,
        content,
    }
}

/// A text whose UTF-8 encoding is empty is empty.
proof fn lemma_empty_bytes(s: Seq<char>)
    requires
        vstd::utf8::encode_utf8(s).len() == 0,
    ensures
        s.len() == 0,
{
    vstd::utf8::encode_utf8_decode_utf8(s);
    if s.len() > 0 {
        assert(vstd::utf8::encode_utf8(s) =~= Seq::<u8>::empty());
        assert(vstd::utf8::decode_utf8(Seq::<u8>::empty()).len() == 0) by {
            vstd::utf8::encode_utf8_decode_utf8(Seq::<char>::empty());
            assert(vstd::utf8::encode_utf8(Seq::<char>::empty()) =~= Seq::<u8>::empty());
        }
    }
}

/// The news items made from the entries of the feed labelled `label`, in order.
pub fn news_items_from_entries(entries: &Vec<FeedEntry>, label: &str) -> (r: Vec<NewsItem>)
    ensures
        items_from_entries(r@, entries@, label@),
{
    let mut items: Vec<NewsItem> = Vec::new();
    let mut i: usize = 0;
    while i < entries.len()
        invariant
            0 <= i <= entries@.len(),
            items@.len() == i,
            forall|k: int| 0 <= k < i ==> item_from_entry(#[trigger] items@[k], entries@[k], label@),
        decreases entries@.len() - i,
    {
        let it = news_item_from_entry(&entries[i], label);
        items.push(it);
        i += 1;
    }
    items
}

// ---------------------------------------------------------------------------
// Feeds the parser reads play times from
// ---------------------------------------------------------------------------

/// The characters XML allows around the `=` of an attribute.
pub open spec fn is_xml_space(c: u8) -> bool {
    c == 0x20 || c == 0x09 || c == 0x0a || c == 0x0d
}

/// From position `k` of `b` on, after XML spaces only, an `=` stands.
pub open spec fn equals_follows(b: Seq<u8>, k: int) -> bool {
    exists|j: int|
        k <= j < b.len() && b[j] == 0x3d && forall|m: int| k <= m < j ==> is_xml_space(#[trigger] b[m])
}

/// At position `i` of `b` stands the element name `duration` (bytes `d u r a t i o n`),
/// right after the `<` of a tag or the `:` of a prefix.
pub open spec fn duration_tag_at(b: Seq<u8>, i: int) -> bool {
    &&& 1 <= i && i + 8 <= b.len()
    &&& (b[i - 1] == 0x3c || b[i - 1] == 0x3a)
    &&& b[i] == 0x64 && b[i + 1] == 0x75 && b[i + 2] == 0x72 && b[i + 3] == 0x61
    &&& b[i + 4] == 0x74 && b[i + 5] == 0x69 && b[i + 6] == 0x6f && b[i + 7] == 0x6e
}

/// Position `i` of `b` can begin an attribute name: it follows an XML space, or the closing
/// quote of the attribute before.
pub open spec fn attribute_boundary(b: Seq<u8>, i: int) -> bool {
    1 <= i <= b.len() && (is_xml_space(b[i - 1]) || b[i - 1] == 0x22 || b[i - 1] == 0x27)
}

/// At position `i` of `b` stands an attribute `start`, `end` or `time` with its `=`.
pub open spec fn time_attribute_at(b: Seq<u8>, i: int) -> bool {
    &&& attribute_boundary(b, i)
    &&& {
        ||| i + 5 <= b.len() && b[i] == 0x73 && b[i + 1] == 0x74 && b[i + 2] == 0x61 && b[i + 3]
            == 0x72 && b[i + 4] == 0x74 && equals_follows(b, i + 5)
        ||| i + 3 <= b.len() && b[i] == 0x65 && b[i + 1] == 0x6e && b[i + 2] == 0x64
            && equals_follows(b, i + 3)
        ||| i + 4 <= b.len() && b[i] == 0x74 && b[i + 1] == 0x69 && b[i + 2] == 0x6d && b[i + 3]
            == 0x65 && equals_follows(b, i + 4)
    }
}

/// Position `i` of a feed body opens what the parser may read a play time from: an
/// `itunes:duration` element, a `start`, `end` or `time` attribute of a MediaRSS element;
/// or it holds a NUL or ESC byte: only with one of those can an encoding the parser knows
/// write these names in other bytes than their ASCII ones.
pub open spec fn play_time_markup_at(b: Seq<u8>, i: int) -> bool {
    ||| b[i] == 0x00 || b[i] == 0x1b
    ||| duration_tag_at(b, i)
    ||| time_attribute_at(b, i)
}

/// The body gives the parser no play time to read. `feed_rs::parser::parse` reads such
/// times with unchecked conversions that panic on a number past `u64` or on non-ASCII
/// digits; since a value may be written with character references, the names are what
/// is looked for, not the values.
pub open spec fn without_play_times(b: Seq<u8>) -> bool {
    forall|i: int| 0 <= i < b.len() ==> !play_time_markup_at(b, i)
}

fn equals_follows_from(b: &[u8], k: usize) -> (r: bool)
    requires
        k <= b@.len(),
    ensures
        r == equals_follows(b@, k as int),
{
    let mut j: usize = k;
    while j < b.len() && (b[j] == 0x20 || b[j] == 0x09 || b[j] == 0x0a || b[j] == 0x0d)
        invariant
            k <= j <= b@.len(),
            forall|m: int| k <= m < j ==> is_xml_space(#[trigger] b@[m]),
        decreases b@.len() - j,
    {
        j += 1;
    }
    let r = j < b.len() && b[j] == 0x3d;
    proof {
        if r {
            assert(k <= j < b@.len() && b@[j as int] == 0x3d);
        } else {
            assert forall|jj: int|
                !(k <= jj < b@.len() && b@[jj] == 0x3d && forall|m: int|
                    k <= m < jj ==> is_xml_space(#[trigger] b@[m])) by {
                if k <= jj < b@.len() && b@[jj] == 0x3d {
                    if jj > j {
                        assert(!is_xml_space(b@[j as int]));
                    }
                }
            }
        }
    }
    r
}

fn play_time_markup(b: &[u8], i: usize) -> (r: bool)
    requires
        i < b@.len(),
    ensures
        r == play_time_markup_at(b@, i as int),
{
    let n = b.len();
    if b[i] == 0x00 || b[i] == 0x1b {
        return true;
    }
    if i >= 1 && n - i >= 8 && (b[i - 1] == 0x3c || b[i - 1] == 0x3a) && b[i] == 0x64 && b[i + 1]
        == 0x75 && b[i + 2] == 0x72 && b[i + 3] == 0x61 && b[i + 4] == 0x74 && b[i + 5] == 0x69
        && b[i + 6] == 0x6f && b[i + 7] == 0x6e {
        return true;
    }
    if i == 0 || !(b[i - 1] == 0x20 || b[i - 1] == 0x09 || b[i - 1] == 0x0a || b[i - 1] == 0x0d
        || b[i - 1] == 0x22 || b[i - 1] == 0x27) {
        return false;
    }
    if n - i >= 5 && b[i] == 0x73 && b[i + 1] == 0x74 && b[i + 2] == 0x61 && b[i + 3] == 0x72
        && b[i + 4] == 0x74 && equals_follows_from(b, i + 5) {
        return true;
    }
    if n - i >= 3 && b[i] == 0x65 && b[i + 1] == 0x6e && b[i + 2] == 0x64 && equals_follows_from(
        b,
        i + 3,
    ) {
        return true;
    }
    if n - i >= 4 && b[i] == 0x74 && b[i + 1] == 0x69 && b[i + 2] == 0x6d && b[i + 3] == 0x65
        && equals_follows_from(b, i + 4) {
        return true;
    }
    false
}

/// Whether a feed body gives the parser no play time to read (see `without_play_times`).
pub fn has_no_play_times(body: &[u8]) -> (r: bool)
    ensures
        r == without_play_times(body@),
{
    let mut i: usize = 0;
    while i < body.len()
        invariant
            0 <= i <= body@.len(),
            forall|k: int| 0 <= k < i ==> !play_time_markup_at(body@, k),
        decreases body@.len() - i,
    {
        if play_time_markup(body, i) {
            return false;
        }
        i += 1;
    }
    true
}

/// What a feed entry says: its id when it has a link (the parser's own, or the one it
/// derives from the link and title), title text, first link, update and publication
/// instants, content body and summary text.
pub open spec fn entry_data(e: FeedEntry) -> (
    Option<Seq<char>>,
    Option<Seq<char>>,
    Option<Seq<char>>,
    Option<(i64, u32)>,
    Option<(i64, u32)>,
    Option<Seq<char>>,
    Option<Seq<char>>,
) {
    (
        if e.link is Some { Some(e.id@) } else { None },
        opt_text(e.title),
        opt_text(e.link),
        e.updated,
        e.published,
        opt_text(e.content),
        opt_text(e.summary),
    )
}

/// What `feed_rs::parser::parse` makes of the bytes `bytes`: `None` when it refuses them,
/// else for each entry, in order, its id when it has a link, title text, first link,
/// update and publication instants (seconds and nanoseconds in UTC), content body and
/// summary text.
pub uninterp spec fn parsed_feed(bytes: Seq<u8>) -> Option<
    Seq<(
        Option<Seq<char>>,
        Option<Seq<char>>,
        Option<Seq<char>>,
        Option<(i64, u32)>,
        Option<(i64, u32)>,
        Option<Seq<char>>,
        Option<Seq<char>>,
    )>,
>;

/// Parses an RSS, Atom or JSON feed with `feed_rs::parser::parse` and keeps, of each
/// entry, its id, title text, first link, update and publication instants (chrono's
/// `timestamp` and `timestamp_subsec_nanos`), content body and summary text. What the
/// parser gives depends on the bytes alone but for some ids: an entry without an id and
/// without a link gets a random one. So the contract claims the id of an entry only when it
/// has a link (then the id is its own or a hash of the link and title). It is
/// handed only bodies without play times, since the parser's reading of those can panic.
#[verifier::external_body]
fn parse_feed_entries(bytes: &[u8]) -> (r: Option<Vec<FeedEntry>>)
    requires
        without_play_times(bytes@),
    ensures
        match r {
            Some(es) => parsed_feed(bytes@) == Some(es@.map_values(|e: FeedEntry| entry_data(e))),
            None => parsed_feed(bytes@) is None,
        },
{
    feed_rs::parser::parse(bytes).ok().map(|f| f.entries.into_iter().map(|e| FeedEntry {
        id: e.id,
        title: e.title.map(|t| t.content),
        link: e.links.into_iter().next().map(|l| l.href),
        updated: e.updated.map(|d| (d.timestamp(), d.timestamp_subsec_nanos())),
        published: e.published.map(|d| (d.timestamp(), d.timestamp_subsec_nanos())),
        content: e.content.and_then(|c| c.body),
        summary: e.summary.map(|s| s.content),
    }).collect())
}

/// The news items of a downloaded feed body labelled `label`: none when the body holds
/// play times (which the parser cannot be trusted to read) or does not parse as a feed,
/// else one per entry of the parsed feed, in order, made as `news_items_from_entries`
/// makes them.
pub fn news_items_from_feed(body: &[u8], label: &str) -> (r: Vec<NewsItem>)
    ensures
        !without_play_times(body@) ==> r@.len() == 0,
        without_play_times(body@) ==> match parsed_feed(body@) {
            None => r@.len() == 0,
            Some(data) => exists|es: Seq<FeedEntry>|
                es.map_values(|e: FeedEntry| entry_data(e)) == data && #[trigger] items_from_entries(r@, es, label@),
        },
{
    if !has_no_play_times(body) {
        return Vec::new();
    }
    match parse_feed_entries(body) {
        Some(entries) => {
            let r = news_items_from_entries(&entries, label);
            assert(items_from_entries(r@, entries@, label@));
            r
        },
        None => Vec::new(),
    }
}

// ---------------------------------------------------------------------------
// Order of the news
// ---------------------------------------------------------------------------

/// The instant an RFC 2822 date denotes, as seconds since the epoch and nanoseconds,
/// or `None` when the text is no such date.
pub uninterp spec fn rfc2822_instant(s: Seq<char>) -> Option<(i64, u32)>;

/// Parses an RFC 2822 date with `chrono::DateTime::parse_from_rfc2822` and gives its
/// `timestamp` and `timestamp_subsec_nanos`; `None` when chrono refuses the text. The
/// result depends on the text alone.
#[verifier::external_body]
fn parse_rfc2822(s: &str) -> (r: Option<(i64, u32)>)
    ensures
        r == rfc2822_instant(s@),
{
    chrono::DateTime::parse_from_rfc2822(s).ok().map(|d| (d.timestamp(), d.timestamp_subsec_nanos()))
}

/// Critical items first, then system news, then discoveries.
pub open spec fn category_rank(c: NewsCategory) -> int {
    match c {
        NewsCategory::Critical => 0,
        NewsCategory::System => 1,
        NewsCategory::Discovery => 2,
    }
}

/// The instant of a date in nanoseconds since the epoch, if it parses.
pub open spec fn date_nanos(d: Seq<char>) -> Option<int> {
    match rfc2822_instant(d) {
        Some((s, n)) => Some(s * 1_000_000_000 + n),
        None => None,
    }
}

/// Item `i` is shown before item `j`: a more urgent group; in the same group a later
/// date, a dated item before an undated one; else the earlier position.
pub open spec fn shown_before(items: Seq<NewsItem>, i: int, j: int) -> bool {
    let ci = category_rank(items[i].category);
    let cj = category_rank(items[j].category);
    let di = date_nanos(items[i].pub_date@);
    let dj = date_nanos(items[j].pub_date@);
    ci < cj || (ci == cj && match (di, dj) {
        (Some(a), Some(b)) => a > b || (a == b && i < j),
        (Some(_), None) => true,
        (None, Some(_)) => false,
        (None, None) => i < j,
    })
}

/// `ix` lists each index of `items` once, in the order they are shown.
pub open spec fn is_news_order(items: Seq<NewsItem>, ix: Seq<int>) -> bool {
    &&& ix.len() == items.len()
    &&& forall|k: int| 0 <= k < ix.len() ==> 0 <= #[trigger] ix[k] < items.len()
    &&& ix.no_duplicates()
    &&& forall|a: int, b: int| 0 <= a < b < ix.len() ==> shown_before(items, ix[a], ix[b])
}

/// The order in which news is shown is a strict total order on positions.
pub proof fn lemma_shown_before_order(items: Seq<NewsItem>, i: int, j: int, k: int)
    ensures
        i != j ==> (shown_before(items, i, j) || shown_before(items, j, i)),
        !(shown_before(items, i, j) && shown_before(items, j, i)),
        shown_before(items, i, j) && shown_before(items, j, k) ==> shown_before(items, i, k),
{
}

/// The sort key of a news item: group rank, whether it is dated, and its instant.
fn news_key(it: &NewsItem) -> (r: (u8, bool, i128))
    ensures
        r.0 as int == category_rank(it.category),
        r.1 == date_nanos(it.pub_date@) is Some,
        r.1 ==> r.2 as int == date_nanos(it.pub_date@)->0,
{
    let c: u8 = match it.category {
        NewsCategory::Critical => 0,
        NewsCategory::System => 1,
        NewsCategory::Discovery => 2,
    };
    match parse_rfc2822(it.pub_date.as_str()) {
        Some((s, n)) => {
            let t: i128 = (s as i128) * 1_000_000_000 + (n as i128);
            (c, true, t)
        },
        None => (c, false, 0),
    }
}

fn key_before(keys: &Vec<(u8, bool, i128)>, i: usize, j: usize) -> (r: bool)
    requires
        i < keys@.len(),
        j < keys@.len(),
    ensures
        r == {
            let (ci, hi, ti) = keys@[i as int];
            let (cj, hj, tj) = keys@[j as int];
            ci < cj || (ci == cj && (if hi && hj {
                ti > tj || (ti == tj && i < j)
            } else if hi {
                true
            } else if hj {
                false
            } else {
                i < j
            }))
        },
{
    let (ci, hi, ti) = keys[i];
    let (cj, hj, tj) = keys[j];
    if ci != cj {
        return ci < cj;
    }
    if hi && hj {
        ti > tj || (ti == tj && i < j)
    } else if hi {
        true
    } else if hj {
        false
    } else {
        i < j
    }
}

/// A copy of a news item.
pub fn copy_item(it: &NewsItem) -> (r: NewsItem)
    ensures
        r.id@ == it.id@,
        r.title@ == it.title@,
        r.link@ == it.link@,
        r.pub_date@ == it.pub_date@,
        r.source_label@ == it.source_label@,
        r.is_critical == it.is_critical,
        r.category == it.category,
        opt_text(r.content) == opt_text(it.content),
{
    NewsItem {
        id: copy_string(&it.id),
        title: copy_string(&it.title),
        link: copy_string(&it.link),
        pub_date: copy_string(&it.pub_date),
        source_label: copy_string(&it.source_label),
        is_critical: it.is_critical,
        category: it.category,
        content: copy_opt(&it.content),
    }
}

/// Two news items with the same texts, flags and group.
pub open spec fn same_item(a: NewsItem, b: NewsItem) -> bool {
    &&& a.id@ == b.id@
    &&& a.title@ == b.title@
    &&& a.link@ == b.link@
    &&& a.pub_date@ == b.pub_date@
    &&& a.source_label@ == b.source_label@
    &&& a.is_critical == b.is_critical
    &&& a.category == b.category
    &&& opt_text(a.content) == opt_text(b.content)
}

/// The news in the order it is shown: critical items, then system news, then
/// discoveries; within a group the newest first, undated items last; ties keep their
/// order.
pub fn sort_news(items: &Vec<NewsItem>) -> (r: Vec<NewsItem>)
    ensures
        exists|ix: Seq<int>|
            #![trigger is_news_order(items@, ix)]
            is_news_order(items@, ix) && r@.len() == ix.len() && forall|k: int|
                0 <= k < r@.len() ==> same_item(#[trigger] r@[k], items@[ix[k]]),
{
    let mut keys: Vec<(u8, bool, i128)> = Vec::new();
    let mut i: usize = 0;
    while i < items.len()
        invariant
            0 <= i <= items@.len(),
            keys@.len() == i,
            forall|k: int|
                0 <= k < i ==> {
                    let (c, h, t) = #[trigger] keys@[k];
                    &&& c as int == category_rank(items@[k].category)
                    &&& h == date_nanos(items@[k].pub_date@) is Some
                    &&& h ==> t as int == date_nanos(items@[k].pub_date@)->0
                },
        decreases items@.len() - i,
    {
        keys.push(news_key(&items[i]));
        i += 1;
    }
    let mut out: Vec<usize> = Vec::new();
    let mut m: usize = 0;
    while m < items.len()
        invariant
            0 <= m <= items@.len(),
            keys@.len() == items@.len(),
            forall|k: int|
                0 <= k < keys@.len() ==> {
                    let (c, h, t) = #[trigger] keys@[k];
                    &&& c as int == category_rank(items@[k].category)
                    &&& h == date_nanos(items@[k].pub_date@) is Some
                    &&& h ==> t as int == date_nanos(items@[k].pub_date@)->0
                },
            out@.len() == m,
            forall|k: int| 0 <= k < m ==> (#[trigger] out@[k] as int) < m,
            out@.map_values(|v: usize| v as int).no_duplicates(),
            forall|a: int, b: int|
                0 <= a < b < m ==> shown_before(items@, out@[a] as int, out@[b] as int),
        decreases items@.len() - m,
    {
        let ghost o = out@;
        let mut p: usize = 0;
        while p < out.len() && !key_before(&keys, m, out[p])
            invariant
                0 <= p <= out@.len(),
                out@ == o,
                m < items@.len(),
                keys@.len() == items@.len(),
                forall|k: int|
                    0 <= k < keys@.len() ==> {
                        let (c, h, t) = #[trigger] keys@[k];
                        &&& c as int == category_rank(items@[k].category)
                        &&& h == date_nanos(items@[k].pub_date@) is Some
                        &&& h ==> t as int == date_nanos(items@[k].pub_date@)->0
                    },
                forall|k: int| 0 <= k < out@.len() ==> (#[trigger] out@[k] as int) < m,
                forall|k: int| 0 <= k < p ==> !shown_before(items@, m as int, #[trigger] out@[k] as int),
            decreases out@.len() - p,
        {
            proof {
                let _ = keys@[m as int];
                let _ = keys@[out@[p as int] as int];
            }
            p += 1;
        }
        proof {
            if p < out@.len() {
                let _ = keys@[m as int];
                let _ = keys@[out@[p as int] as int];
                assert(shown_before(items@, m as int, o[p as int] as int));
            }
            assert forall|k: int| 0 <= k < p implies shown_before(items@, #[trigger] o[k] as int, m as int) by {
                lemma_shown_before_order(items@, m as int, o[k] as int, m as int);
            }
            assert forall|k: int| p <= k < o.len() implies shown_before(items@, m as int, #[trigger] o[k] as int) by {
                if k > p {
                    lemma_shown_before_order(items@, m as int, o[p as int] as int, o[k] as int);
                }
            }
            o.insert_ensures(p as int, m);
        }
        out.insert(p, m);
        proof {
            let no = out@;
            assert(no == o.insert(p as int, m));
            assert forall|a: int, b: int| 0 <= a < b < no.len() implies shown_before(
                items@,
                no[a] as int,
                no[b] as int,
            ) by {
                if b < p {
                } else if b == p {
                } else if a < p {
                    assert(no[b] == o[b - 1]);
                } else if a == p {
                    assert(no[b] == o[b - 1]);
                } else {
                    assert(no[a] == o[a - 1]);
                    assert(no[b] == o[b - 1]);
                }
            }
            assert forall|k: int| 0 <= k < m + 1 implies (#[trigger] no[k] as int) < m + 1 by {
                if k < p {
                } else if k == p {
                } else {
                    assert(no[k] == o[k - 1]);
                }
            }
            let nm = no.map_values(|v: usize| v as int);
            assert forall|a: int, b: int| 0 <= a < nm.len() && 0 <= b < nm.len() && a != b implies nm[a] != nm[b] by {
                if a < b {
                    lemma_shown_before_order(items@, no[a] as int, no[b] as int, no[b] as int);
                } else {
                    lemma_shown_before_order(items@, no[b] as int, no[a] as int, no[a] as int);
                }
            }
        }
        m += 1;
    }
    let ghost ix = out@.map_values(|v: usize| v as int);
    let mut r: Vec<NewsItem> = Vec::new();
    let mut k: usize = 0;
    while k < out.len()
        invariant
            0 <= k <= out@.len(),
            out@.len() == items@.len(),
            ix == out@.map_values(|v: usize| v as int),
            forall|j: int| 0 <= j < out@.len() ==> (#[trigger] out@[j] as int) < items@.len(),
            r@.len() == k,
            forall|j: int| 0 <= j < k ==> same_item(#[trigger] r@[j], items@[ix[j]]),
        decreases out@.len() - k,
    {
        let it = copy_item(&items[out[k]]);
        r.push(it);
        k += 1;
    }
    assert(is_news_order(items@, ix));
    r
}

// ---------------------------------------------------------------------------
// Throttled feed warnings
// ---------------------------------------------------------------------------

/// How long a warning about one feed silences further warnings about it, in
/// milliseconds.
pub const FEED_WARNING_TTL_MS: u64 = 600_000;

/// The feeds warned about recently, with the time of the last warning (milliseconds on a
/// monotonic clock). Each feed occurs at most once.
pub struct FeedWarnings {
    pub seen: Vec<(String, u64)>,
}

/// The URLs and times of a warning log.
pub open spec fn warning_views(v: Seq<(String, u64)>) -> Seq<(Seq<char>, u64)> {
    v.map_values(|e: (String, u64)| (e.0@, e.1))
}

/// No URL occurs twice.
pub open spec fn urls_unique(v: Seq<(Seq<char>, u64)>) -> bool {
    forall|a: int, b: int| 0 <= a < b < v.len() ==> v[a].0 != v[b].0
}

/// A warning at `last` still silences at `now`: less than the TTL has passed (no time
/// when the clock reads earlier).
pub open spec fn still_fresh(last: u64, now: u64) -> bool {
    (if now >= last {
        now - last
    } else {
        0
    }) < FEED_WARNING_TTL_MS
}

/// The entries of `v` that are still fresh at `now`, in order.
pub open spec fn fresh_entries(v: Seq<(Seq<char>, u64)>, now: u64) -> Seq<(Seq<char>, u64)> {
    v.filter(fresh_at(now))
}

/// The test that an entry is still fresh at `now`.
pub open spec fn fresh_at(now: u64) -> spec_fn((Seq<char>, u64)) -> bool {
    |e: (Seq<char>, u64)| still_fresh(e.1, now)
}

/// Whether `url` occurs in `v`.
pub open spec fn has_url(v: Seq<(Seq<char>, u64)>, url: Seq<char>) -> bool {
    exists|k: int| 0 <= k < v.len() && (#[trigger] v[k]).0 == url
}

impl FeedWarnings {
    /// The log is well formed: each URL at most once.
    pub open spec fn wf(&self) -> bool {
        urls_unique(warning_views(self.seen@))
    }

    /// An empty log.
    pub fn new() -> (r: Self)
        ensures
            r.wf(),
            r.seen@.len() == 0,
    {
        FeedWarnings { seen: Vec::new() }
    }

    /// Whether a warning about the feed at `url` should be logged at time `now`. Entries
    /// no longer fresh are dropped first; a warning is logged when the feed has no fresh
    /// entry, and then the feed is recorded at `now`.
    pub fn should_warn(&mut self, url: &str, now: u64) -> (r: bool)
        requires
            old(self).wf(),
        ensures
            final(self).wf(),
            r == !has_url(fresh_entries(warning_views(old(self).seen@), now), url@),
            r ==> warning_views(final(self).seen@) == fresh_entries(
                warning_views(old(self).seen@),
                now,
            ).push((url@, now)),
            !r ==> warning_views(final(self).seen@) == fresh_entries(
                warning_views(old(self).seen@),
                now,
            ),
    {
        let ghost old_v = warning_views(self.seen@);
        let mut kept: Vec<(String, u64)> = Vec::new();
        let mut found = false;
        let mut i: usize = 0;
        while i < self.seen.len()
            invariant
                0 <= i <= self.seen@.len(),
                old_v == warning_views(self.seen@),
                urls_unique(old_v),
                warning_views(kept@) == fresh_entries(old_v.take(i as int), now),
                found == has_url(fresh_entries(old_v.take(i as int), now), url@),
            decreases self.seen@.len() - i,
        {
            let e = &self.seen[i];
            let last = e.1;
            proof {
                assert(old_v.take(i + 1) == old_v.take(i as int).push(old_v[i as int]));
                old_v.take(i as int).lemma_filter_push(old_v[i as int], fresh_at(now));
            }
            let fresh = if now >= last {
                now - last < FEED_WARNING_TTL_MS
            } else {
                true
            };
            if fresh {
                let same = crate::text::eq(chars_of(e.0.as_str()).as_slice(), chars_of(url).as_slice());
                let ghost before = warning_views(kept@);
                kept.push((copy_string(&e.0), last));
                assert(warning_views(kept@) == before.push((e.0@, last)));
                proof {
                    let f = fresh_entries(old_v.take(i + 1), now);
                    if same {
                        assert(f[f.len() - 1].0 == url@);
                    }
                    if has_url(f, url@) && !same {
                        let k = choose|k: int| 0 <= k < f.len() && (#[trigger] f[k]).0 == url@;
                        assert(k < f.len() - 1);
                        assert(fresh_entries(old_v.take(i as int), now)[k] == f[k]);
                    }
                    if found {
                        let g = fresh_entries(old_v.take(i as int), now);
                        let k = choose|k: int| 0 <= k < g.len() && (#[trigger] g[k]).0 == url@;
                        assert(f[k] == g[k]);
                    }
                }
                found = found || same;
            }
            i += 1;
        }
        proof {
            assert(old_v.take(old_v.len() as int) == old_v);
            lemma_fresh_unique(old_v, now);
        }
        if !found {
            let ghost before = warning_views(kept@);
            kept.push((string_of(chars_of(url).as_slice()), now));
            assert(warning_views(kept@) == before.push((url@, now)));
            proof {
                let f = fresh_entries(old_v, now);
                let nv = f.push((url@, now));
                assert forall|a: int, b: int| 0 <= a < b < nv.len() implies nv[a].0 != nv[b].0 by {
                    if b == f.len() {
                        assert(nv[a] == f[a]);
                    } else {
                        assert(nv[a] == f[a]);
                        assert(nv[b] == f[b]);
                    }
                }
            }
        }
        self.seen = kept;
        !found
    }
}

/// Filtering keeps the URLs unique.
proof fn lemma_fresh_unique(v: Seq<(Seq<char>, u64)>, now: u64)
    requires
        urls_unique(v),
    ensures
        urls_unique(fresh_entries(v, now)),
    decreases v.len(),
{
    let p = fresh_at(now);
    if v.len() > 0 {
        let init = v.drop_last();
        assert(urls_unique(init));
        lemma_fresh_unique(init, now);
        init.lemma_filter_push(v.last(), p);
        assert(v == init.push(v.last()));
        let fi = fresh_entries(init, now);
        if still_fresh(v.last().1, now) {
            let f = fi.push(v.last());
            assert forall|a: int, b: int| 0 <= a < b < f.len() implies f[a].0 != f[b].0 by {
                if b == fi.len() {
                    init.lemma_filter_contains_rev(p, fi[a]);
                    assert(fi.contains(fi[a]));
                    assert(init.contains(fi[a]));
                    let k = choose|k: int| 0 <= k < init.len() && init[k] == fi[a];
                    assert(v[k] == init[k]);
                    assert(v[v.len() - 1] == v.last());
                }
            }
        }
    }
}

/// After a warning about a feed is logged at `t`, no further warning about it is logged
/// while less than the TTL has passed.
pub proof fn law_warning_silences_repeats(log: Seq<(Seq<char>, u64)>, url: Seq<char>, t: u64, t2: u64)
    requires
        t <= t2,
        t2 - t < FEED_WARNING_TTL_MS,
    ensures
        has_url(fresh_entries(fresh_entries(log, t).push((url, t)), t2), url),
{
    let f = fresh_entries(log, t);
    let p = fresh_at(t2);
    f.lemma_filter_push((url, t), p);
    let g = fresh_entries(f.push((url, t)), t2);
    assert(g[g.len() - 1] == (url, t));
}

/// A warning logged at `t` no longer silences once the TTL has passed.
pub proof fn law_warning_expires(log: Seq<(Seq<char>, u64)>, url: Seq<char>, t: u64, t2: u64)
    requires
        urls_unique(log),
        t2 >= t + FEED_WARNING_TTL_MS,
        forall|k: int| 0 <= k < log.len() ==> (#[trigger] log[k]).1 <= t,
    ensures
        !has_url(fresh_entries(fresh_entries(log, t).push((url, t)), t2), url),
{
    let f = fresh_entries(log, t);
    let p = fresh_at(t2);
    let g = fresh_entries(f.push((url, t)), t2);
    if has_url(g, url) {
        let k = choose|k: int| 0 <= k < g.len() && (#[trigger] g[k]).0 == url;
        f.push((url, t)).lemma_filter_contains_rev(p, g[k]);
        let j = choose|j: int| 0 <= j < f.push((url, t)).len() && f.push((url, t))[j] == g[k];
        if j < f.len() {
            log.lemma_filter_contains_rev(fresh_at(t), f[j]);
            let i = choose|i: int| 0 <= i < log.len() && log[i] == f[j];
            assert(log[i].1 <= t);
        }
        assert(still_fresh(g[k].1, t2));
    }
}

/// Each critical keyword on its own makes a title critical, in any letter case: a manual
/// intervention, a stable update, security, a CVE, a vulnerability.
pub proof fn law_critical_keywords(title: Seq<char>)
    ensures
        contains(lowercase(title), "manual intervention"@) ==> is_critical(title),
        contains(lowercase(title), "stable update"@) ==> is_critical(title),
        contains(lowercase(title), "security"@) ==> is_critical(title),
        contains(lowercase(title), "cve"@) ==> is_critical(title),
        contains(lowercase(title), "vulnerability"@) ==> is_critical(title),
        !contains(lowercase(title), "manual intervention"@) && !contains(lowercase(title), "stable update"@)
            && !contains(lowercase(title), "security"@) && !contains(lowercase(title), "cve"@)
            && !contains(lowercase(title), "vulnerability"@) ==> !is_critical(title),
{
}

} // verus!
