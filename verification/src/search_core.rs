//! Search core: query normalization, search aliases and suggestions, and search over a
//! snapshot of the package catalogue.
use vstd::prelude::*;
use crate::models::{Package, PackageSource};
use crate::text::{
    chars_of, contains, contains_chars, eq, eq_str, is_prefix, is_ws, lower_chars, lowercase,
    string_of, string_views, trim, views, words,
};

verus! {

/// Which sources a search may use.
#[derive(Debug, Clone)]
pub struct SearchOptions {
    pub flatpak_enabled: Option<bool>,
    pub aur_enabled: Option<bool>,
    pub chaotic_enabled: Option<bool>,
    pub for_installed_lookup: Option<bool>,
}

/// A request for one page of a category.
#[derive(Debug, Clone)]
pub struct CategoryQuery {
    pub category: String,
    pub repo_filter: Option<Vec<String>>,
    pub sort_by: Option<String>,
    pub page: u32,
    pub limit: u32,
    pub options: Option<SearchOptions>,
}

/// A suggested follow-up search.
#[derive(Debug, Clone)]
pub struct SearchSuggestion {
    pub label: String,
    pub query: String,
    pub reason: String,
}

/// The words of `ws` joined by `sep`.
pub open spec fn join(ws: Seq<Seq<char>>, sep: Seq<char>) -> Seq<char>
    decreases ws.len(),
{
    if ws.len() == 0 {
        Seq::empty()
    } else if ws.len() == 1 {
        ws[0]
    } else {
        join(ws.drop_last(), sep) + sep + ws.last()
    }
}

/// A query token is kept unless it is a filter: `@source`, `in:category` or `sort:key`
/// (in any case).
pub open spec fn keep_token(t: Seq<char>) -> bool {
    !(is_prefix("@"@, lowercase(t)) || is_prefix("in:"@, lowercase(t)) || is_prefix(
        "sort:"@,
        lowercase(t),
    ))
}

/// The tokens of `ws` that are kept.
pub open spec fn kept_tokens(ws: Seq<Seq<char>>) -> Seq<Seq<char>>
    decreases ws.len(),
{
    if ws.len() == 0 {
        Seq::empty()
    } else if keep_token(ws.last()) {
        kept_tokens(ws.drop_last()).push(ws.last())
    } else {
        kept_tokens(ws.drop_last())
    }
}

/// The search text of a raw query: its words without filter tokens, joined by single
/// spaces.
pub open spec fn normalized_query(raw: Seq<char>) -> Seq<char> {
    trim(join(kept_tokens(words(raw)), " "@))
}

/// The words of `ws` joined by `sep`.
pub fn join_chars(ws: &Vec<Vec<char>>, sep: &str) -> (r: Vec<char>)
    ensures
        r@ == join(views(ws@), sep@),
{
    let mut out: Vec<char> = Vec::new();
    let mut i: usize = 0;
    while i < ws.len()
        invariant
            0 <= i <= ws@.len(),
            out@ == join(views(ws@).take(i as int), sep@),
        decreases ws@.len() - i,
    {
        let ghost prev = views(ws@).take(i as int);
        let ghost next = views(ws@).take(i + 1);
        assert(next.drop_last() == prev);
        assert(next.last() == ws@[i as int]@);
        if i == 0 {
            out = crate::text::slice_copy(ws[0].as_slice(), 0, ws[0].len());
            assert(ws@[0]@.subrange(0, ws@[0]@.len() as int) == ws@[0]@);
        } else {
            let a = crate::text::concat_str(out.as_slice(), sep);
            out = crate::text::concat(a.as_slice(), ws[i].as_slice());
        }
        i += 1;
    }
    assert(views(ws@).take(ws@.len() as int) == views(ws@));
    out
}

/// The search text of a raw query: filter tokens (`@source`, `in:category`, `sort:key`)
/// removed and the remaining words joined by single spaces.
pub fn normalize_search_query(raw: &str) -> (r: String)
    ensures
        r@ == normalized_query(raw@),
{
    let rv = chars_of(raw);
    let ws = crate::text::split_words(rv.as_slice());
    let mut kept: Vec<Vec<char>> = Vec::new();
    let mut i: usize = 0;
    while i < ws.len()
        invariant
            0 <= i <= ws@.len(),
            views(ws@) == words(rv@),
            views(kept@) == kept_tokens(views(ws@).take(i as int)),
        decreases ws@.len() - i,
    {
        let ghost prev = views(ws@).take(i as int);
        let ghost next = views(ws@).take(i + 1);
        assert(next.drop_last() == prev);
        assert(next.last() == ws@[i as int]@);
        let s = string_of(ws[i].as_slice());
        let l = lower_chars(s.as_str());
        let filtered = crate::text::starts_with(l.as_slice(), "@") || crate::text::starts_with(
            l.as_slice(),
            "in:",
        ) || crate::text::starts_with(l.as_slice(), "sort:");
        if !filtered {
            let ghost old = kept@;
            kept.push(crate::text::slice_copy(ws[i].as_slice(), 0, ws[i].len()));
            assert(ws@[i as int]@.subrange(0, ws@[i as int]@.len() as int) == ws@[i as int]@);
            assert(views(kept@) == views(old).push(ws@[i as int]@));
        }
        i += 1;
    }
    assert(views(ws@).take(ws@.len() as int) == views(ws@));
    let joined = join_chars(&kept, " ");
    let t = crate::text::trim_chars(joined.as_slice());
    string_of(t.as_slice())
}

/// The alias of a trimmed, lower-cased query: a label and the search it stands for.
pub open spec fn alias_of(key: Seq<char>) -> Option<(Seq<char>, Seq<char>)> {
    if key == "browser"@ || key == "web browser"@ {
        Some(("Popular browsers"@, "firefox chromium brave librewolf"@))
    } else if key == "chrome"@ {
        Some(("Chromium-based browsers"@, "google-chrome chromium ungoogled-chromium brave-bin vivaldi"@))
    } else if key == "photoshop"@ {
        Some(("Popular alternatives to Photoshop"@, "gimp krita"@))
    } else if key == "video editor"@ {
        Some(("Popular video editors"@, "kdenlive shotcut"@))
    } else if key == "music player"@ {
        Some(("Popular music players"@, "spotify vlc audacious"@))
    } else if key == "office"@ || key == "office suite"@ {
        Some(("Office and school apps"@, "libreoffice onlyoffice thunderbird"@))
    } else if key == "terminal"@ {
        Some(("Terminal and development tools"@, "wezterm kitty alacritty"@))
    } else {
        None
    }
}

/// The alias of a trimmed, lower-cased query.
pub fn alias_for_key(k: &[char]) -> (r: Option<(&'static str, &'static str)>)
    ensures
        match r {
            Some((l, q)) => alias_of(k@) == Some((l@, q@)),
            None => alias_of(k@) is None,
        },
{
    if eq_str(k, "browser") || eq_str(k, "web browser") {
        Some(("Popular browsers", "firefox chromium brave librewolf"))
    } else if eq_str(k, "chrome") {
        Some(("Chromium-based browsers", "google-chrome chromium ungoogled-chromium brave-bin vivaldi"))
    } else if eq_str(k, "photoshop") {
        Some(("Popular alternatives to Photoshop", "gimp krita"))
    } else if eq_str(k, "video editor") {
        Some(("Popular video editors", "kdenlive shotcut"))
    } else if eq_str(k, "music player") {
        Some(("Popular music players", "spotify vlc audacious"))
    } else if eq_str(k, "office") || eq_str(k, "office suite") {
        Some(("Office and school apps", "libreoffice onlyoffice thunderbird"))
    } else if eq_str(k, "terminal") {
        Some(("Terminal and development tools", "wezterm kitty alacritty"))
    } else {
        None
    }
}

/// The alias of a query (matched trimmed and in any case): a label and the search it
/// stands for.
pub fn search_aliases(query: &str) -> (r: Option<(&'static str, &'static str)>)
    ensures
        match r {
            Some((l, q)) => alias_of(lowercase(trim(query@))) == Some((l@, q@)),
            None => alias_of(lowercase(trim(query@))) is None,
        },
{
    let k = crate::discovery::trimmed_lower(query);
    alias_for_key(k.as_slice())
}

/// The lower-cased, trimmed, non-empty words of `ws`.
pub open spec fn term_list(ws: Seq<Seq<char>>) -> Seq<Seq<char>>
    decreases ws.len(),
{
    if ws.len() == 0 {
        Seq::empty()
    } else {
        let prev = term_list(ws.drop_last());
        let t = lowercase(trim(ws.last()));
        if t.len() > 0 {
            prev.push(t)
        } else {
            prev
        }
    }
}

/// The lower-cased, trimmed, non-empty words of `text`.
pub fn terms_of(text: &[char]) -> (r: Vec<Vec<char>>)
    ensures
        views(r@) == term_list(words(text@)),
{
    let ws = crate::text::split_words(text);
    let mut out: Vec<Vec<char>> = Vec::new();
    let mut i: usize = 0;
    while i < ws.len()
        invariant
            0 <= i <= ws@.len(),
            views(ws@) == words(text@),
            views(out@) == term_list(views(ws@).take(i as int)),
        decreases ws@.len() - i,
    {
        let ghost prev = views(ws@).take(i as int);
        let ghost next = views(ws@).take(i + 1);
        assert(next.drop_last() == prev);
        assert(next.last() == ws@[i as int]@);
        let t = crate::text::trim_chars(ws[i].as_slice());
        let ts = string_of(t.as_slice());
        let l = lower_chars(ts.as_str());
        if l.len() > 0 {
            let ghost old = out@;
            out.push(l);
            assert(views(out@) == views(old).push(l@));
        }
        i += 1;
    }
    assert(views(ws@).take(ws@.len() as int) == views(ws@));
    out
}

/// The search terms of a query's alias: the alias search's words, lower-cased; none when
/// the query has no alias.
pub open spec fn alias_terms_of(query: Seq<char>) -> Seq<Seq<char>> {
    match alias_of(lowercase(trim(query))) {
        Some((_, q)) => term_list(words(q)),
        None => Seq::empty(),
    }
}

/// The search terms of a query's alias.
pub fn search_alias_terms(query: &str) -> (r: Vec<Vec<char>>)
    ensures
        views(r@) == alias_terms_of(query@),
{
    match search_aliases(query) {
        Some((_, q)) => {
            let qv = chars_of(q);
            terms_of(qv.as_slice())
        },
        None => Vec::new(),
    }
}

fn suggestion(label: &str, query: String, reason: &str) -> (r: SearchSuggestion)
    ensures
        r.label@ == label@,
        r.query == query,
        r.reason@ == reason@,
{
    SearchSuggestion {
        label: String::from_str(label),
        query,
        reason: String::from_str(reason),
    }
}

/// The suggestions for a query: its alias (reason "alias"), and, when nothing was found,
/// broader searches in the official repositories and on Flatpak and the Internet
/// category.
pub open spec fn suggestions_of(query: Seq<char>, no_results: bool) -> Seq<(Seq<char>, Seq<char>, Seq<char>)> {
    let normalized = lowercase(trim(query));
    let alias = match alias_of(lowercase(trim(normalized))) {
        Some((l, q)) => seq![(l, q, "alias"@)],
        None => Seq::empty(),
    };
    if no_results {
        alias + seq![
            ("Try Official Repos"@, "@official "@ + normalized, "broaden"@),
            ("Try Flatpak"@, "@flatpak "@ + normalized, "broaden"@),
            ("Browse Internet apps"@, "in:internet"@, "category"@),
        ]
    } else {
        alias
    }
}

/// The fields of a suggestion.
pub open spec fn suggestion_fields(s: SearchSuggestion) -> (Seq<char>, Seq<char>, Seq<char>) {
    (s.label@, s.query@, s.reason@)
}

/// The suggestions to show for `query` given its results.
pub fn build_search_suggestions(query: &str, results: &Vec<Package>) -> (r: Vec<SearchSuggestion>)
    ensures
        r@.map_values(|s: SearchSuggestion| suggestion_fields(s)) == suggestions_of(
            query@,
            results@.len() == 0,
        ),
{
    let nv = crate::discovery::trimmed_lower(query);
    let normalized = string_of(nv.as_slice());
    let mut out: Vec<SearchSuggestion> = Vec::new();
    match search_aliases(normalized.as_str()) {
        Some((label, alias_query)) => {
            out.push(suggestion(label, String::from_str(alias_query), "alias"));
        },
        None => {},
    }
    let ghost alias_part = out@.map_values(|s: SearchSuggestion| suggestion_fields(s));
    if results.len() == 0 {
        let a = chars_of("@official ");
        let a2 = crate::text::concat(a.as_slice(), nv.as_slice());
        out.push(suggestion("Try Official Repos", string_of(a2.as_slice()), "broaden"));
        let b = chars_of("@flatpak ");
        let b2 = crate::text::concat(b.as_slice(), nv.as_slice());
        out.push(suggestion("Try Flatpak", string_of(b2.as_slice()), "broaden"));
        out.push(suggestion("Browse Internet apps", String::from_str("in:internet"), "category"));
    }
    assert(out@.map_values(|s: SearchSuggestion| suggestion_fields(s)) =~= suggestions_of(
        query@,
        results@.len() == 0,
    ));
    out
}

/// The lower-cased text of an optional string (of the empty text when absent).
pub open spec fn lower_opt(o: Option<String>) -> Seq<char> {
    lowercase(
        match o {
            Some(s) => s@,
            None => Seq::empty(),
        },
    )
}

/// The lower-cased texts of a package's sources: id, label and package name of each.
pub open spec fn source_parts(srcs: Seq<PackageSource>) -> Seq<Seq<char>>
    decreases srcs.len(),
{
    if srcs.len() == 0 {
        Seq::empty()
    } else {
        let prev = source_parts(srcs.drop_last());
        let s = srcs.last();
        let p2 = prev.push(lowercase(s.id@)).push(lowercase(s.label@));
        match s.package_name {
            Some(n) => p2.push(lowercase(n@)),
            None => p2,
        }
    }
}

/// The lower-cased texts that a package is found by.
pub open spec fn haystack_parts(p: Package) -> Seq<Seq<char>> {
    let base = seq![
        lowercase(p.canonical_id@),
        lowercase(p.name@),
        lower_opt(p.display_name),
        lowercase(p.description@),
        lower_opt(p.app_id),
    ];
    match p.available_sources {
        Some(v) => base + source_parts(v@),
        None => base,
    }
}

/// The text a package is found by: its lower-cased canonical id, name, display name,
/// description, app id and sources, joined by spaces.
pub open spec fn haystack(p: Package) -> Seq<char> {
    join(haystack_parts(p), " "@)
}

fn lower_opt_chars(o: &Option<String>) -> (r: Vec<char>)
    ensures
        r@ == lower_opt(*o),
{
    match o {
        Some(s) => lower_chars(s.as_str()),
        None => {
            let e = String::new();
            lower_chars(e.as_str())
        },
    }
}

/// The text a package is found by.
pub fn package_search_haystack(pkg: &Package) -> (r: String)
    ensures
        r@ == haystack(*pkg),
{
    let mut parts: Vec<Vec<char>> = Vec::new();
    parts.push(lower_chars(pkg.canonical_id.as_str()));
    parts.push(lower_chars(pkg.name.as_str()));
    parts.push(lower_opt_chars(&pkg.display_name));
    parts.push(lower_chars(pkg.description.as_str()));
    parts.push(lower_opt_chars(&pkg.app_id));
    let ghost base = views(parts@);
    match &pkg.available_sources {
        Some(v) => {
            let mut i: usize = 0;
            while i < v.len()
                invariant
                    0 <= i <= v@.len(),
                    views(parts@) == base + source_parts(v@.take(i as int)),
                decreases v@.len() - i,
            {
                let src = &v[i];
                assert(v@.take(i + 1).drop_last() == v@.take(i as int));
                assert(v@.take(i + 1).last() == *src);
                let ghost before_push = views(parts@);
                let idl = lower_chars(src.id.as_str());
                let lbl = lower_chars(src.label.as_str());
                parts.push(idl);
                parts.push(lbl);
                assert(views(parts@) == before_push.push(idl@).push(lbl@));
                match &src.package_name {
                    Some(n) => {
                        let nl = lower_chars(n.as_str());
                        let ghost mid = views(parts@);
                        parts.push(nl);
                        assert(views(parts@) == mid.push(nl@));
                    },
                    None => {},
                }
                assert(views(parts@) =~= base + source_parts(v@.take(i + 1)));
                i += 1;
            }
            assert(v@.take(v@.len() as int) == v@);
        },
        None => {},
    }
    assert(views(parts@) =~= haystack_parts(*pkg));
    let joined = join_chars(&parts, " ");
    string_of(joined.as_slice())
}

/// A search over the snapshot: the normalized query, its terms, and its alias terms.
pub struct SnapshotQuery {
    pub normalized: Seq<char>,
    pub terms: Seq<Seq<char>>,
    pub aliases: Seq<Seq<char>>,
}

/// The query derived from the raw query text.
pub open spec fn snapshot_query(query: Seq<char>) -> SnapshotQuery {
    let n = lowercase(trim(query));
    SnapshotQuery { normalized: n, terms: term_list(words(n)), aliases: alias_terms_of(n) }
}

/// The score of a package for a snapshot search: 500 for an exact canonical id, name,
/// display name or app id; 220 when the name, display name or app id contains the query;
/// 140 when the text it is found by contains every query term; 90 when it contains an
/// alias term; 25 when installed; 10 when featured.
pub open spec fn snapshot_score(p: Package, q: SnapshotQuery) -> int {
    let n = q.normalized;
    let canonical = lowercase(p.canonical_id@);
    let name = lowercase(p.name@);
    let display = lower_opt(p.display_name);
    let app = lower_opt(p.app_id);
    let hay = haystack(p);
    (if canonical == n || name == n || display == n || app == n {
        500int
    } else {
        0
    }) + (if contains(name, n) || contains(display, n) || contains(app, n) {
        220int
    } else {
        0
    }) + (if (forall|k: int| 0 <= k < q.terms.len() ==> contains(hay, #[trigger] q.terms[k])) {
        140int
    } else {
        0
    }) + (if (exists|k: int| 0 <= k < q.aliases.len() && contains(hay, #[trigger] q.aliases[k])) {
        90int
    } else {
        0
    }) + (if p.installed {
        25int
    } else {
        0
    }) + (if p.is_featured == Some(true) {
        10int
    } else {
        0
    })
}

/// The indices below `n` of the snapshot packages that score above zero, in order.
pub open spec fn candidates(snap: Seq<Package>, q: SnapshotQuery, n: int) -> Seq<int>
    decreases n,
{
    if n <= 0 {
        Seq::empty()
    } else if snapshot_score(snap[n - 1], q) > 0 {
        candidates(snap, q, n - 1).push(n - 1)
    } else {
        candidates(snap, q, n - 1)
    }
}

/// Package `i` ranks before package `j`: higher score, then shorter name (in bytes), then
/// lexicographically smaller name, then earlier in the snapshot.
pub open spec fn ranks_before(snap: Seq<Package>, q: SnapshotQuery, i: int, j: int) -> bool {
    let si = snapshot_score(snap[i], q);
    let sj = snapshot_score(snap[j], q);
    let bi = vstd::utf8::encode_utf8(snap[i].name@).len();
    let bj = vstd::utf8::encode_utf8(snap[j].name@).len();
    let ni = snap[i].name@;
    let nj = snap[j].name@;
    si > sj || (si == sj && (bi < bj || (bi == bj && (crate::text::lex_lt(ni, nj) || (ni == nj
        && i < j)))))
}

/// `ix` lists exactly the indices of `cands`, each once, in ranking order.
pub open spec fn is_ranking(snap: Seq<Package>, q: SnapshotQuery, ix: Seq<int>, cands: Seq<int>) -> bool {
    &&& ix.len() == cands.len()
    &&& ix.no_duplicates()
    &&& forall|k: int| 0 <= k < ix.len() ==> cands.contains(#[trigger] ix[k])
    &&& forall|a: int, b: int| 0 <= a < b < ix.len() ==> ranks_before(snap, q, ix[a], ix[b])
}

/// The ranking order is a strict total order on distinct packages.
pub proof fn lemma_ranks_before_order(snap: Seq<Package>, q: SnapshotQuery, i: int, j: int, k: int)
    ensures
        i != j ==> (ranks_before(snap, q, i, j) || ranks_before(snap, q, j, i)),
        !(ranks_before(snap, q, i, j) && ranks_before(snap, q, j, i)),
        ranks_before(snap, q, i, j) && ranks_before(snap, q, j, k) ==> ranks_before(snap, q, i, k),
{
    crate::text::lemma_lex_total(snap[i].name@, snap[j].name@);
    crate::text::lemma_lex_total(snap[i].name@, snap[k].name@);
    crate::text::lemma_lex_total(snap[j].name@, snap[k].name@);
    if crate::text::lex_lt(snap[i].name@, snap[j].name@) && crate::text::lex_lt(
        snap[j].name@,
        snap[k].name@,
    ) {
        crate::text::lemma_lex_transitive(snap[i].name@, snap[j].name@, snap[k].name@);
    }
}

fn all_contained(hay: &[char], terms: &Vec<Vec<char>>) -> (r: bool)
    ensures
        r == (forall|k: int| 0 <= k < views(terms@).len() ==> contains(hay@, #[trigger] views(terms@)[k])),
{
    let mut i: usize = 0;
    while i < terms.len()
        invariant
            0 <= i <= terms@.len(),
            forall|k: int| 0 <= k < i ==> contains(hay@, #[trigger] views(terms@)[k]),
        decreases terms@.len() - i,
    {
        assert(views(terms@)[i as int] == terms@[i as int]@);
        if !contains_chars(hay, terms[i].as_slice()) {
            return false;
        }
        i += 1;
    }
    true
}

fn any_contained(hay: &[char], terms: &Vec<Vec<char>>) -> (r: bool)
    ensures
        r == (exists|k: int| 0 <= k < views(terms@).len() && contains(hay@, #[trigger] views(terms@)[k])),
{
    let mut i: usize = 0;
    while i < terms.len()
        invariant
            0 <= i <= terms@.len(),
            forall|k: int| 0 <= k < i ==> !contains(hay@, #[trigger] views(terms@)[k]),
        decreases terms@.len() - i,
    {
        assert(views(terms@)[i as int] == terms@[i as int]@);
        if contains_chars(hay, terms[i].as_slice()) {
            return true;
        }
        i += 1;
    }
    false
}

/// The snapshot score of a package for the normalized query `n` with its terms and alias
/// terms.
pub fn snapshot_score_of(p: &Package, n: &[char], terms: &Vec<Vec<char>>, aliases: &Vec<Vec<char>>) -> (r: i32)
    ensures
        r as int == snapshot_score(
            *p,
            (SnapshotQuery { normalized: n@, terms: views(terms@), aliases: views(aliases@) }),
        ),
{
    let ghost q = SnapshotQuery { normalized: n@, terms: views(terms@), aliases: views(aliases@) };
    let hay_s = package_search_haystack(p);
    let hay = chars_of(hay_s.as_str());
    let canonical = lower_chars(p.canonical_id.as_str());
    let name = lower_chars(p.name.as_str());
    let display = lower_opt_chars(&p.display_name);
    let app = lower_opt_chars(&p.app_id);
    let exact = eq(canonical.as_slice(), n) || eq(name.as_slice(), n) || eq(display.as_slice(), n)
        || eq(app.as_slice(), n);
    let partial = contains_chars(name.as_slice(), n) || contains_chars(display.as_slice(), n)
        || contains_chars(app.as_slice(), n);
    let all_terms = all_contained(hay.as_slice(), terms);
    let any_alias = any_contained(hay.as_slice(), aliases);
    let featured = match p.is_featured {
        Some(b) => b,
        None => false,
    };
    assert(hay@ == haystack(*p));
    assert(q.terms == views(terms@));
    assert(all_terms == (forall|k: int| 0 <= k < q.terms.len() ==> contains(haystack(*p), #[trigger] q.terms[k]))) by {
        if all_terms {
            assert forall|k: int| 0 <= k < q.terms.len() implies contains(haystack(*p), #[trigger] q.terms[k]) by {
                assert(contains(hay@, views(terms@)[k]));
            }
        } else {
            let k = choose|k: int| !(0 <= k < views(terms@).len() ==> contains(hay@, #[trigger] views(terms@)[k]));
            assert(!(0 <= k < q.terms.len() ==> contains(haystack(*p), q.terms[k])));
        }
    }
    assert(any_alias == (exists|k: int| 0 <= k < q.aliases.len() && contains(haystack(*p), #[trigger] q.aliases[k]))) by {
        if any_alias {
            let k = choose|k: int| 0 <= k < views(aliases@).len() && contains(hay@, #[trigger] views(aliases@)[k]);
            assert(0 <= k < q.aliases.len() && contains(haystack(*p), q.aliases[k]));
        } else {
            assert forall|k: int| !(0 <= k < q.aliases.len() && contains(haystack(*p), #[trigger] q.aliases[k])) by {
                if 0 <= k < q.aliases.len() {
                    assert(!contains(hay@, views(aliases@)[k]));
                }
            }
        }
    }
    assert(featured == (p.is_featured == Some(true)));
    let s1: i32 = if exact { 500 } else { 0 };
    let s2: i32 = if partial { 220 } else { 0 };
    let s3: i32 = if all_terms { 140 } else { 0 };
    let s4: i32 = if any_alias { 90 } else { 0 };
    let s5: i32 = if p.installed { 25 } else { 0 };
    let s6: i32 = if featured { 10 } else { 0 };
    s1 + s2 + s3 + s4 + s5 + s6
}

/// The result of a snapshot search for `query`: `r` holds the first 50 packages of a
/// ranking of the candidates, copied.
pub open spec fn snapshot_result(snap: Seq<Package>, query: Seq<char>, r: Seq<Package>) -> bool {
    let q = snapshot_query(query);
    if vstd::utf8::encode_utf8(q.normalized).len() < 2 {
        r.len() == 0
    } else {
        exists|ix: Seq<int>|
            #![trigger is_ranking(snap, q, ix, candidates(snap, q, snap.len() as int))]
            is_ranking(snap, q, ix, candidates(snap, q, snap.len() as int)) && r.len() == (if ix.len()
                < 50 {
                ix.len()
            } else {
                50
            }) && forall|k: int|
                0 <= k < r.len() ==> crate::models::same_package(#[trigger] r[k], snap[ix[k]])
    }
}

proof fn lemma_candidates_shape(snap: Seq<Package>, q: SnapshotQuery, n: int)
    requires
        0 <= n,
    ensures
        forall|k: int| 0 <= k < candidates(snap, q, n).len() ==> 0 <= #[trigger] candidates(snap, q, n)[k] < n,
        forall|x: int| #![auto] candidates(snap, q, n).contains(x) <==> (0 <= x < n && snapshot_score(snap[x], q) > 0),
        forall|a: int, b: int| 0 <= a < b < candidates(snap, q, n).len() ==> candidates(snap, q, n)[a] < candidates(snap, q, n)[b],
    decreases n,
{
    if n > 0 {
        lemma_candidates_shape(snap, q, n - 1);
        let prev = candidates(snap, q, n - 1);
        if snapshot_score(snap[n - 1], q) > 0 {
            let pn = prev.push(n - 1);
            assert forall|a: int, b: int| 0 <= a < b < pn.len() implies #[trigger] pn[a] < #[trigger] pn[b] by {
                if b == prev.len() {
                    assert(prev[a] < n - 1);
                }
            }
            assert forall|x: int| #![auto] pn.contains(x) <==> (prev.contains(x) || x == n - 1) by {
                if pn.contains(x) {
                    let k = choose|k: int| 0 <= k < pn.len() && #[trigger] pn[k] == x;
                    if k < prev.len() {
                        assert(prev[k] == x);
                    }
                }
                if prev.contains(x) {
                    let k = choose|k: int| 0 <= k < prev.len() && #[trigger] prev[k] == x;
                    assert(pn[k] == x);
                }
                if x == n - 1 {
                    assert(pn[prev.len() as int] == x);
                }
            }
        }
    }
}

/// Packages from the catalogue snapshot that match `query` (trimmed, lower-cased, at least
/// two bytes), best first: by score, then shorter name, then name order, then snapshot
/// order; at most 50.
pub fn search_packages_from_snapshot(snapshot: &Vec<Package>, query: &str) -> (r: Vec<Package>)
    ensures
        snapshot_result(snapshot@, query@, r@),
{
    let ns = crate::search::normalize_name(query);
    let ghost q = snapshot_query(query@);
    if ns.as_str().as_bytes().len() < 2 {
        return Vec::new();
    }
    let n = chars_of(ns.as_str());
    let terms = terms_of(n.as_slice());
    let aliases = search_alias_terms(ns.as_str());
    assert(q == (SnapshotQuery { normalized: n@, terms: views(terms@), aliases: views(aliases@) }));
    let mut scores: Vec<i32> = Vec::new();
    let mut names: Vec<Vec<char>> = Vec::new();
    let mut lens: Vec<usize> = Vec::new();
    let mut cands: Vec<usize> = Vec::new();
    let mut i: usize = 0;
    while i < snapshot.len()
        invariant
            0 <= i <= snapshot@.len(),
            q == (SnapshotQuery { normalized: n@, terms: views(terms@), aliases: views(aliases@) }),
            scores@.len() == i,
            names@.len() == i,
            lens@.len() == i,
            forall|k: int| 0 <= k < i ==> #[trigger] scores@[k] as int == snapshot_score(snapshot@[k], q),
            forall|k: int| 0 <= k < i ==> #[trigger] names@[k]@ == snapshot@[k].name@,
            forall|k: int| 0 <= k < i ==> #[trigger] lens@[k] as int == vstd::utf8::encode_utf8(
                snapshot@[k].name@,
            ).len(),
            cands@.map_values(|x: usize| x as int) == candidates(snapshot@, q, i as int),
        decreases snapshot@.len() - i,
    {
        let sc = snapshot_score_of(&snapshot[i], n.as_slice(), &terms, &aliases);
        scores.push(sc);
        names.push(chars_of(snapshot[i].name.as_str()));
        lens.push(snapshot[i].name.as_str().as_bytes().len());
        if sc > 0 {
            let ghost old = cands@;
            cands.push(i);
            assert(cands@.map_values(|x: usize| x as int) == old.map_values(|x: usize| x as int).push(
                i as int,
            ));
        }
        i += 1;
    }
    let ghost cs = candidates(snapshot@, q, snapshot@.len() as int);
    proof {
        lemma_candidates_shape(snapshot@, q, snapshot@.len() as int);
    }
    // Insertion sort of the candidates by rank.
    let mut out: Vec<usize> = Vec::new();
    let mut m: usize = 0;
    while m < cands.len()
        invariant
            0 <= m <= cands@.len(),
            cands@.map_values(|x: usize| x as int) == cs,
            scores@.len() == snapshot@.len(),
            names@.len() == snapshot@.len(),
            lens@.len() == snapshot@.len(),
            forall|k: int| 0 <= k < scores@.len() ==> #[trigger] scores@[k] as int == snapshot_score(snapshot@[k], q),
            forall|k: int| 0 <= k < names@.len() ==> #[trigger] names@[k]@ == snapshot@[k].name@,
            forall|k: int| 0 <= k < lens@.len() ==> #[trigger] lens@[k] as int == vstd::utf8::encode_utf8(
                snapshot@[k].name@,
            ).len(),
            forall|k: int| 0 <= k < cs.len() ==> 0 <= #[trigger] cs[k] < snapshot@.len(),
            forall|a: int, b: int| 0 <= a < b < cs.len() ==> cs[a] < cs[b],
            out@.len() == m,
            out@.map_values(|x: usize| x as int).no_duplicates(),
            forall|k: int| 0 <= k < m ==> #[trigger] cs.take(m as int).contains(out@[k] as int),
            forall|k: int| 0 <= k < m ==> (out@[k] as int) < snapshot@.len(),
            forall|a: int, b: int|
                0 <= a < b < m ==> ranks_before(snapshot@, q, out@[a] as int, out@[b] as int),
        decreases cands@.len() - m,
    {
        let x = cands[m];
        assert(cs[m as int] == x as int);
        let ghost o = out@;
        let mut p: usize = 0;
        while p < out.len() && !ranks_before_exec(x, out[p], &scores, &names, &lens)
            invariant
                0 <= p <= out@.len(),
                out@ == o,
                (x as int) < snapshot@.len(),
                forall|k: int| 0 <= k < out@.len() ==> (out@[k] as int) < snapshot@.len(),
                scores@.len() == snapshot@.len(),
                names@.len() == snapshot@.len(),
                lens@.len() == snapshot@.len(),
                forall|k: int| 0 <= k < scores@.len() ==> #[trigger] scores@[k] as int == snapshot_score(snapshot@[k], q),
                forall|k: int| 0 <= k < names@.len() ==> #[trigger] names@[k]@ == snapshot@[k].name@,
                forall|k: int| 0 <= k < lens@.len() ==> #[trigger] lens@[k] as int == vstd::utf8::encode_utf8(
                    snapshot@[k].name@,
                ).len(),
                forall|k: int| 0 <= k < p ==> !ranks_before(snapshot@, q, x as int, #[trigger] out@[k] as int),
            decreases out@.len() - p,
        {
            p += 1;
        }
        proof {
            // x is new: every element placed so far is an earlier candidate.
            assert forall|k: int| 0 <= k < o.len() implies (o[k] as int) != (x as int) by {
                assert(cs.take(m as int).contains(o[k] as int));
                let j = choose|j: int| 0 <= j < cs.take(m as int).len() && cs.take(m as int)[j] == o[k] as int;
                assert(cs[j] < cs[m as int]);
            }
            assert forall|k: int| 0 <= k < p implies ranks_before(snapshot@, q, #[trigger] o[k] as int, x as int) by {
                lemma_ranks_before_order(snapshot@, q, x as int, o[k] as int, x as int);
            }
            assert forall|k: int| p <= k < o.len() implies ranks_before(snapshot@, q, x as int, #[trigger] o[k] as int) by {
                if k > p {
                    lemma_ranks_before_order(snapshot@, q, x as int, o[p as int] as int, o[k] as int);
                }
            }
            o.insert_ensures(p as int, x);
        }
        out.insert(p, x);
        proof {
            let no = out@;
            assert(no == o.insert(p as int, x));
            assert forall|a: int, b: int| 0 <= a < b < no.len() implies ranks_before(
                snapshot@,
                q,
                no[a] as int,
                no[b] as int,
            ) by {
                if b < p {
                } else if b == p {
                } else if a < p {
                    assert(no[b] == o[b - 1]);
                } else if a == p {
                    assert(no[b] == o[b - 1]);
                } else {
                    assert(no[a] == o[a - 1]);
                    assert(no[b] == o[b - 1]);
                }
            }
            assert forall|k: int| 0 <= k < m + 1 implies #[trigger] cs.take(m + 1).contains(no[k] as int) by {
                if k < p {
                    assert(cs.take(m as int).contains(o[k] as int));
                    let j = choose|j: int| 0 <= j < cs.take(m as int).len() && cs.take(m as int)[j] == o[k] as int;
                    assert(cs.take(m + 1)[j] == o[k] as int);
                } else if k == p {
                    assert(cs.take(m + 1)[m as int] == x as int);
                } else {
                    assert(no[k] == o[k - 1]);
                    assert(cs.take(m as int).contains(o[k - 1] as int));
                    let j = choose|j: int| 0 <= j < cs.take(m as int).len() && cs.take(m as int)[j] == o[k - 1] as int;
                    assert(cs.take(m + 1)[j] == o[k - 1] as int);
                }
            }
            let nm = no.map_values(|v: usize| v as int);
            assert forall|a: int, b: int| 0 <= a < nm.len() && 0 <= b < nm.len() && a != b implies nm[a] != nm[b] by {
                if a < b {
                    lemma_ranks_before_order(snapshot@, q, no[a] as int, no[b] as int, no[b] as int);
                } else {
                    lemma_ranks_before_order(snapshot@, q, no[b] as int, no[a] as int, no[a] as int);
                }
            }
            assert forall|k: int| 0 <= k < m + 1 implies (no[k] as int) < snapshot@.len() by {
                if k < p {
                } else if k == p {
                } else {
                    assert(no[k] == o[k - 1]);
                }
            }
        }
        m += 1;
    }
    let ghost ix = out@.map_values(|v: usize| v as int);
    proof {
        assert(cs.take(cs.len() as int) == cs);
        assert(is_ranking(snapshot@, q, ix, cs));
    }
    let limit: usize = if out.len() < 50 {
        out.len()
    } else {
        50
    };
    let mut r: Vec<Package> = Vec::new();
    let mut k: usize = 0;
    while k < limit
        invariant
            0 <= k <= limit,
            limit <= out@.len(),
            ix == out@.map_values(|v: usize| v as int),
            forall|j: int| 0 <= j < out@.len() ==> (out@[j] as int) < snapshot@.len(),
            r@.len() == k,
            forall|j: int| 0 <= j < k ==> crate::models::same_package(#[trigger] r@[j], snapshot@[ix[j]]),
        decreases limit - k,
    {
        r.push(snapshot[out[k]].copy());
        k += 1;
    }
    assert(is_ranking(snapshot@, q, ix, candidates(snapshot@, q, snapshot@.len() as int)));
    r
}

fn ranks_before_exec(i: usize, j: usize, scores: &Vec<i32>, names: &Vec<Vec<char>>, lens: &Vec<usize>) -> (r: bool)
    requires
        i < scores@.len(),
        j < scores@.len(),
        names@.len() == scores@.len(),
        lens@.len() == scores@.len(),
    ensures
        r == (scores@[i as int] > scores@[j as int] || (scores@[i as int] == scores@[j as int] && (
        lens@[i as int] < lens@[j as int] || (lens@[i as int] == lens@[j as int] && (
        crate::text::lex_lt(names@[i as int]@, names@[j as int]@) || (names@[i as int]@
            == names@[j as int]@ && i < j)))))),
{
    if scores[i] != scores[j] {
        return scores[i] > scores[j];
    }
    if lens[i] != lens[j] {
        return lens[i] < lens[j];
    }
    if crate::text::lex_less(names[i].as_slice(), names[j].as_slice()) {
        return true;
    }
    eq(names[i].as_slice(), names[j].as_slice()) && i < j
}

// ---------------------------------------------------------------------------
// Live search: cache key, Chaotic-AUR matches, merged AUR results
// ---------------------------------------------------------------------------

/// The cache key of a search: the trimmed, lower-cased query and the sources included.
pub open spec fn search_key(query: Seq<char>, f: bool, a: bool, c: bool, i: bool) -> Seq<char> {
    "q="@ + lowercase(trim(query)) + "::f="@ + crate::categories::bool_text(f) + "::a="@
        + crate::categories::bool_text(a) + "::c="@ + crate::categories::bool_text(c) + "::i="@
        + crate::categories::bool_text(i)
}

fn bool_chars(b: bool) -> (r: &'static str)
    ensures
        r@ == crate::categories::bool_text(b),
{
    if b {
        "true"
    } else {
        "false"
    }
}

/// The cache key of a search.
pub fn search_cache_key(query: &str, f: bool, a: bool, c: bool, i: bool) -> (r: String)
    ensures
        r@ == search_key(query@, f, a, c, i),
{
    let q = crate::discovery::trimmed_lower(query);
    let v0 = crate::text::concat(chars_of("q=").as_slice(), q.as_slice());
    let v1 = crate::text::concat_str(v0.as_slice(), "::f=");
    let v2 = crate::text::concat_str(v1.as_slice(), bool_chars(f));
    let v3 = crate::text::concat_str(v2.as_slice(), "::a=");
    let v4 = crate::text::concat_str(v3.as_slice(), bool_chars(a));
    let v5 = crate::text::concat_str(v4.as_slice(), "::c=");
    let v6 = crate::text::concat_str(v5.as_slice(), bool_chars(c));
    let v7 = crate::text::concat_str(v6.as_slice(), "::i=");
    let v8 = crate::text::concat_str(v7.as_slice(), bool_chars(i));
    string_of(v8.as_slice())
}

/// A Chaotic-AUR package matches a lower-cased query when its lower-cased name contains
/// the query, or every word of it, or one of the expansion terms; or when its lower-cased
/// description contains the query.
pub open spec fn chaotic_match(name: Seq<char>, desc: Option<Seq<char>>, q: Seq<char>, expansions: Seq<Seq<char>>) -> bool {
    let n = lowercase(name);
    contains(n, q) || (forall|k: int| 0 <= k < words(q).len() ==> contains(n, #[trigger] words(q)[k]))
        || (exists|k: int| 0 <= k < expansions.len() && contains(n, lowercase(#[trigger] expansions[k])))
        || match desc {
        Some(d) => contains(lowercase(d), q),
        None => false,
    }
}

/// Whether a Chaotic-AUR package matches the lower-cased query `query_lower`.
pub fn chaotic_package_matches(name: &str, desc: Option<&str>, query_lower: &str, expansions: &Vec<String>) -> (r: bool)
    ensures
        r == chaotic_match(
            name@,
            match desc {
                Some(d) => Some(d@),
                None => None,
            },
            query_lower@,
            crate::text::string_views(expansions@),
        ),
{
    let n = lower_chars(name);
    let q = chars_of(query_lower);
    if contains_chars(n.as_slice(), q.as_slice()) {
        return true;
    }
    let parts = crate::text::split_words(q.as_slice());
    let mut all = true;
    let mut i: usize = 0;
    while i < parts.len()
        invariant
            0 <= i <= parts@.len(),
            views(parts@) == words(q@),
            q@ == query_lower@,
            all == (forall|k: int| 0 <= k < i ==> contains(n@, #[trigger] views(parts@)[k])),
        decreases parts@.len() - i,
    {
        assert(views(parts@)[i as int] == parts@[i as int]@);
        if !contains_chars(n.as_slice(), parts[i].as_slice()) {
            all = false;
        }
        i += 1;
    }
    if all {
        return true;
    }
    let ghost ev = crate::text::string_views(expansions@);
    let mut j: usize = 0;
    while j < expansions.len()
        invariant
            0 <= j <= expansions@.len(),
            ev == crate::text::string_views(expansions@),
            n@ == lowercase(name@),
            forall|k: int| 0 <= k < j ==> !contains(n@, lowercase(#[trigger] ev[k])),
        decreases expansions@.len() - j,
    {
        assert(ev[j as int] == expansions@[j as int]@);
        let e = lower_chars(expansions[j].as_str());
        if contains_chars(n.as_slice(), e.as_slice()) {
            assert(contains(n@, lowercase(ev[j as int])));
            assert(ev == crate::text::string_views(expansions@));
            return true;
        }
        j += 1;
    }
    match desc {
        Some(d) => {
            let dl = lower_chars(d);
            contains_chars(dl.as_slice(), q.as_slice())
        },
        None => false,
    }
}

/// The names of packages that were already listed before index `i`.
pub open spec fn first_of_name(ps: Seq<Package>, i: int) -> bool {
    forall|j: int| 0 <= j < i ==> (#[trigger] ps[j]).name@ != ps[i].name@
}

/// The packages of `ps` that are the first of their name, in order.
pub open spec fn first_by_name(ps: Seq<Package>) -> Seq<Package>
    decreases ps.len(),
{
    if ps.len() == 0 {
        Seq::empty()
    } else {
        let prev = first_by_name(ps.drop_last());
        if first_of_name(ps, ps.len() - 1) {
            prev.push(ps.last())
        } else {
            prev
        }
    }
}

/// Merging search results keeps every package name that occurs in them.
pub proof fn law_merge_keeps_every_name(ps: Seq<Package>, x: Seq<char>)
    ensures
        (exists|k: int| 0 <= k < first_by_name(ps).len() && (#[trigger] first_by_name(ps)[k]).name@ == x)
            <==> (exists|k: int| 0 <= k < ps.len() && (#[trigger] ps[k]).name@ == x),
    decreases ps.len(),
{
    if ps.len() > 0 {
        let init = ps.drop_last();
        law_merge_keeps_every_name(init, x);
        let prev = first_by_name(init);
        if exists|k: int| 0 <= k < ps.len() && (#[trigger] ps[k]).name@ == x {
            let k = choose|k: int| 0 <= k < ps.len() && (#[trigger] ps[k]).name@ == x;
            if k < ps.len() - 1 {
                assert(init[k] == ps[k]);
                let m = choose|m: int| 0 <= m < prev.len() && (#[trigger] prev[m]).name@ == x;
                assert(first_by_name(ps)[m] == prev[m]);
            } else if first_of_name(ps, ps.len() - 1) {
                assert(first_by_name(ps)[prev.len() as int] == ps.last());
            } else {
                let j = choose|j: int| 0 <= j < ps.len() - 1 && (#[trigger] ps[j]).name@ == ps[ps.len() - 1].name@;
                assert(init[j] == ps[j]);
                let m = choose|m: int| 0 <= m < prev.len() && (#[trigger] prev[m]).name@ == x;
                assert(first_by_name(ps)[m] == prev[m]);
            }
        }
        if exists|k: int| 0 <= k < first_by_name(ps).len() && (#[trigger] first_by_name(ps)[k]).name@ == x {
            let k = choose|k: int| 0 <= k < first_by_name(ps).len() && (#[trigger] first_by_name(ps)[k]).name@ == x;
            if k < prev.len() {
                assert(first_by_name(ps)[k] == prev[k]);
                let m = choose|m: int| 0 <= m < init.len() && (#[trigger] init[m]).name@ == x;
                assert(ps[m] == init[m]);
            } else {
                assert(ps[ps.len() - 1].name@ == x);
            }
        }
    }
}

/// Merging search results lists each package name at most once.
pub proof fn law_merge_names_unique(ps: Seq<Package>)
    ensures
        forall|a: int, b: int|
            0 <= a < b < first_by_name(ps).len() ==> (#[trigger] first_by_name(ps)[a]).name@
                != (#[trigger] first_by_name(ps)[b]).name@,
    decreases ps.len(),
{
    if ps.len() > 0 {
        let init = ps.drop_last();
        law_merge_names_unique(init);
        let prev = first_by_name(init);
        if first_of_name(ps, ps.len() - 1) {
            let r = prev.push(ps.last());
            assert forall|a: int, b: int| 0 <= a < b < r.len() implies (#[trigger] r[a]).name@ != (#[trigger] r[b]).name@ by {
                if b == prev.len() {
                    law_merge_keeps_every_name(init, prev[a].name@);
                    assert(exists|k: int| 0 <= k < prev.len() && (#[trigger] prev[k]).name@ == prev[a].name@);
                    let k = choose|k: int| 0 <= k < init.len() && (#[trigger] init[k]).name@ == prev[a].name@;
                    assert(ps[k] == init[k]);
                } else {
                    assert(r[a] == prev[a]);
                    assert(r[b] == prev[b]);
                }
            }
        }
    }
}

/// The AUR results of several searches merged: each package name once, the first
/// result of that name kept, in order.
pub fn merge_by_name(results: Vec<Package>) -> (r: Vec<Package>)
    ensures
        r@ == first_by_name(results@),
{
    let mut out: Vec<Package> = Vec::new();
    let mut seen: Vec<Vec<char>> = Vec::new();
    let mut rest = results;
    let ghost orig = rest@;
    let ghost mut i: int = 0;
    while rest.len() > 0
        invariant
            0 <= i <= orig.len(),
            rest@ == orig.skip(i),
            out@ == first_by_name(orig.take(i)),
            forall|x: Seq<char>| #![auto] views(seen@).contains(x) <==> (exists|k: int| 0 <= k < i && (#[trigger] orig[k]).name@ == x),
        decreases rest@.len(),
    {
        let p = rest.remove(0);
        let n = chars_of(p.name.as_str());
        let mut found = false;
        let mut j: usize = 0;
        while j < seen.len()
            invariant
                0 <= j <= seen@.len(),
                found == (exists|k: int| 0 <= k < j && #[trigger] views(seen@)[k] == n@),
            decreases seen@.len() - j,
        {
            assert(views(seen@)[j as int] == seen@[j as int]@);
            if eq(seen[j].as_slice(), n.as_slice()) {
                found = true;
            }
            j += 1;
        }
        proof {
            let t = orig.take(i + 1);
            assert(p == orig[i]);
            assert(t.drop_last() == orig.take(i));
            assert(t.last() == orig[i]);
            assert(forall|k: int| 0 <= k < i ==> t[k] == orig[k]);
            if found {
                let k = choose|k: int| 0 <= k < seen@.len() && #[trigger] views(seen@)[k] == n@;
                assert(views(seen@).contains(n@));
                let m = choose|m: int| 0 <= m < i && (#[trigger] orig[m]).name@ == n@;
                assert(t[m].name@ == t[i].name@);
                assert(!first_of_name(t, i));
            } else {
                assert forall|m: int| 0 <= m < i implies (#[trigger] t[m]).name@ != t[i].name@ by {
                    assert(t[m] == orig[m]);
                    if orig[m].name@ == n@ {
                        assert(views(seen@).contains(n@));
                        let k = choose|k: int| 0 <= k < views(seen@).len() && views(seen@)[k] == n@;
                        assert(exists|k2: int| 0 <= k2 < seen@.len() && #[trigger] views(seen@)[k2] == n@);
                    }
                }
                assert(first_of_name(t, i));
            }
            assert(rest@ == orig.skip(i + 1));
        }
        if !found {
            let ghost old_seen = views(seen@);
            seen.push(n);
            out.push(p);
            proof {
                assert(views(seen@) == old_seen.push(orig[i].name@));
                assert forall|x: Seq<char>| #![auto] views(seen@).contains(x) <==> (exists|k: int| 0 <= k < i + 1 && (#[trigger] orig[k]).name@ == x) by {
                    if views(seen@).contains(x) {
                        let k = choose|k: int| 0 <= k < views(seen@).len() && views(seen@)[k] == x;
                        if k < old_seen.len() {
                            assert(old_seen[k] == x);
                            assert(old_seen.contains(x));
                        } else {
                            assert(orig[i].name@ == x);
                        }
                    }
                    if exists|k: int| 0 <= k < i + 1 && (#[trigger] orig[k]).name@ == x {
                        let k = choose|k: int| 0 <= k < i + 1 && (#[trigger] orig[k]).name@ == x;
                        if k < i {
                            assert(old_seen.contains(x));
                            let m = choose|m: int| 0 <= m < old_seen.len() && old_seen[m] == x;
                            assert(views(seen@)[m] == x);
                        } else {
                            assert(views(seen@)[old_seen.len() as int] == x);
                        }
                    }
                }
            }
        } else {
            proof {
                assert forall|x: Seq<char>| #![auto] views(seen@).contains(x) <==> (exists|k: int| 0 <= k < i + 1 && (#[trigger] orig[k]).name@ == x) by {
                    if exists|k: int| 0 <= k < i + 1 && (#[trigger] orig[k]).name@ == x {
                        let k = choose|k: int| 0 <= k < i + 1 && (#[trigger] orig[k]).name@ == x;
                        if k == i {
                            let m = choose|m: int| 0 <= m < seen@.len() && #[trigger] views(seen@)[m] == n@;
                            assert(views(seen@).contains(x));
                        }
                    }
                }
            }
        }
        proof {
            i = i + 1;
        }
    }
    proof {
        assert(orig.take(i) == orig);
    }
    out
}


/// A snapshot search gives at most 50 results, and each is a copy of a different package
/// of the snapshot.
pub proof fn law_snapshot_results_bounded_and_distinct(snap: Seq<Package>, query: Seq<char>, r: Seq<Package>)
    requires
        snapshot_result(snap, query, r),
    ensures
        r.len() <= 50,
        exists|ix: Seq<int>|
            #![trigger ix.no_duplicates()]
            ix.len() == r.len() && ix.no_duplicates() && forall|k: int|
                0 <= k < r.len() ==> 0 <= #[trigger] ix[k] < snap.len() && crate::models::same_package(
                    r[k],
                    snap[ix[k]],
                ),
{
    let q = snapshot_query(query);
    if vstd::utf8::encode_utf8(q.normalized).len() < 2 {
        let e = Seq::<int>::empty();
        assert(e.no_duplicates());
    } else {
        let cands = candidates(snap, q, snap.len() as int);
        let ix = choose|ix: Seq<int>|
            #![trigger is_ranking(snap, q, ix, cands)]
            is_ranking(snap, q, ix, cands) && r.len() == (if ix.len() < 50 {
                ix.len()
            } else {
                50
            }) && forall|k: int| 0 <= k < r.len() ==> crate::models::same_package(#[trigger] r[k], snap[ix[k]]);
        lemma_candidates_shape(snap, q, snap.len() as int);
        let t = ix.take(r.len() as int);
        assert forall|k: int| 0 <= k < r.len() implies 0 <= #[trigger] t[k] < snap.len()
            && crate::models::same_package(r[k], snap[t[k]]) by {
            assert(t[k] == ix[k]);
            assert(cands.contains(ix[k]));
        }
        assert(t.no_duplicates()) by {
            assert forall|a: int, b: int| 0 <= a < t.len() && 0 <= b < t.len() && a != b implies t[a] != t[b] by {
                assert(t[a] == ix[a]);
                assert(t[b] == ix[b]);
            }
        }
    }
}


/// A search query is long enough to run when its trimmed text takes at least two bytes in
/// UTF-8; a shorter one is answered with no results.
pub fn is_searchable_query(query: &str) -> (r: bool)
    ensures
        r == (vstd::utf8::encode_utf8(crate::text::trim(query@)).len() >= 2),
{
    let t = crate::text::trim_str(query);
    t.as_str().as_bytes().len() >= 2
}

proof fn lemma_candidates_len(snap: Seq<Package>, q: SnapshotQuery, n: int)
    requires
        0 <= n,
    ensures
        candidates(snap, q, n).len() <= n,
    decreases n,
{
    if n > 0 {
        lemma_candidates_len(snap, q, n - 1);
    }
}

/// With at most 50 packages in the snapshot, a query of at least two bytes finds every
/// package whose lower-cased name contains the normalized query.
pub proof fn law_small_snapshot_finds_every_name_match(snap: Seq<Package>, query: Seq<char>, r: Seq<Package>, x: int)
    requires
        snapshot_result(snap, query, r),
        snap.len() <= 50,
        vstd::utf8::encode_utf8(snapshot_query(query).normalized).len() >= 2,
        0 <= x < snap.len(),
        contains(lowercase(snap[x].name@), snapshot_query(query).normalized),
    ensures
        exists|k: int| 0 <= k < r.len() && crate::models::same_package(#[trigger] r[k], snap[x]),
{
    let q = snapshot_query(query);
    let n = snap.len() as int;
    let cands = candidates(snap, q, n);
    lemma_candidates_shape(snap, q, n);
    lemma_candidates_len(snap, q, n);
    assert(snapshot_score(snap[x], q) > 0);
    assert(cands.contains(x));
    let ix = choose|ix: Seq<int>|
        #![trigger is_ranking(snap, q, ix, cands)]
        is_ranking(snap, q, ix, cands) && r.len() == (if ix.len() < 50 {
            ix.len()
        } else {
            50
        }) && forall|k: int| 0 <= k < r.len() ==> crate::models::same_package(#[trigger] r[k], snap[ix[k]]);
    assert(cands.no_duplicates()) by {
        assert forall|a: int, b: int| 0 <= a < cands.len() && 0 <= b < cands.len() && a != b
            implies cands[a] != cands[b] by {
            if a < b {
                assert(cands[a] < cands[b]);
            } else {
                assert(cands[b] < cands[a]);
            }
        }
    }
    ix.unique_seq_to_set();
    cands.unique_seq_to_set();
    assert(ix.to_set().subset_of(cands.to_set())) by {
        assert forall|y: int| ix.to_set().contains(y) implies cands.to_set().contains(y) by {
            assert(ix.contains(y));
            let k = choose|k: int| 0 <= k < ix.len() && ix[k] == y;
            assert(cands.contains(ix[k]));
        }
    }
    vstd::set_lib::lemma_subset_equality(ix.to_set(), cands.to_set());
    assert(cands.to_set().contains(x));
    assert(ix.to_set().contains(x));
    assert(ix.contains(x));
    let k = choose|k: int| 0 <= k < ix.len() && ix[k] == x;
    assert(r.len() == ix.len());
    assert(crate::models::same_package(r[k], snap[ix[k]]));
}

} // verus!
