//! Category pages: which sources a category request includes, its cache key, the
//! repository filter, the featured-first order, and the page that is returned.
use vstd::prelude::*;
use crate::models::{Package, PackageSource, same_package};
use crate::search_core::{CategoryQuery, SearchOptions};
use crate::text::{chars_of, contains, contains_str, eq_str, lex_lt, lower_chars, lowercase, string_of};

verus! {

/// One page of a category.
#[derive(Debug, Clone)]
pub struct PaginatedResponse {
    pub packages: Vec<Package>,
    pub total: u32,
    pub page: u32,
    pub has_more: bool,
}

// ---------------------------------------------------------------------------
// Sources and cache key
// ---------------------------------------------------------------------------

/// The value of an optional flag, `true` when unset.
pub open spec fn on_unless_off(o: Option<bool>) -> bool {
    match o {
        Some(b) => b,
        None => true,
    }
}

/// Which sources a category request includes (Flatpak, AUR, Chaotic-AUR) and whether it
/// is a lookup of installed packages, which includes every source. Otherwise a source is
/// included when the backend has it enabled and the request does not turn it off.
pub open spec fn inclusion(options: Option<SearchOptions>, flatpak_on: bool, aur_on: bool, chaotic_on: bool) -> (bool, bool, bool, bool) {
    let installed = match options {
        Some(o) => o.for_installed_lookup == Some(true),
        None => false,
    };
    let (f, a, c) = match options {
        Some(o) => (o.flatpak_enabled, o.aur_enabled, o.chaotic_enabled),
        None => (None, None, None),
    };
    (
        installed || (flatpak_on && on_unless_off(f)),
        installed || (aur_on && on_unless_off(a)),
        installed || (chaotic_on && on_unless_off(c)),
        installed,
    )
}

/// The sources included in a category request.
pub fn source_inclusion(options: &Option<SearchOptions>, flatpak_on: bool, aur_on: bool, chaotic_on: bool) -> (r: (bool, bool, bool, bool))
    ensures
        r == inclusion(*options, flatpak_on, aur_on, chaotic_on),
{
    match options {
        Some(o) => {
            let installed = match o.for_installed_lookup {
                Some(b) => b,
                None => false,
            };
            let f = match o.flatpak_enabled {
                Some(b) => b,
                None => true,
            };
            let a = match o.aur_enabled {
                Some(b) => b,
                None => true,
            };
            let c = match o.chaotic_enabled {
                Some(b) => b,
                None => true,
            };
            (installed || (flatpak_on && f), installed || (aur_on && a), installed || (chaotic_on && c), installed)
        },
        None => (flatpak_on, aur_on, chaotic_on, false),
    }
}

/// The words joined by commas.
pub open spec fn comma_join(ws: Seq<Seq<char>>) -> Seq<char> {
    crate::search_core::join(ws, ","@)
}

/// "true" or "false".
pub open spec fn bool_text(b: bool) -> Seq<char> {
    if b {
        "true"@
    } else {
        "false"@
    }
}

/// The cache key of a category request: its category, repository filter, sort order
/// and included sources, with the cache version.
pub open spec fn category_key(q: CategoryQuery, f: bool, a: bool, c: bool, i: bool) -> Seq<char> {
    let filter = match q.repo_filter {
        Some(v) => comma_join(crate::text::string_views(v@)),
        None => Seq::empty(),
    };
    let sort = match q.sort_by {
        Some(s) => s@,
        None => "default"@,
    };
    "cat:"@ + q.category@ + ":"@ + filter + ":"@ + sort + ":f"@ + bool_text(f) + ":a"@ + bool_text(
        a,
    ) + ":c"@ + bool_text(c) + ":i"@ + bool_text(i) + ":v8"@
}

fn push_str(v: &mut Vec<char>, s: &str)
    ensures
        final(v)@ == old(v)@ + s@,
{
    let c = chars_of(s);
    let mut i: usize = 0;
    while i < c.len()
        invariant
            0 <= i <= c@.len(),
            c@ == s@,
            v@ == old(v)@ + c@.take(i as int),
        decreases c@.len() - i,
    {
        v.push(c[i]);
        assert(c@.take(i + 1) == c@.take(i as int).push(c@[i as int]));
        i += 1;
    }
    assert(c@.take(c@.len() as int) == c@);
}

fn bool_str(b: bool) -> (r: &'static str)
    ensures
        r@ == bool_text(b),
{
    if b {
        "true"
    } else {
        "false"
    }
}

fn comma_join_exec(v: &Vec<String>) -> (r: Vec<char>)
    ensures
        r@ == comma_join(crate::text::string_views(v@)),
{
    let mut parts: Vec<Vec<char>> = Vec::new();
    let mut i: usize = 0;
    while i < v.len()
        invariant
            0 <= i <= v@.len(),
            crate::text::views(parts@) == crate::text::string_views(v@).take(i as int),
        decreases v@.len() - i,
    {
        let ghost before = crate::text::views(parts@);
        parts.push(chars_of(v[i].as_str()));
        assert(crate::text::views(parts@) == before.push(v@[i as int]@));
        assert(crate::text::string_views(v@).take(i + 1) == crate::text::string_views(v@).take(
            i as int,
        ).push(v@[i as int]@));
        i += 1;
    }
    assert(crate::text::string_views(v@).take(v@.len() as int) == crate::text::string_views(v@));
    crate::search_core::join_chars(&parts, ",")
}

/// The cache key of a category request.
pub fn category_cache_key(q: &CategoryQuery, f: bool, a: bool, c: bool, i: bool) -> (r: String)
    ensures
        r@ == category_key(*q, f, a, c, i),
{
    let mut k: Vec<char> = chars_of("cat:");
    push_str(&mut k, q.category.as_str());
    push_str(&mut k, ":");
    match &q.repo_filter {
        Some(v) => {
            let j = comma_join_exec(v);
            let s = string_of(j.as_slice());
            push_str(&mut k, s.as_str());
        },
        None => {},
    }
    push_str(&mut k, ":");
    match &q.sort_by {
        Some(s) => push_str(&mut k, s.as_str()),
        None => push_str(&mut k, "default"),
    }
    push_str(&mut k, ":f");
    push_str(&mut k, bool_str(f));
    push_str(&mut k, ":a");
    push_str(&mut k, bool_str(a));
    push_str(&mut k, ":c");
    push_str(&mut k, bool_str(c));
    push_str(&mut k, ":i");
    push_str(&mut k, bool_str(i));
    push_str(&mut k, ":v8");
    string_of(k.as_slice())
}

// ---------------------------------------------------------------------------
// Repository filter
// ---------------------------------------------------------------------------

/// The filter name of a source: Chaotic-AUR, CachyOS or official for repositories (by
/// their id), flatpak, aur, or other.
pub open spec fn filter_name(s: PackageSource) -> Seq<char> {
    let id = lowercase(s.id@);
    let t = lowercase(s.source_type@);
    if t == "repo"@ {
        if contains(id, "chaotic"@) {
            "chaotic-aur"@
        } else if contains(id, "cachyos"@) {
            "cachyos"@
        } else {
            "official"@
        }
    } else if t == "flatpak"@ {
        "flatpak"@
    } else if t == "aur"@ {
        "aur"@
    } else {
        "other"@
    }
}

/// A source passes the filter `allowed` (lower-cased names): its filter name is allowed;
/// Chaotic-AUR also passes as "chaotic"; official repositories also pass as "repo".
pub open spec fn source_allowed(s: PackageSource, allowed: Seq<Seq<char>>) -> bool {
    let n = filter_name(s);
    allowed.contains(n) || (n == "chaotic-aur"@ && (allowed.contains("chaotic"@)
        || allowed.contains("chaotic-aur"@))) || (n == "official"@ && allowed.contains("repo"@))
}

/// A package passes the filter when one of its available sources does.
pub open spec fn package_allowed(p: Package, allowed: Seq<Seq<char>>) -> bool {
    match p.available_sources {
        Some(v) => exists|k: int| 0 <= k < v@.len() && source_allowed(#[trigger] v@[k], allowed),
        None => false,
    }
}

/// The lower-cased repository names of a filter.
pub open spec fn lowered(v: Seq<String>) -> Seq<Seq<char>> {
    v.map_values(|s: String| lowercase(s@))
}

/// Whether a filter applies: it is present, not empty, and does not name "all".
pub open spec fn filter_applies(repo_filter: Option<Vec<String>>) -> bool {
    match repo_filter {
        Some(v) => v@.len() > 0 && !lowered(v@).contains("all"@),
        None => false,
    }
}

/// The test that a package passes a filter.
pub open spec fn passes(allowed: Seq<Seq<char>>) -> spec_fn(Package) -> bool {
    |p: Package| package_allowed(p, allowed)
}

fn filter_name_of(s: &PackageSource) -> (r: &'static str)
    ensures
        r@ == filter_name(*s),
{
    let id = lower_chars(s.id.as_str());
    let t = lower_chars(s.source_type.as_str());
    if eq_str(t.as_slice(), "repo") {
        if contains_str(id.as_slice(), "chaotic") {
            "chaotic-aur"
        } else if contains_str(id.as_slice(), "cachyos") {
            "cachyos"
        } else {
            "official"
        }
    } else if eq_str(t.as_slice(), "flatpak") {
        "flatpak"
    } else if eq_str(t.as_slice(), "aur") {
        "aur"
    } else {
        "other"
    }
}

fn lowered_exec(v: &Vec<String>) -> (r: Vec<Vec<char>>)
    ensures
        crate::text::views(r@) == lowered(v@),
{
    let mut out: Vec<Vec<char>> = Vec::new();
    let mut i: usize = 0;
    while i < v.len()
        invariant
            0 <= i <= v@.len(),
            crate::text::views(out@) == lowered(v@).take(i as int),
        decreases v@.len() - i,
    {
        let ghost before = crate::text::views(out@);
        out.push(lower_chars(v[i].as_str()));
        assert(crate::text::views(out@) == before.push(lowercase(v@[i as int]@)));
        assert(lowered(v@).take(i + 1) == lowered(v@).take(i as int).push(lowercase(v@[i as int]@)));
        i += 1;
    }
    assert(lowered(v@).take(v@.len() as int) == lowered(v@));
    out
}

fn has_name(allowed: &Vec<Vec<char>>, n: &str) -> (r: bool)
    ensures
        r == crate::text::views(allowed@).contains(n@),
{
    let mut i: usize = 0;
    while i < allowed.len()
        invariant
            0 <= i <= allowed@.len(),
            forall|k: int| 0 <= k < i ==> crate::text::views(allowed@)[k] != n@,
        decreases allowed@.len() - i,
    {
        assert(crate::text::views(allowed@)[i as int] == allowed@[i as int]@);
        if eq_str(allowed[i].as_slice(), n) {
            return true;
        }
        i += 1;
    }
    false
}

fn package_allowed_exec(p: &Package, allowed: &Vec<Vec<char>>) -> (r: bool)
    ensures
        r == package_allowed(*p, crate::text::views(allowed@)),
{
    let ghost a = crate::text::views(allowed@);
    match &p.available_sources {
        Some(v) => {
            let mut i: usize = 0;
            while i < v.len()
                invariant
                    0 <= i <= v@.len(),
                    a == crate::text::views(allowed@),
                    p.available_sources == Some(*v),
                    forall|k: int| 0 <= k < i ==> !source_allowed(#[trigger] v@[k], a),
                decreases v@.len() - i,
            {
                let n = filter_name_of(&v[i]);
                let ok = has_name(allowed, n) || ((eq_str(chars_of(n).as_slice(), "chaotic-aur"))
                    && (has_name(allowed, "chaotic") || has_name(allowed, "chaotic-aur"))) || (
                eq_str(chars_of(n).as_slice(), "official") && has_name(allowed, "repo"));
                if ok {
                    assert(source_allowed(v@[i as int], a));
                    proof {
                        let w = p.available_sources->0;
                        assert(w@ == v@);
                        assert(source_allowed(w@[i as int], a));
                        assert(exists|k: int| 0 <= k < w@.len() && source_allowed(#[trigger] w@[k], a));
                    }
                    return true;
                }
                i += 1;
            }
            false
        },
        None => false,
    }
}

/// The packages that pass the request's repository filter, in order; all of them when
/// the filter does not apply.
pub fn apply_repo_filter(packages: Vec<Package>, repo_filter: &Option<Vec<String>>) -> (r: Vec<Package>)
    ensures
        filter_applies(*repo_filter) ==> r@ == packages@.filter(
            passes(lowered(repo_filter->0@)),
        ),
        !filter_applies(*repo_filter) ==> r@ == packages@,
{
    let repos = match repo_filter {
        Some(v) => v,
        None => {
            return packages;
        },
    };
    let allowed = lowered_exec(repos);
    if repos.len() == 0 || has_name(&allowed, "all") {
        return packages;
    }
    let ghost al = lowered(repos@);
    let mut out: Vec<Package> = Vec::new();
    let mut rest = packages;
    let ghost orig = rest@;
    let ghost mut i: int = 0;
    while rest.len() > 0
        invariant
            0 <= i <= orig.len(),
            al == crate::text::views(allowed@),
            rest@ == orig.skip(i),
            out@ == orig.take(i).filter(passes(al)),
        decreases rest@.len(),
    {
        let p = rest.remove(0);
        proof {
            assert(p == orig[i]);
            assert(orig.take(i + 1) == orig.take(i).push(orig[i]));
            orig.take(i).lemma_filter_push(orig[i], passes(al));
            assert(rest@ == orig.skip(i + 1));
            i = i + 1;
        }
        if package_allowed_exec(&p, &allowed) {
            out.push(p);
        }
    }
    proof {
        assert(orig.take(i) == orig);
    }
    out
}

// ---------------------------------------------------------------------------
// Featured-first order
// ---------------------------------------------------------------------------

/// The rank of a featured name: the last position at which it (lower-cased) occurs among
/// the lower-cased featured names, 9999 when it is not featured.
pub open spec fn featured_rank(featured: Seq<Seq<char>>, name: Seq<char>) -> int
    decreases featured.len(),
{
    if featured.len() == 0 {
        9999
    } else if featured.last() == name {
        featured.len() - 1
    } else {
        featured_rank(featured.drop_last(), name)
    }
}

/// Package `i` comes before package `j` in a featured-first listing: lower featured rank,
/// then lower-cased name order, then the earlier position.
pub open spec fn listed_before(ps: Seq<Package>, featured: Seq<Seq<char>>, i: int, j: int) -> bool {
    let ni = lowercase(ps[i].name@);
    let nj = lowercase(ps[j].name@);
    let ri = featured_rank(featured, ni);
    let rj = featured_rank(featured, nj);
    ri < rj || (ri == rj && (lex_lt(ni, nj) || (ni == nj && i < j)))
}

/// The listing order is a strict total order on positions.
pub proof fn lemma_listed_before_order(ps: Seq<Package>, featured: Seq<Seq<char>>, i: int, j: int, k: int)
    ensures
        i != j ==> (listed_before(ps, featured, i, j) || listed_before(ps, featured, j, i)),
        !(listed_before(ps, featured, i, j) && listed_before(ps, featured, j, i)),
        listed_before(ps, featured, i, j) && listed_before(ps, featured, j, k) ==> listed_before(
            ps,
            featured,
            i,
            k,
        ),
{
    let ni = lowercase(ps[i].name@);
    let nj = lowercase(ps[j].name@);
    let nk = lowercase(ps[k].name@);
    crate::text::lemma_lex_total(ni, nj);
    crate::text::lemma_lex_total(ni, nk);
    crate::text::lemma_lex_total(nj, nk);
    if lex_lt(ni, nj) && lex_lt(nj, nk) {
        crate::text::lemma_lex_transitive(ni, nj, nk);
    }
}

/// `ix` lists each position of `ps` once, in featured-first order.
pub open spec fn is_listing(ps: Seq<Package>, featured: Seq<Seq<char>>, ix: Seq<int>) -> bool {
    &&& ix.len() == ps.len()
    &&& forall|k: int| 0 <= k < ix.len() ==> 0 <= #[trigger] ix[k] < ps.len()
    &&& ix.no_duplicates()
    &&& forall|a: int, b: int| 0 <= a < b < ix.len() ==> listed_before(ps, featured, ix[a], ix[b])
}

/// A package as listed: the same package, marked featured when its name is featured.
pub open spec fn listed_as(r: Package, p: Package, featured: Seq<Seq<char>>) -> bool {
    same_package(
        r,
        Package {
            is_featured: if featured.contains(lowercase(p.name@)) {
                Some(true)
            } else {
                p.is_featured
            },
            ..p
        },
    )
}

fn featured_rank_exec(featured: &Vec<Vec<char>>, name: &[char]) -> (r: u64)
    ensures
        r as int == featured_rank(crate::text::views(featured@), name@),
        (r as int) < 9999 ==> crate::text::views(featured@).contains(name@),
        !crate::text::views(featured@).contains(name@) ==> r == 9999,
{
    let ghost fv = crate::text::views(featured@);
    let mut i: usize = featured.len();
    assert(fv.take(fv.len() as int) == fv);
    while i > 0
        invariant
            0 <= i <= featured@.len(),
            fv == crate::text::views(featured@),
            featured_rank(fv, name@) == featured_rank(fv.take(i as int), name@),
            forall|k: int| i <= k < fv.len() ==> fv[k] != name@,
        decreases i,
    {
        assert(fv.take(i as int).last() == fv[i - 1]);
        assert(fv.take(i as int).drop_last() == fv.take(i - 1));
        if crate::text::eq(featured[i - 1].as_slice(), name) {
            assert(fv[i - 1] == featured@[i - 1]@);
            proof {
                assert(fv.contains(name@)) by {
                    assert(fv[i - 1] == name@);
                }
            }
            return (i - 1) as u64;
        }
        i -= 1;
    }
    proof {
        assert(fv.take(0) =~= Seq::<Seq<char>>::empty());
        assert forall|k: int| 0 <= k < fv.len() implies fv[k] != name@ by {}
    }
    9999
}

fn listed_before_exec(ranks: &Vec<u64>, names: &Vec<Vec<char>>, i: usize, j: usize) -> (r: bool)
    requires
        i < ranks@.len(),
        j < ranks@.len(),
        names@.len() == ranks@.len(),
    ensures
        r == (ranks@[i as int] < ranks@[j as int] || (ranks@[i as int] == ranks@[j as int] && (lex_lt(
            names@[i as int]@,
            names@[j as int]@,
        ) || (names@[i as int]@ == names@[j as int]@ && i < j)))),
{
    if ranks[i] != ranks[j] {
        return ranks[i] < ranks[j];
    }
    if crate::text::lex_less(names[i].as_slice(), names[j].as_slice()) {
        return true;
    }
    crate::text::eq(names[i].as_slice(), names[j].as_slice()) && i < j
}

/// The packages of a category in featured-first order: featured names first, in the
/// order of the featured list, then the rest by lower-cased name; ties keep their order.
/// Packages whose name is featured are marked so. With no featured names this is the
/// order by lower-cased name.
#[verifier::rlimit(60)]
pub fn sort_category_packages(packages: &Vec<Package>, featured_names: &Vec<String>) -> (r: Vec<Package>)
    ensures
        exists|ix: Seq<int>|
            #![trigger is_listing(packages@, lowered(featured_names@), ix)]
            is_listing(packages@, lowered(featured_names@), ix) && r@.len() == ix.len() && forall|
                k: int,
            |
                0 <= k < r@.len() ==> listed_as(
                    #[trigger] r@[k],
                    packages@[ix[k]],
                    lowered(featured_names@),
                ),
{
    let featured = lowered_exec(featured_names);
    let ghost fv = lowered(featured_names@);
    let ghost ps = packages@;
    let mut ranks: Vec<u64> = Vec::new();
    let mut names: Vec<Vec<char>> = Vec::new();
    let mut marks: Vec<bool> = Vec::new();
    let mut i: usize = 0;
    while i < packages.len()
        invariant
            0 <= i <= ps.len(),
            ps == packages@,
            fv == crate::text::views(featured@),
            ranks@.len() == i,
            names@.len() == i,
            marks@.len() == i,
            forall|k: int| 0 <= k < i ==> #[trigger] names@[k]@ == lowercase(ps[k].name@),
            forall|k: int| 0 <= k < i ==> #[trigger] ranks@[k] as int == featured_rank(fv, lowercase(ps[k].name@)),
            forall|k: int| 0 <= k < i ==> #[trigger] marks@[k] == fv.contains(lowercase(ps[k].name@)),
        decreases ps.len() - i,
    {
        let n = lower_chars(packages[i].name.as_str());
        let rk = featured_rank_exec(&featured, n.as_slice());
        let mk = has_name_chars(&featured, n.as_slice());
        ranks.push(rk);
        names.push(n);
        marks.push(mk);
        i += 1;
    }
    let mut out: Vec<usize> = Vec::new();
    let mut m: usize = 0;
    while m < packages.len()
        invariant
            0 <= m <= ps.len(),
            ps == packages@,
            ranks@.len() == ps.len(),
            names@.len() == ps.len(),
            forall|k: int| 0 <= k < ps.len() ==> #[trigger] names@[k]@ == lowercase(ps[k].name@),
            forall|k: int| 0 <= k < ps.len() ==> #[trigger] ranks@[k] as int == featured_rank(fv, lowercase(ps[k].name@)),
            out@.len() == m,
            forall|k: int| 0 <= k < m ==> (#[trigger] out@[k] as int) < m,
            out@.map_values(|v: usize| v as int).no_duplicates(),
            forall|a: int, b: int|
                0 <= a < b < m ==> listed_before(ps, fv, out@[a] as int, out@[b] as int),
        decreases ps.len() - m,
    {
        let ghost o = out@;
        let mut p: usize = 0;
        while p < out.len() && !listed_before_exec(&ranks, &names, m, out[p])
            invariant
                0 <= p <= out@.len(),
                out@ == o,
                m < ps.len(),
                ranks@.len() == ps.len(),
                names@.len() == ps.len(),
                forall|k: int| 0 <= k < ps.len() ==> #[trigger] names@[k]@ == lowercase(ps[k].name@),
                forall|k: int| 0 <= k < ps.len() ==> #[trigger] ranks@[k] as int == featured_rank(fv, lowercase(ps[k].name@)),
                forall|k: int| 0 <= k < out@.len() ==> (#[trigger] out@[k] as int) < m,
                forall|k: int| 0 <= k < p ==> !listed_before(ps, fv, m as int, #[trigger] out@[k] as int),
            decreases out@.len() - p,
        {
            proof {
                let _ = names@[m as int];
                let _ = names@[out@[p as int] as int];
                let _ = ranks@[m as int];
                let _ = ranks@[out@[p as int] as int];
            }
            p += 1;
        }
        proof {
            if p < out@.len() {
                let _ = names@[m as int];
                let _ = names@[o[p as int] as int];
                let _ = ranks@[m as int];
                let _ = ranks@[o[p as int] as int];
                assert(listed_before(ps, fv, m as int, o[p as int] as int));
            }
            assert forall|k: int| 0 <= k < p implies listed_before(ps, fv, #[trigger] o[k] as int, m as int) by {
                lemma_listed_before_order(ps, fv, m as int, o[k] as int, m as int);
            }
            assert forall|k: int| p <= k < o.len() implies listed_before(ps, fv, m as int, #[trigger] o[k] as int) by {
                if k > p {
                    lemma_listed_before_order(ps, fv, m as int, o[p as int] as int, o[k] as int);
                }
            }
            o.insert_ensures(p as int, m);
        }
        out.insert(p, m);
        proof {
            let no = out@;
            assert(no == o.insert(p as int, m));
            assert forall|a: int, b: int| 0 <= a < b < no.len() implies listed_before(
                ps,
                fv,
                no[a] as int,
                no[b] as int,
            ) by {
                if b < p {
                } else if b == p {
                } else if a < p {
                    assert(no[b] == o[b - 1]);
                } else if a == p {
                    assert(no[b] == o[b - 1]);
                } else {
                    assert(no[a] == o[a - 1]);
                    assert(no[b] == o[b - 1]);
                }
            }
            assert forall|k: int| 0 <= k < m + 1 implies (#[trigger] no[k] as int) < m + 1 by {
                if k < p {
                } else if k == p {
                } else {
                    assert(no[k] == o[k - 1]);
                }
            }
            let nm = no.map_values(|v: usize| v as int);
            assert forall|a: int, b: int| 0 <= a < nm.len() && 0 <= b < nm.len() && a != b implies nm[a] != nm[b] by {
                if a < b {
                    lemma_listed_before_order(ps, fv, no[a] as int, no[b] as int, no[b] as int);
                } else {
                    lemma_listed_before_order(ps, fv, no[b] as int, no[a] as int, no[a] as int);
                }
            }
        }
        m += 1;
    }
    let ghost ix = out@.map_values(|v: usize| v as int);
    let mut r: Vec<Package> = Vec::new();
    let mut k: usize = 0;
    while k < out.len()
        invariant
            0 <= k <= out@.len(),
            ps == packages@,
            out@.len() == ps.len(),
            marks@.len() == ps.len(),
            forall|j: int| 0 <= j < ps.len() ==> #[trigger] marks@[j] == fv.contains(lowercase(ps[j].name@)),
            ix == out@.map_values(|v: usize| v as int),
            forall|j: int| 0 <= j < out@.len() ==> (#[trigger] out@[j] as int) < ps.len(),
            r@.len() == k,
            forall|j: int| 0 <= j < k ==> listed_as(#[trigger] r@[j], ps[ix[j]], fv),
        decreases out@.len() - k,
    {
        let src = out[k];
        let mut c = packages[src].copy();
        if marks[src] {
            c.is_featured = Some(true);
        }
        r.push(c);
        k += 1;
    }
    assert(is_listing(ps, fv, ix));
    r
}

fn has_name_chars(allowed: &Vec<Vec<char>>, n: &[char]) -> (r: bool)
    ensures
        r == crate::text::views(allowed@).contains(n@),
{
    let mut i: usize = 0;
    while i < allowed.len()
        invariant
            0 <= i <= allowed@.len(),
            forall|k: int| 0 <= k < i ==> crate::text::views(allowed@)[k] != n@,
        decreases allowed@.len() - i,
    {
        assert(crate::text::views(allowed@)[i as int] == allowed@[i as int]@);
        if crate::text::eq(allowed[i].as_slice(), n) {
            return true;
        }
        i += 1;
    }
    false
}

// ---------------------------------------------------------------------------
// Pages
// ---------------------------------------------------------------------------

/// The bounds of page `page` (counted from 1; 0 is taken as 1) of `limit` items among
/// `total`: its start and end positions.
pub open spec fn page_bounds(total: int, page: u32, limit: u32) -> (int, int) {
    let idx: int = if page > 0 {
        page - 1
    } else {
        0
    };
    let start = idx * limit;
    let end = if start + limit < total {
        start + limit
    } else {
        total
    };
    (start, end)
}

/// One page of the packages: those from the page's start to its end (none when the
/// start is past the end), the total, the page asked for, and whether more follow.
pub fn paginate(packages: &Vec<Package>, page: u32, limit: u32) -> (r: PaginatedResponse)
    requires
        packages@.len() <= u32::MAX,
    ensures
        ({
            let (start, end) = page_bounds(packages@.len() as int, page, limit);
            &&& r.total as int == packages@.len()
            &&& r.page == page
            &&& r.has_more == (end < packages@.len())
            &&& (start < packages@.len() ==> r.packages@.len() == end - start && forall|k: int|
                0 <= k < r.packages@.len() ==> same_package(
                    #[trigger] r.packages@[k],
                    packages@[start + k],
                ))
            &&& (start >= packages@.len() ==> r.packages@.len() == 0)
        }),
{
    let total: u64 = packages.len() as u64;
    let idx: u64 = if page > 0 {
        (page - 1) as u64
    } else {
        0
    };
    proof {
        assert(idx * (limit as u64) <= (u32::MAX as u64) * (u32::MAX as u64)) by (nonlinear_arith)
            requires
                idx <= u32::MAX,
                limit <= u32::MAX,
        ;
    }
    let start: u64 = idx * (limit as u64);
    let end: u64 = if start + (limit as u64) < total {
        start + (limit as u64)
    } else {
        total
    };
    let has_more = end < total;
    let mut items: Vec<Package> = Vec::new();
    assert(packages@.len() == packages.len());
    if start < total {
        let mut k: u64 = start;
        while k < end
            invariant
                start <= k <= end <= total,
                total == packages@.len(),
                packages@.len() <= usize::MAX,
                items@.len() == k - start,
                forall|j: int| 0 <= j < items@.len() ==> same_package(#[trigger] items@[j], packages@[start + j]),
            decreases end - k,
        {
            let ku = k as usize;
            assert(ku as int == k as int);
            let c = packages[ku].copy();
            items.push(c);
            assert(items@[(k - start) as int] == c);
            k += 1;
        }
    }
    PaginatedResponse { packages: items, total: packages.len() as u32, page, has_more }
}

} // verus!
