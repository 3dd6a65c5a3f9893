//! The trending list: the sources it draws from, the packages added to it after the merge
//! (the CachyOS spotlight and the Chaotic-AUR trending packages, each only when no listed
//! package has its name), and the featured names it falls back on when it is empty.
use vstd::prelude::*;
use crate::categories::on_unless_off;
use crate::discovery::{all_featured_upto, get_all_featured_names};
use crate::models::Package;
use crate::search_core::SearchOptions;
use crate::text::{chars_of, eq_str, string_views};

verus! {

/// The sources trending draws from, Flatpak, AUR and Chaotic-AUR: each when the backend has
/// it on and the request does not turn it off.
pub open spec fn trending_sources(options: Option<SearchOptions>, flatpak_on: bool, aur_on: bool, chaotic_on: bool) -> (bool, bool, bool) {
    match options {
        Some(o) => (
            flatpak_on && on_unless_off(o.flatpak_enabled),
            aur_on && on_unless_off(o.aur_enabled),
            chaotic_on && on_unless_off(o.chaotic_enabled),
        ),
        None => (flatpak_on, aur_on, chaotic_on),
    }
}

fn switch_on_unless_off(o: Option<bool>) -> (r: bool)
    ensures
        r == on_unless_off(o),
{
    match o {
        Some(b) => b,
        None => true,
    }
}

/// The sources a trending request draws from (Flatpak, AUR, Chaotic-AUR), given which
/// of them the backend has on.
pub fn trending_inclusion(options: &Option<SearchOptions>, flatpak_on: bool, aur_on: bool, chaotic_on: bool) -> (r: (bool, bool, bool))
    ensures
        r == trending_sources(*options, flatpak_on, aur_on, chaotic_on),
{
    match options {
        Some(o) => (
            flatpak_on && switch_on_unless_off(o.flatpak_enabled),
            aur_on && switch_on_unless_off(o.aur_enabled),
            chaotic_on && switch_on_unless_off(o.chaotic_enabled),
        ),
        None => (flatpak_on, aur_on, chaotic_on),
    }
}

/// The CachyOS packages put in the spotlight when the CachyOS repositories are enabled.
pub open spec fn spotlight_names() -> Seq<Seq<char>> {
    seq!["linux-cachyos"@, "cachyos-settings"@, "cachyos-browser"@, "cachyos-fish-config"@]
}

/// The names of the CachyOS spotlight, in the order they are added.
pub fn cachyos_spotlight_names() -> (r: Vec<String>)
    ensures
        string_views(r@) == spotlight_names(),
{
    let mut r: Vec<String> = Vec::new();
    r.push(String::from_str("linux-cachyos"));
    r.push(String::from_str("cachyos-settings"));
    r.push(String::from_str("cachyos-browser"));
    r.push(String::from_str("cachyos-fish-config"));
    assert(string_views(r@) =~= spotlight_names());
    r
}

/// Some package of `ps` has the name `name`.
pub open spec fn lists_name(ps: Seq<Package>, name: Seq<char>) -> bool {
    exists|j: int| 0 <= j < ps.len() && #[trigger] ps[j].name@ == name
}

/// The list `ps` after the first `n` additions: addition `i` is the package `built[i]` made
/// for the name `keys[i]`, added at the end when one was made and no package listed by
/// then has that name.
pub open spec fn add_unlisted_upto(ps: Seq<Package>, keys: Seq<Seq<char>>, built: Seq<Option<Package>>, n: int) -> Seq<Package>
    decreases n,
{
    if n <= 0 {
        ps
    } else {
        let prev = add_unlisted_upto(ps, keys, built, n - 1);
        match built[n - 1] {
            Some(p) => if lists_name(prev, keys[n - 1]) {
                prev
            } else {
                prev.push(p)
            },
            None => prev,
        }
    }
}

fn lists_name_exec(ps: &Vec<Package>, name: &str) -> (r: bool)
    ensures
        r == lists_name(ps@, name@),
{
    let mut j: usize = 0;
    while j < ps.len()
        invariant
            0 <= j <= ps@.len(),
            forall|k: int| 0 <= k < j ==> #[trigger] ps@[k].name@ != name@,
        decreases ps@.len() - j,
    {
        let n = chars_of(ps[j].name.as_str());
        if eq_str(n.as_slice(), name) {
            return true;
        }
        j += 1;
    }
    false
}

/// Adds to the trending list, in order, each package made for a name (the CachyOS
/// spotlight, or the Chaotic-AUR trending names), unless a package of that name is already
/// listed; `built[i]` is the package made for `keys[i]`, `None` where none could be made.
pub fn add_unlisted(packages: &mut Vec<Package>, keys: &Vec<String>, built: Vec<Option<Package>>)
    requires
        keys@.len() == built@.len(),
    ensures
        final(packages)@ == add_unlisted_upto(old(packages)@, string_views(keys@), built@, keys@.len() as int),
{
    let ghost ps0 = packages@;
    let ghost all = built@;
    let ghost ks = string_views(keys@);
    let mut rest = built;
    let mut i: usize = 0;
    while i < keys.len()
        invariant
            0 <= i <= keys@.len(),
            keys@.len() == all.len(),
            ks == string_views(keys@),
            rest@ == all.skip(i as int),
            packages@ == add_unlisted_upto(ps0, ks, all, i as int),
        decreases keys@.len() - i,
    {
        let b = rest.remove(0);
        proof {
            assert(b == all[i as int]);
            assert(rest@ =~= all.skip(i + 1));
            assert(ks[i as int] == keys@[i as int]@);
        }
        match b {
            Some(p) => {
                if !lists_name_exec(packages, keys[i].as_str()) {
                    packages.push(p);
                }
            },
            None => {},
        }
        i += 1;
    }
}

/// The names trending falls back on when it has nothing else: the first 20 featured names.
pub fn trending_fallback_names(cached: &Vec<Option<Vec<String>>>) -> (r: Vec<String>)
    ensures
        string_views(r@) == (if all_featured_upto(cached@, 8).len() <= 20 {
            all_featured_upto(cached@, 8)
        } else {
            all_featured_upto(cached@, 8).take(20)
        }),
{
    let mut names = get_all_featured_names(cached);
    names.truncate(20);
    proof {
        assert(string_views(names@) =~= (if all_featured_upto(cached@, 8).len() <= 20 {
            all_featured_upto(cached@, 8)
        } else {
            all_featured_upto(cached@, 8).take(20)
        }));
    }
    names
}

/// Adding keeps the list as it was in front, adds nothing but packages that were made,
/// and adds none for a name already listed.
pub proof fn law_add_unlisted_extends(ps: Seq<Package>, keys: Seq<Seq<char>>, built: Seq<Option<Package>>, n: int)
    requires
        0 <= n <= keys.len(),
        keys.len() == built.len(),
    ensures
        add_unlisted_upto(ps, keys, built, n).len() >= ps.len(),
        add_unlisted_upto(ps, keys, built, n).subrange(0, ps.len() as int) == ps,
        forall|k: int|
            ps.len() <= k < add_unlisted_upto(ps, keys, built, n).len() ==> exists|i: int|
                0 <= i < n && built[i] == Some(#[trigger] add_unlisted_upto(ps, keys, built, n)[k]),
        forall|i: int| 0 <= i < n && lists_name(ps, keys[i]) ==> #[trigger] add_unlisted_upto(ps, keys, built, i + 1)
            == add_unlisted_upto(ps, keys, built, i),
    decreases n,
{
    if n > 0 {
        law_add_unlisted_extends(ps, keys, built, n - 1);
        let prev = add_unlisted_upto(ps, keys, built, n - 1);
        let cur = add_unlisted_upto(ps, keys, built, n);
        assert(cur.subrange(0, ps.len() as int) =~= ps) by {
            assert(prev.subrange(0, ps.len() as int) == ps);
        }
        assert forall|k: int| ps.len() <= k < cur.len() implies exists|i: int|
            0 <= i < n && built[i] == Some(#[trigger] cur[k]) by {
            if k < prev.len() {
                assert(cur[k] == prev[k]);
                let i = choose|i: int| 0 <= i < n - 1 && built[i] == Some(#[trigger] prev[k]);
                assert(built[i] == Some(cur[k]));
            } else {
                assert(built[n - 1] == Some(cur[k]));
            }
        }
        assert forall|i: int| 0 <= i < n && lists_name(ps, keys[i]) implies #[trigger] add_unlisted_upto(ps, keys, built, i + 1)
            == add_unlisted_upto(ps, keys, built, i) by {
            let pi = add_unlisted_upto(ps, keys, built, i);
            law_add_unlisted_extends(ps, keys, built, i);
            let j = choose|j: int| 0 <= j < ps.len() && #[trigger] ps[j].name@ == keys[i];
            assert(pi[j] == pi.subrange(0, ps.len() as int)[j]);
            assert(pi[j].name@ == keys[i]);
            assert(lists_name(pi, keys[i]));
        }
    }
}

} // verus!
