//! Choosing, among the sync databases that carry a package, the one the store shows it
//! from: the database it was installed from when that one still carries it, else the best
//! scored database for this distribution.
use vstd::prelude::*;
use crate::distro_context::{id_str_of, DistroContext};
use crate::text::{chars_of, contains, contains_str, eq_str, is_prefix, lowercase, lower_chars};

verus! {

/// How much the store prefers showing a package from the database `repo` on the
/// distribution `distro`: the distribution's own repositories first, then the official
/// Arch ones, then any other, and Chaotic-AUR last.
pub open spec fn repo_score(distro: Seq<char>, repo: Seq<char>) -> int {
    let id = lowercase(repo);
    if distro == "cachyos"@ && is_prefix("cachyos"@, id) {
        300
    } else if distro == "manjaro"@ && is_prefix("manjaro"@, id) {
        300
    } else if distro == "garuda"@ && is_prefix("garuda"@, id) {
        300
    } else if distro == "endeavouros"@ && is_prefix("endeavour"@, id) {
        300
    } else if id == "core"@ || id == "extra"@ || id == "community"@ || id == "multilib"@ {
        220
    } else if contains(id, "chaotic"@) {
        150
    } else {
        200
    }
}

/// The score of the database `repo_name` on the distribution `distro`.
pub fn repo_score_of(distro: &DistroContext, repo_name: &str) -> (r: i32)
    ensures
        r == repo_score(id_str_of(distro.id@), repo_name@),
{
    let d = chars_of(distro.id_str());
    let id = lower_chars(repo_name);
    let ids = id.as_slice();
    let ds = d.as_slice();
    if eq_str(ds, "cachyos") && crate::text::starts_with(ids, "cachyos") {
        300
    } else if eq_str(ds, "manjaro") && crate::text::starts_with(ids, "manjaro") {
        300
    } else if eq_str(ds, "garuda") && crate::text::starts_with(ids, "garuda") {
        300
    } else if eq_str(ds, "endeavouros") && crate::text::starts_with(ids, "endeavour") {
        300
    } else if eq_str(ids, "core") || eq_str(ids, "extra") || eq_str(ids, "community") || eq_str(
        ids,
        "multilib",
    ) {
        220
    } else if contains_str(ids, "chaotic") {
        150
    } else {
        200
    }
}

/// `i` is the last of the best scored candidates among `names`.
pub open spec fn is_last_best(names: Seq<Seq<char>>, distro: Seq<char>, i: int) -> bool {
    &&& 0 <= i < names.len()
    &&& forall|j: int| 0 <= j < names.len() ==> repo_score(distro, #[trigger] names[j]) <= repo_score(distro, names[i])
    &&& forall|j: int| i < j < names.len() ==> repo_score(distro, #[trigger] names[j]) < repo_score(distro, names[i])
}

/// `i` is the first candidate whose database is `db`.
pub open spec fn is_first_named(names: Seq<Seq<char>>, db: Seq<char>, i: int) -> bool {
    &&& 0 <= i < names.len()
    &&& names[i] == db
    &&& forall|j: int| 0 <= j < i ==> #[trigger] names[j] != db
}

/// The candidate that the store shows for a package carried by the databases `names`: for
/// an installed package whose recorded database is among them, that database (its first
/// listing); otherwise the last of the best scored.
pub open spec fn is_chosen(
    names: Seq<Seq<char>>,
    installed_db: Option<Seq<char>>,
    distro: Seq<char>,
    i: int,
) -> bool {
    match installed_db {
        Some(db) => if names.contains(db) {
            is_first_named(names, db, i)
        } else {
            is_last_best(names, distro, i)
        },
        None => is_last_best(names, distro, i),
    }
}

/// The text of an optional string slice.
pub open spec fn recorded_text(o: Option<&str>) -> Option<Seq<char>> {
    match o {
        Some(s) => Some(s@),
        None => None,
    }
}

/// The index of the database to show a package from, among the databases `db_names` that
/// carry it. `installed_db` is the database recorded for the installed package (`None` when
/// it is not installed or nothing is recorded). `None` only when no database carries it.
pub fn choose_repo_candidate(
    db_names: &Vec<String>,
    installed_db: Option<&str>,
    distro: &DistroContext,
) -> (r: Option<usize>)
    ensures
        match r {
            Some(i) => is_chosen(
                crate::text::string_views(db_names@),
                recorded_text(installed_db),
                id_str_of(distro.id@),
                i as int,
            ),
            None => db_names@.len() == 0,
        },
{
    let ghost names = crate::text::string_views(db_names@);
    let ghost dist = id_str_of(distro.id@);
    if db_names.len() == 0 {
        return None;
    }
    match installed_db {
        Some(db) => {
            let dv = chars_of(db);
            let mut k: usize = 0;
            while k < db_names.len()
                invariant
                    0 <= k <= db_names@.len(),
                    names == crate::text::string_views(db_names@),
                    dv@ == db@,
                    installed_db == Some(db),
                    forall|j: int| 0 <= j < k ==> #[trigger] names[j] != db@,
                decreases db_names@.len() - k,
            {
                if crate::text::eq(chars_of(db_names[k].as_str()).as_slice(), dv.as_slice()) {
                    proof {
                        assert(names[k as int] == db@);
                        assert(names.contains(db@));
                        assert(is_first_named(names, db@, k as int));
                    }
                    return Some(k);
                }
                k += 1;
            }
            proof {
                if names.contains(db@) {
                    let w = choose|j: int| 0 <= j < names.len() && names[j] == db@;
                    assert(names[w] != db@);
                }
            }
        },
        None => {},
    }
    let mut best: usize = 0;
    let mut best_score: i32 = repo_score_of(distro, db_names[0].as_str());
    let mut i: usize = 1;
    while i < db_names.len()
        invariant
            1 <= i <= db_names@.len(),
            names == crate::text::string_views(db_names@),
            dist == id_str_of(distro.id@),
            0 <= best < i,
            best_score == repo_score(dist, names[best as int]),
            forall|j: int| 0 <= j < i ==> repo_score(dist, #[trigger] names[j]) <= best_score,
            forall|j: int| best < j < i ==> repo_score(dist, #[trigger] names[j]) < best_score,
        decreases db_names@.len() - i,
    {
        let s = repo_score_of(distro, db_names[i].as_str());
        assert(names[i as int] == db_names@[i as int]@);
        if s >= best_score {
            best = i;
            best_score = s;
        }
        i += 1;
    }
    Some(best)
}

} // verus!
