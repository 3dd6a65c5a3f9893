//! What the store reads back from system tools: pacman's local database entries and its
//! search listing, Flatpak's update and version columns, needrestart's service list,
//! checkupdates' line for the store itself, and the desktop entries that launch a package.
use vstd::prelude::*;
use crate::text::{
    chars_of, contains, eq_str, is_prefix, lines, parse_u64, replace, split_lines, string_of,
    trim, trim_chars, views, words,
};
use crate::package::opt_text;
use crate::system::find_at;
use crate::models::{Package, PackageSource};
use crate::update::UpdateItem;
use crate::flathub::tab_fields;
use crate::install::strip_all_prefix;
use crate::flathub::trim_end_pattern;
use crate::text::is_suffix;

verus! {

// ---------------------------------------------------------------------------
// pacman's local database
// ---------------------------------------------------------------------------

/// The first of the lines `ls` that is not blank, trimmed.
pub open spec fn first_nonblank(ls: Seq<Seq<char>>) -> Option<Seq<char>>
    decreases ls.len(),
{
    if ls.len() == 0 {
        None
    } else if trim(ls[0]).len() > 0 {
        Some(trim(ls[0]))
    } else {
        first_nonblank(ls.drop_first())
    }
}

/// The repository that a package's `desc` entry records under `%INSTALLED_DB%`: the first
/// non-blank line after the first line that reads `%INSTALLED_DB%` once trimmed.
pub open spec fn installed_db_in(ls: Seq<Seq<char>>) -> Option<Seq<char>>
    decreases ls.len(),
{
    if ls.len() == 0 {
        None
    } else if trim(ls[0]) == "%INSTALLED_DB%"@ {
        first_nonblank(ls.drop_first())
    } else {
        installed_db_in(ls.drop_first())
    }
}

/// The repository a package was installed from, read from the text of its entry in
/// pacman's local database.
pub fn installed_db_from_desc(contents: &str) -> (r: Option<String>)
    ensures
        opt_text(r) == installed_db_in(lines(contents@)),
{
    let cv = chars_of(contents);
    let ls = split_lines(cv.as_slice());
    let ghost all = views(ls@);
    let mut i: usize = 0;
    assert(all.skip(0) == all);
    while i < ls.len()
        invariant
            0 <= i <= ls@.len(),
            all == views(ls@),
            all == lines(contents@),
            installed_db_in(all.skip(i as int)) == installed_db_in(all),
        decreases ls@.len() - i,
    {
        let t = trim_chars(ls[i].as_slice());
        assert(all.skip(i as int)[0] == ls@[i as int]@);
        assert(all.skip(i as int).drop_first() == all.skip(i + 1));
        if eq_str(t.as_slice(), "%INSTALLED_DB%") {
            let mut j: usize = i + 1;
            while j < ls.len()
                invariant
                    i < j <= ls@.len(),
                    all == views(ls@),
                    all == lines(contents@),
                    first_nonblank(all.skip(j as int)) == installed_db_in(all),
                decreases ls@.len() - j,
            {
                let u = trim_chars(ls[j].as_slice());
                assert(all.skip(j as int)[0] == ls@[j as int]@);
                assert(all.skip(j as int).drop_first() == all.skip(j + 1));
                if u.len() > 0 {
                    assert(first_nonblank(all.skip(j as int)) == Some(u@));
                    let found = string_of(u.as_slice());
                    assert(opt_text(Some(found)) == Some(u@));
                    return Some(found);
                }
                j += 1;
            }
            assert(all.skip(j as int).len() == 0);
            return None;
        }
        i += 1;
    }
    assert(all.skip(i as int).len() == 0);
    None
}

// ---------------------------------------------------------------------------
// pacman's search listing of installed packages
// ---------------------------------------------------------------------------

/// A package as `pacman -Qs` lists it: name, version and description.
pub struct ListedPackage {
    pub name: Seq<char>,
    pub version: Seq<char>,
    pub description: Seq<char>,
}

/// One line of the listing read with the packages finished so far and the one being read:
/// a `local/` line finishes the current package and starts the one it names (when it has a
/// name and a version); an indented line sets the current package's description.
pub open spec fn listing_step(
    done: Seq<ListedPackage>,
    cur: Option<ListedPackage>,
    line: Seq<char>,
) -> (Seq<ListedPackage>, Option<ListedPackage>) {
    if is_prefix("local/"@, line) {
        let kept = match cur {
            Some(c) => done.push(c),
            None => done,
        };
        let ws = words(line);
        if ws.len() >= 2 {
            (
                kept,
                Some(
                    ListedPackage {
                        name: strip_all_prefix(ws[0], "local/"@),
                        version: ws[1],
                        description: Seq::empty(),
                    },
                ),
            )
        } else {
            (kept, None)
        }
    } else if is_prefix("    "@, line) {
        match cur {
            Some(c) => (
                done,
                Some(ListedPackage { name: c.name, version: c.version, description: trim(line) }),
            ),
            None => (done, None),
        }
    } else {
        (done, cur)
    }
}

/// The state after reading the lines `ls`.
pub open spec fn listing_scan(ls: Seq<Seq<char>>) -> (Seq<ListedPackage>, Option<ListedPackage>)
    decreases ls.len(),
{
    if ls.len() == 0 {
        (Seq::empty(), None)
    } else {
        let prev = listing_scan(ls.drop_last());
        listing_step(prev.0, prev.1, ls.last())
    }
}

/// The packages that the listing `ls` shows, in order, the last one included.
pub open spec fn local_listing(ls: Seq<Seq<char>>) -> Seq<ListedPackage> {
    let st = listing_scan(ls);
    match st.1 {
        Some(c) => st.0.push(c),
        None => st.0,
    }
}

/// What the listing says of a package record.
pub open spec fn listed_view(p: Package) -> ListedPackage {
    ListedPackage { name: p.name@, version: p.version@, description: p.description@ }
}

/// A package record built from the listing: installed, from the local source at its own
/// version, and with nothing else known.
pub open spec fn is_local_record(p: Package) -> bool {
    &&& p.installed
    &&& p.source.source_type@ == "local"@
    &&& p.source.id@ == "local"@
    &&& p.source.version@ == p.version@
    &&& p.source.label@ == "Installed (Local)"@
    &&& p.source.package_name is None
    &&& p.display_name is None
    &&& p.app_id is None
    &&& p.icon is None
    &&& p.keywords is None
    &&& p.canonical_id@ == Seq::<char>::empty()
    &&& p.available_sources is None
    &&& p.is_featured is None
    &&& p.maintainer is None
    &&& p.url is None
}

fn local_record(name: &[char], version: &[char]) -> (r: Package)
    ensures
        listed_view(r) == (ListedPackage { name: name@, version: version@, description: Seq::empty() }),
        is_local_record(r),
{
    let v = string_of(version);
    let mut p = Package::basic(
        string_of(name),
        String::new(),
        string_of(version),
        PackageSource::new("local", "local", v.as_str(), "Installed (Local)"),
    );
    p.installed = true;
    p
}

/// The installed packages listed in the output of `pacman -Qs`.
pub fn parse_local_search(stdout: &str) -> (r: Vec<Package>)
    ensures
        r@.map_values(|p: Package| listed_view(p)) == local_listing(lines(stdout@)),
        forall|k: int| 0 <= k < r@.len() ==> is_local_record(#[trigger] r@[k]),
{
    let cv = chars_of(stdout);
    let ls = split_lines(cv.as_slice());
    let ghost all = views(ls@);
    let mut out: Vec<Package> = Vec::new();
    let mut cur: Option<Package> = None;
    let mut i: usize = 0;
    proof {
        reveal_strlit("local/");
    }
    while i < ls.len()
        invariant
            0 <= i <= ls@.len(),
            all == views(ls@),
            all == lines(stdout@),
            "local/"@.len() > 0,
            out@.map_values(|p: Package| listed_view(p)) == listing_scan(all.take(i as int)).0,
            match cur {
                Some(c) => listing_scan(all.take(i as int)).1 == Some(listed_view(c)) && is_local_record(c),
                None => listing_scan(all.take(i as int)).1 is None,
            },
            forall|k: int| 0 <= k < out@.len() ==> is_local_record(#[trigger] out@[k]),
        decreases ls@.len() - i,
    {
        assert(all.take(i + 1).drop_last() == all.take(i as int));
        assert(all.take(i + 1).last() == ls@[i as int]@);
        let line = ls[i].as_slice();
        let ghost before = out@;
        if crate::text::starts_with(line, "local/") {
            let prev = cur;
            match prev {
                Some(p) => {
                    out.push(p);
                    assert(out@.map_values(|p: Package| listed_view(p)) == before.map_values(
                        |p: Package| listed_view(p),
                    ).push(listed_view(p)));
                },
                None => {},
            }
            let ws = crate::text::split_words(line);
            if ws.len() >= 2 {
                let name = crate::install::strip_all_prefix_exec(ws[0].as_slice(), "local/");
                cur = Some(local_record(name.as_slice(), ws[1].as_slice()));
            } else {
                cur = None;
            }
        } else if crate::text::starts_with(line, "    ") {
            let prev = cur;
            match prev {
                Some(p) => {
                    let mut q = p;
                    let d = trim_chars(line);
                    q.description = string_of(d.as_slice());
                    cur = Some(q);
                },
                None => {
                    cur = None;
                },
            }
        }
        i += 1;
    }
    assert(all.take(ls@.len() as int) == all);
    match cur {
        Some(p) => {
            let ghost before = out@;
            out.push(p);
            assert(out@.map_values(|p: Package| listed_view(p)) == before.map_values(
                |p: Package| listed_view(p),
            ).push(listed_view(p)));
        },
        None => {},
    }
    out
}

// ---------------------------------------------------------------------------
// Flatpak updates and installed versions
// ---------------------------------------------------------------------------

/// An update row of `flatpak remote-ls --updates --columns=application,version,installed-size`:
/// application id, new version and size, read from a line with at least three tab-separated
/// columns, each trimmed; the size only when it is a decimal `u64`.
pub open spec fn update_rows(ls: Seq<Seq<char>>) -> Seq<(Seq<char>, Seq<char>, Option<u64>)>
    decreases ls.len(),
{
    if ls.len() == 0 {
        Seq::empty()
    } else {
        let prev = update_rows(ls.drop_last());
        let f = tab_fields(ls.last());
        if f.len() >= 3 {
            prev.push((trim(f[0]), trim(f[1]), parse_u64(trim(f[2]))))
        } else {
            prev
        }
    }
}

/// What an update record says of its row.
pub open spec fn update_row(u: UpdateItem) -> (Seq<char>, Seq<char>, Option<u64>) {
    (u.name@, u.new_version@, u.size)
}

/// An update record built from a Flatpak row: the installed version not yet known, the
/// source Flathub at the new version, no icon or display name.
pub open spec fn is_fresh_flatpak_update(u: UpdateItem) -> bool {
    &&& u.current_version@ == "Unknown"@
    &&& u.source.source_type@ == "flatpak"@
    &&& u.source.id@ == "flathub"@
    &&& u.source.version@ == u.new_version@
    &&& u.source.label@ == "Flatpak (Sandboxed)"@
    &&& u.source.package_name is None
    &&& u.icon is None
    &&& u.display_name is None
}

/// The Flatpak updates listed in the output of `flatpak remote-ls --updates`, each named by
/// its application id.
pub fn parse_flatpak_updates(stdout: &str) -> (r: Vec<UpdateItem>)
    ensures
        r@.map_values(|u: UpdateItem| update_row(u)) == update_rows(lines(stdout@)),
        forall|k: int| 0 <= k < r@.len() ==> is_fresh_flatpak_update(#[trigger] r@[k]),
{
    let cv = chars_of(stdout);
    let ls = split_lines(cv.as_slice());
    let ghost all = views(ls@);
    let mut out: Vec<UpdateItem> = Vec::new();
    let mut i: usize = 0;
    while i < ls.len()
        invariant
            0 <= i <= ls@.len(),
            all == views(ls@),
            all == lines(stdout@),
            out@.map_values(|u: UpdateItem| update_row(u)) == update_rows(all.take(i as int)),
            forall|k: int| 0 <= k < out@.len() ==> is_fresh_flatpak_update(#[trigger] out@[k]),
        decreases ls@.len() - i,
    {
        assert(all.take(i + 1).drop_last() == all.take(i as int));
        assert(all.take(i + 1).last() == ls@[i as int]@);
        let f = crate::flathub::split_tabs(ls[i].as_slice());
        if f.len() >= 3 {
            let id = trim_chars(f[0].as_slice());
            let ver = trim_chars(f[1].as_slice());
            let size_text = trim_chars(f[2].as_slice());
            let new_version = string_of(ver.as_slice());
            let item = UpdateItem {
                name: string_of(id.as_slice()),
                current_version: String::from_str("Unknown"),
                source: PackageSource::new(
                    "flatpak",
                    "flathub",
                    new_version.as_str(),
                    "Flatpak (Sandboxed)",
                ),
                new_version,
                size: crate::text::parse_u64_chars(size_text.as_slice()),
                icon: None,
                display_name: None,
            };
            let ghost before = out@;
            out.push(item);
            assert(out@.map_values(|u: UpdateItem| update_row(u)) == before.map_values(
                |u: UpdateItem| update_row(u),
            ).push(update_row(item)));
        }
        i += 1;
    }
    assert(all.take(ls@.len() as int) == all);
    out
}

/// The `(application id, version)` rows of `flatpak list --app --columns=application,version`:
/// lines with at least two tab-separated columns, each trimmed.
pub open spec fn version_rows(ls: Seq<Seq<char>>) -> Seq<(Seq<char>, Seq<char>)>
    decreases ls.len(),
{
    if ls.len() == 0 {
        Seq::empty()
    } else {
        let prev = version_rows(ls.drop_last());
        let f = tab_fields(ls.last());
        if f.len() >= 2 {
            prev.push((trim(f[0]), trim(f[1])))
        } else {
            prev
        }
    }
}

/// The texts of a list of string pairs.
pub open spec fn pair_texts(v: Seq<(String, String)>) -> Seq<(Seq<char>, Seq<char>)> {
    v.map_values(|p: (String, String)| (p.0@, p.1@))
}

/// The installed Flatpak applications and their versions, from the output of
/// `flatpak list --app --columns=application,version`.
pub fn parse_flatpak_versions(stdout: &str) -> (r: Vec<(String, String)>)
    ensures
        pair_texts(r@) == version_rows(lines(stdout@)),
{
    let cv = chars_of(stdout);
    let ls = split_lines(cv.as_slice());
    let ghost all = views(ls@);
    let mut out: Vec<(String, String)> = Vec::new();
    let mut i: usize = 0;
    while i < ls.len()
        invariant
            0 <= i <= ls@.len(),
            all == views(ls@),
            all == lines(stdout@),
            pair_texts(out@) == version_rows(all.take(i as int)),
        decreases ls@.len() - i,
    {
        assert(all.take(i + 1).drop_last() == all.take(i as int));
        assert(all.take(i + 1).last() == ls@[i as int]@);
        let f = crate::flathub::split_tabs(ls[i].as_slice());
        if f.len() >= 2 {
            let a = trim_chars(f[0].as_slice());
            let b = trim_chars(f[1].as_slice());
            let pair = (string_of(a.as_slice()), string_of(b.as_slice()));
            let ghost before = out@;
            out.push(pair);
            assert(pair_texts(out@) == pair_texts(before).push((a@, b@)));
        }
        i += 1;
    }
    assert(all.take(ls@.len() as int) == all);
    out
}

/// The value of the last pair in `pairs` whose key is `key` (a later row replaces an
/// earlier one for the same key).
pub open spec fn last_value_for(pairs: Seq<(Seq<char>, Seq<char>)>, key: Seq<char>) -> Option<Seq<char>>
    decreases pairs.len(),
{
    if pairs.len() == 0 {
        None
    } else if pairs.last().0 == key {
        Some(pairs.last().1)
    } else {
        last_value_for(pairs.drop_last(), key)
    }
}

fn lookup_version(installed: &Vec<(String, String)>, key: &[char]) -> (r: Option<String>)
    ensures
        opt_text(r) == last_value_for(pair_texts(installed@), key@),
{
    let mut j: usize = installed.len();
    let ghost all = pair_texts(installed@);
    assert(all.take(j as int) == all);
    while j > 0
        invariant
            0 <= j <= installed@.len(),
            all == pair_texts(installed@),
            last_value_for(all.take(j as int), key@) == last_value_for(all, key@),
        decreases j,
    {
        assert(all.take(j as int).last() == (installed@[j - 1].0@, installed@[j - 1].1@));
        assert(all.take(j as int).drop_last() == all.take(j - 1));
        if crate::text::eq(chars_of(installed[j - 1].0.as_str()).as_slice(), key) {
            let v = installed[j - 1].1.clone();
            return Some(v);
        }
        j -= 1;
    }
    None
}

/// Fills in the installed version of each update from the installed applications
/// `installed` (the last row for an application counts); an update whose application is
/// not listed keeps the version it had. Nothing else changes.
pub fn apply_installed_versions(updates: &mut Vec<UpdateItem>, installed: &Vec<(String, String)>)
    ensures
        final(updates)@.len() == old(updates)@.len(),
        forall|k: int|
            0 <= k < old(updates)@.len() ==> {
                let before = #[trigger] old(updates)@[k];
                let after = final(updates)@[k];
                &&& after.name == before.name
                &&& after.new_version == before.new_version
                &&& after.source == before.source
                &&& after.size == before.size
                &&& after.icon == before.icon
                &&& after.display_name == before.display_name
                &&& after.current_version@ == match last_value_for(pair_texts(installed@), before.name@) {
                    Some(v) => v,
                    None => before.current_version@,
                }
            },
{
    let ghost start = updates@;
    let mut i: usize = 0;
    while i < updates.len()
        invariant
            0 <= i <= updates@.len(),
            updates@.len() == start.len(),
            forall|k: int|
                i <= k < start.len() ==> #[trigger] updates@[k] == start[k],
            forall|k: int|
                0 <= k < i ==> {
                    let before = #[trigger] start[k];
                    let after = updates@[k];
                    &&& after.name == before.name
                    &&& after.new_version == before.new_version
                    &&& after.source == before.source
                    &&& after.size == before.size
                    &&& after.icon == before.icon
                    &&& after.display_name == before.display_name
                    &&& after.current_version@ == match last_value_for(pair_texts(installed@), before.name@) {
                        Some(v) => v,
                        None => before.current_version@,
                    }
                },
        decreases updates@.len() - i,
    {
        let key = chars_of(updates[i].name.as_str());
        match lookup_version(installed, key.as_slice()) {
            Some(v) => {
                updates[i].current_version = v;
            },
            None => {},
        }
        i += 1;
    }
}

// ---------------------------------------------------------------------------
// needrestart
// ---------------------------------------------------------------------------

/// The services that needrestart's batch output `ls` lists: each line that starts with
/// `NEEDRESTART-SVC:`, with every occurrence of that tag removed, trimmed.
pub open spec fn restart_services_in(ls: Seq<Seq<char>>) -> Seq<Seq<char>>
    decreases ls.len(),
{
    if ls.len() == 0 {
        Seq::empty()
    } else {
        let prev = restart_services_in(ls.drop_last());
        if is_prefix("NEEDRESTART-SVC:"@, ls.last()) {
            prev.push(trim(replace(ls.last(), "NEEDRESTART-SVC:"@, Seq::empty())))
        } else {
            prev
        }
    }
}

/// The services that need a restart, from the batch output of needrestart.
pub fn needrestart_services(stdout: &str) -> (r: Vec<String>)
    ensures
        crate::text::string_views(r@) == restart_services_in(lines(stdout@)),
{
    let cv = chars_of(stdout);
    let ls = split_lines(cv.as_slice());
    let ghost all = views(ls@);
    let mut out: Vec<String> = Vec::new();
    let mut i: usize = 0;
    proof {
        reveal_strlit("NEEDRESTART-SVC:");
        reveal_strlit("");
    }
    while i < ls.len()
        invariant
            0 <= i <= ls@.len(),
            all == views(ls@),
            all == lines(stdout@),
            "NEEDRESTART-SVC:"@.len() > 0,
            ""@ == Seq::<char>::empty(),
            crate::text::string_views(out@) == restart_services_in(all.take(i as int)),
        decreases ls@.len() - i,
    {
        assert(all.take(i + 1).drop_last() == all.take(i as int));
        assert(all.take(i + 1).last() == ls@[i as int]@);
        if crate::text::starts_with(ls[i].as_slice(), "NEEDRESTART-SVC:") {
            let stripped = crate::text::replace_all(ls[i].as_slice(), "NEEDRESTART-SVC:", "");
            let t = trim_chars(stripped.as_slice());
            let ghost before = crate::text::string_views(out@);
            out.push(string_of(t.as_slice()));
            assert(crate::text::string_views(out@) == before.push(t@));
            assert(restart_services_in(all.take(i + 1)) == before.push(t@));
        } else {
            assert(restart_services_in(all.take(i + 1)) == restart_services_in(all.take(i as int)));
        }
        i += 1;
    }
    assert(all.take(ls@.len() as int) == all);
    out
}

// ---------------------------------------------------------------------------
// checkupdates
// ---------------------------------------------------------------------------

/// The new version on a checkupdates line `name old -> new`: what follows the arrow,
/// trimmed, when the line holds exactly one arrow.
pub open spec fn upgrade_target(line: Seq<char>) -> Option<Seq<char>> {
    let arrow = " -> "@;
    match find_at(line, arrow, 0) {
        Some(i) => if find_at(line, arrow, i + arrow.len()) is None {
            Some(trim(line.skip(i + arrow.len())))
        } else {
            None
        },
        None => None,
    }
}

/// The new version of the store itself in checkupdates' output `ls`: taken from the first
/// line that starts with `monarch-store ` and holds exactly one arrow.
pub open spec fn self_update_in(ls: Seq<Seq<char>>) -> Option<Seq<char>>
    decreases ls.len(),
{
    if ls.len() == 0 {
        None
    } else if is_prefix("monarch-store "@, ls[0]) && upgrade_target(ls[0]) is Some {
        upgrade_target(ls[0])
    } else {
        self_update_in(ls.drop_first())
    }
}

/// The version the store can be updated to, from the output of checkupdates.
pub fn app_update_version(stdout: &str) -> (r: Option<String>)
    ensures
        opt_text(r) == self_update_in(lines(stdout@)),
{
    let cv = chars_of(stdout);
    let ls = split_lines(cv.as_slice());
    let ghost all = views(ls@);
    let arrow = chars_of(" -> ");
    let mut i: usize = 0;
    assert(all.skip(0) == all);
    while i < ls.len()
        invariant
            0 <= i <= ls@.len(),
            all == views(ls@),
            all == lines(stdout@),
            arrow@ == " -> "@,
            self_update_in(all.skip(i as int)) == self_update_in(all),
        decreases ls@.len() - i,
    {
        assert(all.skip(i as int)[0] == ls@[i as int]@);
        assert(all.skip(i as int).drop_first() == all.skip(i + 1));
        let line = ls[i].as_slice();
        if crate::text::starts_with(line, "monarch-store ") {
            match crate::system::find_at_exec(line, arrow.as_slice(), 0) {
                Some(k) => {
                    let n = line.len();
                    let after = k + arrow.len();
                    if crate::system::find_at_exec(line, arrow.as_slice(), after).is_none() {
                        let rest = crate::text::slice_copy(line, k + arrow.len(), line.len());
                        let t = trim_chars(rest.as_slice());
                        assert(rest@ == line@.skip(k + arrow@.len()));
                        return Some(string_of(t.as_slice()));
                    }
                },
                None => {},
            }
        }
        i += 1;
    }
    assert(all.skip(i as int).len() == 0);
    None
}

// ---------------------------------------------------------------------------
// Desktop entries
// ---------------------------------------------------------------------------

/// The desktop entry file `name` launches the package `pkg`: it is a `.desktop` file named
/// after the package, or one whose name contains the package name.
pub open spec fn launches(name: Seq<char>, pkg: Seq<char>) -> bool {
    is_suffix(".desktop"@, name) && (name == pkg + ".desktop"@ || contains(name, pkg))
}

/// The desktop entry (file name without its `.desktop` endings) of the first file among
/// `names` that launches `pkg`.
pub open spec fn desktop_entry_in(names: Seq<Seq<char>>, pkg: Seq<char>) -> Option<Seq<char>>
    decreases names.len(),
{
    if names.len() == 0 {
        None
    } else if launches(names[0], pkg) {
        Some(trim_end_pattern(names[0], ".desktop"@))
    } else {
        desktop_entry_in(names.drop_first(), pkg)
    }
}

/// The desktop entry that launches the package `pkg_name`, looked for among the file names
/// of the application directories in the order given.
pub fn resolve_desktop_entry(names: &Vec<String>, pkg_name: &str) -> (r: Option<String>)
    ensures
        opt_text(r) == desktop_entry_in(crate::text::string_views(names@), pkg_name@),
{
    let pkg = chars_of(pkg_name);
    let named = crate::text::concat_str(pkg.as_slice(), ".desktop");
    let ghost all = crate::text::string_views(names@);
    let mut i: usize = 0;
    proof {
        reveal_strlit(".desktop");
    }
    assert(all.skip(0) == all);
    while i < names.len()
        invariant
            0 <= i <= names@.len(),
            all == crate::text::string_views(names@),
            pkg@ == pkg_name@,
            named@ == pkg_name@ + ".desktop"@,
            ".desktop"@.len() > 0,
            desktop_entry_in(all.skip(i as int), pkg_name@) == desktop_entry_in(all, pkg_name@),
        decreases names@.len() - i,
    {
        assert(all.skip(i as int)[0] == names@[i as int]@);
        assert(all.skip(i as int).drop_first() == all.skip(i + 1));
        let n = chars_of(names[i].as_str());
        if crate::text::ends_with(n.as_slice(), ".desktop") && (crate::text::eq(
            n.as_slice(),
            named.as_slice(),
        ) || crate::text::contains_chars(n.as_slice(), pkg.as_slice())) {
            let e = crate::flathub::trim_end_pattern_chars(n.as_slice(), ".desktop");
            return Some(string_of(e.as_slice()));
        }
        i += 1;
    }
    assert(all.skip(i as int).len() == 0);
    None
}

} // verus!
