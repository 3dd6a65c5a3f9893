//! Package details: maintainer and developer names, security summaries, repository
//! families, the choice of the selected source among a package's variants and their
//! order, and the reading of update reports.
use vstd::prelude::*;
use crate::models::{Package, PackageSource, PackageVariant, same_source};
use crate::text::{
    chars_of, contains, contains_str, eq, eq_str, find_char, find_from, index_of, is_prefix,
    lower_chars, lowercase, occurs_at, slice_copy, string_of, trim, trim_chars, words,
};

verus! {

/// A package installed on the system, as listed in the store.
#[derive(Debug, Clone)]
pub struct InstalledPackage {
    pub name: String,
    pub version: String,
    pub description: String,
    pub install_date: Option<String>,
    pub install_date_unix: Option<i64>,
    pub size: Option<String>,
    pub size_bytes: Option<u64>,
    pub url: Option<String>,
    pub repository: Option<String>,
    pub source_label: Option<String>,
    pub resolved_source: Option<PackageSource>,
    pub display_name: Option<String>,
    pub launchable: bool,
    pub icon: Option<String>,
}

/// Whether (and from where) a package is installed.
#[derive(Debug, Clone)]
pub struct PackageInstallStatus {
    pub installed: bool,
    pub version: Option<String>,
    pub repo: Option<String>,
    pub source: Option<PackageSource>,
    pub actual_package_name: Option<String>,
}

/// An update waiting for a package.
#[derive(Debug, Clone)]
pub struct PendingUpdate {
    pub name: String,
    pub old_version: String,
    pub new_version: String,
    pub repo: String,
}

/// How far a package's source can be trusted and what it may touch.
#[derive(Debug, Clone)]
pub struct PackageSecuritySummary {
    pub trust_tier: String,
    pub system_access: String,
    pub maintainer_known: bool,
    pub verification_note: String,
    pub user_action_note: String,
}

fn copy_string(s: &String) -> (r: String)
    ensures
        r@ == s@,
{
    string_of(chars_of(s.as_str()).as_slice())
}

// ---------------------------------------------------------------------------
// Maintainers and developers
// ---------------------------------------------------------------------------

/// The packager named for a repository source without a maintainer of its own: CachyOS,
/// Chaotic-AUR, a derivative distribution, or Arch; none for other kinds of source.
pub open spec fn maintainer_fallback(s: PackageSource) -> Option<Seq<char>> {
    let id = lowercase(s.id@);
    if s.source_type@ == "repo"@ {
        if contains(id, "cachyos"@) {
            Some("CachyOS Packaging Team"@)
        } else if contains(id, "chaotic"@) {
            Some("Chaotic-AUR Team"@)
        } else if contains(id, "manjaro"@) || contains(id, "garuda"@) || contains(id, "endeavour"@) {
            Some("Distribution Packaging Team"@)
        } else {
            Some("Arch Linux Packager"@)
        }
    } else {
        None
    }
}

/// The text of an optional string.
pub open spec fn opt_text(o: Option<String>) -> Option<Seq<char>> {
    match o {
        Some(s) => Some(s@),
        None => None,
    }
}

/// The packager to show for a source that names no maintainer.
pub fn maintainer_fallback_for_source(source: &PackageSource) -> (r: Option<String>)
    ensures
        opt_text(r) == maintainer_fallback(*source),
{
    let id = lower_chars(source.id.as_str());
    let t = chars_of(source.source_type.as_str());
    if eq_str(t.as_slice(), "repo") {
        if contains_str(id.as_slice(), "cachyos") {
            Some(String::from_str("CachyOS Packaging Team"))
        } else if contains_str(id.as_slice(), "chaotic") {
            Some(String::from_str("Chaotic-AUR Team"))
        } else if contains_str(id.as_slice(), "manjaro") || contains_str(id.as_slice(), "garuda")
            || contains_str(id.as_slice(), "endeavour") {
            Some(String::from_str("Distribution Packaging Team"))
        } else {
            Some(String::from_str("Arch Linux Packager"))
        }
    } else {
        None
    }
}

/// The first index at which `p` occurs in `s`, when it occurs.
pub open spec fn first_occurrence(s: Seq<char>, p: Seq<char>) -> int {
    choose|i: int| occurs_at(s, p, i) && forall|j: int| 0 <= j < i ==> !occurs_at(s, p, j)
}

/// The part of `s` before the first `p` (all of `s` when `p` does not occur).
#[verifier::opaque]
pub open spec fn before_first(s: Seq<char>, p: Seq<char>) -> Seq<char> {
    if contains(s, p) {
        s.take(first_occurrence(s, p))
    } else {
        s
    }
}

/// The second piece of `s` split at `p` (`split(p).nth(1)`), if there is one.
#[verifier::opaque]
pub open spec fn second_piece(s: Seq<char>, p: Seq<char>) -> Option<Seq<char>> {
    if contains(s, p) {
        Some(before_first(s.skip(first_occurrence(s, p) + p.len()), p))
    } else {
        None
    }
}

/// `s` without any number of leading `p`s (`trim_start_matches`).
pub open spec fn strip_leading(s: Seq<char>, p: Seq<char>) -> Seq<char>
    recommends
        p.len() > 0,
    decreases s.len(),
{
    if p.len() > 0 && is_prefix(p, s) {
        strip_leading(s.skip(p.len() as int), p)
    } else {
        s
    }
}

/// The upper-case form of a character (`char::to_uppercase`), one or more characters.
pub uninterp spec fn uppercase_char(c: char) -> Seq<char>;

/// The first label of the host of a URL: the part after the scheme separator (if any) up
/// to the next one, before the first `/`, without leading `www.`s, before the first `.`,
/// trimmed.
pub open spec fn host_label(url: Seq<char>) -> Seq<char> {
    let after = after_scheme(url);
    let host0 = after.take(index_of(after, '/') as int);
    let host = strip_leading(host0, "www."@);
    trim(host.take(index_of(host, '.') as int))
}

/// The trimmed text of an optional string, when it is not empty.
pub open spec fn trimmed_nonempty(o: Option<String>) -> Option<Seq<char>> {
    match o {
        Some(s) => if trim(s@).len() > 0 {
            Some(trim(s@))
        } else {
            None
        },
        None => None,
    }
}

/// The developer to show for a package: its maintainer, else the first label of its
/// URL's host with the first character upper-cased.
pub open spec fn developer_name(p: Package) -> Option<Seq<char>> {
    match trimmed_nonempty(p.maintainer) {
        Some(m) => Some(m),
        None => match trimmed_nonempty(p.url) {
            None => None,
            Some(u) => {
                let first = host_label(u);
                if first.len() == 0 {
                    None
                } else {
                    Some(uppercase_char(first[0]) + first.skip(1))
                }
            },
        },
    }
}

/// Upper-cases one character with `char::to_uppercase`, collected into a `String`. The
/// result depends on the character alone.
#[verifier::external_body]
fn char_to_uppercase(c: char) -> (r: String)
    ensures
        r@ == uppercase_char(c),
{
    c.to_uppercase().collect()
}

fn trimmed_nonempty_of(o: &Option<String>) -> (r: Option<Vec<char>>)
    ensures
        match r {
            Some(v) => trimmed_nonempty(*o) == Some(v@),
            None => trimmed_nonempty(*o) is None,
        },
{
    match o {
        Some(s) => {
            let c = chars_of(s.as_str());
            let t = trim_chars(c.as_slice());
            if t.len() > 0 {
                Some(t)
            } else {
                None
            }
        },
        None => None,
    }
}

fn first_occurrence_exec(s: &[char], p: &[char]) -> (r: Option<usize>)
    ensures
        match r {
            Some(i) => contains(s@, p@) && i as int == first_occurrence(s@, p@) && i + p@.len()
                <= s@.len(),
            None => !contains(s@, p@),
        },
{
    match find_from(s, p, 0) {
        Some(i) => {
            proof {
                assert(occurs_at(s@, p@, i as int));
                let c = first_occurrence(s@, p@);
                assert(occurs_at(s@, p@, c) && forall|j: int| 0 <= j < c ==> !occurs_at(s@, p@, j));
                if c < i {
                    assert(!occurs_at(s@, p@, c));
                }
                if i < c {
                    assert(!occurs_at(s@, p@, i as int));
                }
            }
            Some(i)
        },
        None => {
            proof {
                assert forall|j: int| !occurs_at(s@, p@, j) by {
                    if j < 0 {
                    }
                }
            }
            None
        },
    }
}

fn before_first_exec(s: &[char], p: &[char]) -> (r: Vec<char>)
    ensures
        r@ == before_first(s@, p@),
{
    reveal(before_first);
    match first_occurrence_exec(s, p) {
        Some(i) => slice_copy(s, 0, i),
        None => slice_copy(s, 0, s.len()),
    }
}

fn strip_leading_exec(s: &[char], p: &str) -> (r: Vec<char>)
    requires
        p@.len() > 0,
    ensures
        r@ == strip_leading(s@, p@),
{
    let pv = chars_of(p);
    let mut i: usize = 0;
    assert(s@.skip(0) == s@);
    while pv.len() <= s.len() - i && crate::text::matches_at(s, pv.as_slice(), i)
        invariant
            0 <= i <= s@.len(),
            pv@ == p@,
            pv@.len() > 0,
            strip_leading(s@, p@) == strip_leading(s@.skip(i as int), p@),
        decreases s@.len() - i,
    {
        proof {
            let t = s@.skip(i as int);
            assert(t.subrange(0, pv@.len() as int) == s@.subrange(i as int, i + pv@.len()));
            assert(is_prefix(p@, t));
            assert(t.skip(pv@.len() as int) == s@.skip(i + pv@.len()));
        }
        i = i + pv.len();
    }
    proof {
        let t = s@.skip(i as int);
        if is_prefix(p@, t) {
            assert(t.subrange(0, pv@.len() as int) == s@.subrange(i as int, i + pv@.len()));
        }
    }
    slice_copy(s, i, s.len())
}

/// The part of a URL after its scheme separator, up to the next one.
pub open spec fn after_scheme(url: Seq<char>) -> Seq<char> {
    match second_piece(url, "://"@) {
        Some(p) => p,
        None => url,
    }
}

fn after_scheme_exec(url: &[char]) -> (r: Vec<char>)
    ensures
        r@ == after_scheme(url@),
{
    let sep = chars_of("://");
    proof {
        reveal_strlit("://");
    }
    assert(sep@.len() == 3);
    let sep_s = sep.as_slice();
    assert(sep_s@ == sep@);
    let found = first_occurrence_exec(url, sep_s);
    match found {
        Some(i) => {
            assert(url@.len() == url.len());
            assert(i + 3 <= url@.len());
            let rest = slice_copy(url, i + 3, url.len());
            let r = before_first_exec(rest.as_slice(), sep.as_slice());
            proof {
                assert(rest@ == url@.skip(i + 3));
                assert(second_piece(url@, "://"@) == Some(before_first(rest@, "://"@))) by {
                    reveal(second_piece);
                }
            }
            r
        },
        None => {
            let r = slice_copy(url, 0, url.len());
            assert(second_piece(url@, "://"@) is None) by {
                reveal(second_piece);
            }
            r
        },
    }
}

fn prefix_before_char(s: &[char], c: char) -> (r: Vec<char>)
    ensures
        r@ == s@.take(index_of(s@, c) as int),
{
    proof {
        crate::text::lemma_index_of_bound(s@, c);
    }
    let cut = match find_char(s, c) {
        Some(k) => {
            assert(s@.len() == s.len());
            assert(index_of(s@, c) < s@.len());
            assert(k as int == index_of(s@, c));
            k
        },
        None => s.len(),
    };
    slice_copy(s, 0, cut)
}

fn host_label_exec(url: &[char]) -> (r: Vec<char>)
    ensures
        r@ == host_label(url@),
{
    let after = after_scheme_exec(url);
    let host0 = prefix_before_char(after.as_slice(), '/');
    proof {
        reveal_strlit("www.");
    }
    let host = strip_leading_exec(host0.as_slice(), "www.");
    let first = prefix_before_char(host.as_slice(), '.');
    trim_chars(first.as_slice())
}

/// The developer to show in a package's details.
pub fn derive_developer_name_for_details(pkg: &Package) -> (r: Option<String>)
    ensures
        opt_text(r) == developer_name(*pkg),
{
    match trimmed_nonempty_of(&pkg.maintainer) {
        Some(m) => {
            return Some(string_of(m.as_slice()));
        },
        None => {},
    }
    let url = match trimmed_nonempty_of(&pkg.url) {
        Some(u) => u,
        None => {
            return None;
        },
    };
    let first = host_label_exec(url.as_slice());
    if first.len() == 0 {
        return None;
    }
    let head = char_to_uppercase(first[0]);
    let hv = chars_of(head.as_str());
    let tail = slice_copy(first.as_slice(), 1, first.len());
    let all = crate::text::concat(hv.as_slice(), tail.as_slice());
    Some(string_of(all.as_slice()))
}

/// The page to link for donations: the package's trimmed URL, when it has one.
pub fn derive_donation_url_for_details(pkg: &Package) -> (r: Option<String>)
    ensures
        opt_text(r) == trimmed_nonempty(pkg.url),
{
    match trimmed_nonempty_of(&pkg.url) {
        Some(u) => Some(string_of(u.as_slice())),
        None => None,
    }
}

// ---------------------------------------------------------------------------
// Security summary
// ---------------------------------------------------------------------------

/// Trust tier, system access and note for a source kind and lower-cased id.
pub open spec fn security_tier(kind: Seq<char>, id: Seq<char>) -> (Seq<char>, Seq<char>, Seq<char>) {
    if kind == "flatpak"@ {
        ("sandboxed"@, "scoped"@, "Runs with sandboxed permissions, which may vary by app."@)
    } else if kind == "aur"@ {
        (
            "community_build"@,
            "full"@,
            "Built from community-provided packaging scripts on your machine."@,
        )
    } else if kind == "repo"@ && contains(id, "chaotic"@) {
        ("third_party_repo"@, "full"@, "Provided by a third-party binary repository."@)
    } else if kind == "repo"@ && (contains(id, "cachyos"@) || contains(id, "manjaro"@) || contains(
        id,
        "garuda"@,
    ) || contains(id, "endeavour"@)) {
        ("distro_native"@, "full"@, "Provided by your distribution's repositories."@)
    } else {
        ("official"@, "full"@, "Provided by the system package repositories."@)
    }
}

/// The advice given to the user, which depends on whether a maintainer is known.
pub open spec fn user_action(maintainer_known: bool) -> Seq<char> {
    if maintainer_known {
        "Review the package source before installing or updating."@
    } else {
        "This source did not publish a maintainer. Verify the source before installing."@
    }
}

/// `s` is the security summary of a package from `source` (Arch's core repository when
/// unknown).
pub open spec fn is_security_summary(s: PackageSecuritySummary, source: Option<PackageSource>, maintainer_known: bool) -> bool {
    let (kind, id) = match source {
        Some(src) => (src.source_type@, lowercase(src.id@)),
        None => ("repo"@, lowercase("core"@)),
    };
    let (tier, access, note) = security_tier(kind, id);
    &&& s.trust_tier@ == tier
    &&& s.system_access@ == access
    &&& s.maintainer_known == maintainer_known
    &&& s.verification_note@ == note
    &&& s.user_action_note@ == user_action(maintainer_known)
}

fn tier_of(kind: &[char], id: &[char]) -> (r: (&'static str, &'static str, &'static str))
    ensures
        (r.0@, r.1@, r.2@) == security_tier(kind@, id@),
{
    if eq_str(kind, "flatpak") {
        ("sandboxed", "scoped", "Runs with sandboxed permissions, which may vary by app.")
    } else if eq_str(kind, "aur") {
        (
            "community_build",
            "full",
            "Built from community-provided packaging scripts on your machine.",
        )
    } else if eq_str(kind, "repo") && contains_str(id, "chaotic") {
        ("third_party_repo", "full", "Provided by a third-party binary repository.")
    } else if eq_str(kind, "repo") && (contains_str(id, "cachyos") || contains_str(id, "manjaro")
        || contains_str(id, "garuda") || contains_str(id, "endeavour")) {
        ("distro_native", "full", "Provided by your distribution's repositories.")
    } else {
        ("official", "full", "Provided by the system package repositories.")
    }
}

/// The security summary shown for a package from `source`.
pub fn build_security_summary(source: Option<&PackageSource>, maintainer_known: bool) -> (r: PackageSecuritySummary)
    ensures
        is_security_summary(
            r,
            match source {
                Some(s) => Some(*s),
                None => None,
            },
            maintainer_known,
        ),
{
    let fallback = PackageSource::new("repo", "core", "latest", "Arch Official");
    let src = match source {
        Some(s) => s,
        None => &fallback,
    };
    let kind = chars_of(src.source_type.as_str());
    let id = lower_chars(src.id.as_str());
    let (tier, access, note) = tier_of(kind.as_slice(), id.as_slice());
    let action = if maintainer_known {
        "Review the package source before installing or updating."
    } else {
        "This source did not publish a maintainer. Verify the source before installing."
    };
    PackageSecuritySummary {
        trust_tier: String::from_str(tier),
        system_access: String::from_str(access),
        maintainer_known,
        verification_note: String::from_str(note),
        user_action_note: String::from_str(action),
    }
}

// ---------------------------------------------------------------------------
// Repository families and source identity
// ---------------------------------------------------------------------------

/// The family a repository id belongs to: a distribution's repositories share one key,
/// Arch's official repositories share "arch-official"; any other id is its own family.
pub open spec fn family_key(source_id: Seq<char>) -> Seq<char> {
    let id = lowercase(source_id);
    if contains(id, "cachyos"@) {
        "cachyos"@
    } else if contains(id, "manjaro"@) {
        "manjaro"@
    } else if contains(id, "garuda"@) {
        "garuda"@
    } else if contains(id, "endeavour"@) {
        "endeavouros"@
    } else if contains(id, "chaotic"@) {
        "chaotic-aur"@
    } else if id == "core"@ || id == "extra"@ || id == "community"@ || id == "multilib"@ || id
        == "official"@ {
        "arch-official"@
    } else {
        id
    }
}

/// The family key of a repository id.
pub fn repo_family_key(source_id: &str) -> (r: String)
    ensures
        r@ == family_key(source_id@),
{
    let id = lower_chars(source_id);
    let key: Vec<char> = if contains_str(id.as_slice(), "cachyos") {
        chars_of("cachyos")
    } else if contains_str(id.as_slice(), "manjaro") {
        chars_of("manjaro")
    } else if contains_str(id.as_slice(), "garuda") {
        chars_of("garuda")
    } else if contains_str(id.as_slice(), "endeavour") {
        chars_of("endeavouros")
    } else if contains_str(id.as_slice(), "chaotic") {
        chars_of("chaotic-aur")
    } else if eq_str(id.as_slice(), "core") || eq_str(id.as_slice(), "extra") || eq_str(
        id.as_slice(),
        "community",
    ) || eq_str(id.as_slice(), "multilib") || eq_str(id.as_slice(), "official") {
        chars_of("arch-official")
    } else {
        id
    };
    string_of(key.as_slice())
}

/// Two sources of the same kind that are the same repository, or, for repositories,
/// members of the same family.
pub open spec fn same_family(a: PackageSource, b: PackageSource) -> bool {
    a.source_type@ == b.source_type@ && (a.id@ == b.id@ || (a.source_type@ == "repo"@
        && family_key(a.id@) == family_key(b.id@)))
}

/// Whether two sources are the same, or repositories of the same family.
pub fn same_source_identity_or_family(a: &PackageSource, b: &PackageSource) -> (r: bool)
    ensures
        r == same_family(*a, *b),
{
    let at = chars_of(a.source_type.as_str());
    let bt = chars_of(b.source_type.as_str());
    if !eq(at.as_slice(), bt.as_slice()) {
        return false;
    }
    let ai = chars_of(a.id.as_str());
    let bi = chars_of(b.id.as_str());
    if eq(ai.as_slice(), bi.as_slice()) {
        return true;
    }
    if eq_str(at.as_slice(), "repo") {
        let ka = repo_family_key(a.id.as_str());
        let kb = repo_family_key(b.id.as_str());
        return eq(chars_of(ka.as_str()).as_slice(), chars_of(kb.as_str()).as_slice());
    }
    false
}

// ---------------------------------------------------------------------------
// The selected source and the order of the variants
// ---------------------------------------------------------------------------

/// The index of the first variant whose source is of the same family as `p`, or the
/// number of variants when there is none.
pub open spec fn first_family_match(vs: Seq<PackageVariant>, p: PackageSource) -> int
    decreases vs.len(),
{
    if vs.len() == 0 {
        0
    } else if same_family(vs[0].source, p) {
        0
    } else {
        1 + first_family_match(vs.drop_first(), p)
    }
}

/// The known variant source that stands for `preferred`: the source of the first variant
/// of its family, else `preferred` itself; none without a preference.
pub open spec fn canonical_source(preferred: Option<PackageSource>, vs: Seq<PackageVariant>) -> Option<PackageSource> {
    match preferred {
        None => None,
        Some(p) => {
            let k = first_family_match(vs, p);
            if k < vs.len() {
                Some(vs[k].source)
            } else {
                Some(p)
            }
        },
    }
}

/// Two optional sources with the same fields.
pub open spec fn same_opt_source(a: Option<PackageSource>, b: Option<PackageSource>) -> bool {
    match (a, b) {
        (Some(x), Some(y)) => same_source(x, y),
        (None, None) => true,
        _ => false,
    }
}

proof fn lemma_first_family_match(vs: Seq<PackageVariant>, p: PackageSource)
    ensures
        0 <= first_family_match(vs, p) <= vs.len(),
        first_family_match(vs, p) < vs.len() ==> same_family(vs[first_family_match(vs, p)].source, p),
        forall|j: int| 0 <= j < first_family_match(vs, p) ==> !same_family(#[trigger] vs[j].source, p),
    decreases vs.len(),
{
    if vs.len() > 0 && !same_family(vs[0].source, p) {
        lemma_first_family_match(vs.drop_first(), p);
        assert forall|j: int| 0 <= j < first_family_match(vs, p) implies !same_family(#[trigger] vs[j].source, p) by {
            if j > 0 {
                assert(vs[j] == vs.drop_first()[j - 1]);
            }
        }
    }
}

proof fn lemma_first_family_match_exact(vs: Seq<PackageVariant>, p: PackageSource, k: int)
    requires
        0 <= k <= vs.len(),
        k < vs.len() ==> same_family(vs[k].source, p),
        forall|j: int| 0 <= j < k ==> !same_family(#[trigger] vs[j].source, p),
    ensures
        first_family_match(vs, p) == k,
    decreases vs.len(),
{
    if vs.len() > 0 && k > 0 {
        assert(!same_family(vs[0].source, p));
        assert forall|j: int| 0 <= j < k - 1 implies !same_family(#[trigger] vs.drop_first()[j].source, p) by {
            assert(vs.drop_first()[j] == vs[j + 1]);
        }
        lemma_first_family_match_exact(vs.drop_first(), p, k - 1);
    }
}

/// Same-family holds of sources with the same fields alike.
proof fn lemma_same_family_fields(a: PackageSource, a2: PackageSource, b: PackageSource, b2: PackageSource)
    requires
        same_source(a, a2),
        same_source(b, b2),
    ensures
        same_family(a, b) == same_family(a2, b2),
{
}

/// The source among `variants` that stands for `preferred`.
pub fn canonicalize_to_known_variant_source(preferred: Option<PackageSource>, variants: &Vec<PackageVariant>) -> (r: Option<PackageSource>)
    ensures
        same_opt_source(r, canonical_source(preferred, variants@)),
{
    let p = match preferred {
        Some(p) => p,
        None => {
            return None;
        },
    };
    assert(preferred == Some(p));
    let mut i: usize = 0;
    while i < variants.len()
        invariant
            0 <= i <= variants@.len(),
            preferred == Some(p),
            forall|j: int| 0 <= j < i ==> !same_family(#[trigger] variants@[j].source, p),
        decreases variants@.len() - i,
    {
        if same_source_identity_or_family(&variants[i].source, &p) {
            proof {
                lemma_first_family_match_exact(variants@, p, i as int);
            }
            let c = variants[i].source.copy();
            assert(same_source(c, variants@[i as int].source));
            assert(canonical_source(Some(p), variants@) == Some(variants@[i as int].source));
            return Some(c);
        }
        i += 1;
    }
    proof {
        lemma_first_family_match_exact(variants@, p, variants@.len() as int);
    }
    Some(p)
}

/// The rank of a variant when a source is selected: 0 when it is of the selected
/// source's family, 1 when of the preferred default's, 2 otherwise.
pub open spec fn variant_rank(v: PackageVariant, selected: Option<PackageSource>, preferred: Option<PackageSource>) -> int {
    if selected matches Some(s) && same_family(v.source, s) {
        0
    } else if preferred matches Some(p) && same_family(v.source, p) {
        1
    } else {
        2
    }
}

/// The test that a variant has rank `k`.
pub open spec fn has_rank(selected: Option<PackageSource>, preferred: Option<PackageSource>, k: int) -> spec_fn(PackageVariant) -> bool {
    |v: PackageVariant| variant_rank(v, selected, preferred) == k
}

/// The variants in rank order, keeping their order within a rank (a stable sort by rank).
pub open spec fn reordered(vs: Seq<PackageVariant>, selected: Option<PackageSource>, preferred: Option<PackageSource>) -> Seq<PackageVariant> {
    vs.filter(has_rank(selected, preferred, 0)) + vs.filter(has_rank(selected, preferred, 1))
        + vs.filter(has_rank(selected, preferred, 2))
}

/// The source an optional reference points to.
pub open spec fn deref_opt(o: Option<&PackageSource>) -> Option<PackageSource> {
    match o {
        Some(s) => Some(*s),
        None => None,
    }
}

fn rank_of(v: &PackageVariant, selected: Option<&PackageSource>, preferred: Option<&PackageSource>) -> (r: u8)
    ensures
        r as int == variant_rank(*v, deref_opt(selected), deref_opt(preferred)),
{
    match selected {
        Some(s) => {
            if same_source_identity_or_family(&v.source, s) {
                return 0;
            }
        },
        None => {},
    }
    match preferred {
        Some(p) => {
            if same_source_identity_or_family(&v.source, p) {
                return 1;
            }
        },
        None => {},
    }
    2
}

/// Puts the variants of the selected source's family first and those of the preferred
/// default's family next, keeping the order within each group.
pub fn reorder_variants_for_selected_source(
    variants: &mut Vec<PackageVariant>,
    selected_source: Option<&PackageSource>,
    preferred_default: Option<&PackageSource>,
)
    ensures
        final(variants)@ == reordered(
            old(variants)@,
            deref_opt(selected_source),
            deref_opt(preferred_default),
        ),
{
    let ghost sel = deref_opt(selected_source);
    let ghost pref = deref_opt(preferred_default);
    let mut rest: Vec<PackageVariant> = Vec::new();
    std::mem::swap(variants, &mut rest);
    let ghost orig = rest@;
    let mut b0: Vec<PackageVariant> = Vec::new();
    let mut b1: Vec<PackageVariant> = Vec::new();
    let mut b2: Vec<PackageVariant> = Vec::new();
    let ghost mut i: int = 0;
    while rest.len() > 0
        invariant
            0 <= i <= orig.len(),
            sel == deref_opt(selected_source),
            pref == deref_opt(preferred_default),
            rest@ == orig.skip(i),
            b0@ == orig.take(i).filter(has_rank(sel, pref, 0)),
            b1@ == orig.take(i).filter(has_rank(sel, pref, 1)),
            b2@ == orig.take(i).filter(has_rank(sel, pref, 2)),
        decreases rest@.len(),
    {
        let v = rest.remove(0);
        proof {
            assert(v == orig[i]);
            assert(orig.take(i + 1) == orig.take(i).push(orig[i]));
            orig.take(i).lemma_filter_push(orig[i], has_rank(sel, pref, 0));
            orig.take(i).lemma_filter_push(orig[i], has_rank(sel, pref, 1));
            orig.take(i).lemma_filter_push(orig[i], has_rank(sel, pref, 2));
            assert(rest@ == orig.skip(i + 1));
            i = i + 1;
        }
        let k = rank_of(&v, selected_source, preferred_default);
        proof {
            assert(has_rank(sel, pref, 0)(v) == (k == 0));
            assert(has_rank(sel, pref, 1)(v) == (k == 1));
            assert(has_rank(sel, pref, 2)(v) == (k == 2));
        }
        if k == 0 {
            b0.push(v);
        } else if k == 1 {
            b1.push(v);
        } else {
            b2.push(v);
        }
    }
    proof {
        assert(i == orig.len());
        assert(orig.take(i) == orig);
    }
    b0.append(&mut b1);
    b0.append(&mut b2);
    *variants = b0;
}

/// The source recorded for the first installed variant that has one, else the install
/// status's own source.
pub open spec fn installed_candidate(all_installed: Seq<PackageInstallStatus>, status: PackageInstallStatus) -> Option<PackageSource>
    decreases all_installed.len(),
{
    if all_installed.len() == 0 {
        status.source
    } else if all_installed[0].source is Some {
        all_installed[0].source
    } else {
        installed_candidate(all_installed.drop_first(), status)
    }
}

/// The package's own source, if a package is known.
pub open spec fn package_default(package: Option<&Package>) -> Option<PackageSource> {
    match package {
        Some(p) => Some(p.source),
        None => None,
    }
}

/// The source to show as selected: for an installed package, the known variant source of
/// the installed variant, else of the package's default; otherwise the package's default,
/// else the first variant's source.
pub open spec fn authoritative_source(
    package: Option<&Package>,
    status: PackageInstallStatus,
    all_installed: Seq<PackageInstallStatus>,
    vs: Seq<PackageVariant>,
) -> Option<PackageSource> {
    let default = package_default(package);
    if status.installed {
        match canonical_source(installed_candidate(all_installed, status), vs) {
            Some(s) => Some(s),
            None => canonical_source(default, vs),
        }
    } else {
        match canonical_source(default, vs) {
            Some(s) => Some(s),
            None => if vs.len() > 0 {
                Some(vs[0].source)
            } else {
                None
            },
        }
    }
}

fn installed_candidate_of(all_installed: &Vec<PackageInstallStatus>, status: &PackageInstallStatus) -> (r: Option<PackageSource>)
    ensures
        same_opt_source(r, installed_candidate(all_installed@, *status)),
{
    let mut i: usize = 0;
    assert(all_installed@.skip(0) == all_installed@);
    while i < all_installed.len()
        invariant
            0 <= i <= all_installed@.len(),
            installed_candidate(all_installed@, *status) == installed_candidate(all_installed@.skip(i as int), *status),
        decreases all_installed@.len() - i,
    {
        assert(all_installed@.skip(i as int)[0] == all_installed@[i as int]);
        match &all_installed[i].source {
            Some(s) => {
                return Some(s.copy());
            },
            None => {},
        }
        assert(all_installed@.skip(i as int).drop_first() == all_installed@.skip(i + 1));
        i += 1;
    }
    match &status.source {
        Some(s) => Some(s.copy()),
        None => None,
    }
}

/// Canonical sources agree for preferences with the same fields.
proof fn lemma_canonical_same(a: Option<PackageSource>, b: Option<PackageSource>, vs: Seq<PackageVariant>)
    requires
        same_opt_source(a, b),
    ensures
        same_opt_source(canonical_source(a, vs), canonical_source(b, vs)),
{
    if let (Some(x), Some(y)) = (a, b) {
        lemma_first_family_match(vs, x);
        lemma_first_family_match(vs, y);
        let kx = first_family_match(vs, x);
        let ky = first_family_match(vs, y);
        assert forall|j: int| 0 <= j < vs.len() implies same_family(#[trigger] vs[j].source, x) == same_family(vs[j].source, y) by {
            lemma_same_family_fields(vs[j].source, vs[j].source, x, y);
        }
        if kx < ky {
            assert(same_family(vs[kx].source, y));
        }
        if ky < kx {
            assert(same_family(vs[ky].source, x));
        }
    }
}

/// Ranks agree for selections with the same fields.
proof fn lemma_rank_same(a: Option<PackageSource>, b: Option<PackageSource>, p: Option<PackageSource>, p2: Option<PackageSource>)
    requires
        same_opt_source(a, b),
        same_opt_source(p, p2),
    ensures
        forall|k: int| #[trigger] has_rank(a, p, k) == has_rank(b, p2, k),
{
    assert forall|k: int| #[trigger] has_rank(a, p, k) == has_rank(b, p2, k) by {
        assert forall|v: PackageVariant| #[trigger] has_rank(a, p, k)(v) == has_rank(b, p2, k)(v) by {
            if let (Some(x), Some(y)) = (a, b) {
                lemma_same_family_fields(v.source, v.source, x, y);
            }
            if let (Some(x), Some(y)) = (p, p2) {
                lemma_same_family_fields(v.source, v.source, x, y);
            }
        }
        assert(has_rank(a, p, k) =~= has_rank(b, p2, k));
    }
}

/// Chooses the source to show as selected for a package and puts the variants of its
/// family first (then those of the package's default source).
pub fn resolve_authoritative_selected_source(
    package: Option<&Package>,
    install_status: &PackageInstallStatus,
    all_installed_variants: &Vec<PackageInstallStatus>,
    all_variants: &mut Vec<PackageVariant>,
) -> (r: Option<PackageSource>)
    ensures
        same_opt_source(
            r,
            authoritative_source(package, *install_status, all_installed_variants@, old(all_variants)@),
        ),
        final(all_variants)@ == reordered(
            old(all_variants)@,
            authoritative_source(package, *install_status, all_installed_variants@, old(all_variants)@),
            package_default(package),
        ),
{
    let ghost vs = all_variants@;
    let default: Option<PackageSource> = match package {
        Some(p) => Some(p.source.copy()),
        None => None,
    };
    let default2: Option<PackageSource> = match package {
        Some(p) => Some(p.source.copy()),
        None => None,
    };
    let selected = if install_status.installed {
        let cand = installed_candidate_of(all_installed_variants, install_status);
        proof {
            lemma_canonical_same(cand, installed_candidate(all_installed_variants@, *install_status), vs);
            lemma_canonical_same(default, package_default(package), vs);
        }
        match canonicalize_to_known_variant_source(cand, all_variants) {
            Some(s) => Some(s),
            None => canonicalize_to_known_variant_source(default, all_variants),
        }
    } else {
        proof {
            lemma_canonical_same(default, package_default(package), vs);
        }
        match canonicalize_to_known_variant_source(default, all_variants) {
            Some(s) => Some(s),
            None => if all_variants.len() > 0 {
                Some(all_variants[0].source.copy())
            } else {
                None
            },
        }
    };
    proof {
        lemma_rank_same(
            selected,
            authoritative_source(package, *install_status, all_installed_variants@, vs),
            default2,
            package_default(package),
        );
    }
    let sel_ref = selected.as_ref();
    let def_ref = default2.as_ref();
    assert(deref_opt(sel_ref) == selected);
    assert(deref_opt(def_ref) == default2);
    reorder_variants_for_selected_source(all_variants, sel_ref, def_ref);
    selected
}

// ---------------------------------------------------------------------------
// Update reports
// ---------------------------------------------------------------------------

/// An update reported by the helper as "Update available: <name> <old> -> <new>": the
/// message starts so and has at least six words; its third, fourth and sixth words are
/// the name and the two versions, from the official repositories.
pub open spec fn reported_update(message: Seq<char>) -> Option<(Seq<char>, Seq<char>, Seq<char>)> {
    let ws = words(message);
    if is_prefix("Update available:"@, message) && ws.len() >= 6 {
        Some((ws[2], ws[3], ws[5]))
    } else {
        None
    }
}

/// The fields of a pending update.
pub open spec fn update_fields(u: PendingUpdate) -> (Seq<char>, Seq<char>, Seq<char>, Seq<char>) {
    (u.name@, u.old_version@, u.new_version@, u.repo@)
}

/// Reads one helper message; an update when it reports one.
pub fn parse_update_available(message: &str) -> (r: Option<PendingUpdate>)
    ensures
        match reported_update(message@) {
            Some((n, o, v)) => r matches Some(u) && update_fields(u) == (n, o, v, "official"@),
            None => r is None,
        },
{
    let m = chars_of(message);
    if !crate::text::starts_with(m.as_slice(), "Update available:") {
        return None;
    }
    let ws = crate::text::split_words(m.as_slice());
    if ws.len() < 6 {
        return None;
    }
    assert(crate::text::views(ws@)[2] == ws@[2]@);
    assert(crate::text::views(ws@)[3] == ws@[3]@);
    assert(crate::text::views(ws@)[5] == ws@[5]@);
    Some(
        PendingUpdate {
            name: string_of(ws[2].as_slice()),
            old_version: string_of(ws[3].as_slice()),
            new_version: string_of(ws[5].as_slice()),
            repo: String::from_str("official"),
        },
    )
}

/// The version installed under `name` among `(name, version)` pairs; a later pair
/// replaces an earlier one of the same name.
pub open spec fn installed_version(inst: Seq<(String, String)>, name: Seq<char>) -> Option<Seq<char>>
    decreases inst.len(),
{
    if inst.len() == 0 {
        None
    } else if inst.last().0@ == name {
        Some(inst.last().1@)
    } else {
        installed_version(inst.drop_last(), name)
    }
}

/// The AUR updates among `info` (name and AUR version of each package, in order): those
/// installed here at a different version.
pub open spec fn aur_updates(inst: Seq<(String, String)>, info: Seq<(String, String)>) -> Seq<(Seq<char>, Seq<char>, Seq<char>, Seq<char>)>
    decreases info.len(),
{
    if info.len() == 0 {
        Seq::empty()
    } else {
        let prev = aur_updates(inst, info.drop_last());
        let (n, v) = info.last();
        match installed_version(inst, n@) {
            Some(old) => if old != v@ {
                prev.push((n@, old, v@, "aur"@))
            } else {
                prev
            },
            None => prev,
        }
    }
}

fn installed_version_of(inst: &Vec<(String, String)>, name: &[char]) -> (r: Option<Vec<char>>)
    ensures
        match r {
            Some(v) => installed_version(inst@, name@) == Some(v@),
            None => installed_version(inst@, name@) is None,
        },
{
    let mut i: usize = inst.len();
    assert(inst@.take(inst@.len() as int) == inst@);
    while i > 0
        invariant
            0 <= i <= inst@.len(),
            installed_version(inst@, name@) == installed_version(inst@.take(i as int), name@),
        decreases i,
    {
        let e = &inst[i - 1];
        assert(inst@.take(i as int).last() == inst@[i - 1]);
        assert(inst@.take(i as int).drop_last() == inst@.take(i - 1));
        if eq(chars_of(e.0.as_str()).as_slice(), name) {
            return Some(chars_of(e.1.as_str()));
        }
        i -= 1;
    }
    None
}

/// The pending AUR updates: each package the AUR reports (in that order) that is
/// installed at another version.
pub fn aur_pending_updates(installed: &Vec<(String, String)>, aur_info: &Vec<(String, String)>) -> (r: Vec<PendingUpdate>)
    ensures
        r@.map_values(|u: PendingUpdate| update_fields(u)) == aur_updates(installed@, aur_info@),
{
    let mut out: Vec<PendingUpdate> = Vec::new();
    let mut i: usize = 0;
    while i < aur_info.len()
        invariant
            0 <= i <= aur_info@.len(),
            out@.map_values(|u: PendingUpdate| update_fields(u)) == aur_updates(installed@, aur_info@.take(i as int)),
        decreases aur_info@.len() - i,
    {
        let (n, v) = (&aur_info[i].0, &aur_info[i].1);
        let nc = chars_of(n.as_str());
        let vc = chars_of(v.as_str());
        let ghost before = out@.map_values(|u: PendingUpdate| update_fields(u));
        assert(aur_info@.take(i + 1).drop_last() == aur_info@.take(i as int));
        assert(aur_info@.take(i + 1).last() == aur_info@[i as int]);
        match installed_version_of(installed, nc.as_slice()) {
            Some(old) => {
                if !eq(old.as_slice(), vc.as_slice()) {
                    out.push(
                        PendingUpdate {
                            name: copy_string(n),
                            old_version: string_of(old.as_slice()),
                            new_version: copy_string(v),
                            repo: String::from_str("aur"),
                        },
                    );
                    assert(out@.map_values(|u: PendingUpdate| update_fields(u)) == before.push(
                        (n@, old@, v@, "aur"@),
                    ));
                }
            },
            None => {},
        }
        i += 1;
    }
    assert(aur_info@.take(aur_info@.len() as int) == aur_info@);
    out
}

// ---------------------------------------------------------------------------
// Details: cache keys, lookup target, sources and actions
// ---------------------------------------------------------------------------

/// A name that looks like an application id: it has a dot and no space.
pub open spec fn looks_like_app_id(name: Seq<char>) -> bool {
    name.contains('.') && !name.contains(' ')
}

/// The part of `s` after its last `c` (all of `s` when it has none).
pub open spec fn last_segment(s: Seq<char>, c: char) -> Seq<char>
    decreases s.len(),
{
    if s.len() == 0 {
        s
    } else if s.last() == c {
        Seq::empty()
    } else {
        last_segment(s.drop_last(), c).push(s.last())
    }
}

/// The other cache keys a details request for `name` may have been stored under: for an
/// application id, the package it maps to, else its last dotted segment (when that
/// differs from the request's own key and is not empty).
pub open spec fn details_alias_keys(name: Seq<char>) -> Seq<Seq<char>> {
    let key = lowercase(trim(name));
    let mapped = if key.len() > 0 {
        crate::flathub::package_for_app_id(key)
    } else {
        None
    };
    if looks_like_app_id(name) {
        match mapped {
            Some(m) => {
                let mk = lowercase(trim(m));
                if mk != key {
                    seq![mk]
                } else {
                    Seq::empty()
                }
            },
            None => {
                let fk = lowercase(trim(last_segment(name, '.')));
                if fk.len() > 0 && fk != key {
                    seq![fk]
                } else {
                    Seq::empty()
                }
            },
        }
    } else {
        Seq::empty()
    }
}

fn has_char(s: &[char], c: char) -> (r: bool)
    ensures
        r == s@.contains(c),
{
    let mut i: usize = 0;
    while i < s.len()
        invariant
            0 <= i <= s@.len(),
            forall|k: int| 0 <= k < i ==> s@[k] != c,
        decreases s@.len() - i,
    {
        if s[i] == c {
            return true;
        }
        i += 1;
    }
    false
}

fn last_segment_exec(s: &[char], c: char) -> (r: Vec<char>)
    ensures
        r@ == last_segment(s@, c),
{
    let mut k: usize = s.len();
    assert(s@.take(s@.len() as int) == s@);
    while k > 0 && s[k - 1] != c
        invariant
            0 <= k <= s@.len(),
            last_segment(s@, c) == last_segment(s@.take(k as int), c) + s@.subrange(k as int, s@.len() as int),
        decreases k,
    {
        proof {
            let t = s@.take(k as int);
            assert(t.drop_last() == s@.take(k - 1));
            assert(t.last() == s@[k - 1]);
            assert(s@.subrange(k - 1, s@.len() as int) == seq![s@[k - 1]] + s@.subrange(k as int, s@.len() as int));
            assert(last_segment(t, c) == last_segment(s@.take(k - 1), c).push(s@[k - 1]));
            assert(last_segment(s@.take(k - 1), c).push(s@[k - 1]) + s@.subrange(k as int, s@.len() as int)
                == last_segment(s@.take(k - 1), c) + (seq![s@[k - 1]] + s@.subrange(k as int, s@.len() as int)));
        }
        k -= 1;
    }
    proof {
        let t = s@.take(k as int);
        if k > 0 {
            assert(t.last() == s@[k - 1]);
            assert(last_segment(t, c) == Seq::<char>::empty());
        } else {
            assert(t == Seq::<char>::empty());
        }
        assert(Seq::<char>::empty() + s@.subrange(k as int, s@.len() as int) == s@.subrange(k as int, s@.len() as int));
    }
    slice_copy(s, k, s.len())
}

/// The cache key of a details request and the other keys it may be stored under.
pub fn details_cache_keys(name: &str) -> (r: (String, Vec<String>))
    ensures
        r.0@ == lowercase(trim(name@)),
        crate::text::string_views(r.1@) == details_alias_keys(name@),
{
    let key = crate::discovery::trimmed_lower(name);
    let n = chars_of(name);
    let mut aliases: Vec<String> = Vec::new();
    if has_char(n.as_slice(), '.') && !has_char(n.as_slice(), ' ') {
        match crate::flathub::get_package_name_from_app_id(name) {
            Some(mapped) => {
                let mk = crate::discovery::trimmed_lower(mapped.as_str());
                if !eq(mk.as_slice(), key.as_slice()) {
                    aliases.push(string_of(mk.as_slice()));
                }
            },
            None => {
                let last = last_segment_exec(n.as_slice(), '.');
                let ls = string_of(last.as_slice());
                let fk = crate::discovery::trimmed_lower(ls.as_str());
                if fk.len() > 0 && !eq(fk.as_slice(), key.as_slice()) {
                    aliases.push(string_of(fk.as_slice()));
                }
            },
        }
    }
    assert(crate::text::string_views(aliases@) =~= details_alias_keys(name@));
    (string_of(key.as_slice()), aliases)
}

/// The name and application id to look a details request up by: for an application id,
/// the package it maps to (else its last dotted segment, lower-cased) and the id itself;
/// otherwise the name as given.
pub open spec fn details_target(name: Seq<char>) -> (Seq<char>, Option<Seq<char>>) {
    if looks_like_app_id(name) {
        match crate::flathub::package_for_app_id(lowercase(trim(name))) {
            Some(mapped) => if lowercase(trim(name)).len() > 0 {
                (mapped, Some(name))
            } else {
                (lowercase(last_segment(name, '.')), Some(name))
            },
            None => (lowercase(last_segment(name, '.')), Some(name)),
        }
    } else {
        (name, None)
    }
}

/// The name and application id to look a details request up by.
pub fn details_search_target(name: &str) -> (r: (String, Option<String>))
    ensures
        (r.0@, match r.1 {
            Some(a) => Some(a@),
            None => None,
        }) == details_target(name@),
{
    let n = chars_of(name);
    if has_char(n.as_slice(), '.') && !has_char(n.as_slice(), ' ') {
        match crate::flathub::get_package_name_from_app_id(name) {
            Some(mapped) => (mapped, Some(String::from_str(name))),
            None => {
                let last = last_segment_exec(n.as_slice(), '.');
                let ls = string_of(last.as_slice());
                (crate::text::to_lowercase(ls.as_str()), Some(String::from_str(name)))
            },
        }
    } else {
        (String::from_str(name), None)
    }
}

/// The package that a details request for `name` is about: the first whose name,
/// application id or canonical id is `name`; the first package when none is.
pub open spec fn primary_index_of(ps: Seq<Package>, name: Seq<char>) -> int
    decreases ps.len(),
{
    if ps.len() == 0 {
        0
    } else {
        let k = primary_index_of(ps.drop_last(), name);
        if k < ps.len() - 1 && is_primary(ps[k], name) {
            k
        } else if is_primary(ps.last(), name) {
            ps.len() - 1
        } else {
            k
        }
    }
}

/// `p` is named `name` by its name, application id or canonical id.
pub open spec fn is_primary(p: Package, name: Seq<char>) -> bool {
    p.name@ == name || opt_text(p.app_id) == Some(name) || p.canonical_id@ == name
}

/// The index of the package a details request is about.
pub fn primary_index(packages: &Vec<Package>, name: &str) -> (r: usize)
    ensures
        (exists|k: int| 0 <= k < packages@.len() && is_primary(#[trigger] packages@[k], name@)) ==> (
        r < packages@.len() && is_primary(packages@[r as int], name@) && forall|j: int|
            0 <= j < r ==> !is_primary(#[trigger] packages@[j], name@)),
        !(exists|k: int| 0 <= k < packages@.len() && is_primary(#[trigger] packages@[k], name@)) ==> r
            == 0,
{
    let n = chars_of(name);
    let mut i: usize = 0;
    while i < packages.len()
        invariant
            0 <= i <= packages@.len(),
            n@ == name@,
            forall|j: int| 0 <= j < i ==> !is_primary(#[trigger] packages@[j], name@),
        decreases packages@.len() - i,
    {
        let p = &packages[i];
        let by_app = match &p.app_id {
            Some(a) => eq(chars_of(a.as_str()).as_slice(), n.as_slice()),
            None => false,
        };
        if eq(chars_of(p.name.as_str()).as_slice(), n.as_slice()) || by_app || eq(
            chars_of(p.canonical_id.as_str()).as_slice(),
            n.as_slice(),
        ) {
            return i;
        }
        i += 1;
    }
    0
}

/// Two sources fill the same slot of the source list: same id, kind and package name.
pub open spec fn same_slot(a: PackageSource, b: PackageSource) -> bool {
    a.id@ == b.id@ && a.source_type@ == b.source_type@ && opt_text(a.package_name) == opt_text(
        b.package_name,
    )
}

/// The index of the first source of `acc` in the slot of `s`, or the length of `acc`.
pub open spec fn slot_index(acc: Seq<PackageSource>, s: PackageSource) -> int
    decreases acc.len(),
{
    if acc.len() == 0 {
        0
    } else if same_slot(acc[0], s) {
        0
    } else {
        1 + slot_index(acc.drop_first(), s)
    }
}

/// The source list after merging `others` into `acc`: a source of a new slot is added;
/// one of a known slot replaces the first source there when its version is greater.
pub open spec fn merged_sources(acc: Seq<PackageSource>, others: Seq<PackageSource>) -> Seq<PackageSource>
    decreases others.len(),
{
    if others.len() == 0 {
        acc
    } else {
        let prev = merged_sources(acc, others.drop_last());
        let s = others.last();
        let k = slot_index(prev, s);
        if k >= prev.len() {
            prev.push(s)
        } else if crate::text::lex_lt(prev[k].version@, s.version@) {
            prev.update(k, s)
        } else {
            prev
        }
    }
}

proof fn lemma_slot_index(acc: Seq<PackageSource>, s: PackageSource)
    ensures
        0 <= slot_index(acc, s) <= acc.len(),
        slot_index(acc, s) < acc.len() ==> same_slot(acc[slot_index(acc, s)], s),
        forall|j: int| 0 <= j < slot_index(acc, s) ==> !same_slot(#[trigger] acc[j], s),
    decreases acc.len(),
{
    if acc.len() > 0 && !same_slot(acc[0], s) {
        lemma_slot_index(acc.drop_first(), s);
        assert forall|j: int| 0 <= j < slot_index(acc, s) implies !same_slot(#[trigger] acc[j], s) by {
            if j > 0 {
                assert(acc[j] == acc.drop_first()[j - 1]);
            }
        }
    }
}

proof fn lemma_slot_index_exact(acc: Seq<PackageSource>, s: PackageSource, k: int)
    requires
        0 <= k <= acc.len(),
        k < acc.len() ==> same_slot(acc[k], s),
        forall|j: int| 0 <= j < k ==> !same_slot(#[trigger] acc[j], s),
    ensures
        slot_index(acc, s) == k,
    decreases acc.len(),
{
    if acc.len() > 0 && k > 0 {
        assert(!same_slot(acc[0], s));
        assert forall|j: int| 0 <= j < k - 1 implies !same_slot(#[trigger] acc.drop_first()[j], s) by {
            assert(acc.drop_first()[j] == acc[j + 1]);
        }
        lemma_slot_index_exact(acc.drop_first(), s, k - 1);
    }
}

fn same_slot_exec(a: &PackageSource, b: &PackageSource) -> (r: bool)
    ensures
        r == same_slot(*a, *b),
{
    let names_equal = match (&a.package_name, &b.package_name) {
        (Some(x), Some(y)) => eq(chars_of(x.as_str()).as_slice(), chars_of(y.as_str()).as_slice()),
        (None, None) => true,
        _ => false,
    };
    eq(chars_of(a.id.as_str()).as_slice(), chars_of(b.id.as_str()).as_slice()) && eq(
        chars_of(a.source_type.as_str()).as_slice(),
        chars_of(b.source_type.as_str()).as_slice(),
    ) && names_equal
}

/// The sources of a package merged with the sources of its other variants: one per
/// slot, the greater version kept.
pub fn merge_variant_sources(base: Vec<PackageSource>, others: Vec<PackageSource>) -> (r: Vec<PackageSource>)
    ensures
        r@ == merged_sources(base@, others@),
{
    let mut acc = base;
    let ghost start = acc@;
    let mut rest = others;
    let ghost orig = rest@;
    let ghost mut i: int = 0;
    while rest.len() > 0
        invariant
            0 <= i <= orig.len(),
            rest@ == orig.skip(i),
            acc@ == merged_sources(start, orig.take(i)),
        decreases rest@.len(),
    {
        let s = rest.remove(0);
        proof {
            assert(s == orig[i]);
            assert(orig.take(i + 1).drop_last() == orig.take(i));
            assert(orig.take(i + 1).last() == orig[i]);
            assert(rest@ == orig.skip(i + 1));
            lemma_slot_index(acc@, s);
            i = i + 1;
        }
        let mut k: usize = 0;
        while k < acc.len() && !same_slot_exec(&acc[k], &s)
            invariant
                0 <= k <= acc@.len(),
                forall|j: int| 0 <= j < k ==> !same_slot(#[trigger] acc@[j], s),
            decreases acc@.len() - k,
        {
            k += 1;
        }
        proof {
            lemma_slot_index_exact(acc@, s, k as int);
        }
        if k == acc.len() {
            acc.push(s);
        } else if crate::text::lex_less(
            chars_of(acc[k].version.as_str()).as_slice(),
            chars_of(s.version.as_str()).as_slice(),
        ) {
            acc.set(k, s);
        }
    }
    proof {
        assert(orig.take(i) == orig);
    }
    acc
}

/// The rank of a source in the details source list: distribution repositories first,
/// then Arch's, then other repositories, then Chaotic-AUR, Flatpak and the AUR.
pub open spec fn source_rank(s: PackageSource) -> int {
    let id = lowercase(s.id@);
    if s.source_type@ == "repo"@ {
        if contains(id, "cachyos"@) || contains(id, "manjaro"@) || contains(id, "garuda"@)
            || contains(id, "endeavour"@) {
            50
        } else if id == "core"@ || id == "extra"@ || id == "community"@ || id == "multilib"@ || id
            == "official"@ {
            40
        } else if contains(id, "chaotic"@) {
            30
        } else {
            35
        }
    } else if s.source_type@ == "flatpak"@ {
        20
    } else if s.source_type@ == "aur"@ {
        10
    } else {
        0
    }
}

fn source_rank_exec(s: &PackageSource) -> (r: u8)
    ensures
        r as int == source_rank(*s),
{
    let id = lower_chars(s.id.as_str());
    let t = chars_of(s.source_type.as_str());
    if eq_str(t.as_slice(), "repo") {
        if contains_str(id.as_slice(), "cachyos") || contains_str(id.as_slice(), "manjaro")
            || contains_str(id.as_slice(), "garuda") || contains_str(id.as_slice(), "endeavour") {
            50
        } else if eq_str(id.as_slice(), "core") || eq_str(id.as_slice(), "extra") || eq_str(
            id.as_slice(),
            "community",
        ) || eq_str(id.as_slice(), "multilib") || eq_str(id.as_slice(), "official") {
            40
        } else if contains_str(id.as_slice(), "chaotic") {
            30
        } else {
            35
        }
    } else if eq_str(t.as_slice(), "flatpak") {
        20
    } else if eq_str(t.as_slice(), "aur") {
        10
    } else {
        0
    }
}

/// Optional package names in their order: none first, then by text.
pub open spec fn opt_name_lt(a: Option<Seq<char>>, b: Option<Seq<char>>) -> bool {
    match (a, b) {
        (None, Some(_)) => true,
        (Some(x), Some(y)) => crate::text::lex_lt(x, y),
        _ => false,
    }
}

/// Source `i` is listed before source `j`: higher rank, then smaller id, then smaller
/// package name, then the earlier position.
pub open spec fn source_before(ss: Seq<PackageSource>, i: int, j: int) -> bool {
    let ri = source_rank(ss[i]);
    let rj = source_rank(ss[j]);
    let ni = opt_text(ss[i].package_name);
    let nj = opt_text(ss[j].package_name);
    ri > rj || (ri == rj && (crate::text::lex_lt(ss[i].id@, ss[j].id@) || (ss[i].id@ == ss[j].id@ && (
    opt_name_lt(ni, nj) || (ni == nj && i < j)))))
}

/// The source order is a strict total order on positions.
pub proof fn lemma_source_before_order(ss: Seq<PackageSource>, i: int, j: int, k: int)
    ensures
        i != j ==> (source_before(ss, i, j) || source_before(ss, j, i)),
        !(source_before(ss, i, j) && source_before(ss, j, i)),
        source_before(ss, i, j) && source_before(ss, j, k) ==> source_before(ss, i, k),
{
    crate::text::lemma_lex_total(ss[i].id@, ss[j].id@);
    crate::text::lemma_lex_total(ss[i].id@, ss[k].id@);
    crate::text::lemma_lex_total(ss[j].id@, ss[k].id@);
    if crate::text::lex_lt(ss[i].id@, ss[j].id@) && crate::text::lex_lt(ss[j].id@, ss[k].id@) {
        crate::text::lemma_lex_transitive(ss[i].id@, ss[j].id@, ss[k].id@);
    }
    let ni = opt_text(ss[i].package_name);
    let nj = opt_text(ss[j].package_name);
    let nk = opt_text(ss[k].package_name);
    if let (Some(a), Some(b)) = (ni, nj) {
        crate::text::lemma_lex_total(a, b);
    }
    if let (Some(a), Some(b)) = (ni, nk) {
        crate::text::lemma_lex_total(a, b);
    }
    if let (Some(a), Some(b)) = (nj, nk) {
        crate::text::lemma_lex_total(a, b);
    }
    if let (Some(a), Some(b), Some(c)) = (ni, nj, nk) {
        if crate::text::lex_lt(a, b) && crate::text::lex_lt(b, c) {
            crate::text::lemma_lex_transitive(a, b, c);
        }
    }
}

/// `ix` lists each position of `ss` once, in source order.
pub open spec fn is_source_order(ss: Seq<PackageSource>, ix: Seq<int>) -> bool {
    &&& ix.len() == ss.len()
    &&& forall|k: int| 0 <= k < ix.len() ==> 0 <= #[trigger] ix[k] < ss.len()
    &&& ix.no_duplicates()
    &&& forall|a: int, b: int| 0 <= a < b < ix.len() ==> source_before(ss, ix[a], ix[b])
}

fn opt_name_less(a: &Option<String>, b: &Option<String>) -> (r: bool)
    ensures
        r == opt_name_lt(opt_text(*a), opt_text(*b)),
{
    match (a, b) {
        (None, Some(_)) => true,
        (Some(x), Some(y)) => crate::text::lex_less(chars_of(x.as_str()).as_slice(), chars_of(y.as_str()).as_slice()),
        _ => false,
    }
}

fn opt_name_eq(a: &Option<String>, b: &Option<String>) -> (r: bool)
    ensures
        r == (opt_text(*a) == opt_text(*b)),
{
    match (a, b) {
        (None, None) => true,
        (Some(x), Some(y)) => eq(chars_of(x.as_str()).as_slice(), chars_of(y.as_str()).as_slice()),
        _ => false,
    }
}

fn source_before_exec(ss: &Vec<PackageSource>, ranks: &Vec<u8>, i: usize, j: usize) -> (r: bool)
    requires
        i < ss@.len(),
        j < ss@.len(),
        ranks@.len() == ss@.len(),
        forall|k: int| 0 <= k < ss@.len() ==> #[trigger] ranks@[k] as int == source_rank(ss@[k]),
    ensures
        r == source_before(ss@, i as int, j as int),
{
    let ri = ranks[i];
    let rj = ranks[j];
    if ri != rj {
        return ri > rj;
    }
    let a = chars_of(ss[i].id.as_str());
    let b = chars_of(ss[j].id.as_str());
    if crate::text::lex_less(a.as_slice(), b.as_slice()) {
        return true;
    }
    if !eq(a.as_slice(), b.as_slice()) {
        return false;
    }
    if opt_name_less(&ss[i].package_name, &ss[j].package_name) {
        return true;
    }
    opt_name_eq(&ss[i].package_name, &ss[j].package_name) && i < j
}

/// The sources in the order the details page lists them (a stable sort by rank
/// descending, then id, then package name).
#[verifier::rlimit(60)]
pub fn sort_variant_sources(sources: &Vec<PackageSource>) -> (r: Vec<PackageSource>)
    ensures
        exists|ix: Seq<int>|
            #![trigger is_source_order(sources@, ix)]
            is_source_order(sources@, ix) && r@.len() == ix.len() && forall|k: int|
                0 <= k < r@.len() ==> same_source(#[trigger] r@[k], sources@[ix[k]]),
{
    let ghost ss = sources@;
    let mut ranks: Vec<u8> = Vec::new();
    let mut i: usize = 0;
    while i < sources.len()
        invariant
            0 <= i <= ss.len(),
            ss == sources@,
            ranks@.len() == i,
            forall|k: int| 0 <= k < i ==> #[trigger] ranks@[k] as int == source_rank(ss[k]),
        decreases ss.len() - i,
    {
        ranks.push(source_rank_exec(&sources[i]));
        i += 1;
    }
    let mut out: Vec<usize> = Vec::new();
    let mut m: usize = 0;
    while m < sources.len()
        invariant
            0 <= m <= ss.len(),
            ss == sources@,
            ranks@.len() == ss.len(),
            forall|k: int| 0 <= k < ss.len() ==> #[trigger] ranks@[k] as int == source_rank(ss[k]),
            out@.len() == m,
            forall|k: int| 0 <= k < m ==> (#[trigger] out@[k] as int) < m,
            out@.map_values(|v: usize| v as int).no_duplicates(),
            forall|a: int, b: int| 0 <= a < b < m ==> source_before(ss, out@[a] as int, out@[b] as int),
        decreases ss.len() - m,
    {
        let ghost o = out@;
        let mut p: usize = 0;
        while p < out.len() && !source_before_exec(sources, &ranks, m, out[p])
            invariant
                0 <= p <= out@.len(),
                out@ == o,
                m < ss.len(),
                ss == sources@,
                ranks@.len() == ss.len(),
                forall|k: int| 0 <= k < ss.len() ==> #[trigger] ranks@[k] as int == source_rank(ss[k]),
                forall|k: int| 0 <= k < out@.len() ==> (#[trigger] out@[k] as int) < m,
                forall|k: int| 0 <= k < p ==> !source_before(ss, m as int, #[trigger] out@[k] as int),
            decreases out@.len() - p,
        {
            p += 1;
        }
        proof {
            assert forall|k: int| 0 <= k < p implies source_before(ss, #[trigger] o[k] as int, m as int) by {
                lemma_source_before_order(ss, m as int, o[k] as int, m as int);
            }
            assert forall|k: int| p <= k < o.len() implies source_before(ss, m as int, #[trigger] o[k] as int) by {
                if k > p {
                    lemma_source_before_order(ss, m as int, o[p as int] as int, o[k] as int);
                }
            }
            o.insert_ensures(p as int, m);
        }
        out.insert(p, m);
        proof {
            let no = out@;
            assert(no == o.insert(p as int, m));
            assert forall|a: int, b: int| 0 <= a < b < no.len() implies source_before(ss, no[a] as int, no[b] as int) by {
                if b < p {
                } else if b == p {
                } else if a < p {
                    assert(no[b] == o[b - 1]);
                } else if a == p {
                    assert(no[b] == o[b - 1]);
                } else {
                    assert(no[a] == o[a - 1]);
                    assert(no[b] == o[b - 1]);
                }
            }
            assert forall|k: int| 0 <= k < m + 1 implies (#[trigger] no[k] as int) < m + 1 by {
                if k < p {
                } else if k == p {
                } else {
                    assert(no[k] == o[k - 1]);
                }
            }
            let nm = no.map_values(|v: usize| v as int);
            assert forall|a: int, b: int| 0 <= a < nm.len() && 0 <= b < nm.len() && a != b implies nm[a] != nm[b] by {
                if a < b {
                    lemma_source_before_order(ss, no[a] as int, no[b] as int, no[b] as int);
                } else {
                    lemma_source_before_order(ss, no[b] as int, no[a] as int, no[a] as int);
                }
            }
        }
        m += 1;
    }
    let ghost ix = out@.map_values(|v: usize| v as int);
    let mut r: Vec<PackageSource> = Vec::new();
    let mut k: usize = 0;
    while k < out.len()
        invariant
            0 <= k <= out@.len(),
            ss == sources@,
            out@.len() == ss.len(),
            ix == out@.map_values(|v: usize| v as int),
            forall|j: int| 0 <= j < out@.len() ==> (#[trigger] out@[j] as int) < ss.len(),
            r@.len() == k,
            forall|j: int| 0 <= j < k ==> same_source(#[trigger] r@[j], ss[ix[j]]),
        decreases out@.len() - k,
    {
        r.push(sources[out[k]].copy());
        k += 1;
    }
    assert(is_source_order(ss, ix));
    r
}

/// What the details page offers: its primary action and label, whether the source may
/// be switched, the label of the source the package is installed from and the notice
/// that goes with it, and a summary of the sources.
#[derive(Debug, Clone)]
pub struct DetailsActions {
    pub primary_action: String,
    pub primary_action_label: String,
    pub source_switch_policy: String,
    pub installed_source_label: Option<String>,
    pub source_switch_notice: Option<String>,
    pub source_summary: Option<String>,
}

/// The installed source's label: the selected source's, else the installed repository,
/// for an installed package; none otherwise.
pub open spec fn installed_label(installed: bool, selected_label: Option<Seq<char>>, repo: Option<Seq<char>>) -> Option<Seq<char>> {
    if installed {
        match selected_label {
            Some(l) => Some(l),
            None => repo,
        }
    } else {
        None
    }
}

/// The decimal digits of a number.
pub open spec fn decimal(n: nat) -> Seq<char>
    decreases n,
{
    if n < 10 {
        seq![digit_char(n)]
    } else {
        decimal(n / 10).push(digit_char(n % 10))
    }
}

/// The ASCII digit for `d` (below ten).
pub open spec fn digit_char(d: nat) -> char {
    if d == 0 { '0' } else if d == 1 { '1' } else if d == 2 { '2' } else if d == 3 { '3' } else if d
        == 4 { '4' } else if d == 5 { '5' } else if d == 6 { '6' } else if d == 7 { '7' } else if d
        == 8 { '8' } else { '9' }
}

fn digit_of(d: usize) -> (r: char)
    requires
        d < 10,
    ensures
        r == digit_char(d as nat),
{
    if d == 0 { '0' } else if d == 1 { '1' } else if d == 2 { '2' } else if d == 3 { '3' } else if d
        == 4 { '4' } else if d == 5 { '5' } else if d == 6 { '6' } else if d == 7 { '7' } else if d
        == 8 { '8' } else { '9' }
}

/// The decimal digits of `n`.
pub fn decimal_of(n: usize) -> (r: Vec<char>)
    ensures
        r@ == decimal(n as nat),
    decreases n,
{
    if n < 10 {
        let mut v: Vec<char> = Vec::new();
        v.push(digit_of(n));
        v
    } else {
        let mut v = decimal_of(n / 10);
        v.push(digit_of(n % 10));
        v
    }
}

/// The summary of the sources of a package with `count` variants, the first labelled
/// `first_label`.
pub open spec fn sources_summary(count: nat, first_label: Seq<char>) -> Option<Seq<char>> {
    if count == 0 {
        None
    } else if count == 1 {
        Some("Primary source: "@ + first_label)
    } else {
        Some(decimal(count) + " sources available"@)
    }
}

/// The actions of a details page for an installed (or not) package, the label of the
/// selected source and of the installed repository, and its variants' sources.
pub fn details_actions(installed: bool, selected_label: Option<&str>, repo: Option<&str>, variants: &Vec<PackageVariant>) -> (r: DetailsActions)
    ensures
        r.primary_action@ == (if installed { "launch"@ } else { "install"@ }),
        r.primary_action_label@ == (if installed { "Launch"@ } else { "Install"@ }),
        r.source_switch_policy@ == (if installed { "informational_only"@ } else { "switch_allowed"@ }),
        opt_text(r.installed_source_label) == installed_label(
            installed,
            match selected_label {
                Some(l) => Some(l@),
                None => None,
            },
            match repo {
                Some(x) => Some(x@),
                None => None,
            },
        ),
        opt_text(r.source_switch_notice) == (match opt_text(r.installed_source_label) {
            Some(l) => Some(
                "Installed from "@ + l + ". To install from another source, uninstall the current app first."@,
            ),
            None => None,
        }),
        opt_text(r.source_summary) == sources_summary(
            variants@.len(),
            if variants@.len() > 0 {
                variants@[0].source.label@
            } else {
                Seq::empty()
            },
        ),
{
    let label: Option<String> = if installed {
        match selected_label {
            Some(l) => Some(String::from_str(l)),
            None => match repo {
                Some(x) => Some(String::from_str(x)),
                None => None,
            },
        }
    } else {
        None
    };
    let notice = match &label {
        Some(l) => {
            let a = crate::text::concat_str(chars_of("Installed from ").as_slice(), l.as_str());
            let b = crate::text::concat_str(
                a.as_slice(),
                ". To install from another source, uninstall the current app first.",
            );
            Some(string_of(b.as_slice()))
        },
        None => None,
    };
    let summary = if variants.len() == 0 {
        None
    } else if variants.len() == 1 {
        let a = crate::text::concat_str(chars_of("Primary source: ").as_slice(), variants[0].source.label.as_str());
        Some(string_of(a.as_slice()))
    } else {
        let d = decimal_of(variants.len());
        let a = crate::text::concat_str(d.as_slice(), " sources available");
        Some(string_of(a.as_slice()))
    };
    DetailsActions {
        primary_action: String::from_str(if installed { "launch" } else { "install" }),
        primary_action_label: String::from_str(if installed { "Launch" } else { "Install" }),
        source_switch_policy: String::from_str(if installed { "informational_only" } else { "switch_allowed" }),
        installed_source_label: label,
        source_switch_notice: notice,
        source_summary: summary,
    }
}


proof fn lemma_rank_filters_multiset(vs: Seq<PackageVariant>, sel: Option<PackageSource>, pref: Option<PackageSource>)
    ensures
        vs.filter(has_rank(sel, pref, 0)).to_multiset().add(vs.filter(has_rank(sel, pref, 1)).to_multiset()).add(
            vs.filter(has_rank(sel, pref, 2)).to_multiset(),
        ) =~= vs.to_multiset(),
    decreases vs.len(),
{
    broadcast use vstd::seq_lib::group_to_multiset_ensures;
    broadcast use vstd::multiset::group_multiset_axioms;

    if vs.len() == 0 {
        assert(vs.filter(has_rank(sel, pref, 0)) =~= Seq::<PackageVariant>::empty());
        assert(vs.filter(has_rank(sel, pref, 1)) =~= Seq::<PackageVariant>::empty());
        assert(vs.filter(has_rank(sel, pref, 2)) =~= Seq::<PackageVariant>::empty());
        assert(vs =~= Seq::<PackageVariant>::empty());
    } else {
        let dl = vs.drop_last();
        let x = vs.last();
        lemma_rank_filters_multiset(dl, sel, pref);
        assert(vs =~= dl.push(x));
        let rk = variant_rank(x, sel, pref);
        assert(vs.drop_last() == dl);
        let m0 = dl.filter(has_rank(sel, pref, 0));
        let m1 = dl.filter(has_rank(sel, pref, 1));
        let m2 = dl.filter(has_rank(sel, pref, 2));
        dl.lemma_filter_push(x, has_rank(sel, pref, 0));
        dl.lemma_filter_push(x, has_rank(sel, pref, 1));
        dl.lemma_filter_push(x, has_rank(sel, pref, 2));
        if rk == 0 {
            assert(vs.filter(has_rank(sel, pref, 0)) == m0.push(x));
            assert(vs.filter(has_rank(sel, pref, 1)) == m1);
            assert(vs.filter(has_rank(sel, pref, 2)) == m2);
        } else if rk == 1 {
            assert(vs.filter(has_rank(sel, pref, 0)) == m0);
            assert(vs.filter(has_rank(sel, pref, 1)) == m1.push(x));
            assert(vs.filter(has_rank(sel, pref, 2)) == m2);
        } else {
            assert(vs.filter(has_rank(sel, pref, 0)) == m0);
            assert(vs.filter(has_rank(sel, pref, 1)) == m1);
            assert(vs.filter(has_rank(sel, pref, 2)) == m2.push(x));
        }
        assert(vs.to_multiset() == dl.to_multiset().insert(x));
    }
}

/// Reordering the variants for a selected source is a permutation that puts the
/// selected source's family first, the preferred default's family next and the rest last:
/// it keeps every variant as often as it occurs, and the ranks never decrease along it.
pub proof fn law_reorder_is_a_ranked_permutation(
    vs: Seq<PackageVariant>,
    selected: Option<PackageSource>,
    preferred: Option<PackageSource>,
)
    ensures
        reordered(vs, selected, preferred).to_multiset() =~= vs.to_multiset(),
        forall|i: int, j: int|
            0 <= i < j < vs.len() ==> variant_rank(#[trigger] reordered(vs, selected, preferred)[i], selected, preferred)
                <= variant_rank(#[trigger] reordered(vs, selected, preferred)[j], selected, preferred),
{
    let f0 = vs.filter(has_rank(selected, preferred, 0));
    let f1 = vs.filter(has_rank(selected, preferred, 1));
    let f2 = vs.filter(has_rank(selected, preferred, 2));
    vstd::seq_lib::lemma_multiset_commutative(f0, f1);
    vstd::seq_lib::lemma_multiset_commutative(f0 + f1, f2);
    lemma_rank_filters_multiset(vs, selected, preferred);
    vs.filter_lemma(has_rank(selected, preferred, 0));
    vs.filter_lemma(has_rank(selected, preferred, 1));
    vs.filter_lemma(has_rank(selected, preferred, 2));
    let r = reordered(vs, selected, preferred);
    assert forall|i: int| 0 <= i < r.len() implies variant_rank(#[trigger] r[i], selected, preferred) == (if i
        < f0.len() {
        0int
    } else if i < f0.len() + f1.len() {
        1int
    } else {
        2int
    }) by {
        if i < f0.len() {
            assert(r[i] == f0[i]);
            assert(has_rank(selected, preferred, 0)(f0[i]));
        } else if i < f0.len() + f1.len() {
            assert(r[i] == f1[i - f0.len()]);
            assert(has_rank(selected, preferred, 1)(f1[i - f0.len()]));
        } else {
            assert(r[i] == f2[i - f0.len() - f1.len()]);
            assert(has_rank(selected, preferred, 2)(f2[i - f0.len() - f1.len()]));
        }
    }
    assert(r.to_multiset() == vs.to_multiset());
    assert(r.len() == vs.len()) by {
        broadcast use vstd::seq_lib::group_to_multiset_ensures;
        assert(r.len() == r.to_multiset().len());
        assert(vs.len() == vs.to_multiset().len());
    }
}

/// Filtering twice keeps what passes both tests.
proof fn lemma_filter_twice(s: Seq<PackageVariant>, p: spec_fn(PackageVariant) -> bool, q: spec_fn(PackageVariant) -> bool)
    ensures
        s.filter(p).filter(q) == s.filter(|v: PackageVariant| p(v) && q(v)),
    decreases s.len(),
{
    reveal(Seq::filter);
    if s.len() > 0 {
        lemma_filter_twice(s.drop_last(), p, q);
        let both = |v: PackageVariant| p(v) && q(v);
        if p(s.last()) {
            assert(s.filter(p) == s.drop_last().filter(p).push(s.last()));
            assert(s.filter(p).drop_last() =~= s.drop_last().filter(p));
        } else {
            assert(s.filter(p) == s.drop_last().filter(p));
        }
    }
}

/// Nothing passes a test that nothing meets.
proof fn lemma_filter_none(s: Seq<PackageVariant>, p: spec_fn(PackageVariant) -> bool)
    requires
        forall|v: PackageVariant| !#[trigger] p(v),
    ensures
        s.filter(p).len() == 0,
    decreases s.len(),
{
    reveal(Seq::filter);
    if s.len() > 0 {
        lemma_filter_none(s.drop_last(), p);
    }
}

/// Reordering is stable: the variants of any one rank come out in the order they went in.
pub proof fn law_reorder_is_stable(
    vs: Seq<PackageVariant>,
    selected: Option<PackageSource>,
    preferred: Option<PackageSource>,
    k: int,
)
    ensures
        reordered(vs, selected, preferred).filter(has_rank(selected, preferred, k)) == vs.filter(
            has_rank(selected, preferred, k),
        ),
{
    let h = |j: int| has_rank(selected, preferred, j);
    let f0 = vs.filter(h(0));
    let f1 = vs.filter(h(1));
    let f2 = vs.filter(h(2));
    Seq::filter_distributes_over_add(f0 + f1, f2, h(k));
    Seq::filter_distributes_over_add(f0, f1, h(k));
    assert forall|j: int| 0 <= j <= 2 implies #[trigger] vs.filter(h(j)).filter(h(k)) == (if j == k {
        vs.filter(h(k))
    } else {
        Seq::<PackageVariant>::empty()
    }) by {
        lemma_filter_twice(vs, h(j), h(k));
        let both = |v: PackageVariant| h(j)(v) && h(k)(v);
        if j == k {
            assert(both =~= h(k));
        } else {
            lemma_filter_none(vs, both);
            assert(vs.filter(both) =~= Seq::<PackageVariant>::empty());
        }
    }
    assert(f0.filter(h(k)) == vs.filter(h(0)).filter(h(k)));
    assert(f1.filter(h(k)) == vs.filter(h(1)).filter(h(k)));
    assert(f2.filter(h(k)) == vs.filter(h(2)).filter(h(k)));
    if !(0 <= k <= 2) {
        lemma_filter_none(vs, h(k));
        assert(vs.filter(h(k)) =~= Seq::<PackageVariant>::empty());
    }
    assert(reordered(vs, selected, preferred).filter(h(k)) =~= vs.filter(h(k)));
}

// ---------------------------------------------------------------------------
// Remote metadata for the details page
// ---------------------------------------------------------------------------

/// The parts of a details page that Flathub metadata can fill in: the long description,
/// the screenshots, the icon and the application id.
#[derive(Debug, Clone)]
pub struct DetailsMedia {
    pub long_description: Option<String>,
    pub screenshots: Option<Vec<String>>,
    pub icon: Option<String>,
    pub app_id: Option<String>,
}

/// What the page lacks: a long description that is missing or blank, screenshots that
/// are missing or none, an icon that is missing or a local path, an application id.
pub open spec fn media_needs(d: DetailsMedia) -> (bool, bool, bool, bool) {
    (
        match d.long_description {
            Some(t) => crate::text::trim(t@).len() == 0,
            None => true,
        },
        match d.screenshots {
            Some(v) => v@.len() == 0,
            None => true,
        },
        match d.icon {
            Some(i) => i@.len() > 0 && i@[0] == '/',
            None => true,
        },
        d.app_id is None,
    )
}

/// What a details page lacks that remote metadata can fill (long description,
/// screenshots, icon, application id); it is fetched when any of them is lacking.
pub fn remote_metadata_needs(d: &DetailsMedia) -> (r: (bool, bool, bool, bool))
    ensures
        r == media_needs(*d),
{
    let long = match &d.long_description {
        Some(t) => crate::text::trim_chars(chars_of(t.as_str()).as_slice()).len() == 0,
        None => true,
    };
    let shots = match &d.screenshots {
        Some(v) => v.len() == 0,
        None => true,
    };
    let icon = match &d.icon {
        Some(i) => {
            let c = chars_of(i.as_str());
            c.len() > 0 && c[0] == '/'
        },
        None => true,
    };
    (long, shots, icon, d.app_id.is_none())
}

/// Fills what the page lacks from the Flathub metadata `meta`: its application id where
/// the page has none, its description, its screenshots and its icon where the page lacks
/// them; the rest stays. Whether anything was filled in (the page is then stored again).
pub fn fill_from_remote_metadata(d: &mut DetailsMedia, meta: crate::flathub::AppMetadata) -> (r: bool)
    ensures
        ({
            let (long, shots, icon, app) = media_needs(*old(d));
            &&& r == (long || shots || icon || app)
            &&& final(d).long_description == (if long { meta.description } else { old(d).long_description })
            &&& final(d).screenshots == (if shots { Some(meta.screenshots) } else { old(d).screenshots })
            &&& final(d).icon == (if icon { meta.icon_url } else { old(d).icon })
            &&& final(d).app_id == (if app { Some(meta.app_id) } else { old(d).app_id })
        }),
{
    let (long, shots, icon, app) = remote_metadata_needs(d);
    if app {
        d.app_id = Some(meta.app_id);
    }
    if long {
        d.long_description = meta.description;
    }
    if shots {
        d.screenshots = Some(meta.screenshots);
    }
    if icon {
        d.icon = meta.icon_url;
    }
    long || shots || icon || app
}

} // verus!
