//! pacman.conf reading: repository sections, Include directives and Server templates.
//!
//! A configuration is read line by line. The caller follows `Include` lines into the files
//! they name (that is file access) and hands the lines of all files, in reading order, to
//! the folds below, which decide what the configuration declares.
use vstd::prelude::*;
use crate::text::{
    chars_of, concat, concat_str, contains, contains_str, ends_with, eq_str, is_prefix,
    is_suffix, lower_chars, occurs_at, string_views, contains_string, lowercase, replace, replace_all, slice_copy, starts_with, string_of,
    trim, trim_chars, trim_end_char, trim_end_char_chars,
};

verus! {

/// What one line of pacman.conf declares.
#[derive(Debug, Clone)]
pub enum ConfLine {
    /// Empty line or comment.
    Blank,
    /// A `[section]` header, with the section name.
    Section(String),
    /// An `Include` directive, with the path as written.
    Include(String),
    /// A `Server` directive, with the URL template.
    Server(String),
    /// Anything else (options and the like).
    Other,
}

/// A configuration line with its text as characters.
pub enum ConfLineView {
    Blank,
    Section(Seq<char>),
    Include(Seq<char>),
    Server(Seq<char>),
    Other,
}

impl View for ConfLine {
    type V = ConfLineView;

    open spec fn view(&self) -> ConfLineView {
        match self {
            ConfLine::Blank => ConfLineView::Blank,
            ConfLine::Section(s) => ConfLineView::Section(s@),
            ConfLine::Include(s) => ConfLineView::Include(s@),
            ConfLine::Server(s) => ConfLineView::Server(s@),
            ConfLine::Other => ConfLineView::Other,
        }
    }
}

/// `s` without its leading `=` and space characters.
pub open spec fn strip_assign(s: Seq<char>) -> Seq<char>
    decreases s.len(),
{
    if s.len() > 0 && (s[0] == '=' || s[0] == ' ') {
        strip_assign(s.drop_first())
    } else {
        s
    }
}

/// `s` without leading and trailing single and double quotes.
pub open spec fn strip_quotes(s: Seq<char>) -> Seq<char>
    decreases s.len(),
{
    if s.len() > 0 && (s[0] == '"' || s[0] == '\'') {
        strip_quotes(s.drop_first())
    } else if s.len() > 0 && (s.last() == '"' || s.last() == '\'') {
        strip_quotes(s.drop_last())
    } else {
        s
    }
}

/// The value of a directive whose name takes the first `k` characters of `line`: the rest
/// of the line with the `=` and spaces in front removed, then trimmed.
pub open spec fn directive_value(line: Seq<char>, k: int) -> Seq<char> {
    trim(strip_assign(line.skip(k)))
}

/// What the raw line `raw` declares. Directive names are matched case-insensitively; the
/// value of a directive is what follows its name (`Include`, `Server`), the `=` and the
/// spaces around it.
pub open spec fn conf_line_of(raw: Seq<char>) -> ConfLineView {
    let line = trim(raw);
    if line.len() == 0 || line[0] == '#' {
        ConfLineView::Blank
    } else if line[0] == '[' && line.last() == ']' {
        ConfLineView::Section(trim(line.subrange(1, line.len() - 1)))
    } else if line.len() >= 7 && is_prefix("include"@, lowercase(line)) {
        ConfLineView::Include(strip_quotes(directive_value(line, 7)))
    } else if line.len() >= 6 && is_prefix("server"@, lowercase(line)) {
        ConfLineView::Server(directive_value(line, 6))
    } else {
        ConfLineView::Other
    }
}

/// The repository sections declared by the lines `ls`, in first-declaration order, without
/// duplicates and without `[options]`.
pub open spec fn sections_of(ls: Seq<ConfLineView>) -> Seq<Seq<char>>
    decreases ls.len(),
{
    if ls.len() == 0 {
        Seq::empty()
    } else {
        let prev = sections_of(ls.drop_last());
        match ls.last() {
            ConfLineView::Section(s) => if s != "options"@ && !prev.contains(s) {
                prev.push(s)
            } else {
                prev
            },
            _ => prev,
        }
    }
}

/// The database URL for `repo` from the Server template `template` on the machine
/// architecture `arch`: an explicit `.db` URL is kept; otherwise the `$repo` and `$arch`
/// variables (also `_v3`, `_v4` and `_znver4` variants, braced or not) are substituted,
/// trailing slashes removed, and `/<repo>.db` appended.
pub open spec fn db_url_of(repo: Seq<char>, template: Seq<char>, arch: Seq<char>) -> Option<
    Seq<char>,
> {
    let raw = trim(template);
    if raw.len() == 0 {
        None
    } else if is_suffix(".db"@, raw) || contains(raw, ".db?"@) {
        Some(raw)
    } else {
        let v3 = arch + "_v3"@;
        let v4 = arch + "_v4"@;
        let znver4 = arch + "_znver4"@;
        let r1 = replace(raw, "${repo}"@, repo);
        let r2 = replace(r1, "$repo"@, repo);
        let r3 = replace(r2, "${arch_znver4}"@, znver4);
        let r4 = replace(r3, "$arch_znver4"@, znver4);
        let r5 = replace(r4, "${arch_v4}"@, v4);
        let r6 = replace(r5, "$arch_v4"@, v4);
        let r7 = replace(r6, "${arch_v3}"@, v3);
        let r8 = replace(r7, "$arch_v3"@, v3);
        let r9 = replace(r8, "${arch}"@, arch);
        let r10 = replace(r9, "$arch"@, arch);
        let trimmed = trim_end_char(r10, '/');
        if trimmed.len() == 0 {
            None
        } else {
            Some(trimmed + "/"@ + repo + ".db"@)
        }
    }
}

/// The server map after the lines `ls`, with the section in effect: each Server line
/// under a repository section adds its database URL to that repository's list.
pub open spec fn servers_of(ls: Seq<ConfLineView>, arch: Seq<char>) -> (
    Map<Seq<char>, Seq<Seq<char>>>,
    Option<Seq<char>>,
)
    decreases ls.len(),
{
    if ls.len() == 0 {
        (Map::empty(), None)
    } else {
        let (m, cur) = servers_of(ls.drop_last(), arch);
        match ls.last() {
            ConfLineView::Section(s) => if s == "options"@ {
                (m, None)
            } else {
                (m, Some(s))
            },
            ConfLineView::Server(rest) => match cur {
                Some(repo) => if rest.len() == 0 {
                    (m, cur)
                } else {
                    match db_url_of(repo, rest, arch) {
                        Some(url) => (
                            m.insert(
                                repo,
                                if m.contains_key(repo) {
                                    m[repo].push(url)
                                } else {
                                    seq![url]
                                },
                            ),
                            cur,
                        ),
                        None => (m, cur),
                    }
                },
                None => (m, cur),
            },
            _ => (m, cur),
        }
    }
}

/// The views of configuration lines.
pub open spec fn line_views(v: Seq<ConfLine>) -> Seq<ConfLineView> {
    v.map_values(|l: ConfLine| l@)
}

/// `pairs` lists the map `m` once per key.
pub open spec fn represents(pairs: Seq<(String, Vec<String>)>, m: Map<Seq<char>, Seq<Seq<char>>>) -> bool {
    &&& forall|i: int|
        0 <= i < pairs.len() ==> m.contains_key(#[trigger] pairs[i].0@) && m[pairs[i].0@]
            == string_views(pairs[i].1@)
    &&& forall|k: Seq<char>|
        m.contains_key(k) ==> exists|i: int| 0 <= i < pairs.len() && #[trigger] pairs[i].0@ == k
    &&& forall|i: int, j: int| 0 <= i < j < pairs.len() ==> pairs[i].0@ != pairs[j].0@
}

fn strip_assign_chars(s: &[char]) -> (r: Vec<char>)
    ensures
        r@ == strip_assign(s@),
{
    let mut i: usize = 0;
    assert(s@.subrange(0, s@.len() as int) == s@);
    while i < s.len() && (s[i] == '=' || s[i] == ' ')
        invariant
            0 <= i <= s@.len(),
            strip_assign(s@.subrange(i as int, s@.len() as int)) == strip_assign(s@),
        decreases s@.len() - i,
    {
        let ghost cur = s@.subrange(i as int, s@.len() as int);
        assert(cur[0] == s@[i as int]);
        assert(cur.drop_first() == s@.subrange(i + 1, s@.len() as int));
        i += 1;
    }
    proof {
        let cur = s@.subrange(i as int, s@.len() as int);
        if cur.len() > 0 {
            assert(cur[0] == s@[i as int]);
        }
    }
    slice_copy(s, i, s.len())
}

fn is_quote(c: char) -> (r: bool)
    ensures
        r == (c == '"' || c == '\''),
{
    c == '"' || c == '\''
}

fn strip_quotes_chars(s: &[char]) -> (r: Vec<char>)
    ensures
        r@ == strip_quotes(s@),
{
    let mut i: usize = 0;
    let mut k: usize = s.len();
    assert(s@.subrange(0, k as int) == s@);
    while i < k && (is_quote(s[i]) || is_quote(s[k - 1]))
        invariant
            0 <= i <= k <= s@.len(),
            strip_quotes(s@.subrange(i as int, k as int)) == strip_quotes(s@),
        decreases k - i,
    {
        let ghost cur = s@.subrange(i as int, k as int);
        if is_quote(s[i]) {
            assert(cur[0] == s@[i as int]);
            assert(cur.drop_first() == s@.subrange(i + 1, k as int));
            i += 1;
        } else {
            assert(cur[0] == s@[i as int]);
            assert(cur.last() == s@[k - 1]);
            assert(cur.drop_last() == s@.subrange(i as int, k - 1));
            k -= 1;
        }
    }
    proof {
        let cur = s@.subrange(i as int, k as int);
        if cur.len() > 0 {
            assert(cur[0] == s@[i as int]);
            assert(cur.last() == s@[k - 1]);
        }
    }
    slice_copy(s, i, k)
}

fn directive_value_chars(line: &[char], k: usize) -> (r: Vec<char>)
    requires
        line@.len() >= k,
    ensures
        r@ == directive_value(line@, k as int),
{
    let rest = slice_copy(line, k, line.len());
    assert(rest@ == line@.skip(k as int));
    let stripped = strip_assign_chars(rest.as_slice());
    trim_chars(stripped.as_slice())
}

/// Classifies one raw line of pacman.conf.
pub fn parse_conf_line(raw: &str) -> (r: ConfLine)
    ensures
        r@ == conf_line_of(raw@),
{
    let rv = chars_of(raw);
    let line = trim_chars(rv.as_slice());
    let n = line.len();
    if n == 0 || line[0] == '#' {
        return ConfLine::Blank;
    }
    if line[0] == '[' && line[n - 1] == ']' {
        let inner = slice_copy(line.as_slice(), 1, n - 1);
        let name = trim_chars(inner.as_slice());
        return ConfLine::Section(string_of(name.as_slice()));
    }
    if n < 6 {
        return ConfLine::Other;
    }
    let ls = string_of(line.as_slice());
    let lower = lower_chars(ls.as_str());
    if n >= 7 && starts_with(lower.as_slice(), "include") {
        let value = directive_value_chars(line.as_slice(), 7);
        let path = strip_quotes_chars(value.as_slice());
        return ConfLine::Include(string_of(path.as_slice()));
    }
    if starts_with(lower.as_slice(), "server") {
        let value = directive_value_chars(line.as_slice(), 6);
        return ConfLine::Server(string_of(value.as_slice()));
    }
    ConfLine::Other
}

/// The repository sections that the configuration lines `lines` declare, in order of
/// first declaration, each once, `[options]` excluded.
pub fn collect_repo_sections_from_conf(lines: &Vec<ConfLine>) -> (r: Vec<String>)
    ensures
        string_views(r@) == sections_of(line_views(lines@)),
{
    let mut sections: Vec<String> = Vec::new();
    let mut i: usize = 0;
    while i < lines.len()
        invariant
            0 <= i <= lines@.len(),
            string_views(sections@) == sections_of(line_views(lines@).take(i as int)),
        decreases lines@.len() - i,
    {
        let ghost prefix = line_views(lines@).take(i as int);
        let ghost next = line_views(lines@).take(i + 1);
        assert(next.drop_last() == prefix);
        assert(next.last() == lines@[i as int]@);
        match &lines[i] {
            ConfLine::Section(s) => {
                let sv = chars_of(s.as_str());
                if !eq_str(sv.as_slice(), "options") && !contains_string(&sections, sv.as_slice()) {
                    let ghost old = sections@;
                    sections.push(s.clone());
                    assert(string_views(sections@) == string_views(old).push(s@));
                }
            },
            _ => {},
        }
        i += 1;
    }
    assert(line_views(lines@).take(lines@.len() as int) == line_views(lines@));
    sections
}

/// The database URL that the Server template `template` gives for `repo` on the machine
/// architecture `arch`; `None` when the template is blank or resolves to nothing.
pub fn server_template_to_db_url(repo_name: &str, template: &str, arch: &str) -> (r: Option<
    String,
>)
    ensures
        match r {
            Some(u) => db_url_of(repo_name@, template@, arch@) == Some(u@),
            None => db_url_of(repo_name@, template@, arch@) is None,
        },
{
    let tv = chars_of(template);
    let raw = trim_chars(tv.as_slice());
    if raw.len() == 0 {
        return None;
    }
    if ends_with(raw.as_slice(), ".db") || contains_str(raw.as_slice(), ".db?") {
        return Some(string_of(raw.as_slice()));
    }
    let av = chars_of(arch);
    let v3v = concat_str(av.as_slice(), "_v3");
    let v4v = concat_str(av.as_slice(), "_v4");
    let znv = concat_str(av.as_slice(), "_znver4");
    let v3 = string_of(v3v.as_slice());
    let v4 = string_of(v4v.as_slice());
    let znver4 = string_of(znv.as_slice());
    proof {
        reveal_strlit("${repo}");
        reveal_strlit("$repo");
        reveal_strlit("${arch_znver4}");
        reveal_strlit("$arch_znver4");
        reveal_strlit("${arch_v4}");
        reveal_strlit("$arch_v4");
        reveal_strlit("${arch_v3}");
        reveal_strlit("$arch_v3");
        reveal_strlit("${arch}");
        reveal_strlit("$arch");
    }
    let r1 = replace_all(raw.as_slice(), "${repo}", repo_name);
    let r2 = replace_all(r1.as_slice(), "$repo", repo_name);
    let r3 = replace_all(r2.as_slice(), "${arch_znver4}", znver4.as_str());
    let r4 = replace_all(r3.as_slice(), "$arch_znver4", znver4.as_str());
    let r5 = replace_all(r4.as_slice(), "${arch_v4}", v4.as_str());
    let r6 = replace_all(r5.as_slice(), "$arch_v4", v4.as_str());
    let r7 = replace_all(r6.as_slice(), "${arch_v3}", v3.as_str());
    let r8 = replace_all(r7.as_slice(), "$arch_v3", v3.as_str());
    let r9 = replace_all(r8.as_slice(), "${arch}", arch);
    let r10 = replace_all(r9.as_slice(), "$arch", arch);
    let trimmed = trim_end_char_chars(r10.as_slice(), '/');
    if trimmed.len() == 0 {
        return None;
    }
    let a = concat_str(trimmed.as_slice(), "/");
    let b = concat_str(a.as_slice(), repo_name);
    let c = concat_str(b.as_slice(), ".db");
    Some(string_of(c.as_slice()))
}

/// Public entry point for resolving a Server template; see `server_template_to_db_url`.
pub fn resolve_server_template_to_db_url(repo_name: &str, template: &str, arch: &str) -> (r: Option<
    String,
>)
    ensures
        match r {
            Some(u) => db_url_of(repo_name@, template@, arch@) == Some(u@),
            None => db_url_of(repo_name@, template@, arch@) is None,
        },
{
    server_template_to_db_url(repo_name, template, arch)
}

/// The index of the pair whose key is `key`, if any.
fn find_key(pairs: &Vec<(String, Vec<String>)>, key: &[char]) -> (r: Option<usize>)
    ensures
        match r {
            Some(i) => i < pairs@.len() && pairs@[i as int].0@ == key@,
            None => forall|i: int| 0 <= i < pairs@.len() ==> #[trigger] pairs@[i].0@ != key@,
        },
{
    let mut i: usize = 0;
    while i < pairs.len()
        invariant
            0 <= i <= pairs@.len(),
            forall|j: int| 0 <= j < i ==> #[trigger] pairs@[j].0@ != key@,
        decreases pairs@.len() - i,
    {
        let k = chars_of(pairs[i].0.as_str());
        if crate::text::eq(k.as_slice(), key) {
            return Some(i);
        }
        i += 1;
    }
    None
}

/// Adds `url` to the list of `repo` in the pair list.
fn add_server(pairs: &mut Vec<(String, Vec<String>)>, repo: &String, url: String, Ghost(m): Ghost<
    Map<Seq<char>, Seq<Seq<char>>>,
>)
    requires
        represents(old(pairs)@, m),
    ensures
        represents(
            final(pairs)@,
            m.insert(
                repo@,
                if m.contains_key(repo@) {
                    m[repo@].push(url@)
                } else {
                    seq![url@]
                },
            ),
        ),
{
    let rv = chars_of(repo.as_str());
    let ghost m2 = m.insert(
        repo@,
        if m.contains_key(repo@) {
            m[repo@].push(url@)
        } else {
            seq![url@]
        },
    );
    match find_key(pairs, rv.as_slice()) {
        Some(idx) => {
            let ghost old_pairs = pairs@;
            let mut entry = pairs.remove(idx);
            let ghost old_urls = entry.1@;
            entry.1.push(url);
            assert(string_views(entry.1@) == string_views(old_urls).push(url@));
            pairs.insert(idx, entry);
            assert(pairs@ == old_pairs.update(idx as int, entry));
            assert forall|i: int| 0 <= i < pairs@.len() implies m2.contains_key(
                #[trigger] pairs@[i].0@,
            ) && m2[pairs@[i].0@] == string_views(pairs@[i].1@) by {
                if i != idx {
                    assert(pairs@[i] == old_pairs[i]);
                    assert(old_pairs[i].0@ != old_pairs[idx as int].0@);
                }
            }
            assert forall|k: Seq<char>| m2.contains_key(k) implies exists|i: int|
                0 <= i < pairs@.len() && #[trigger] pairs@[i].0@ == k by {
                if k == repo@ {
                    assert(pairs@[idx as int].0@ == k);
                } else {
                    let i = choose|i: int| 0 <= i < old_pairs.len() && #[trigger] old_pairs[i].0@ == k;
                    assert(pairs@[i].0@ == k);
                }
            }
            assert forall|i: int, j: int| 0 <= i < j < pairs@.len() implies pairs@[i].0@
                != pairs@[j].0@ by {
                assert(pairs@[i].0@ == old_pairs[i].0@);
                assert(pairs@[j].0@ == old_pairs[j].0@);
            }
        },
        None => {
            assert(!m.contains_key(repo@));
            let ghost old_pairs = pairs@;
            let mut urls: Vec<String> = Vec::new();
            urls.push(url);
            assert(string_views(urls@) == seq![url@]);
            pairs.push((repo.clone(), urls));
            let ghost n = old_pairs.len() as int;
            assert forall|i: int| 0 <= i < pairs@.len() implies m2.contains_key(
                #[trigger] pairs@[i].0@,
            ) && m2[pairs@[i].0@] == string_views(pairs@[i].1@) by {
                if i < n {
                    assert(pairs@[i] == old_pairs[i]);
                }
            }
            assert forall|k: Seq<char>| m2.contains_key(k) implies exists|i: int|
                0 <= i < pairs@.len() && #[trigger] pairs@[i].0@ == k by {
                if k == repo@ {
                    assert(pairs@[n].0@ == k);
                } else {
                    let i = choose|i: int| 0 <= i < old_pairs.len() && #[trigger] old_pairs[i].0@ == k;
                    assert(pairs@[i].0@ == k);
                }
            }
            assert forall|i: int, j: int| 0 <= i < j < pairs@.len() implies pairs@[i].0@
                != pairs@[j].0@ by {
                assert(pairs@[i].0@ == old_pairs[i].0@);
                if j < n {
                    assert(pairs@[j].0@ == old_pairs[j].0@);
                }
            }
        },
    }
}

/// The database URLs of each repository that the configuration lines `lines` declare,
/// resolved for the machine architecture `arch`: one pair per repository with servers,
/// listing its URLs in declaration order.
pub fn get_repo_servers_from_conf(lines: &Vec<ConfLine>, arch: &str) -> (r: Vec<(String, Vec<String>)>)
    ensures
        represents(r@, servers_of(line_views(lines@), arch@).0),
{
    let mut pairs: Vec<(String, Vec<String>)> = Vec::new();
    let mut current: Option<String> = None;
    let mut i: usize = 0;
    assert(represents(pairs@, Map::empty()));
    while i < lines.len()
        invariant
            0 <= i <= lines@.len(),
            represents(pairs@, servers_of(line_views(lines@).take(i as int), arch@).0),
            match current {
                Some(c) => servers_of(line_views(lines@).take(i as int), arch@).1 == Some(c@),
                None => servers_of(line_views(lines@).take(i as int), arch@).1 is None,
            },
        decreases lines@.len() - i,
    {
        let ghost prefix = line_views(lines@).take(i as int);
        let ghost next = line_views(lines@).take(i + 1);
        assert(next.drop_last() == prefix);
        assert(next.last() == lines@[i as int]@);
        let ghost m = servers_of(prefix, arch@).0;
        match &lines[i] {
            ConfLine::Section(s) => {
                let sv = chars_of(s.as_str());
                if eq_str(sv.as_slice(), "options") {
                    current = None;
                } else {
                    current = Some(s.clone());
                }
            },
            ConfLine::Server(rest) => {
                match &current {
                    Some(repo) => {
                        if !rest.as_str().is_empty() {
                            match server_template_to_db_url(repo.as_str(), rest.as_str(), arch) {
                                Some(url) => {
                                    add_server(&mut pairs, repo, url, Ghost(m));
                                },
                                None => {},
                            }
                        } else {
                            assert(rest@.len() == 0);
                        }
                    },
                    None => {},
                }
            },
            _ => {},
        }
        i += 1;
    }
    assert(line_views(lines@).take(lines@.len() as int) == line_views(lines@));
    pairs
}

/// The repositories registered from a configuration never include `[options]` and never
/// repeat: each section is registered once, however often it is declared.
pub proof fn law_sections_unique_and_without_options(ls: Seq<ConfLineView>)
    ensures
        sections_of(ls).no_duplicates(),
        !sections_of(ls).contains("options"@),
    decreases ls.len(),
{
    if ls.len() > 0 {
        law_sections_unique_and_without_options(ls.drop_last());
        let prev = sections_of(ls.drop_last());
        match ls.last() {
            ConfLineView::Section(s) => {
                if s != "options"@ && !prev.contains(s) {
                    assert forall|i: int, j: int|
                        0 <= i < prev.push(s).len() && 0 <= j < prev.push(s).len() && i != j
                            implies prev.push(s)[i] != prev.push(s)[j] by {
                        if i < prev.len() && j < prev.len() {
                        } else if i == prev.len() {
                            assert(prev.push(s)[j] == prev[j]);
                        } else {
                            assert(prev.push(s)[i] == prev[i]);
                        }
                    }
                    assert(!prev.push(s).contains("options"@)) by {
                        if prev.push(s).contains("options"@) {
                            let k = choose|k: int| 0 <= k < prev.push(s).len() && prev.push(s)[k]
                                == "options"@;
                            if k < prev.len() {
                                assert(prev[k] == "options"@);
                            }
                        }
                    }
                }
            },
            _ => {},
        }
    }
}

/// Every resolved database URL names a database file: it ends in `.db`, or it is an
/// explicit URL that already carried `.db?` with a query.
pub proof fn law_db_urls_name_a_database(repo: Seq<char>, template: Seq<char>, arch: Seq<char>)
    requires
        db_url_of(repo, template, arch) is Some,
    ensures
        is_suffix(".db"@, db_url_of(repo, template, arch)->0) || contains(
            db_url_of(repo, template, arch)->0,
            ".db?"@,
        ),
{
    let raw = trim(template);
    if !(is_suffix(".db"@, raw) || contains(raw, ".db?"@)) {
        let u = db_url_of(repo, template, arch)->0;
        let head = u.subrange(0, u.len() - 3);
        reveal_strlit(".db");
        assert(u.subrange(u.len() - 3, u.len() as int) =~= ".db"@);
    }
}


/// A blank Server template gives no database URL, and a template that is not already a
/// database URL gives one that ends in `/<repo>.db`.
pub proof fn law_db_url_from_template(repo: Seq<char>, template: Seq<char>, arch: Seq<char>)
    ensures
        trim(template).len() == 0 ==> db_url_of(repo, template, arch) is None,
        !(is_suffix(".db"@, trim(template)) || contains(trim(template), ".db?"@))
            && db_url_of(repo, template, arch) is Some ==> is_suffix(
            "/"@ + repo + ".db"@,
            db_url_of(repo, template, arch)->0,
        ),
{
    let raw = trim(template);
    if raw.len() > 0 && !(is_suffix(".db"@, raw) || contains(raw, ".db?"@)) && db_url_of(
        repo,
        template,
        arch,
    ) is Some {
        let u = db_url_of(repo, template, arch)->0;
        let tail = "/"@ + repo + ".db"@;
        let head = u.subrange(0, u.len() - tail.len());
        assert(u.subrange(u.len() - tail.len(), u.len() as int) =~= tail);
    }
}

/// The Server template variables, in the order they are substituted.
pub open spec fn template_variables() -> Seq<Seq<char>> {
    seq![
        "${repo}"@,
        "$repo"@,
        "${arch_znver4}"@,
        "$arch_znver4"@,
        "${arch_v4}"@,
        "$arch_v4"@,
        "${arch_v3}"@,
        "$arch_v3"@,
        "${arch}"@,
        "$arch"@,
    ]
}

/// `s` holds no `$`.
pub open spec fn dollar_free(s: Seq<char>) -> bool {
    forall|k: int| 0 <= k < s.len() ==> s[k] != '$'
}

/// Every `$` of `s` begins an occurrence of one of `vars`.
pub open spec fn dollars_begin(s: Seq<char>, vars: Seq<Seq<char>>) -> bool {
    forall|i: int|
        0 <= i < s.len() && s[i] == '$' ==> exists|j: int| 0 <= j < vars.len() && #[trigger] occurs_at(s, vars[j], i)
}

/// `v` is a `$` followed by no other `$`.
pub open spec fn is_variable(v: Seq<char>) -> bool {
    v.len() > 0 && v[0] == '$' && forall|k: int| 1 <= k < v.len() ==> v[k] != '$'
}

proof fn lemma_replace_keeps_plain_prefix(s: Seq<char>, p: Seq<char>, w: Seq<char>, m: int)
    requires
        p.len() > 0,
        p[0] == '$',
        0 <= m <= s.len(),
        forall|k: int| 0 <= k < m ==> s[k] != '$',
    ensures
        replace(s, p, w).len() >= m,
        replace(s, p, w).take(m) == s.take(m),
    decreases s.len(),
{
    let r = replace(s, p, w);
    if s.len() == 0 {
        assert(r.take(m) =~= s.take(m));
    } else if p.len() <= s.len() && s.take(p.len() as int) == p {
        assert(s[0] == s.take(p.len() as int)[0]);
        assert(m == 0);
        assert(r.take(m) =~= s.take(m));
    } else if m == 0 {
        assert(r.take(m) =~= s.take(m));
    } else {
        let t = s.drop_first();
        lemma_replace_keeps_plain_prefix(t, p, w, m - 1);
        let rt = replace(t, p, w);
        assert(r == seq![s[0]] + rt);
        assert forall|k: int| 0 <= k < m implies r.take(m)[k] == s.take(m)[k] by {
            if k > 0 {
                assert(r[k] == rt[k - 1]);
                assert(rt[k - 1] == rt.take(m - 1)[k - 1]);
                assert(t.take(m - 1)[k - 1] == s[k]);
            }
        }
        assert(r.take(m) =~= s.take(m));
    }
}

proof fn lemma_dollars_begin_shift(s: Seq<char>, vars: Seq<Seq<char>>, d: int)
    requires
        0 <= d <= s.len(),
        dollars_begin(s, vars),
    ensures
        dollars_begin(s.skip(d), vars),
{
    let t = s.skip(d);
    assert forall|i: int| 0 <= i < t.len() && t[i] == '$' implies exists|j: int|
        0 <= j < vars.len() && #[trigger] occurs_at(t, vars[j], i) by {
        assert(s[i + d] == '$');
        let j = choose|j: int| 0 <= j < vars.len() && #[trigger] occurs_at(s, vars[j], i + d);
        assert(t.subrange(i, i + vars[j].len()) =~= s.subrange(i + d, i + d + vars[j].len()));
        assert(occurs_at(t, vars[j], i));
    }
}

proof fn lemma_replace_consumes(s: Seq<char>, vars: Seq<Seq<char>>, w: Seq<char>)
    requires
        vars.len() > 0,
        forall|j: int| 0 <= j < vars.len() ==> is_variable(#[trigger] vars[j]),
        dollar_free(w),
        dollars_begin(s, vars),
    ensures
        dollars_begin(replace(s, vars[0], w), vars.drop_first()),
    decreases s.len(),
{
    let p = vars[0];
    let rest = vars.drop_first();
    let r = replace(s, p, w);
    assert(is_variable(p));
    if s.len() == 0 {
    } else if p.len() <= s.len() && s.take(p.len() as int) == p {
        let t = s.skip(p.len() as int);
        lemma_dollars_begin_shift(s, vars, p.len() as int);
        lemma_replace_consumes(t, vars, w);
        let rt = replace(t, p, w);
        assert(r == w + rt);
        assert forall|i: int| 0 <= i < r.len() && r[i] == '$' implies exists|j: int|
            0 <= j < rest.len() && #[trigger] occurs_at(r, rest[j], i) by {
            if i < w.len() {
                assert(r[i] == w[i]);
            }
            let i2 = i - w.len();
            assert(rt[i2] == r[i]);
            let j = choose|j: int| 0 <= j < rest.len() && #[trigger] occurs_at(rt, rest[j], i2);
            assert(r.subrange(i, i + rest[j].len()) =~= rt.subrange(i2, i2 + rest[j].len()));
            assert(occurs_at(r, rest[j], i));
        }
    } else {
        let t = s.drop_first();
        lemma_dollars_begin_shift(s, vars, 1);
        assert(s.skip(1) == t);
        lemma_replace_consumes(t, vars, w);
        let rt = replace(t, p, w);
        assert(r == seq![s[0]] + rt);
        assert forall|i: int| 0 <= i < r.len() && r[i] == '$' implies exists|j: int|
            0 <= j < rest.len() && #[trigger] occurs_at(r, rest[j], i) by {
            if i == 0 {
                assert(s[0] == '$');
                let j = choose|j: int| 0 <= j < vars.len() && #[trigger] occurs_at(s, vars[j], 0);
                let q = vars[j];
                assert(is_variable(q));
                if j == 0 {
                    assert(s.take(p.len() as int) =~= s.subrange(0, p.len() as int));
                }
                assert(j > 0);
                assert forall|k: int| 0 <= k < q.len() - 1 implies t[k] != '$' by {
                    assert(t[k] == s[k + 1]);
                    assert(s[k + 1] == s.subrange(0, q.len() as int)[k + 1]);
                }
                lemma_replace_keeps_plain_prefix(t, p, w, q.len() - 1);
                assert forall|k: int| 0 <= k < q.len() implies r.subrange(0, q.len() as int)[k] == q[k] by {
                    if k > 0 {
                        assert(r[k] == rt[k - 1]);
                        assert(rt[k - 1] == rt.take(q.len() - 1)[k - 1]);
                        assert(t.take(q.len() - 1)[k - 1] == s[k]);
                        assert(s[k] == s.subrange(0, q.len() as int)[k]);
                    } else {
                        assert(s[0] == s.subrange(0, q.len() as int)[0]);
                    }
                }
                assert(r.subrange(0, q.len() as int) =~= q);
                assert(rest[j - 1] == q);
                assert(occurs_at(r, rest[j - 1], 0));
            } else {
                let i2 = i - 1;
                assert(rt[i2] == r[i]);
                let j = choose|j: int| 0 <= j < rest.len() && #[trigger] occurs_at(rt, rest[j], i2);
                assert(r.subrange(i, i + rest[j].len()) =~= rt.subrange(i2, i2 + rest[j].len()));
                assert(occurs_at(r, rest[j], i));
            }
        }
    }
}

proof fn lemma_trim_end_keeps_dollar_free(s: Seq<char>, c: char)
    requires
        dollar_free(s),
    ensures
        dollar_free(trim_end_char(s, c)),
    decreases s.len(),
{
    if s.len() > 0 && s.last() == c {
        lemma_trim_end_keeps_dollar_free(s.drop_last(), c);
    }
}

proof fn lemma_template_variables()
    ensures
        forall|j: int| 0 <= j < template_variables().len() ==> is_variable(#[trigger] template_variables()[j]),
        template_variables().len() == 10,
{
    reveal_strlit("${repo}");
    reveal_strlit("$repo");
    reveal_strlit("${arch_znver4}");
    reveal_strlit("$arch_znver4");
    reveal_strlit("${arch_v4}");
    reveal_strlit("$arch_v4");
    reveal_strlit("${arch_v3}");
    reveal_strlit("$arch_v3");
    reveal_strlit("${arch}");
    reveal_strlit("$arch");
    let vs = template_variables();
    assert forall|j: int| 0 <= j < vs.len() implies is_variable(#[trigger] vs[j]) by {
        assert(vs[j] == template_variables()[j]);
    }
}

proof fn lemma_substitution_step(cur: Seq<char>, k: int, w: Seq<char>)
    requires
        0 <= k < 10,
        dollar_free(w),
        dollars_begin(cur, template_variables().skip(k)),
    ensures
        dollars_begin(replace(cur, template_variables()[k], w), template_variables().skip(k + 1)),
{
    lemma_template_variables();
    let vs = template_variables();
    let sub = vs.skip(k);
    assert forall|j: int| 0 <= j < sub.len() implies is_variable(#[trigger] sub[j]) by {
        assert(sub[j] == vs[j + k]);
    }
    lemma_replace_consumes(cur, sub, w);
    assert(sub[0] == vs[k]);
    assert(sub.drop_first() =~= vs.skip(k + 1));
}

/// A Server template in which every `$` begins one of the variables (`$repo`, `$arch` and
/// its variants, braced or not) gives, for a repository name and an architecture without
/// `$`, a database URL with no `$` left: no `$repo` or `${repo}` remains.
pub proof fn law_template_variables_all_substituted(repo: Seq<char>, template: Seq<char>, arch: Seq<char>)
    requires
        dollar_free(repo),
        dollar_free(arch),
        dollars_begin(trim(template), template_variables()),
        !(is_suffix(".db"@, trim(template)) || contains(trim(template), ".db?"@)),
        db_url_of(repo, template, arch) is Some,
    ensures
        dollar_free(db_url_of(repo, template, arch)->0),
        !contains(db_url_of(repo, template, arch)->0, "$repo"@),
        !contains(db_url_of(repo, template, arch)->0, "${repo}"@),
{
    reveal_strlit("_v3");
    reveal_strlit("_v4");
    reveal_strlit("_znver4");
    reveal_strlit("/");
    reveal_strlit(".db");
    reveal_strlit("$repo");
    reveal_strlit("${repo}");
    lemma_template_variables();
    let vs = template_variables();
    let raw = trim(template);
    let v3 = arch + "_v3"@;
    let v4 = arch + "_v4"@;
    let znver4 = arch + "_znver4"@;
    assert(dollar_free(v3) && dollar_free(v4) && dollar_free(znver4)) by {
        assert forall|k: int| 0 <= k < v3.len() implies v3[k] != '$' by {
            if k >= arch.len() {
                assert(v3[k] == "_v3"@[k - arch.len()]);
            }
        }
        assert forall|k: int| 0 <= k < v4.len() implies v4[k] != '$' by {
            if k >= arch.len() {
                assert(v4[k] == "_v4"@[k - arch.len()]);
            }
        }
        assert forall|k: int| 0 <= k < znver4.len() implies znver4[k] != '$' by {
            if k >= arch.len() {
                assert(znver4[k] == "_znver4"@[k - arch.len()]);
            }
        }
    }
    assert(vs.skip(0) =~= vs);
    let r1 = replace(raw, "${repo}"@, repo);
    lemma_substitution_step(raw, 0, repo);
    let r2 = replace(r1, "$repo"@, repo);
    lemma_substitution_step(r1, 1, repo);
    let r3 = replace(r2, "${arch_znver4}"@, znver4);
    lemma_substitution_step(r2, 2, znver4);
    let r4 = replace(r3, "$arch_znver4"@, znver4);
    lemma_substitution_step(r3, 3, znver4);
    let r5 = replace(r4, "${arch_v4}"@, v4);
    lemma_substitution_step(r4, 4, v4);
    let r6 = replace(r5, "$arch_v4"@, v4);
    lemma_substitution_step(r5, 5, v4);
    let r7 = replace(r6, "${arch_v3}"@, v3);
    lemma_substitution_step(r6, 6, v3);
    let r8 = replace(r7, "$arch_v3"@, v3);
    lemma_substitution_step(r7, 7, v3);
    let r9 = replace(r8, "${arch}"@, arch);
    lemma_substitution_step(r8, 8, arch);
    let r10 = replace(r9, "$arch"@, arch);
    lemma_substitution_step(r9, 9, arch);
    assert(vs.skip(10).len() == 0);
    assert(dollar_free(r10));
    lemma_trim_end_keeps_dollar_free(r10, '/');
    let trimmed = trim_end_char(r10, '/');
    let u = trimmed + "/"@ + repo + ".db"@;
    assert(db_url_of(repo, template, arch) == Some(u));
    assert forall|k: int| 0 <= k < u.len() implies u[k] != '$' by {
        if k < trimmed.len() {
            assert(u[k] == trimmed[k]);
        } else if k < trimmed.len() + 1 {
            assert(u[k] == "/"@[0]);
        } else if k < trimmed.len() + 1 + repo.len() {
            assert(u[k] == repo[k - trimmed.len() - 1]);
        } else {
            assert(u[k] == ".db"@[k - trimmed.len() - 1 - repo.len()]);
        }
    }
    if contains(u, "$repo"@) {
        let i = choose|i: int| occurs_at(u, "$repo"@, i);
        assert(u[i] == u.subrange(i, i + 5)[0]);
    }
    if contains(u, "${repo}"@) {
        let i = choose|i: int| occurs_at(u, "${repo}"@, i);
        assert(u[i] == u.subrange(i, i + 7)[0]);
    }
}

} // verus!
