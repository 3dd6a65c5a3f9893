//! System status: snapshot tools, the polkit policy edit, desktop and colour scheme,
//! system information, and mirror lists with their measured latency.
use vstd::prelude::*;
use crate::text::{
    chars_of, contains, contains_str, eq_str, find_from, is_digit, is_prefix, is_ws,
    is_whitespace, lines, lower_chars, lowercase, occurs_at, slice_copy, string_of,
};

verus! {

/// The snapshot tool found on the system.
#[derive(Debug, Clone, Copy, PartialEq, Eq, Structural)]
pub enum SnapshotTool {
    Snapper,
    Timeshift,
    NoTool,
}

/// Whether system snapshots can be taken before a transaction.
#[derive(Debug, Clone)]
pub struct SnapshotStatus {
    pub tool: SnapshotTool,
    pub is_configured: bool,
    pub message: String,
}

/// What the store shows about the host system.
#[derive(Debug, Clone)]
pub struct SystemInfo {
    pub kernel: String,
    pub distro: String,
    pub pacman_version: String,
    pub chaotic_enabled: bool,
    pub cpu_optimization: String,
}

/// The desktop's appearance: colour scheme ("dark", "light" or "system"), accent colour
/// (`#rrggbb`) and desktop name.
#[derive(Debug, Clone)]
pub struct HostAppearance {
    pub color_scheme: String,
    pub accent_color: Option<String>,
    pub desktop: String,
}

/// The size of the package cache.
#[derive(Debug, Clone)]
pub struct CacheSizeResult {
    pub size_bytes: u64,
    pub human_readable: String,
}

/// The orphaned packages and the space they take.
#[derive(Debug, Clone)]
pub struct OrphansWithSizeResult {
    pub orphans: Vec<String>,
    pub total_size_bytes: u64,
    pub human_readable: String,
}

/// Chaotic-AUR on this host: whether it may be enabled here, and whether pacman already
/// has its database.
#[derive(Debug, Clone)]
pub struct ChaoticStatus {
    pub compatible: bool,
    pub chaotic_in_alpm: bool,
}

/// One mirror and, when measured, its latency in milliseconds.
#[derive(Debug, Clone)]
pub struct MirrorTestResult {
    pub url: String,
    pub latency_ms: Option<u32>,
}

// ---------------------------------------------------------------------------
// Snapshot tools
// ---------------------------------------------------------------------------

/// The non-empty lines of a text.
pub open spec fn nonempty_lines(s: Seq<char>) -> Seq<Seq<char>> {
    lines(s).filter(is_nonempty())
}

/// The test that a line is not empty.
pub open spec fn is_nonempty() -> spec_fn(Seq<char>) -> bool {
    |l: Seq<char>| l.len() > 0
}

/// The test that a character is not a double quote.
pub open spec fn not_quote() -> spec_fn(char) -> bool {
    |c: char| c != '"'
}

/// The snapshot status given what `timeshift --list-devices` and
/// `snapper list-configs` reported (whether each ran successfully, and its output; `None`
/// when it could not be run): Timeshift when it succeeded and found devices, else Snapper
/// when it succeeded and listed a configuration below its header, else none.
pub open spec fn snapshot_status_of(timeshift: Option<(bool, Seq<char>)>, snapper: Option<(bool, Seq<char>)>) -> (SnapshotTool, bool, Seq<char>) {
    if timeshift matches Some((ok, out)) && ok && !contains(out, "No devices found"@) {
        (SnapshotTool::Timeshift, true, "Timeshift is ready"@)
    } else if snapper matches Some((ok, out)) && ok && nonempty_lines(out).len() > 1 {
        (SnapshotTool::Snapper, true, "Snapper is ready"@)
    } else {
        (SnapshotTool::NoTool, false, "No snapshot tool detected or configured"@)
    }
}

fn count_nonempty_lines(s: &str) -> (r: usize)
    ensures
        r as int == nonempty_lines(s@).len(),
{
    let c = chars_of(s);
    let ls = crate::text::split_lines(c.as_slice());
    let mut n: usize = 0;
    let mut i: usize = 0;
    while i < ls.len()
        invariant
            0 <= i <= ls@.len(),
            crate::text::views(ls@) == lines(s@),
            n as int == crate::text::views(ls@).take(i as int).filter(is_nonempty()).len(),
            n <= i,
        decreases ls@.len() - i,
    {
        let ghost v = crate::text::views(ls@);
        proof {
            assert(v.take(i + 1) == v.take(i as int).push(v[i as int]));
            v.take(i as int).lemma_filter_push(v[i as int], is_nonempty());
            assert(v[i as int] == ls@[i as int]@);
        }
        if ls[i].len() > 0 {
            n += 1;
        }
        i += 1;
    }
    proof {
        let v = crate::text::views(ls@);
        assert(v.take(v.len() as int) == v);
    }
    n
}

/// The snapshot status from the two tools' reports.
pub fn snapshot_status_from(timeshift: Option<(bool, String)>, snapper: Option<(bool, String)>) -> (r: SnapshotStatus)
    ensures
        (r.tool, r.is_configured, r.message@) == snapshot_status_of(
            match timeshift {
                Some((ok, out)) => Some((ok, out@)),
                None => None,
            },
            match snapper {
                Some((ok, out)) => Some((ok, out@)),
                None => None,
            },
        ),
{
    match &timeshift {
        Some((ok, out)) => {
            if *ok && !contains_str(chars_of(out.as_str()).as_slice(), "No devices found") {
                return SnapshotStatus {
                    tool: SnapshotTool::Timeshift,
                    is_configured: true,
                    message: String::from_str("Timeshift is ready"),
                };
            }
        },
        None => {},
    }
    match &snapper {
        Some((ok, out)) => {
            if *ok && count_nonempty_lines(out.as_str()) > 1 {
                return SnapshotStatus {
                    tool: SnapshotTool::Snapper,
                    is_configured: true,
                    message: String::from_str("Snapper is ready"),
                };
            }
        },
        None => {},
    }
    SnapshotStatus {
        tool: SnapshotTool::NoTool,
        is_configured: false,
        message: String::from_str("No snapshot tool detected or configured"),
    }
}

// ---------------------------------------------------------------------------
// The polkit policy
// ---------------------------------------------------------------------------

/// The first index at or after `i` at which `p` occurs in `s`.
pub open spec fn find_at(s: Seq<char>, p: Seq<char>, i: int) -> Option<int>
    decreases s.len() + 1 - i,
{
    if i < 0 || i + p.len() > s.len() {
        None
    } else if occurs_at(s, p, i) {
        Some(i)
    } else {
        find_at(s, p, i + 1)
    }
}

proof fn lemma_find_at_some(s: Seq<char>, p: Seq<char>, from: int, i: int)
    requires
        0 <= from <= i,
        occurs_at(s, p, i),
        forall|j: int| from <= j < i ==> !occurs_at(s, p, j),
    ensures
        find_at(s, p, from) == Some(i),
    decreases i - from,
{
    if from < i {
        lemma_find_at_some(s, p, from + 1, i);
    }
}

proof fn lemma_find_at_none(s: Seq<char>, p: Seq<char>, from: int)
    requires
        0 <= from,
        forall|j: int| from <= j ==> !occurs_at(s, p, j),
    ensures
        find_at(s, p, from) is None,
    decreases s.len() + 1 - from,
{
    if from + p.len() <= s.len() {
        lemma_find_at_none(s, p, from + 1);
    }
}

proof fn lemma_find_at_shape(s: Seq<char>, p: Seq<char>, from: int)
    requires
        0 <= from,
    ensures
        match find_at(s, p, from) {
            Some(k) => from <= k && occurs_at(s, p, k) && forall|j: int| from <= j < k ==> !occurs_at(s, p, j),
            None => forall|j: int| from <= j ==> !occurs_at(s, p, j),
        },
    decreases s.len() + 1 - from,
{
    if from + p.len() <= s.len() && !occurs_at(s, p, from) {
        lemma_find_at_shape(s, p, from + 1);
    }
}

proof fn lemma_occurs_same_prefix(s: Seq<char>, s2: Seq<char>, p: Seq<char>, j: int, x: int)
    requires
        0 <= j,
        j + p.len() <= x,
        x <= s.len(),
        x <= s2.len(),
        s.take(x) == s2.take(x),
    ensures
        occurs_at(s, p, j) == occurs_at(s2, p, j),
{
    assert(s.subrange(j, j + p.len()) == s.take(x).subrange(j, j + p.len()));
    assert(s2.subrange(j, j + p.len()) == s2.take(x).subrange(j, j + p.len()));
}

proof fn lemma_occurs_shifted(s: Seq<char>, s2: Seq<char>, p: Seq<char>, j: int, y: int, x2: int)
    requires
        0 <= y <= s.len(),
        0 <= x2 <= j,
        s2.len() - x2 == s.len() - y,
        forall|k: int| 0 <= k < s.len() - y ==> #[trigger] s2[x2 + k] == s[y + k],
    ensures
        occurs_at(s2, p, j) == occurs_at(s, p, j - x2 + y),
{
    let i = j - x2 + y;
    if j + p.len() <= s2.len() {
        assert(s2.subrange(j, j + p.len()) =~= s.subrange(i, i + p.len())) by {
            assert forall|k: int| 0 <= k < p.len() implies #[trigger] s2.subrange(j, j + p.len())[k] == s.subrange(i, i + p.len())[k] by {
                assert(s2[x2 + (j - x2 + k)] == s[y + (j - x2 + k)]);
            }
        }
    }
}

proof fn lemma_not_at_non_tag(s: Seq<char>, p: Seq<char>, j: int)
    requires
        p.len() > 0,
        p[0] == '<',
        0 <= j < s.len(),
        s[j] != '<',
    ensures
        !occurs_at(s, p, j),
{
    if occurs_at(s, p, j) {
        assert(s.subrange(j, j + p.len())[0] == s[j]);
    }
}

/// Setting the `allow_active` value of an action twice gives what setting it once gave,
/// when neither the value nor the action id holds a `<` (else the new value or the id could
/// themselves read as tags of the policy).
pub proof fn law_set_policy_is_idempotent(policy: Seq<char>, action_id: Seq<char>, value: Seq<char>)
    requires
        forall|i: int| 0 <= i < value.len() ==> value[i] != '<',
        forall|i: int| 0 <= i < action_id.len() ==> action_id[i] != '<',
    ensures
        policy_with_allow_active(policy_with_allow_active(policy, action_id, value), action_id, value)
            == policy_with_allow_active(policy, action_id, value),
{
    let m = "<action id=\""@ + action_id + "\">"@;
    let end = "</action>"@;
    let open = "<allow_active>"@;
    let close = "</allow_active>"@;
    reveal_strlit("<action id=\"");
    reveal_strlit("\">");
    reveal_strlit("</action>");
    reveal_strlit("<allow_active>");
    reveal_strlit("</allow_active>");
    let p = policy;
    lemma_find_at_shape(p, m, 0);
    match find_at(p, m, 0) {
        None => {},
        Some(a) => {
            lemma_find_at_shape(p, end, a);
            match find_at(p, end, a) {
                None => {},
                Some(e) => {
                    let block = p.subrange(a, e);
                    lemma_find_at_shape(block, open, 0);
                    match find_at(block, open, 0) {
                        None => {},
                        Some(s1) => {
                            lemma_find_at_shape(block, close, s1);
                            match find_at(block, close, s1) {
                                None => {},
                                Some(t) => {
                                    lemma_idempotent_core(p, action_id, value, a, e, s1, t);
                                },
                            }
                        },
                    }
                },
            }
        },
    }
}

proof fn lemma_idempotent_core(p: Seq<char>, action_id: Seq<char>, value: Seq<char>, a: int, e: int, s1: int, t: int)
    requires
        forall|i: int| 0 <= i < value.len() ==> value[i] != '<',
        forall|i: int| 0 <= i < action_id.len() ==> action_id[i] != '<',
        find_at(p, "<action id=\""@ + action_id + "\">"@, 0) == Some(a),
        find_at(p, "</action>"@, a) == Some(e),
        find_at(p.subrange(a, e), "<allow_active>"@, 0) == Some(s1),
        find_at(p.subrange(a, e), "</allow_active>"@, s1) == Some(t),
    ensures
        policy_with_allow_active(policy_with_allow_active(p, action_id, value), action_id, value)
            == policy_with_allow_active(p, action_id, value),
{
    let m = "<action id=\""@ + action_id + "\">"@;
    let end = "</action>"@;
    let open = "<allow_active>"@;
    let close = "</allow_active>"@;
    reveal_strlit("<action id=\"");
    reveal_strlit("\">");
    reveal_strlit("</action>");
    reveal_strlit("<allow_active>");
    reveal_strlit("</allow_active>");
    assert(m.len() == 14 + action_id.len());
    assert(end.len() == 9 && open.len() == 14 && close.len() == 15);
    lemma_find_at_shape(p, m, 0);
    lemma_find_at_shape(p, end, a);
    let block = p.subrange(a, e);
    lemma_find_at_shape(block, open, 0);
    lemma_find_at_shape(block, close, s1);
    // the marker's only '<' is its first character
    assert forall|k: int| 0 < k < m.len() implies m[k] != '<' by {
        if 12 <= k < 12 + action_id.len() {
            assert(m[k] == action_id[k - 12]);
        }
    }
    assert(forall|k: int| 0 <= k < m.len() ==> #[trigger] p[a + k] == m[k]) by {
        assert forall|k: int| 0 <= k < m.len() implies #[trigger] p[a + k] == m[k] by {
            assert(p.subrange(a, a + m.len())[k] == p[a + k]);
        }
    }
    // the action's end comes after its marker
    assert(e >= a + m.len()) by {
        assert(p.subrange(e, e + 9)[0] == p[e]);
        assert(p.subrange(e, e + 9)[1] == p[e + 1]);
        if e < a + m.len() {
            if e > a {
                assert(p[a + (e - a)] == m[e - a]);
            } else {
                assert(p[a + 1] == m[1]);
            }
        }
    }
    assert(block.len() == e - a);
    assert(forall|k: int| 0 <= k < block.len() ==> #[trigger] block[k] == p[a + k]);
    // the open tag lies after the marker
    assert(block.subrange(s1, s1 + 14)[0] == block[s1]);
    assert(block.subrange(s1, s1 + 14)[2] == block[s1 + 2]);
    assert(s1 >= m.len()) by {
        if s1 < m.len() {
            if s1 > 0 {
                assert(block[s1] == p[a + s1]);
            } else {
                assert(block[2] == p[a + 2]);
                assert(p[a + 2] == m[2]);
            }
        }
    }
    assert(forall|k: int| 0 <= k < 14 ==> #[trigger] p[a + s1 + k] == open[k]) by {
        assert forall|k: int| 0 <= k < 14 implies #[trigger] p[a + s1 + k] == open[k] by {
            assert(block.subrange(s1, s1 + 14)[k] == block[s1 + k]);
        }
    }
    // the close tag lies after the open tag
    assert(block.subrange(t, t + 15)[0] == block[t]);
    assert(block.subrange(t, t + 15)[1] == block[t + 1]);
    assert(t >= s1 + 14) by {
        if t < s1 + 14 {
            if t > s1 {
                assert(p[a + s1 + (t - s1)] == open[t - s1]);
            } else {
                assert(p[a + s1 + 1] == open[1]);
            }
        }
    }
    assert(forall|k: int| 0 <= k < 15 ==> #[trigger] p[a + t + k] == close[k]) by {
        assert forall|k: int| 0 <= k < 15 implies #[trigger] p[a + t + k] == close[k] by {
            assert(block.subrange(t, t + 15)[k] == block[t + k]);
        }
    }
    let x = a + s1 + 14;
    let y = a + t;
    let q = p.take(x) + value + p.skip(y);
    assert(policy_with_allow_active(p, action_id, value) == q);
    let vl = value.len() as int;
    let d = x + vl - y;
    assert(q.take(x) == p.take(x));
    assert(forall|k: int| 0 <= k < p.len() - y ==> #[trigger] q[x + vl + k] == p[y + k]);
    assert(forall|k: int| 0 <= k < vl ==> #[trigger] q[x + k] == value[k]);
    assert(forall|k: int| 0 <= k < x ==> #[trigger] q[k] == p[k]);
    // the marker is found at the same place
    assert forall|j: int| 0 <= j < a implies !occurs_at(q, m, j) by {
        if j + m.len() <= x {
            lemma_occurs_same_prefix(p, q, m, j, x);
        }
    }
    lemma_occurs_same_prefix(p, q, m, a, x);
    lemma_find_at_some(q, m, 0, a);
    // the action's end moves by the change in length
    assert(e >= y + 15);
    lemma_occurs_shifted(p, q, end, e + d, y, x + vl);
    assert forall|j: int| a <= j < e + d implies !occurs_at(q, end, j) by {
        if j + 9 <= x {
            lemma_occurs_same_prefix(p, q, end, j, x);
        } else if j < x {
            assert(q[j] == p[a + s1 + (j - a - s1)]);
            lemma_not_at_non_tag(q, end, j);
        } else if j < x + vl {
            assert(q[x + (j - x)] == value[j - x]);
            lemma_not_at_non_tag(q, end, j);
        } else {
            lemma_occurs_shifted(p, q, end, j, y, x + vl);
        }
    }
    lemma_find_at_some(q, end, a, e + d);
    let block2 = q.subrange(a, e + d);
    assert(forall|k: int| 0 <= k < block2.len() ==> #[trigger] block2[k] == q[a + k]);
    // the open tag is found at the same place in the action
    assert(occurs_at(block2, open, s1)) by {
        assert(block2.subrange(s1, s1 + 14) =~= open) by {
            assert forall|k: int| 0 <= k < 14 implies #[trigger] block2.subrange(s1, s1 + 14)[k] == open[k] by {
                assert(q[a + s1 + k] == p[a + s1 + k]);
            }
        }
    }
    assert forall|j: int| 0 <= j < s1 implies !occurs_at(block2, open, j) by {
        if occurs_at(block2, open, j) {
            assert(block.subrange(j, j + 14) =~= block2.subrange(j, j + 14)) by {
                assert forall|k: int| 0 <= k < 14 implies #[trigger] block.subrange(j, j + 14)[k] == block2.subrange(j, j + 14)[k] by {
                    assert(block[j + k] == p[a + (j + k)]);
                    assert(block2[j + k] == q[a + (j + k)]);
                    assert(q[a + j + k] == p[a + j + k]);
                }
            }
            assert(occurs_at(block, open, j));
            assert(false);
        }
    }
    lemma_find_at_some(block2, open, 0, s1);
    // the close tag is found right after the new value
    let t2 = s1 + 14 + vl;
    assert(occurs_at(block2, close, t2)) by {
        assert(block2.subrange(t2, t2 + 15) =~= close) by {
            assert forall|k: int| 0 <= k < 15 implies #[trigger] block2.subrange(t2, t2 + 15)[k] == close[k] by {
                assert(q[x + vl + k] == p[y + k]);
            }
        }
    }
    assert forall|j: int| s1 <= j < t2 implies !occurs_at(block2, close, j) by {
        if j == s1 {
            if occurs_at(block2, close, j) {
                assert(block2.subrange(j, j + 15)[1] == block2[j + 1]);
                assert(q[a + s1 + 1] == p[a + s1 + 1]);
            }
        } else if j < s1 + 14 {
            assert(q[a + s1 + (j - s1)] == p[a + s1 + (j - s1)]);
            lemma_not_at_non_tag(block2, close, j);
        } else {
            assert(q[x + (j - s1 - 14)] == value[j - s1 - 14]);
            lemma_not_at_non_tag(block2, close, j);
        }
    }
    lemma_find_at_some(block2, close, s1, t2);
    assert(q.take(a + s1 + 14) == p.take(x));
    assert(q.skip(a + t2) =~= p.skip(y)) by {
        assert forall|k: int| 0 <= k < q.skip(a + t2).len() implies #[trigger] q.skip(a + t2)[k] == p.skip(y)[k] by {
            assert(q[x + vl + k] == p[y + k]);
        }
    }
}

pub(crate) fn find_at_exec(s: &[char], p: &[char], from: usize) -> (r: Option<usize>)
    ensures
        match r {
            Some(i) => find_at(s@, p@, from as int) == Some(i as int) && i + p@.len() <= s@.len(),
            None => find_at(s@, p@, from as int) is None,
        },
{
    match find_from(s, p, from) {
        Some(i) => {
            proof {
                lemma_find_at_some(s@, p@, from as int, i as int);
            }
            Some(i)
        },
        None => {
            proof {
                lemma_find_at_none(s@, p@, from as int);
            }
            None
        },
    }
}

/// The policy with the `allow_active` value of the action `action_id` set to `value`:
/// the text between the first `<allow_active>` and the next `</allow_active>` inside
/// that action's block (from its opening tag to the first `</action>` after it) is
/// replaced. When any of these is missing, the policy is unchanged.
pub open spec fn policy_with_allow_active(policy: Seq<char>, action_id: Seq<char>, value: Seq<char>) -> Seq<char> {
    let marker = "<action id=\""@ + action_id + "\">"@;
    match find_at(policy, marker, 0) {
        None => policy,
        Some(a) => match find_at(policy, "</action>"@, a) {
            None => policy,
            Some(e) => {
                let block = policy.subrange(a, e);
                match find_at(block, "<allow_active>"@, 0) {
                    None => policy,
                    Some(s1) => match find_at(block, "</allow_active>"@, s1) {
                        None => policy,
                        Some(t) => policy.take(a + s1 + 14) + value + policy.skip(a + t),
                    },
                }
            },
        },
    }
}

/// Sets the `allow_active` value of one action of a polkit policy.
pub fn set_policy_allow_active(policy: &str, action_id: &str, allow_active: &str) -> (r: String)
    ensures
        r@ == policy_with_allow_active(policy@, action_id@, allow_active@),
{
    let pc = chars_of(policy);
    let m1 = chars_of("<action id=\"");
    let m2 = crate::text::concat_str(m1.as_slice(), action_id);
    let marker = crate::text::concat_str(m2.as_slice(), "\">");
    let a = match find_at_exec(pc.as_slice(), marker.as_slice(), 0) {
        Some(a) => a,
        None => {
            return string_of(pc.as_slice());
        },
    };
    let end_tag = chars_of("</action>");
    let e = match find_at_exec(pc.as_slice(), end_tag.as_slice(), a) {
        Some(e) => e,
        None => {
            return string_of(pc.as_slice());
        },
    };
    proof {
        if a > e {
            assert(find_at(pc@, end_tag@, a as int) == Some(e as int));
            lemma_find_at_ge(pc@, end_tag@, a as int);
        }
    }
    let block = slice_copy(pc.as_slice(), a, e);
    let open_tag = chars_of("<allow_active>");
    let close_tag = chars_of("</allow_active>");
    proof {
        reveal_strlit("<allow_active>");
    }
    let s1 = match find_at_exec(block.as_slice(), open_tag.as_slice(), 0) {
        Some(s1) => s1,
        None => {
            return string_of(pc.as_slice());
        },
    };
    let t = match find_at_exec(block.as_slice(), close_tag.as_slice(), s1) {
        Some(t) => t,
        None => {
            return string_of(pc.as_slice());
        },
    };
    proof {
        lemma_find_at_ge(block@, close_tag@, s1 as int);
        assert(open_tag@.len() == 14);
    }
    let head = slice_copy(pc.as_slice(), 0, a + s1 + 14);
    let mid = crate::text::concat_str(head.as_slice(), allow_active);
    let tail = slice_copy(pc.as_slice(), a + t, pc.len());
    let all = crate::text::concat(mid.as_slice(), tail.as_slice());
    assert(all@ == policy_with_allow_active(policy@, action_id@, allow_active@));
    string_of(all.as_slice())
}

proof fn lemma_find_at_ge(s: Seq<char>, p: Seq<char>, from: int)
    ensures
        find_at(s, p, from) matches Some(i) ==> from <= i && occurs_at(s, p, i),
    decreases s.len() + 1 - from,
{
    if !(from < 0 || from + p.len() > s.len()) && !occurs_at(s, p, from) {
        lemma_find_at_ge(s, p, from + 1);
    }
}

// ---------------------------------------------------------------------------
// Desktop and colour scheme
// ---------------------------------------------------------------------------

/// The desktop named by the session (the first of `XDG_CURRENT_DESKTOP`,
/// `XDG_SESSION_DESKTOP` and `DESKTOP_SESSION` that is set, else "unknown"), lower-cased
/// and folded: GNOME, KDE (or Plasma), Xfce and Cinnamon get their short names; any
/// other desktop keeps its lower-cased name.
pub open spec fn desktop_name(session: Option<Seq<char>>) -> Seq<char> {
    let d = lowercase(
        match session {
            Some(s) => s,
            None => "unknown"@,
        },
    );
    if contains(d, "gnome"@) {
        "gnome"@
    } else if contains(d, "kde"@) || contains(d, "plasma"@) {
        "kde"@
    } else if contains(d, "xfce"@) {
        "xfce"@
    } else if contains(d, "cinnamon"@) {
        "cinnamon"@
    } else {
        d
    }
}

/// The short name of the desktop from the session variable found.
pub fn detect_desktop_environment(session: Option<&str>) -> (r: String)
    ensures
        r@ == desktop_name(
            match session {
                Some(s) => Some(s@),
                None => None,
            },
        ),
{
    let d = match session {
        Some(s) => lower_chars(s),
        None => lower_chars("unknown"),
    };
    if contains_str(d.as_slice(), "gnome") {
        String::from_str("gnome")
    } else if contains_str(d.as_slice(), "kde") || contains_str(d.as_slice(), "plasma") {
        String::from_str("kde")
    } else if contains_str(d.as_slice(), "xfce") {
        String::from_str("xfce")
    } else if contains_str(d.as_slice(), "cinnamon") {
        String::from_str("cinnamon")
    } else {
        string_of(d.as_slice())
    }
}

/// The colour scheme for the portal's `color-scheme` setting: 1 is dark, 2 is light,
/// anything else (or no answer) follows the system.
pub fn color_scheme_name(scheme: Option<u8>) -> (r: &'static str)
    ensures
        r@ == (match scheme {
            Some(1) => "dark"@,
            Some(2) => "light"@,
            _ => "system"@,
        }),
{
    match scheme {
        Some(1) => "dark",
        Some(2) => "light",
        _ => "system",
    }
}

// ---------------------------------------------------------------------------
// System information
// ---------------------------------------------------------------------------

/// The CPU optimisation level shown for the CPU's capabilities.
pub open spec fn cpu_optimization_label(znver4: bool, v4: bool, v3: bool) -> Seq<char> {
    if znver4 {
        "x86-64-v4 (Zen 4/5)"@
    } else if v4 {
        "x86-64-v4 (AVX-512)"@
    } else if v3 {
        "x86-64-v3 (AVX2)"@
    } else {
        "Standard (x86-64-v1)"@
    }
}

/// The text between the first and second `c` of `s` (`split(c).nth(1)`), if `s` has a
/// `c`.
pub open spec fn second_field(s: Seq<char>, c: char) -> Option<Seq<char>> {
    let i = crate::text::index_of(s, c) as int;
    if i < s.len() {
        let rest = s.skip(i + 1);
        Some(rest.take(crate::text::index_of(rest, c) as int))
    } else {
        None
    }
}

/// The index of the first line of `ls` that starts with `PRETTY_NAME=`, or the number of
/// lines.
pub open spec fn first_pretty_line(ls: Seq<Seq<char>>) -> int
    decreases ls.len(),
{
    if ls.len() == 0 || is_prefix("PRETTY_NAME="@, ls[0]) {
        0
    } else {
        1 + first_pretty_line(ls.drop_first())
    }
}

/// The distribution's pretty name from `/etc/os-release`: the text after the `=` of the
/// first `PRETTY_NAME=` line (up to a further `=`) without its double quotes; "Arch
/// Linux" when there is no such line.
pub open spec fn pretty_name(os_release: Seq<char>) -> Seq<char> {
    let ls = lines(os_release);
    let k = first_pretty_line(ls);
    if k < ls.len() {
        match second_field(ls[k], '=') {
            Some(v) => v.filter(not_quote()),
            None => "Unknown"@.filter(not_quote()),
        }
    } else {
        "Arch Linux"@
    }
}

/// The first line of `s`, or "Unknown" when it has none.
pub open spec fn first_line_or_unknown(s: Seq<char>) -> Seq<char> {
    if lines(s).len() > 0 {
        lines(s)[0]
    } else {
        "Unknown"@
    }
}

/// `info` is the system information from `uname -r` (trimmed; "Unknown" when it could
/// not be run), `/etc/os-release`, `pacman --version` (first line), `/etc/pacman.conf`
/// and the CPU's capabilities.
pub open spec fn is_system_info(
    info: SystemInfo,
    uname: Option<Seq<char>>,
    os_release: Seq<char>,
    pacman_out: Option<Seq<char>>,
    pacman_conf: Option<Seq<char>>,
    znver4: bool,
    v4: bool,
    v3: bool,
) -> bool {
    &&& info.kernel@ == (match uname {
        Some(u) => crate::text::trim(u),
        None => "Unknown"@,
    })
    &&& info.distro@ == pretty_name(os_release)
    &&& info.pacman_version@ == (match pacman_out {
        Some(o) => first_line_or_unknown(o),
        None => "Unknown"@,
    })
    &&& info.chaotic_enabled == (match pacman_conf {
        Some(c) => contains(c, "[chaotic-aur]"@),
        None => false,
    })
    &&& info.cpu_optimization@ == cpu_optimization_label(znver4, v4, v3)
}

fn without_quotes(s: &[char]) -> (r: Vec<char>)
    ensures
        r@ == s@.filter(not_quote()),
{
    let mut out: Vec<char> = Vec::new();
    let mut i: usize = 0;
    while i < s.len()
        invariant
            0 <= i <= s@.len(),
            out@ == s@.take(i as int).filter(not_quote()),
        decreases s@.len() - i,
    {
        proof {
            assert(s@.take(i + 1) == s@.take(i as int).push(s@[i as int]));
            s@.take(i as int).lemma_filter_push(s@[i as int], not_quote());
        }
        if s[i] != '"' {
            out.push(s[i]);
        }
        i += 1;
    }
    assert(s@.take(s@.len() as int) == s@);
    out
}

fn second_field_exec(s: &[char], c: char) -> (r: Option<Vec<char>>)
    ensures
        match r {
            Some(v) => second_field(s@, c) == Some(v@),
            None => second_field(s@, c) is None,
        },
{
    proof {
        crate::text::lemma_index_of_bound(s@, c);
    }
    match crate::text::find_char(s, c) {
        Some(i) => {
            assert(s@.len() == s.len());
            assert(i as int == crate::text::index_of(s@, c));
            let rest = slice_copy(s, i + 1, s.len());
            assert(rest@ == s@.skip(i + 1));
            proof {
                crate::text::lemma_index_of_bound(rest@, c);
            }
            let j = match crate::text::find_char(rest.as_slice(), c) {
                Some(j) => {
                    assert(rest@.len() == rest.len());
                    j
                },
                None => rest.len(),
            };
            Some(slice_copy(rest.as_slice(), 0, j))
        },
        None => None,
    }
}

/// The distribution's pretty name from the text of `/etc/os-release`.
pub fn pretty_name_from_os_release(os_release: &str) -> (r: String)
    ensures
        r@ == pretty_name(os_release@),
{
    let c = chars_of(os_release);
    let ls = crate::text::split_lines(c.as_slice());
    let mut i: usize = 0;
    assert(lines(os_release@).skip(0) == lines(os_release@));
    while i < ls.len()
        invariant
            0 <= i <= ls@.len(),
            crate::text::views(ls@) == lines(os_release@),
            first_pretty_line(lines(os_release@)) == i + first_pretty_line(lines(os_release@).skip(i as int)),
        decreases ls@.len() - i,
    {
        let ghost v = crate::text::views(ls@);
        assert(v.skip(i as int)[0] == ls@[i as int]@);
        if crate::text::starts_with(ls[i].as_slice(), "PRETTY_NAME=") {
            let value = match second_field_exec(ls[i].as_slice(), '=') {
                Some(v) => without_quotes(v.as_slice()),
                None => {
                    let u = chars_of("Unknown");
                    without_quotes(u.as_slice())
                },
            };
            return string_of(value.as_slice());
        }
        assert(v.skip(i as int).drop_first() == v.skip(i + 1));
        i += 1;
    }
    String::from_str("Arch Linux")
}

/// The system information from the outputs and files it is read from.
pub fn system_info_from(
    uname: Option<&str>,
    os_release: &str,
    pacman_out: Option<&str>,
    pacman_conf: Option<&str>,
    znver4: bool,
    v4: bool,
    v3: bool,
) -> (r: SystemInfo)
    ensures
        is_system_info(
            r,
            match uname {
                Some(u) => Some(u@),
                None => None,
            },
            os_release@,
            match pacman_out {
                Some(o) => Some(o@),
                None => None,
            },
            match pacman_conf {
                Some(c) => Some(c@),
                None => None,
            },
            znver4,
            v4,
            v3,
        ),
{
    let kernel = match uname {
        Some(u) => crate::text::trim_str(u),
        None => String::from_str("Unknown"),
    };
    let distro = pretty_name_from_os_release(os_release);
    let pacman_version = match pacman_out {
        Some(o) => {
            let ls = crate::text::split_lines(chars_of(o).as_slice());
            if ls.len() > 0 {
                assert(crate::text::views(ls@)[0] == ls@[0]@);
                string_of(ls[0].as_slice())
            } else {
                String::from_str("Unknown")
            }
        },
        None => String::from_str("Unknown"),
    };
    let chaotic_enabled = match pacman_conf {
        Some(c) => contains_str(chars_of(c).as_slice(), "[chaotic-aur]"),
        None => false,
    };
    let cpu = if znver4 {
        "x86-64-v4 (Zen 4/5)"
    } else if v4 {
        "x86-64-v4 (AVX-512)"
    } else if v3 {
        "x86-64-v3 (AVX2)"
    } else {
        "Standard (x86-64-v1)"
    };
    SystemInfo {
        kernel,
        distro,
        pacman_version,
        chaotic_enabled,
        cpu_optimization: String::from_str(cpu),
    }
}

/// The Chaotic-AUR status of a host.
pub fn chaotic_status(ctx: &crate::distro_context::DistroContext, chaotic_in_alpm: bool) -> (r: ChaoticStatus)
    ensures
        r.compatible == (ctx.capabilities.chaotic_aur_support
            != crate::distro_context::ChaoticSupport::Blocked),
        r.chaotic_in_alpm == chaotic_in_alpm,
{
    ChaoticStatus { compatible: ctx.is_chaotic_compatible(), chaotic_in_alpm }
}

// ---------------------------------------------------------------------------
// Mirror lists
// ---------------------------------------------------------------------------

/// The first index at or after `i` that is not whitespace (or the end).
pub open spec fn skip_ws(s: Seq<char>, i: int) -> int
    decreases s.len() - i,
{
    if 0 <= i < s.len() && is_ws(s[i]) {
        skip_ws(s, i + 1)
    } else {
        i
    }
}

/// The first index at or after `i` that is whitespace (or the end).
pub open spec fn skip_non_ws(s: Seq<char>, i: int) -> int
    decreases s.len() - i,
{
    if 0 <= i < s.len() && !is_ws(s[i]) {
        skip_non_ws(s, i + 1)
    } else {
        i
    }
}

/// The first index at or after `i` that is not an ASCII digit (or the end).
pub open spec fn skip_digits(s: Seq<char>, i: int) -> int
    decreases s.len() - i,
{
    if 0 <= i < s.len() && is_digit(s[i]) {
        skip_digits(s, i + 1)
    } else {
        i
    }
}

/// Index `i` starts a line: the start of the text or just after a newline.
pub open spec fn line_start(s: Seq<char>, i: int) -> bool {
    i == 0 || (0 < i <= s.len() && s[i - 1] == '\n')
}

/// A mirror entry at index `i`: whitespace (across lines too), `Server`, whitespace, `=`,
/// whitespace, then the URL (a run of non-whitespace); optionally followed by
/// whitespace, `#`, whitespace, digits, whitespace and `ms`. Gives the end of the entry,
/// the URL and the digits, if any.
pub open spec fn entry_at(s: Seq<char>, i: int) -> Option<(int, Seq<char>, Option<Seq<char>>)> {
    let j = skip_ws(s, i);
    if !occurs_at(s, "Server"@, j) {
        None
    } else {
        let k = skip_ws(s, j + 6);
        if !(k < s.len() && s[k] == '=') {
            None
        } else {
            let u = skip_ws(s, k + 1);
            if u >= s.len() {
                None
            } else {
                let ue = skip_non_ws(s, u);
                let url = s.subrange(u, ue);
                let a = skip_ws(s, ue);
                if a < s.len() && s[a] == '#' {
                    let b = skip_ws(s, a + 1);
                    let d = skip_digits(s, b);
                    let c = skip_ws(s, d);
                    if d > b && occurs_at(s, "ms"@, c) {
                        Some((c + 2, url, Some(s.subrange(b, d))))
                    } else {
                        Some((ue, url, None))
                    }
                } else {
                    Some((ue, url, None))
                }
            }
        }
    }
}

/// The mirror entries found scanning from index `i`: at each line start an entry may
/// begin; after an entry the scan goes on from its end. Each gives its URL and latency
/// (the digits as a `u32`, when they fit).
pub open spec fn entries_from(s: Seq<char>, i: int) -> Seq<(Seq<char>, Option<u32>)>
    decreases s.len() + 1 - i,
{
    if i < 0 || i > s.len() {
        Seq::empty()
    } else if line_start(s, i) && entry_at(s, i) is Some {
        let (e, url, digits) = entry_at(s, i)->0;
        let ms = match digits {
            Some(d) => crate::text::parse_u32(d),
            None => None,
        };
        if i < e <= s.len() {
            seq![(url, ms)] + entries_from(s, e)
        } else {
            seq![(url, ms)]
        }
    } else {
        entries_from(s, i + 1)
    }
}

/// The first `take` mirrors listed in a mirror list.
pub open spec fn mirror_list(text: Seq<char>, take: nat) -> Seq<(Seq<char>, Option<u32>)> {
    let all = entries_from(text, 0);
    if all.len() <= take {
        all
    } else {
        all.take(take as int)
    }
}

proof fn lemma_skip_ws(s: Seq<char>, i: int)
    requires
        0 <= i <= s.len(),
    ensures
        i <= skip_ws(s, i) <= s.len(),
        skip_ws(s, i) < s.len() ==> !is_ws(s[skip_ws(s, i)]),
    decreases s.len() - i,
{
    if i < s.len() && is_ws(s[i]) {
        lemma_skip_ws(s, i + 1);
    }
}

proof fn lemma_skip_non_ws_ge(s: Seq<char>, i: int)
    ensures
        i <= skip_non_ws(s, i),
    decreases s.len() - i,
{
    if 0 <= i < s.len() && !is_ws(s[i]) {
        lemma_skip_non_ws_ge(s, i + 1);
    }
}

fn skip_ws_exec(s: &[char], i: usize) -> (r: usize)
    requires
        i <= s@.len(),
    ensures
        r as int == skip_ws(s@, i as int),
        i <= r <= s@.len(),
{
    let mut k = i;
    while k < s.len() && is_whitespace(s[k])
        invariant
            i <= k <= s@.len(),
            skip_ws(s@, i as int) == skip_ws(s@, k as int),
        decreases s@.len() - k,
    {
        k += 1;
    }
    k
}

fn skip_non_ws_exec(s: &[char], i: usize) -> (r: usize)
    requires
        i <= s@.len(),
    ensures
        r as int == skip_non_ws(s@, i as int),
        i <= r <= s@.len(),
{
    let mut k = i;
    while k < s.len() && !is_whitespace(s[k])
        invariant
            i <= k <= s@.len(),
            skip_non_ws(s@, i as int) == skip_non_ws(s@, k as int),
        decreases s@.len() - k,
    {
        k += 1;
    }
    k
}

fn skip_digits_exec(s: &[char], i: usize) -> (r: usize)
    requires
        i <= s@.len(),
    ensures
        r as int == skip_digits(s@, i as int),
        i <= r <= s@.len(),
{
    let mut k = i;
    while k < s.len() && '0' <= s[k] && s[k] <= '9'
        invariant
            i <= k <= s@.len(),
            skip_digits(s@, i as int) == skip_digits(s@, k as int),
        decreases s@.len() - k,
    {
        k += 1;
    }
    k
}

fn entry_at_exec(s: &[char], i: usize) -> (r: Option<(usize, Vec<char>, Option<Vec<char>>)>)
    requires
        i <= s@.len(),
    ensures
        match r {
            Some((e, url, digits)) => entry_at(s@, i as int) == Some(
                (
                    e as int,
                    url@,
                    match digits {
                        Some(d) => Some(d@),
                        None => None,
                    },
                ),
            ) && i < e <= s@.len(),
            None => entry_at(s@, i as int) is None,
        },
{
    let j = skip_ws_exec(s, i);
    proof {
        reveal_strlit("Server");
        reveal_strlit("ms");
    }
    if !(6 <= s.len() - j && crate::text::matches_at(s, chars_of("Server").as_slice(), j)) {
        return None;
    }
    let k = skip_ws_exec(s, j + 6);
    if !(k < s.len() && s[k] == '=') {
        return None;
    }
    let u = skip_ws_exec(s, k + 1);
    if u >= s.len() {
        return None;
    }
    let ue = skip_non_ws_exec(s, u);
    proof {
        lemma_skip_ws(s@, k + 1);
        assert(!is_ws(s@[u as int]));
        assert(skip_non_ws(s@, u as int) == skip_non_ws(s@, u + 1));
        lemma_skip_non_ws_ge(s@, u + 1);
        assert(ue > u);
    }
    let url = slice_copy(s, u, ue);
    let a = skip_ws_exec(s, ue);
    if a < s.len() && s[a] == '#' {
        let b = skip_ws_exec(s, a + 1);
        let d = skip_digits_exec(s, b);
        let c = skip_ws_exec(s, d);
        if d > b && 2 <= s.len() - c && crate::text::matches_at(s, chars_of("ms").as_slice(), c) {
            let digits = slice_copy(s, b, d);
            return Some((c + 2, url, Some(digits)));
        }
    }
    Some((ue, url, None))
}

/// The first `take` mirrors of a mirror list (`Server = <url>` lines, optionally with a
/// `# <n> ms` latency), with their latency when given.
pub fn parse_mirrorlist_latency(text: &str, take: usize) -> (r: Result<Vec<MirrorTestResult>, String>)
    ensures
        r matches Ok(v) && v@.map_values(|m: MirrorTestResult| (m.url@, m.latency_ms)) == mirror_list(
            text@,
            take as nat,
        ),
{
    let s = chars_of(text);
    let mut out: Vec<MirrorTestResult> = Vec::new();
    let mut i: usize = 0;
    while i < s.len()
        invariant
            0 <= i <= s@.len(),
            s@ == text@,
            out@.map_values(|m: MirrorTestResult| (m.url@, m.latency_ms)) + entries_from(s@, i as int)
                == entries_from(s@, 0),
        decreases s@.len() + 1 - i,
    {
        let at_line = i == 0 || s[i - 1] == '\n';
        let found = if at_line {
            entry_at_exec(s.as_slice(), i)
        } else {
            None
        };
        match found {
            Some((e, url, digits)) => {
                let ms = match &digits {
                    Some(d) => crate::text::parse_u32_chars(d.as_slice()),
                    None => None,
                };
                let ghost before = out@.map_values(|m: MirrorTestResult| (m.url@, m.latency_ms));
                out.push(MirrorTestResult { url: string_of(url.as_slice()), latency_ms: ms });
                proof {
                    assert(out@.map_values(|m: MirrorTestResult| (m.url@, m.latency_ms)) == before.push((url@, ms)));
                    assert(entries_from(s@, i as int) == seq![(url@, ms)] + entries_from(s@, e as int));
                    assert(before.push((url@, ms)) + entries_from(s@, e as int) == before + (seq![(url@, ms)] + entries_from(s@, e as int)));
                }
                i = e;
            },
            None => {
                proof {
                    if at_line {
                        assert(line_start(s@, i as int));
                    } else {
                        assert(!line_start(s@, i as int));
                    }
                }
                i += 1;
            },
        }
    }
    proof {
        let all = out@.map_values(|m: MirrorTestResult| (m.url@, m.latency_ms));
        assert(entry_at(s@, i as int) is None);
        assert(entries_from(s@, i + 1) == Seq::<(Seq<char>, Option<u32>)>::empty());
        assert(entries_from(s@, i as int) == Seq::<(Seq<char>, Option<u32>)>::empty());
        assert(all + Seq::<(Seq<char>, Option<u32>)>::empty() == all);
    }
    out.truncate(take);
    Ok(out)
}

/// Where the mirrors of a repository are tested: Arch (by ranking them live), or the
/// mirror list of CachyOS or Chaotic-AUR.
#[derive(Debug, Clone, Copy, PartialEq, Eq, Structural)]
pub enum MirrorTarget {
    Arch,
    CachyOS,
    Chaotic,
}

/// The mirror target for a repository key: Arch for "arch", "official arch linux", the
/// empty key and anything unknown; CachyOS or Chaotic-AUR when the key names them.
pub open spec fn mirror_target_of(key: Seq<char>) -> MirrorTarget {
    let k = lowercase(key);
    if k == "arch"@ || k == "official arch linux"@ || k.len() == 0 {
        MirrorTarget::Arch
    } else if contains(k, "cachyos"@) {
        MirrorTarget::CachyOS
    } else if contains(k, "chaotic"@) {
        MirrorTarget::Chaotic
    } else {
        MirrorTarget::Arch
    }
}

/// The mirror target for a repository key.
pub fn mirror_target(repo_key: &str) -> (r: MirrorTarget)
    ensures
        r == mirror_target_of(repo_key@),
{
    let k = lower_chars(repo_key);
    if eq_str(k.as_slice(), "arch") || eq_str(k.as_slice(), "official arch linux") || k.len() == 0 {
        MirrorTarget::Arch
    } else if contains_str(k.as_slice(), "cachyos") {
        MirrorTarget::CachyOS
    } else if contains_str(k.as_slice(), "chaotic") {
        MirrorTarget::Chaotic
    } else {
        MirrorTarget::Arch
    }
}

// ---------------------------------------------------------------------------
// Package cache, mirror ranking, one-click installs, kernel
// ---------------------------------------------------------------------------

/// The size and number of package files in pacman's cache.
#[derive(Debug, Clone)]
pub struct CacheStats {
    pub total_size_bytes: u64,
    pub package_count: usize,
}

/// A cache file counts as a package file when its extension is `zst`, `xz` or `sig`.
pub open spec fn is_package_file(ext: Seq<char>) -> bool {
    ext == "zst"@ || ext == "xz"@ || ext == "sig"@
}

/// The total size of the package files among `files` (extension and size of each file).
pub open spec fn package_files_size(files: Seq<(String, u64)>) -> nat
    decreases files.len(),
{
    if files.len() == 0 {
        0
    } else {
        package_files_size(files.drop_last()) + if is_package_file(files.last().0@) {
            files.last().1 as nat
        } else {
            0nat
        }
    }
}

/// The number of package files among `files`.
pub open spec fn package_files_count(files: Seq<(String, u64)>) -> nat
    decreases files.len(),
{
    if files.len() == 0 {
        0
    } else {
        package_files_count(files.drop_last()) + if is_package_file(files.last().0@) {
            1nat
        } else {
            0nat
        }
    }
}

proof fn lemma_package_files_monotone(files: Seq<(String, u64)>, i: int)
    requires
        0 <= i <= files.len(),
    ensures
        package_files_size(files.take(i)) <= package_files_size(files),
        package_files_count(files.take(i)) <= package_files_count(files),
        package_files_count(files) <= files.len(),
    decreases files.len(),
{
    if files.len() > 0 {
        if i == files.len() {
            assert(files.take(i) == files);
            lemma_package_files_monotone(files.drop_last(), i - 1);
        } else {
            assert(files.drop_last().take(i) == files.take(i));
            lemma_package_files_monotone(files.drop_last(), i);
        }
    }
}

/// The cache statistics of the regular files of the package cache, given as the extension
/// (empty when there is none) and the size of each.
pub fn compute_cache_stats(files: &Vec<(String, u64)>) -> (r: CacheStats)
    requires
        package_files_size(files@) <= u64::MAX,
    ensures
        r.total_size_bytes == package_files_size(files@),
        r.package_count == package_files_count(files@),
{
    let mut total: u64 = 0;
    let mut count: usize = 0;
    let mut i: usize = 0;
    while i < files.len()
        invariant
            0 <= i <= files@.len(),
            package_files_size(files@) <= u64::MAX,
            total == package_files_size(files@.take(i as int)),
            count == package_files_count(files@.take(i as int)),
        decreases files@.len() - i,
    {
        proof {
            lemma_package_files_monotone(files@, i + 1);
            lemma_package_files_monotone(files@.take(i + 1), i + 1);
        }
        assert(files@.take(i + 1).drop_last() == files@.take(i as int));
        assert(files@.take(i + 1).last() == files@[i as int]);
        let e = chars_of(files[i].0.as_str());
        if eq_str(e.as_slice(), "zst") || eq_str(e.as_slice(), "xz") || eq_str(e.as_slice(), "sig") {
            total = total + files[i].1;
            count = count + 1;
        }
        i += 1;
    }
    assert(files@.take(files@.len() as int) == files@);
    CacheStats { total_size_bytes: total, package_count: count }
}

/// The mirror-ranking tool in use: pacman-mirrors on Manjaro (its tool and release file are
/// present), else reflector, else rate-mirrors, when installed.
pub open spec fn mirror_rank_tool(manjaro_mirrors: bool, has_reflector: bool, has_rate_mirrors: bool) -> Option<Seq<char>> {
    if manjaro_mirrors {
        Some("pacman-mirrors"@)
    } else if has_reflector {
        Some("reflector"@)
    } else if has_rate_mirrors {
        Some("rate-mirrors"@)
    } else {
        None
    }
}

/// Which mirror-ranking tool the store will use on this host.
pub fn get_mirror_rank_tool(manjaro_mirrors: bool, has_reflector: bool, has_rate_mirrors: bool) -> (r: Option<String>)
    ensures
        crate::package::opt_text(r) == mirror_rank_tool(manjaro_mirrors, has_reflector, has_rate_mirrors),
{
    if manjaro_mirrors {
        Some(String::from_str("pacman-mirrors"))
    } else if has_reflector {
        Some(String::from_str("reflector"))
    } else if has_rate_mirrors {
        Some(String::from_str("rate-mirrors"))
    } else {
        None
    }
}

/// One-click installs are on when the store's setting says so, or when the installed polkit
/// policy (`policy`, absent when it cannot be read) allows active sessions; in the second
/// case the setting is brought in line. Gives whether they are on and whether the setting
/// must be switched on.
pub fn is_one_click_enabled(setting_enabled: bool, policy: Option<&str>) -> (r: (bool, bool))
    ensures
        ({
            let on_disk = match policy {
                Some(p) => contains(p@, "<allow_active>yes</allow_active>"@),
                None => false,
            };
            r == (setting_enabled || on_disk, on_disk && !setting_enabled)
        }),
{
    let on_disk = match policy {
        Some(p) => contains_str(chars_of(p).as_slice(), "<allow_active>yes</allow_active>"),
        None => false,
    };
    if on_disk && !setting_enabled {
        (true, true)
    } else {
        (setting_enabled, false)
    }
}

/// The modules directory of the running kernel `running_kernel` (as `uname -r` prints it),
/// or `None` when no kernel release was read. A reboot is needed when this directory is
/// gone.
pub fn kernel_modules_dir(running_kernel: &str) -> (r: Option<String>)
    ensures
        crate::package::opt_text(r) == if crate::text::trim(running_kernel@).len() == 0 {
            None
        } else {
            Some("/usr/lib/modules/"@ + crate::text::trim(running_kernel@))
        },
{
    let k = crate::text::trim_chars(chars_of(running_kernel).as_slice());
    if k.len() == 0 {
        None
    } else {
        let prefix = chars_of("/usr/lib/modules/");
        Some(string_of(crate::text::concat(prefix.as_slice(), k.as_slice()).as_slice()))
    }
}

} // verus!
