//! Resolving the AUR dependencies of a package before it is built.
//!
//! The walk is depth first: a package is visited once, each of its dependencies that is
//! neither installed (or provided) nor available from a sync repository is resolved in
//! turn, and the package is listed after them. A dependency met again while it is still
//! being resolved is a cycle; a chain deeper than 64 packages is refused.
//!
//! The walk needs answers from outside (the AUR record of a package, whether a dependency
//! is satisfied, whether a repository carries it), so it is a state machine: each step
//! takes the answer to the last question and gives the next question, or the outcome.
use vstd::prelude::*;
use crate::text::{chars_of, string_of, string_views, trim};

verus! {

// ---------------------------------------------------------------------------
// Dependency names
// ---------------------------------------------------------------------------

/// A version constraint begins at one of these characters.
pub open spec fn is_constraint_char(c: char) -> bool {
    c == '=' || c == '>' || c == '<'
}

/// The length of the part of a dependency entry before its version constraint.
pub open spec fn name_len(s: Seq<char>) -> nat
    decreases s.len(),
{
    if s.len() == 0 || is_constraint_char(s[0]) {
        0
    } else {
        1 + name_len(s.drop_first())
    }
}

/// The package name of a dependency entry such as `glibc>=2.38`: the part before the
/// first `=`, `>` or `<`, trimmed.
pub open spec fn dependency_name(entry: Seq<char>) -> Seq<char> {
    trim(entry.take(name_len(entry) as int))
}

proof fn lemma_name_len(s: Seq<char>, k: int)
    requires
        0 <= k <= s.len(),
        forall|j: int| 0 <= j < k ==> !is_constraint_char(#[trigger] s[j]),
        k == s.len() || is_constraint_char(s[k]),
    ensures
        name_len(s) == k,
    decreases s.len(),
{
    if s.len() > 0 && k > 0 {
        assert forall|j: int| 0 <= j < k - 1 implies !is_constraint_char(#[trigger] s.drop_first()[j]) by {
            assert(s.drop_first()[j] == s[j + 1]);
        }
        if k < s.len() {
            assert(s.drop_first()[k - 1] == s[k]);
        }
        lemma_name_len(s.drop_first(), k - 1);
    }
}

/// The package name of the dependency entry `entry`.
pub fn dependency_name_of(entry: &str) -> (r: String)
    ensures
        r@ == dependency_name(entry@),
{
    let cv = chars_of(entry);
    let mut k: usize = 0;
    while k < cv.len() && !(cv[k] == '=' || cv[k] == '>' || cv[k] == '<')
        invariant
            0 <= k <= cv@.len(),
            forall|j: int| 0 <= j < k ==> !is_constraint_char(#[trigger] cv@[j]),
        decreases cv@.len() - k,
    {
        k += 1;
    }
    proof {
        lemma_name_len(cv@, k as int);
    }
    let head = crate::text::slice_copy(cv.as_slice(), 0, k);
    assert(head@ == entry@.take(k as int));
    string_of(crate::text::trim_chars(head.as_slice()).as_slice())
}

// ---------------------------------------------------------------------------
// The walk, in the abstract
// ---------------------------------------------------------------------------

/// How deep a dependency chain may go.
pub const MAX_DEPTH: usize = 64;

/// A package being resolved: its name, the names of its dependencies, and how many of them
/// have been dealt with.
pub struct FrameView {
    pub name: Seq<char>,
    pub deps: Seq<Seq<char>>,
    pub next: int,
}

/// What the walk waits for, or how it ended.
#[derive(Debug, Clone, Copy, PartialEq, Eq, Structural)]
pub enum Phase {
    /// The AUR record of the package on top of the stack.
    Info,
    /// Whether the next dependency of the top package is satisfied on the system.
    Satisfied,
    /// Whether a sync repository carries the next dependency of the top package.
    InRepos,
    /// All resolved.
    Done,
    /// Stopped with an error.
    Failed,
}

/// The walk's state: the packages being resolved (the stack, innermost last), the packages
/// resolved so far in build order, the packages visited in order of first visit, and for
/// each package the dependencies it was found to need from the AUR.
pub struct WalkView {
    pub frames: Seq<FrameView>,
    pub resolved: Seq<Seq<char>>,
    pub visited: Seq<Seq<char>>,
    pub needs: Map<Seq<char>, Set<Seq<char>>>,
    pub phase: Phase,
}

/// A question the walk asks, or its outcome.
pub enum QueryView {
    Info(Seq<char>),
    Satisfied(Seq<char>),
    InRepos(Seq<char>),
    Done,
    Failed(Seq<char>),
}

/// The error for a dependency chain that is too deep.
pub open spec fn depth_message() -> Seq<char> {
    "AUR dependency depth exceeded (max 64). Possible cycle or very deep tree."@
}

/// The error for a dependency cycle through `name`.
pub open spec fn cycle_message(name: Seq<char>) -> Seq<char> {
    "Cycle detected in AUR dependencies involving '"@ + name + "'."@
}

/// The error for a package the AUR does not know.
pub open spec fn not_found_message(name: Seq<char>) -> Seq<char> {
    "Package "@ + name + " not found in AUR"@
}

/// Whether `name` is on the stack.
pub open spec fn on_stack(frames: Seq<FrameView>, name: Seq<char>) -> bool {
    exists|i: int| 0 <= i < frames.len() && (#[trigger] frames[i]).name == name
}

/// The dependencies recorded for `name`.
pub open spec fn needs_of(needs: Map<Seq<char>, Set<Seq<char>>>, name: Seq<char>) -> Set<Seq<char>> {
    if needs.dom().contains(name) {
        needs[name]
    } else {
        Set::empty()
    }
}

/// The phase a question or outcome leaves the walk in.
pub open spec fn phase_of(q: QueryView) -> Phase {
    match q {
        QueryView::Info(_) => Phase::Info,
        QueryView::Satisfied(_) => Phase::Satisfied,
        QueryView::InRepos(_) => Phase::InRepos,
        QueryView::Done => Phase::Done,
        QueryView::Failed(_) => Phase::Failed,
    }
}

/// `w` with the top package's dependency counter moved on by one.
pub open spec fn bump(w: WalkView) -> WalkView {
    let top = w.frames.last();
    WalkView {
        frames: w.frames.update(
            w.frames.len() - 1,
            FrameView { name: top.name, deps: top.deps, next: top.next + 1 },
        ),
        ..w
    }
}

/// Moves the walk on from `w` to its next question: the next dependency of the top package
/// is asked about; a package with all its dependencies dealt with leaves the stack, joins
/// the resolved list (once) and counts as dealt with for the package below it.
pub open spec fn advance(w: WalkView) -> (WalkView, QueryView)
    decreases w.frames.len(),
{
    if w.frames.len() == 0 {
        (WalkView { phase: Phase::Done, ..w }, QueryView::Done)
    } else {
        let top = w.frames.last();
        if 0 <= top.next < top.deps.len() {
            (WalkView { phase: Phase::Satisfied, ..w }, QueryView::Satisfied(top.deps[top.next]))
        } else {
            let rest = w.frames.drop_last();
            let resolved = if w.resolved.contains(top.name) {
                w.resolved
            } else {
                w.resolved.push(top.name)
            };
            let popped = WalkView { frames: rest, resolved, ..w };
            if rest.len() == 0 {
                (WalkView { phase: Phase::Done, ..popped }, QueryView::Done)
            } else {
                advance(bump(popped))
            }
        }
    }
}

/// Visits `name` from the walk `w`, at the depth of the current stack: refused when too
/// deep or already on the stack; passed over (as dealt with) when visited before; else put
/// on the stack and its AUR record asked for.
pub open spec fn visit(w: WalkView, name: Seq<char>) -> (WalkView, QueryView) {
    if w.frames.len() > MAX_DEPTH {
        (WalkView { phase: Phase::Failed, ..w }, QueryView::Failed(depth_message()))
    } else if on_stack(w.frames, name) {
        (WalkView { phase: Phase::Failed, ..w }, QueryView::Failed(cycle_message(name)))
    } else if w.visited.contains(name) {
        advance(bump(w))
    } else {
        (
            WalkView {
                frames: w.frames.push(FrameView { name, deps: Seq::empty(), next: 0 }),
                visited: w.visited.push(name),
                phase: Phase::Info,
                ..w
            },
            QueryView::Info(name),
        )
    }
}

/// The walk and first question for resolving `name`.
pub open spec fn start(name: Seq<char>) -> (WalkView, QueryView) {
    visit(
        WalkView {
            frames: Seq::empty(),
            resolved: Seq::empty(),
            visited: Seq::empty(),
            needs: Map::empty(),
            phase: Phase::Info,
        },
        name,
    )
}

/// The step after the AUR record of the top package arrived: `entries` are its
/// dependencies and build dependencies, `None` when the AUR has no such package.
pub open spec fn after_info(w: WalkView, entries: Option<Seq<Seq<char>>>) -> (WalkView, QueryView) {
    let top = w.frames.last();
    match entries {
        None => (WalkView { phase: Phase::Failed, ..w }, QueryView::Failed(not_found_message(top.name))),
        Some(es) => advance(
            WalkView {
                frames: w.frames.update(
                    w.frames.len() - 1,
                    FrameView {
                        name: top.name,
                        deps: es.map_values(|e: Seq<char>| dependency_name(e)),
                        next: 0,
                    },
                ),
                ..w
            },
        ),
    }
}

/// The step after learning whether the dependency asked about is satisfied on the system.
pub open spec fn after_satisfied(w: WalkView, satisfied: bool) -> (WalkView, QueryView) {
    let top = w.frames.last();
    if satisfied {
        advance(bump(w))
    } else {
        (WalkView { phase: Phase::InRepos, ..w }, QueryView::InRepos(top.deps[top.next]))
    }
}

/// The step after learning whether a sync repository carries the dependency asked about:
/// if none does, the top package needs it from the AUR and it is visited.
pub open spec fn after_in_repos(w: WalkView, in_repos: bool) -> (WalkView, QueryView) {
    let top = w.frames.last();
    let dep = top.deps[top.next];
    if in_repos {
        advance(bump(w))
    } else {
        visit(
            WalkView { needs: w.needs.insert(top.name, needs_of(w.needs, top.name).insert(dep)), ..w },
            dep,
        )
    }
}

/// The walk's phase matches its stack: waiting for a record means the top package has no
/// dependencies yet; a question about a dependency means the top package has one left;
/// done means the stack is empty.
pub open spec fn phase_fits(w: WalkView) -> bool {
    match w.phase {
        Phase::Info => w.frames.len() > 0 && w.frames.last().deps.len() == 0 && w.frames.last().next == 0,
        Phase::Satisfied => w.frames.len() > 0 && 0 <= w.frames.last().next < w.frames.last().deps.len(),
        Phase::InRepos => w.frames.len() > 0 && 0 <= w.frames.last().next < w.frames.last().deps.len(),
        Phase::Done => w.frames.len() == 0,
        Phase::Failed => true,
    }
}

// ---------------------------------------------------------------------------
// What every step keeps
// ---------------------------------------------------------------------------

/// No name occurs twice in `s`.
pub open spec fn no_repeats(s: Seq<Seq<char>>) -> bool {
    forall|i: int, j: int| 0 <= i < j < s.len() ==> s[i] != s[j]
}

/// The names on the stack, outermost first.
pub open spec fn frame_names(frames: Seq<FrameView>) -> Seq<Seq<char>> {
    frames.map_values(|f: FrameView| f.name)
}

/// The walk is sound: nothing is resolved twice or stacked twice, nothing stacked is
/// resolved, the visited packages are exactly those stacked or resolved, the requested
/// package is at the bottom of the stack (and resolved last once the stack is empty), the
/// counters are in range, and each package is resolved after every package it needs from
/// the AUR (a stacked package's needs are resolved, but for the one stacked right above it).
pub open spec fn sound(w: WalkView) -> bool {
    &&& no_repeats(w.resolved)
    &&& no_repeats(frame_names(w.frames))
    &&& forall|i: int| 0 <= i < w.frames.len() ==> !w.resolved.contains(#[trigger] w.frames[i].name)
    &&& forall|n: Seq<char>| #[trigger] w.visited.contains(n) <==> (on_stack(w.frames, n) || w.resolved.contains(n))
    &&& counters_in_range(w)
    &&& w.frames.len() > 0 ==> 0 <= w.frames.last().next <= w.frames.last().deps.len()
    &&& w.frames.len() > 0 ==> w.visited.len() > 0 && w.frames[0].name == w.visited[0]
    &&& (w.frames.len() == 0 && w.visited.len() > 0) ==> w.resolved.len() > 0 && w.resolved.last() == w.visited[0]
    &&& forall|k: int, d: Seq<char>|
        0 <= k < w.resolved.len() && #[trigger] needs_of(w.needs, w.resolved[k]).contains(d) ==> w.resolved.take(k).contains(d)
    &&& forall|i: int, d: Seq<char>|
        0 <= i < w.frames.len() && #[trigger] needs_of(w.needs, w.frames[i].name).contains(d) ==> w.resolved.contains(d) || (i + 1
            < w.frames.len() && d == w.frames[i + 1].name)
    &&& forall|n: Seq<char>, d: Seq<char>| #[trigger] needs_of(w.needs, n).contains(d) ==> w.visited.contains(n)
}

/// The walk is in order: sound and in a phase that fits its stack, unless it failed.
pub open spec fn walk_ok(w: WalkView) -> bool {
    w.phase == Phase::Failed || (sound(w) && phase_fits(w))
}

proof fn lemma_bump_sound(w: WalkView)
    requires
        sound(w),
        w.frames.len() > 0,
        0 <= w.frames.last().next < w.frames.last().deps.len(),
    ensures
        sound(bump(w)),
{
    let b = bump(w);
    let l = w.frames.len() - 1;
    assert forall|i: int| 0 <= i < w.frames.len() implies #[trigger] b.frames[i].name == w.frames[i].name by {}
    assert(frame_names(b.frames) =~= frame_names(w.frames));
    assert forall|n: Seq<char>| on_stack(b.frames, n) == on_stack(w.frames, n) by {
        if on_stack(w.frames, n) {
            let i = choose|i: int| 0 <= i < w.frames.len() && (#[trigger] w.frames[i]).name == n;
            assert(b.frames[i].name == n);
        }
        if on_stack(b.frames, n) {
            let i = choose|i: int| 0 <= i < b.frames.len() && (#[trigger] b.frames[i]).name == n;
            assert(w.frames[i].name == n);
        }
    }
}

proof fn lemma_pop_sound(w: WalkView)
    requires
        sound(w),
        w.frames.len() > 0,
        !(0 <= w.frames.last().next < w.frames.last().deps.len()),
    ensures
        ({
            let top = w.frames.last();
            let rest = w.frames.drop_last();
            let popped = WalkView { frames: rest, resolved: w.resolved.push(top.name), ..w };
            &&& !w.resolved.contains(top.name)
            &&& sound(popped)
            &&& rest.len() > 0 ==> 0 <= rest.last().next < rest.last().deps.len()
        }),
{
    let top = w.frames.last();
    let l = w.frames.len() - 1;
    let rest = w.frames.drop_last();
    let res2 = w.resolved.push(top.name);
    let p = WalkView { frames: rest, resolved: res2, ..w };
    assert(!w.resolved.contains(w.frames[l].name));
    assert forall|i: int, j: int| 0 <= i < j < res2.len() implies res2[i] != res2[j] by {
        if j == res2.len() - 1 {
            assert(w.resolved.contains(res2[i]));
        }
    }
    assert forall|i: int, j: int| 0 <= i < j < frame_names(rest).len() implies frame_names(rest)[i]
        != frame_names(rest)[j] by {
        assert(frame_names(rest)[i] == frame_names(w.frames)[i]);
        assert(frame_names(rest)[j] == frame_names(w.frames)[j]);
    }
    assert forall|i: int| 0 <= i < rest.len() implies !res2.contains(#[trigger] rest[i].name) by {
        assert(frame_names(w.frames)[i] != frame_names(w.frames)[l]);
        assert(!w.resolved.contains(w.frames[i].name));
        if res2.contains(rest[i].name) {
            let k = choose|k: int| 0 <= k < res2.len() && res2[k] == rest[i].name;
            if k < w.resolved.len() {
                assert(w.resolved.contains(rest[i].name));
            }
        }
    }
    assert forall|n: Seq<char>| #[trigger] p.visited.contains(n) <==> (on_stack(rest, n) || res2.contains(n)) by {
        if on_stack(w.frames, n) && !on_stack(rest, n) {
            let i = choose|i: int| 0 <= i < w.frames.len() && (#[trigger] w.frames[i]).name == n;
            if i < l {
                assert(rest[i].name == n);
            }
            assert(res2[res2.len() - 1] == n);
        }
        if on_stack(rest, n) {
            let i = choose|i: int| 0 <= i < rest.len() && (#[trigger] rest[i]).name == n;
            assert(w.frames[i].name == n);
        }
        if res2.contains(n) && !w.resolved.contains(n) {
            let k = choose|k: int| 0 <= k < res2.len() && res2[k] == n;
            if k < w.resolved.len() {
                assert(w.resolved.contains(n));
            }
            assert(n == top.name);
            assert(on_stack(w.frames, n));
        }
        if w.resolved.contains(n) {
            let k = choose|k: int| 0 <= k < w.resolved.len() && w.resolved[k] == n;
            assert(res2[k] == n);
        }
    }
    assert forall|k: int, d: Seq<char>|
        0 <= k < res2.len() && #[trigger] needs_of(p.needs, res2[k]).contains(d) implies res2.take(k).contains(d) by {
        if k < w.resolved.len() {
            assert(res2[k] == w.resolved[k]);
            assert(w.resolved.take(k).contains(d));
            let j = choose|j: int| 0 <= j < w.resolved.take(k).len() && w.resolved.take(k)[j] == d;
            assert(res2.take(k)[j] == d);
        } else {
            assert(res2[k] == w.frames[l].name);
            assert(w.resolved.contains(d));
            assert(res2.take(k) =~= w.resolved);
        }
    }
    assert forall|i: int, d: Seq<char>|
        0 <= i < rest.len() && #[trigger] needs_of(p.needs, rest[i].name).contains(d) implies res2.contains(d) || (i + 1
            < rest.len() && d == rest[i + 1].name) by {
        assert(rest[i] == w.frames[i]);
        if w.resolved.contains(d) {
            let k = choose|k: int| 0 <= k < w.resolved.len() && w.resolved[k] == d;
            assert(res2[k] == d);
        } else {
            assert(d == w.frames[i + 1].name);
            if i + 1 == l {
                assert(res2[res2.len() - 1] == d);
            } else {
                assert(rest[i + 1] == w.frames[i + 1]);
            }
        }
    }
    assert forall|i: int| 0 <= i < rest.len() - 1 implies 0 <= (#[trigger] rest[i]).next < rest[i].deps.len() by {
        assert(rest[i] == w.frames[i]);
    }
    if rest.len() > 0 {
        assert(rest.last() == w.frames[l - 1]);
        assert(rest[0] == w.frames[0]);
    } else {
        assert(w.frames[0].name == top.name);
    }
}

proof fn lemma_advance(w: WalkView)
    requires
        sound(w),
    ensures
        walk_ok(advance(w).0),
        advance(w).0.phase == phase_of(advance(w).1),
        advance(w).0.phase != Phase::Failed,
        advance(w).0.visited == w.visited,
    decreases w.frames.len(),
{
    if w.frames.len() > 0 {
        let top = w.frames.last();
        if !(0 <= top.next < top.deps.len()) {
            lemma_pop_sound(w);
            let rest = w.frames.drop_last();
            let popped = WalkView { frames: rest, resolved: w.resolved.push(top.name), ..w };
            if rest.len() > 0 {
                lemma_bump_sound(popped);
                lemma_advance(bump(popped));
            }
        }
    }
}

proof fn lemma_same_stack_names(a: Seq<FrameView>, b: Seq<FrameView>)
    requires
        a.len() == b.len(),
        forall|i: int| 0 <= i < a.len() ==> #[trigger] a[i].name == b[i].name,
    ensures
        frame_names(a) == frame_names(b),
        forall|n: Seq<char>| on_stack(a, n) == on_stack(b, n),
{
    assert(frame_names(a) =~= frame_names(b));
    assert forall|n: Seq<char>| on_stack(a, n) == on_stack(b, n) by {
        if on_stack(a, n) {
            let i = choose|i: int| 0 <= i < a.len() && (#[trigger] a[i]).name == n;
            assert(b[i].name == n);
        }
        if on_stack(b, n) {
            let i = choose|i: int| 0 <= i < b.len() && (#[trigger] b[i]).name == n;
            assert(a[i].name == n);
        }
    }
}

proof fn lemma_after_info(w: WalkView, entries: Option<Seq<Seq<char>>>)
    requires
        walk_ok(w),
        w.phase == Phase::Info,
    ensures
        walk_ok(after_info(w, entries).0),
        after_info(w, entries).0.phase == phase_of(after_info(w, entries).1),
        after_info(w, entries).0.visited == w.visited,
{
    match entries {
        None => {},
        Some(es) => {
            let top = w.frames.last();
            let f = WalkView {
                frames: w.frames.update(
                    w.frames.len() - 1,
                    FrameView { name: top.name, deps: es.map_values(|e: Seq<char>| dependency_name(e)), next: 0 },
                ),
                ..w
            };
            assert forall|i: int| 0 <= i < w.frames.len() implies #[trigger] f.frames[i].name == w.frames[i].name by {}
            lemma_same_stack_names(f.frames, w.frames);
            assert forall|i: int| 0 <= i < f.frames.len() - 1 implies 0 <= (#[trigger] f.frames[i]).next
                < f.frames[i].deps.len() by {
                assert(f.frames[i] == w.frames[i]);
            }
            assert(sound(f));
            lemma_advance(f);
        },
    }
}

proof fn lemma_after_satisfied(w: WalkView, satisfied: bool)
    requires
        walk_ok(w),
        w.phase == Phase::Satisfied,
    ensures
        walk_ok(after_satisfied(w, satisfied).0),
        after_satisfied(w, satisfied).0.phase == phase_of(after_satisfied(w, satisfied).1),
        after_satisfied(w, satisfied).0.visited == w.visited,
{
    if satisfied {
        lemma_bump_sound(w);
        lemma_advance(bump(w));
    }
}

proof fn lemma_after_in_repos(w: WalkView, in_repos: bool)
    requires
        walk_ok(w),
        w.phase == Phase::InRepos,
    ensures
        walk_ok(after_in_repos(w, in_repos).0),
        after_in_repos(w, in_repos).0.phase == phase_of(after_in_repos(w, in_repos).1),
        after_in_repos(w, in_repos).0.visited.len() >= w.visited.len(),
        after_in_repos(w, in_repos).0.visited.take(w.visited.len() as int) == w.visited,
{
    if in_repos {
        lemma_bump_sound(w);
        lemma_advance(bump(w));
    } else {
        let l = w.frames.len() - 1;
        let top = w.frames.last();
        let dep = top.deps[top.next];
        let needs1 = w.needs.insert(top.name, needs_of(w.needs, top.name).insert(dep));
        let w1 = WalkView { needs: needs1, ..w };
        assert forall|n: Seq<char>| n != top.name implies needs_of(needs1, n) == needs_of(w.needs, n) by {}
        assert(needs_of(needs1, top.name) == needs_of(w.needs, top.name).insert(dep));
        assert(on_stack(w.frames, top.name));
        if w.frames.len() > MAX_DEPTH || on_stack(w.frames, dep) {
        } else if w.visited.contains(dep) {
            assert(w.resolved.contains(dep));
            assert forall|k: int, d: Seq<char>|
                0 <= k < w1.resolved.len() && #[trigger] needs_of(w1.needs, w1.resolved[k]).contains(d) implies w1.resolved.take(
                    k,
                ).contains(d) by {
                assert(w.resolved[k] != top.name);
            }
            assert forall|i: int, d: Seq<char>|
                0 <= i < w1.frames.len() && #[trigger] needs_of(w1.needs, w1.frames[i].name).contains(d) implies w1.resolved.contains(
                    d,
                ) || (i + 1 < w1.frames.len() && d == w1.frames[i + 1].name) by {
                if i != l {
                    assert(frame_names(w.frames)[i] != frame_names(w.frames)[l]);
                }
            }
            assert(sound(w1));
            lemma_bump_sound(w1);
            lemma_advance(bump(w1));
        } else {
            let nf = FrameView { name: dep, deps: Seq::empty(), next: 0 };
            let w2 = WalkView {
                frames: w1.frames.push(nf),
                visited: w1.visited.push(dep),
                phase: Phase::Info,
                ..w1
            };
            assert(!w.resolved.contains(dep));
            assert(needs_of(w.needs, dep) =~= Set::<Seq<char>>::empty()) by {
                if !(needs_of(w.needs, dep) =~= Set::<Seq<char>>::empty()) {
                    let d = choose|d: Seq<char>| needs_of(w.needs, dep).contains(d);
                    assert(w.visited.contains(dep));
                }
            }
            assert forall|i: int, j: int| 0 <= i < j < frame_names(w2.frames).len() implies frame_names(
                w2.frames,
            )[i] != frame_names(w2.frames)[j] by {
                if j == l + 1 {
                    assert(w2.frames[i] == w.frames[i]);
                    assert(on_stack(w.frames, frame_names(w2.frames)[i]));
                } else {
                    assert(frame_names(w2.frames)[i] == frame_names(w.frames)[i]);
                    assert(frame_names(w2.frames)[j] == frame_names(w.frames)[j]);
                }
            }
            assert forall|i: int| 0 <= i < w2.frames.len() implies !w2.resolved.contains(#[trigger] w2.frames[i].name) by {
                if i <= l {
                    assert(w2.frames[i] == w.frames[i]);
                }
            }
            assert forall|n: Seq<char>| #[trigger] w2.visited.contains(n) <==> (on_stack(w2.frames, n) || w2.resolved.contains(n)) by {
                if on_stack(w.frames, n) {
                    let i = choose|i: int| 0 <= i < w.frames.len() && (#[trigger] w.frames[i]).name == n;
                    assert(w2.frames[i].name == n);
                    assert(on_stack(w2.frames, n));
                }
                if w.visited.contains(n) {
                    let k = choose|k: int| 0 <= k < w.visited.len() && w.visited[k] == n;
                    assert(w2.visited[k] == n);
                    assert(w2.visited.contains(n));
                }
                if w2.visited.contains(n) {
                    let k = choose|k: int| 0 <= k < w2.visited.len() && w2.visited[k] == n;
                    if k < w.visited.len() {
                        assert(w.visited[k] == n);
                        assert(w.visited.contains(n));
                    } else {
                        assert(n == dep);
                        assert(w2.frames[l + 1].name == n);
                        assert(on_stack(w2.frames, n));
                    }
                }
                if on_stack(w2.frames, n) {
                    let i = choose|i: int| 0 <= i < w2.frames.len() && (#[trigger] w2.frames[i]).name == n;
                    if i <= l {
                        assert(w.frames[i].name == n);
                        assert(on_stack(w.frames, n));
                    } else {
                        assert(n == dep);
                        assert(w2.visited[w2.visited.len() - 1] == n);
                        assert(w2.visited.contains(n));
                    }
                }
            }
            assert forall|i: int| 0 <= i < w2.frames.len() - 1 implies 0 <= (#[trigger] w2.frames[i]).next
                < w2.frames[i].deps.len() by {
                assert(w2.frames[i] == w.frames[i]);
            }
            assert forall|k: int, d: Seq<char>|
                0 <= k < w2.resolved.len() && #[trigger] needs_of(w2.needs, w2.resolved[k]).contains(d) implies w2.resolved.take(
                    k,
                ).contains(d) by {
                assert(w.resolved[k] != top.name);
            }
            assert forall|i: int, d: Seq<char>|
                0 <= i < w2.frames.len() && #[trigger] needs_of(w2.needs, w2.frames[i].name).contains(d) implies w2.resolved.contains(
                    d,
                ) || (i + 1 < w2.frames.len() && d == w2.frames[i + 1].name) by {
                if i < l {
                    assert(w2.frames[i] == w.frames[i]);
                    assert(frame_names(w.frames)[i] != frame_names(w.frames)[l]);
                    assert(w2.frames[i + 1] == w.frames[i + 1]);
                } else if i == l {
                    assert(w2.frames[i] == w.frames[i]);
                } else {
                    assert(w2.frames[i].name == dep);
                    assert(dep != top.name);
                }
            }
            assert forall|n: Seq<char>, d: Seq<char>| #[trigger] needs_of(w2.needs, n).contains(d) implies w2.visited.contains(n) by {
                if n == top.name {
                    assert(w.visited.contains(n));
                } else {
                    assert(w.visited.contains(n));
                }
                let k = choose|k: int| 0 <= k < w.visited.len() && w.visited[k] == n;
                assert(w2.visited[k] == n);
            }
            assert(w2.frames[0] == w.frames[0]);
            assert(w2.visited[0] == w.visited[0]);
            assert(sound(w2));
        }
    }
}

proof fn lemma_start(name: Seq<char>)
    ensures
        walk_ok(start(name).0),
        start(name).0.phase == phase_of(start(name).1),
        start(name).0.visited == seq![name],
{
    let w0 = WalkView {
        frames: Seq::empty(),
        resolved: Seq::empty(),
        visited: Seq::empty(),
        needs: Map::empty(),
        phase: Phase::Info,
    };
    assert(!on_stack(w0.frames, name));
    let w2 = start(name).0;
    assert(w2.frames.len() == 1);
    assert(w2.visited =~= seq![name]);
    assert(w2.frames[0].name == name);
    assert(w2.resolved.len() == 0);
    assert forall|n: Seq<char>| #[trigger] w2.visited.contains(n) <==> (on_stack(w2.frames, n) || w2.resolved.contains(n)) by {
        if w2.visited.contains(n) {
            let k = choose|k: int| 0 <= k < w2.visited.len() && w2.visited[k] == n;
            assert(k == 0);
            assert(w2.frames[0].name == n);
            assert(on_stack(w2.frames, n));
        }
        if on_stack(w2.frames, n) {
            let i = choose|i: int| 0 <= i < w2.frames.len() && (#[trigger] w2.frames[i]).name == n;
            assert(i == 0);
            assert(w2.visited[0] == n);
            assert(w2.visited.contains(n));
        }
        assert(!w2.resolved.contains(n));
    }
    assert(w2.visited =~= seq![name]);
    assert(sound(w2));
}

/// When a walk has resolved everything, its build order lists each package once, puts
/// every package after each package it was found to need from the AUR, holds every package
/// the walk visited, and ends with the package the walk started from.
pub proof fn law_resolution_is_a_build_order(w: WalkView)
    requires
        walk_ok(w),
        w.phase == Phase::Done,
    ensures
        no_repeats(w.resolved),
        forall|k: int, d: Seq<char>|
            0 <= k < w.resolved.len() && #[trigger] needs_of(w.needs, w.resolved[k]).contains(d) ==> w.resolved.take(
                k,
            ).contains(d),
        forall|n: Seq<char>| #[trigger] w.visited.contains(n) ==> w.resolved.contains(n),
        w.visited.len() > 0 ==> w.resolved.len() > 0 && w.resolved.last() == w.visited[0],
{
    assert forall|n: Seq<char>| #[trigger] w.visited.contains(n) implies w.resolved.contains(n) by {
        assert(!on_stack(w.frames, n));
    }
}

// ---------------------------------------------------------------------------
// The walk
// ---------------------------------------------------------------------------

/// A package being resolved.
struct DepFrame {
    name: String,
    deps: Vec<String>,
    next: usize,
}

impl View for DepFrame {
    type V = FrameView;

    closed spec fn view(&self) -> FrameView {
        FrameView { name: self.name@, deps: string_views(self.deps@), next: self.next as int }
    }
}

/// The texts of the dependency entries of an AUR record, if there is one.
pub open spec fn entry_views(entries: Option<Vec<String>>) -> Option<Seq<Seq<char>>> {
    match entries {
        Some(es) => Some(string_views(es@)),
        None => None,
    }
}

/// A question for the caller to answer, or the outcome of the walk.
#[derive(Debug)]
pub enum DepQuery {
    /// Fetch the AUR record of this package and hand its dependencies to `on_info`.
    Info(String),
    /// Tell `on_satisfied` whether this dependency is installed or provided.
    Satisfied(String),
    /// Tell `on_in_repos` whether a sync repository carries this dependency.
    InRepos(String),
    /// Every dependency is resolved; `resolved` gives the build order.
    Done,
    /// The walk stopped with this error.
    Failed(String),
}

impl View for DepQuery {
    type V = QueryView;

    open spec fn view(&self) -> QueryView {
        match self {
            DepQuery::Info(s) => QueryView::Info(s@),
            DepQuery::Satisfied(s) => QueryView::Satisfied(s@),
            DepQuery::InRepos(s) => QueryView::InRepos(s@),
            DepQuery::Done => QueryView::Done,
            DepQuery::Failed(s) => QueryView::Failed(s@),
        }
    }
}

/// The state of a dependency walk.
pub struct AurDepResolver {
    frames: Vec<DepFrame>,
    resolved: Vec<String>,
    visited: Vec<String>,
    needs: Ghost<Map<Seq<char>, Set<Seq<char>>>>,
    phase: Phase,
}

impl View for AurDepResolver {
    type V = WalkView;

    closed spec fn view(&self) -> WalkView {
        WalkView {
            frames: self.frames@.map_values(|f: DepFrame| f@),
            resolved: string_views(self.resolved@),
            visited: string_views(self.visited@),
            needs: self.needs@,
            phase: self.phase,
        }
    }
}

/// The dependency counters below the top of the stack point at a dependency, so moving one
/// on stays in range.
pub open spec fn counters_in_range(w: WalkView) -> bool {
    forall|i: int| 0 <= i < w.frames.len() - 1 ==> 0 <= (#[trigger] w.frames[i]).next < w.frames[i].deps.len()
}

fn copy_text(s: &String) -> (r: String)
    ensures
        r@ == s@,
{
    string_of(chars_of(s.as_str()).as_slice())
}

impl AurDepResolver {
    fn visit_exec(&mut self, name: String) -> (q: DepQuery)
        requires
            counters_in_range(old(self)@),
            old(self)@.frames.len() > 0 ==> 0 <= old(self)@.frames.last().next
                < old(self)@.frames.last().deps.len(),
            old(self)@.frames.len() == 0 ==> old(self)@.visited.len() == 0,
        ensures
            (final(self)@, q@) == visit(old(self)@, name@),
    {
        let ghost cur = self@;
        if self.frames.len() > MAX_DEPTH {
            self.phase = Phase::Failed;
            assert(self@ == WalkView { phase: Phase::Failed, ..cur });
            return DepQuery::Failed(String::from_str(
                "AUR dependency depth exceeded (max 64). Possible cycle or very deep tree.",
            ));
        }
        let nv = chars_of(name.as_str());
        let mut i: usize = 0;
        while i < self.frames.len()
            invariant
                0 <= i <= self.frames@.len(),
                self@ == cur,
                cur == old(self)@,
                nv@ == name@,
                cur.frames.len() <= MAX_DEPTH,
                forall|j: int| 0 <= j < i ==> (#[trigger] cur.frames[j]).name != name@,
            decreases self.frames@.len() - i,
        {
            assert(cur.frames[i as int] == self.frames@[i as int]@);
            if crate::text::eq(chars_of(self.frames[i].name.as_str()).as_slice(), nv.as_slice()) {
                self.phase = Phase::Failed;
                assert(self@ == WalkView { phase: Phase::Failed, ..cur });
                assert(on_stack(cur.frames, name@));
                let m = crate::text::concat_str(
                    crate::text::concat(
                        chars_of("Cycle detected in AUR dependencies involving '").as_slice(),
                        nv.as_slice(),
                    ).as_slice(),
                    "'.",
                );
                return DepQuery::Failed(string_of(m.as_slice()));
            }
            i += 1;
        }
        assert(!on_stack(cur.frames, name@));
        if crate::text::contains_string(&self.visited, nv.as_slice()) {
            let l = self.frames.len() - 1;
            assert(self.frames@[l as int]@ == cur.frames[l as int]);
            let nx = self.frames[l].next;
            let dl = self.frames[l].deps.len();
            assert(nx < dl);
            self.frames[l].next = nx + 1;
            assert(self.frames@.map_values(|f: DepFrame| f@) == bump(cur).frames);
            assert(self@ == bump(cur));
            return self.advance_exec();
        }
        let shown = copy_text(&name);
        let ghost v0 = string_views(self.visited@);
        self.visited.push(copy_text(&name));
        assert(string_views(self.visited@) == v0.push(name@));
        let frame = DepFrame { name, deps: Vec::new(), next: 0 };
        assert(frame.deps@ =~= Seq::<String>::empty());
        assert(string_views(frame.deps@) =~= Seq::<Seq<char>>::empty());
        assert(frame@ == FrameView { name: name@, deps: Seq::<Seq<char>>::empty(), next: 0 });
        self.frames.push(frame);
        assert(self.frames@.map_values(|f: DepFrame| f@) == cur.frames.push(frame@));
        self.phase = Phase::Info;
        return DepQuery::Info(shown);
    }

    /// Starts resolving the package `name`; the first question is its AUR record.
    pub fn begin(name: &str) -> (r: (AurDepResolver, DepQuery))
        ensures
            (r.0@, r.1@) == start(name@),
            walk_ok(r.0@),
            r.0@.phase == phase_of(r.1@),
            r.0@.visited == seq![name@],
    {
        proof {
            lemma_start(name@);
        }
        let mut w = AurDepResolver {
            frames: Vec::new(),
            resolved: Vec::new(),
            visited: Vec::new(),
            needs: Ghost(Map::empty()),
            phase: Phase::Info,
        };
        assert(w@.frames =~= Seq::<FrameView>::empty());
        assert(w@.visited =~= Seq::<Seq<char>>::empty());
        assert(w@.resolved =~= Seq::<Seq<char>>::empty());
        let q = w.visit_exec(String::from_str(name));
        (w, q)
    }

    /// Takes the AUR record asked for: `entries` are the package's dependencies and build
    /// dependencies, `None` when the AUR does not know the package.
    pub fn on_info(&mut self, entries: Option<Vec<String>>) -> (q: DepQuery)
        requires
            old(self)@.phase == Phase::Info,
            walk_ok(old(self)@),
        ensures
            (final(self)@, q@) == after_info(old(self)@, entry_views(entries)),
            walk_ok(final(self)@),
            final(self)@.phase == phase_of(q@),
            final(self)@.visited.len() > 0 && final(self)@.visited[0] == old(self)@.visited[0],
    {
        proof {
            lemma_after_info(self@, entry_views(entries));
        }
        let ghost cur = self@;
        let l = self.frames.len() - 1;
        assert(self.frames@[l as int]@ == cur.frames.last());
        match entries {
            None => {
                self.phase = Phase::Failed;
                assert(self@ == WalkView { phase: Phase::Failed, ..cur });
                let n = chars_of(self.frames[l].name.as_str());
                let m = crate::text::concat_str(
                    crate::text::concat(chars_of("Package ").as_slice(), n.as_slice()).as_slice(),
                    " not found in AUR",
                );
                DepQuery::Failed(string_of(m.as_slice()))
            },
            Some(es) => {
                let mut names: Vec<String> = Vec::new();
                let mut k: usize = 0;
                while k < es.len()
                    invariant
                        0 <= k <= es@.len(),
                        string_views(names@) == string_views(es@).take(k as int).map_values(
                            |e: Seq<char>| dependency_name(e),
                        ),
                    decreases es@.len() - k,
                {
                    let ghost b = string_views(names@);
                    let d = dependency_name_of(es[k].as_str());
                    names.push(d);
                    assert(string_views(names@) == b.push(d@));
                    assert(string_views(es@).take(k + 1).map_values(|e: Seq<char>| dependency_name(e))
                        == string_views(es@).take(k as int).map_values(|e: Seq<char>| dependency_name(e)).push(
                        dependency_name(es@[k as int]@),
                    ));
                    k += 1;
                }
                assert(string_views(es@).take(es@.len() as int) == string_views(es@));
                self.frames[l].deps = names;
                self.frames[l].next = 0;
                let ghost fresh = WalkView {
                    frames: cur.frames.update(
                        cur.frames.len() - 1,
                        FrameView {
                            name: cur.frames.last().name,
                            deps: string_views(es@).map_values(|e: Seq<char>| dependency_name(e)),
                            next: 0,
                        },
                    ),
                    ..cur
                };
                assert(self.frames@.map_values(|f: DepFrame| f@) == fresh.frames);
                assert(self@ == fresh);
                self.advance_exec()
            },
        }
    }

    /// Takes whether the dependency asked about is installed or provided.
    pub fn on_satisfied(&mut self, satisfied: bool) -> (q: DepQuery)
        requires
            old(self)@.phase == Phase::Satisfied,
            walk_ok(old(self)@),
        ensures
            (final(self)@, q@) == after_satisfied(old(self)@, satisfied),
            walk_ok(final(self)@),
            final(self)@.phase == phase_of(q@),
            final(self)@.visited.len() > 0 && final(self)@.visited[0] == old(self)@.visited[0],
    {
        proof {
            lemma_after_satisfied(self@, satisfied);
        }
        let ghost cur = self@;
        let l = self.frames.len() - 1;
        assert(self.frames@[l as int]@ == cur.frames.last());
        if satisfied {
            let nx = self.frames[l].next;
            let dl = self.frames[l].deps.len();
            self.frames[l].next = nx + 1;
            assert(self.frames@.map_values(|f: DepFrame| f@) == bump(cur).frames);
            assert(self@ == bump(cur));
            self.advance_exec()
        } else {
            self.phase = Phase::InRepos;
            assert(self@ == WalkView { phase: Phase::InRepos, ..cur });
            let nx = self.frames[l].next;
            DepQuery::InRepos(copy_text(&self.frames[l].deps[nx]))
        }
    }

    /// Takes whether a sync repository carries the dependency asked about; if none does,
    /// the dependency is resolved from the AUR next.
    pub fn on_in_repos(&mut self, in_repos: bool) -> (q: DepQuery)
        requires
            old(self)@.phase == Phase::InRepos,
            walk_ok(old(self)@),
        ensures
            (final(self)@, q@) == after_in_repos(old(self)@, in_repos),
            walk_ok(final(self)@),
            final(self)@.phase == phase_of(q@),
            final(self)@.visited.len() > 0 && final(self)@.visited[0] == old(self)@.visited[0],
    {
        proof {
            lemma_after_in_repos(self@, in_repos);
        }
        let ghost cur = self@;
        let l = self.frames.len() - 1;
        assert(self.frames@[l as int]@ == cur.frames.last());
        let nx = self.frames[l].next;
        let dl = self.frames[l].deps.len();
        assert(nx < dl);
        if in_repos {
            self.frames[l].next = nx + 1;
            assert(self.frames@.map_values(|f: DepFrame| f@) == bump(cur).frames);
            assert(self@ == bump(cur));
            self.advance_exec()
        } else {
            let dep = copy_text(&self.frames[l].deps[nx]);
            let ghost top = cur.frames.last();
            proof {
                self.needs = Ghost(
                    self.needs@.insert(top.name, needs_of(self.needs@, top.name).insert(dep@)),
                );
            }
            assert(self@ == WalkView {
                needs: cur.needs.insert(top.name, needs_of(cur.needs, top.name).insert(dep@)),
                ..cur
            });
            self.visit_exec(dep)
        }
    }

    /// The packages resolved so far, in the order they are to be built.
    pub fn resolved(&self) -> (r: Vec<String>)
        ensures
            string_views(r@) == self@.resolved,
    {
        let mut out: Vec<String> = Vec::new();
        let mut i: usize = 0;
        while i < self.resolved.len()
            invariant
                0 <= i <= self.resolved@.len(),
                string_views(out@) == string_views(self.resolved@).take(i as int),
            decreases self.resolved@.len() - i,
        {
            let ghost b = string_views(out@);
            out.push(copy_text(&self.resolved[i]));
            assert(string_views(out@) == b.push(self.resolved@[i as int]@));
            assert(string_views(self.resolved@).take(i + 1) == string_views(self.resolved@).take(
                i as int,
            ).push(self.resolved@[i as int]@));
            i += 1;
        }
        assert(string_views(self.resolved@).take(self.resolved@.len() as int) == string_views(
            self.resolved@,
        ));
        out
    }

    fn advance_exec(&mut self) -> (q: DepQuery)
        requires
            counters_in_range(old(self)@),
        ensures
            (final(self)@, q@) == advance(old(self)@),
    {
        let ghost target = advance(self@);
        loop
            invariant
                advance(self@) == target,
                target == advance(old(self)@),
                counters_in_range(self@),
            decreases self.frames@.len(),
        {
            let ghost cur = self@;
            let n = self.frames.len();
            if n == 0 {
                self.phase = Phase::Done;
                assert(self@ == WalkView { phase: Phase::Done, ..cur });
                assert(advance(cur) == (self@, QueryView::Done));
                return DepQuery::Done;
            }
            assert(cur.frames.last() == self.frames@[n - 1]@);
            let top_next = self.frames[n - 1].next;
            if top_next < self.frames[n - 1].deps.len() {
                self.phase = Phase::Satisfied;
                let d = copy_text(&self.frames[n - 1].deps[top_next]);
                assert(self@ == WalkView { phase: Phase::Satisfied, ..cur });
                assert(d@ == cur.frames.last().deps[top_next as int]);
                assert(advance(cur) == (self@, QueryView::Satisfied(d@)));
                return DepQuery::Satisfied(d);
            }
            let top = self.frames.pop().unwrap();
            assert(self.frames@.map_values(|f: DepFrame| f@) == cur.frames.drop_last());
            let tn = chars_of(top.name.as_str());
            if !crate::text::contains_string(&self.resolved, tn.as_slice()) {
                let ghost r0 = string_views(self.resolved@);
                self.resolved.push(top.name);
                assert(string_views(self.resolved@) == r0.push(tn@));
            }
            let ghost popped = self@;
            assert(popped == WalkView {
                frames: cur.frames.drop_last(),
                resolved: if cur.resolved.contains(cur.frames.last().name) {
                    cur.resolved
                } else {
                    cur.resolved.push(cur.frames.last().name)
                },
                ..cur
            });
            if self.frames.len() == 0 {
                self.phase = Phase::Done;
                assert(self@ == WalkView { phase: Phase::Done, ..popped });
                assert(advance(cur) == (self@, QueryView::Done));
                return DepQuery::Done;
            }
            let l = self.frames.len() - 1;
            assert(self.frames@[l as int]@ == cur.frames[l as int]);
            assert(cur.frames[l as int].next < cur.frames[l as int].deps.len());
            assert(self.frames@[l as int].next < self.frames@[l as int].deps@.len());
            let nx = self.frames[l].next;
            let dl = self.frames[l].deps.len();
            assert(nx < dl);
            self.frames[l].next = nx + 1;
            assert(self.frames@.map_values(|f: DepFrame| f@) == bump(popped).frames);
            assert(self@ == bump(popped));
        }
    }
}

} // verus!
