//! Character-level text primitives shared by the classifiers, parsers and rankers.
//!
//! Everything here works on sequences of `char`, the view that vstd gives `str` and
//! `String`. Only case folding is taken from std unchecked; the rest is proved here.
use vstd::prelude::*;

verus! {

// ---------------------------------------------------------------------------
// Specifications
// ---------------------------------------------------------------------------

/// `p` is a prefix of `s`.
pub open spec fn is_prefix(p: Seq<char>, s: Seq<char>) -> bool {
    p.len() <= s.len() && s.subrange(0, p.len() as int) == p
}

/// `p` is a suffix of `s`.
pub open spec fn is_suffix(p: Seq<char>, s: Seq<char>) -> bool {
    p.len() <= s.len() && s.subrange(s.len() - p.len(), s.len() as int) == p
}

/// `p` occurs in `s` starting at index `i`.
pub open spec fn occurs_at(s: Seq<char>, p: Seq<char>, i: int) -> bool {
    0 <= i && i + p.len() <= s.len() && s.subrange(i, i + p.len()) == p
}

/// `p` occurs somewhere in `s` (`str::contains` with a string pattern).
pub open spec fn contains(s: Seq<char>, p: Seq<char>) -> bool {
    exists|i: int| occurs_at(s, p, i)
}

/// Unicode `White_Space`, the set that `char::is_whitespace` and `str::trim` use.
pub open spec fn is_ws(c: char) -> bool {
    ||| ('\u{9}' <= c && c <= '\u{d}')
    ||| c == ' '
    ||| c == '\u{85}'
    ||| c == '\u{a0}'
    ||| c == '\u{1680}'
    ||| ('\u{2000}' <= c && c <= '\u{200a}')
    ||| c == '\u{2028}'
    ||| c == '\u{2029}'
    ||| c == '\u{202f}'
    ||| c == '\u{205f}'
    ||| c == '\u{3000}'
}

/// `s` without its leading whitespace.
pub open spec fn trim_start(s: Seq<char>) -> Seq<char>
    decreases s.len(),
{
    if s.len() > 0 && is_ws(s[0]) {
        trim_start(s.drop_first())
    } else {
        s
    }
}

/// `s` without its trailing whitespace.
pub open spec fn trim_end(s: Seq<char>) -> Seq<char>
    decreases s.len(),
{
    if s.len() > 0 && is_ws(s.last()) {
        trim_end(s.drop_last())
    } else {
        s
    }
}

/// `s` without leading and trailing whitespace (`str::trim`).
pub open spec fn trim(s: Seq<char>) -> Seq<char> {
    trim_end(trim_start(s))
}


/// Length of the run of non-whitespace characters at the start of `t`.
pub open spec fn word_len(t: Seq<char>) -> nat
    decreases t.len(),
{
    if t.len() == 0 || is_ws(t[0]) {
        0
    } else {
        1 + word_len(t.drop_first())
    }
}

/// The whitespace-separated words of `s` (`str::split_whitespace`).
pub open spec fn words(s: Seq<char>) -> Seq<Seq<char>>
    decreases s.len(),
{
    let t = trim_start(s);
    if t.len() == 0 {
        Seq::empty()
    } else {
        proof {
            lemma_trim_start_shape(s);
            lemma_word_len_bound(t);
        }
        seq![t.take(word_len(t) as int)] + words(t.skip(word_len(t) as int))
    }
}

/// Index of the first `c` in `s`, or the length of `s` when there is none.
pub open spec fn index_of(s: Seq<char>, c: char) -> nat
    decreases s.len(),
{
    if s.len() == 0 || s[0] == c {
        0
    } else {
        1 + index_of(s.drop_first(), c)
    }
}

/// A line without its terminating carriage return, if it had one.
pub open spec fn strip_cr(line: Seq<char>) -> Seq<char> {
    if line.len() > 0 && line.last() == '\r' {
        line.drop_last()
    } else {
        line
    }
}

/// The lines of `s` (`str::lines`): split at `\n`, a `\r` before the `\n` removed, and no
/// empty line after a final `\n`.
pub open spec fn lines(s: Seq<char>) -> Seq<Seq<char>>
    decreases s.len(),
{
    if s.len() == 0 {
        Seq::empty()
    } else {
        proof {
            lemma_index_of_bound(s, '\n');
        }
        let i = index_of(s, '\n');
        if i == s.len() {
            seq![s]
        } else {
            seq![strip_cr(s.take(i as int))] + lines(s.skip(i + 1 as int))
        }
    }
}

/// `s` with every leading and trailing `c` removed (`str::trim_matches` with a char).
pub open spec fn trim_char(s: Seq<char>, c: char) -> Seq<char>
    decreases s.len(),
{
    if s.len() > 0 && s[0] == c {
        trim_char(s.drop_first(), c)
    } else if s.len() > 0 && s.last() == c {
        trim_char(s.drop_last(), c)
    } else {
        s
    }
}

/// `s` with every trailing `c` removed (`str::trim_end_matches` with a char).
pub open spec fn trim_end_char(s: Seq<char>, c: char) -> Seq<char>
    decreases s.len(),
{
    if s.len() > 0 && s.last() == c {
        trim_end_char(s.drop_last(), c)
    } else {
        s
    }
}

/// `s` with every non-overlapping occurrence of the non-empty pattern `p` replaced by `w`,
/// scanning from the left (`str::replace`).
pub open spec fn replace(s: Seq<char>, p: Seq<char>, w: Seq<char>) -> Seq<char>
    decreases s.len(),
{
    if p.len() == 0 || s.len() == 0 {
        s
    } else if p.len() <= s.len() && s.take(p.len() as int) == p {
        w + replace(s.skip(p.len() as int), p, w)
    } else {
        seq![s[0]] + replace(s.drop_first(), p, w)
    }
}

/// Whether `c` is an ASCII decimal digit.
pub open spec fn is_digit(c: char) -> bool {
    '0' <= c && c <= '9'
}

/// The decimal value of a sequence of digits.
pub open spec fn digits_value(s: Seq<char>) -> int
    decreases s.len(),
{
    if s.len() == 0 {
        0
    } else {
        digits_value(s.drop_last()) * 10 + (s.last() as int - '0' as int)
    }
}

/// The digits of an unsigned decimal: `s` without one leading `+`.
pub open spec fn unsigned_digits(s: Seq<char>) -> Seq<char> {
    if s.len() > 0 && s[0] == '+' {
        s.drop_first()
    } else {
        s
    }
}

/// Every character of `d` is an ASCII digit.
pub open spec fn all_digits(d: Seq<char>) -> bool {
    forall|i: int| 0 <= i < d.len() ==> is_digit(#[trigger] d[i])
}

/// The value of `s` as a `u32` in decimal (`u32::from_str`): an optional `+`, then one or
/// more ASCII digits, with a value that fits in 32 bits.
pub open spec fn parse_u32(s: Seq<char>) -> Option<u32> {
    let d = unsigned_digits(s);
    if d.len() == 0 || !all_digits(d) || digits_value(d) > u32::MAX {
        None
    } else {
        Some(digits_value(d) as u32)
    }
}

/// The value of `s` as a `u64` in decimal (`u64::from_str`): an optional `+`, then one or
/// more ASCII digits, with a value that fits in 64 bits.
pub open spec fn parse_u64(s: Seq<char>) -> Option<u64> {
    let d = unsigned_digits(s);
    if d.len() == 0 || !all_digits(d) || digits_value(d) > u64::MAX {
        None
    } else {
        Some(digits_value(d) as u64)
    }
}

/// The digits of a signed decimal: `s` without one leading sign.
pub open spec fn signed_digits(s: Seq<char>) -> Seq<char> {
    if s.len() > 0 && (s[0] == '+' || s[0] == '-') {
        s.drop_first()
    } else {
        s
    }
}

/// The value of `s` as an `i64` in decimal (`i64::from_str`): an optional sign, then one
/// or more ASCII digits, with a value that fits in 64 bits.
pub open spec fn parse_i64(s: Seq<char>) -> Option<i64> {
    let neg = s.len() > 0 && s[0] == '-';
    let d = signed_digits(s);
    if d.len() == 0 || !all_digits(d) {
        None
    } else if neg {
        if digits_value(d) > 0x8000_0000_0000_0000 {
            None
        } else {
            Some((0 - digits_value(d)) as i64)
        }
    } else if digits_value(d) > i64::MAX {
        None
    } else {
        Some(digits_value(d) as i64)
    }
}

/// `a` comes before `b` in code-point lexicographic order (the order of `str`, as UTF-8
/// preserves it).
pub open spec fn lex_lt(a: Seq<char>, b: Seq<char>) -> bool
    decreases a.len(),
{
    if a.len() == 0 {
        b.len() > 0
    } else if b.len() == 0 {
        false
    } else if a[0] < b[0] {
        true
    } else if a[0] > b[0] {
        false
    } else {
        lex_lt(a.drop_first(), b.drop_first())
    }
}

/// Unicode lower-casing of a whole string (`str::to_lowercase`).
pub uninterp spec fn lowercase(s: Seq<char>) -> Seq<char>;

// ---------------------------------------------------------------------------
// Lemmas about the specifications
// ---------------------------------------------------------------------------

/// Dropping a leading whitespace character does not change the start-trimmed text.
pub proof fn lemma_trim_start_index(s: Seq<char>, i: int)
    requires
        0 <= i <= s.len(),
        forall|j: int| 0 <= j < i ==> is_ws(#[trigger] s[j]),
    ensures
        trim_start(s) == trim_start(s.subrange(i, s.len() as int)),
    decreases i,
{
    if i > 0 {
        assert(is_ws(s[0]));
        assert(s.drop_first() == s.subrange(1, s.len() as int));
        assert forall|j: int| 0 <= j < i - 1 implies is_ws(#[trigger] s.drop_first()[j]) by {
            assert(s.drop_first()[j] == s[j + 1]);
        }
        lemma_trim_start_index(s.drop_first(), i - 1);
        assert(s.drop_first().subrange(i - 1, s.drop_first().len() as int) == s.subrange(
            i,
            s.len() as int,
        ));
    } else {
        assert(s.subrange(0, s.len() as int) =~= s);
    }
}

/// Dropping trailing whitespace characters does not change the end-trimmed text.
pub proof fn lemma_trim_end_index(s: Seq<char>, k: int)
    requires
        0 <= k <= s.len(),
        forall|j: int| k <= j < s.len() ==> is_ws(#[trigger] s[j]),
    ensures
        trim_end(s) == trim_end(s.subrange(0, k)),
    decreases s.len() - k,
{
    if k < s.len() {
        assert(s.drop_last() == s.subrange(0, s.len() - 1));
        lemma_trim_end_index(s.drop_last(), k);
        assert(s.drop_last().subrange(0, k) == s.subrange(0, k));
    } else {
        assert(s.subrange(0, k) == s);
    }
}

/// Trimming the start gives a suffix of the text that is empty or starts with a
/// non-whitespace character.
pub proof fn lemma_trim_start_shape(s: Seq<char>)
    ensures
        trim_start(s).len() <= s.len(),
        trim_start(s) == s.subrange(s.len() - trim_start(s).len(), s.len() as int),
        trim_start(s).len() > 0 ==> !is_ws(trim_start(s)[0]),
        forall|j: int| 0 <= j < s.len() - trim_start(s).len() ==> is_ws(#[trigger] s[j]),
    decreases s.len(),
{
    if s.len() > 0 && is_ws(s[0]) {
        lemma_trim_start_shape(s.drop_first());
        assert forall|j: int| 0 <= j < s.len() - trim_start(s).len() implies is_ws(#[trigger] s[j]) by {
            if j > 0 {
                assert(s.drop_first()[j - 1] == s[j]);
            }
        }
        assert(s.drop_first().subrange(
            s.drop_first().len() - trim_start(s).len(),
            s.drop_first().len() as int,
        ) == s.subrange(s.len() - trim_start(s).len(), s.len() as int));
    } else {
        assert(s.subrange(0, s.len() as int) == s);
    }
}

/// A word is no longer than the text, and is not empty when the text starts with a
/// non-whitespace character.
pub proof fn lemma_word_len_bound(t: Seq<char>)
    ensures
        word_len(t) <= t.len(),
        t.len() > 0 && !is_ws(t[0]) ==> word_len(t) >= 1,
        forall|j: int| 0 <= j < word_len(t) ==> !is_ws(#[trigger] t[j]),
        word_len(t) < t.len() ==> is_ws(t[word_len(t) as int]),
    decreases t.len(),
{
    if t.len() > 0 && !is_ws(t[0]) {
        lemma_word_len_bound(t.drop_first());
        assert forall|j: int| 0 <= j < word_len(t) implies !is_ws(#[trigger] t[j]) by {
            if j > 0 {
                assert(t.drop_first()[j - 1] == t[j]);
            }
        }
        if word_len(t) < t.len() {
            assert(t.drop_first()[word_len(t) - 1] == t[word_len(t) as int]);
        }
    }
}

/// The word length is the index of the first whitespace character.
pub proof fn lemma_word_len_exact(t: Seq<char>, k: int)
    requires
        0 <= k <= t.len(),
        forall|j: int| 0 <= j < k ==> !is_ws(#[trigger] t[j]),
        k < t.len() ==> is_ws(t[k]),
    ensures
        word_len(t) == k,
    decreases k,
{
    if k > 0 {
        assert forall|j: int| 0 <= j < k - 1 implies !is_ws(#[trigger] t.drop_first()[j]) by {
            assert(t.drop_first()[j] == t[j + 1]);
        }
        if k < t.len() {
            assert(t.drop_first()[k - 1] == t[k]);
        }
        lemma_word_len_exact(t.drop_first(), k - 1);
    }
}

/// The index of a character is at most the length, and is exact.
pub proof fn lemma_index_of_bound(s: Seq<char>, c: char)
    ensures
        index_of(s, c) <= s.len(),
        forall|j: int| 0 <= j < index_of(s, c) ==> #[trigger] s[j] != c,
        index_of(s, c) < s.len() ==> s[index_of(s, c) as int] == c,
    decreases s.len(),
{
    if s.len() > 0 && s[0] != c {
        lemma_index_of_bound(s.drop_first(), c);
        assert forall|j: int| 0 <= j < index_of(s, c) implies #[trigger] s[j] != c by {
            if j > 0 {
                assert(s.drop_first()[j - 1] == s[j]);
            }
        }
        if index_of(s, c) < s.len() {
            assert(s.drop_first()[index_of(s, c) - 1] == s[index_of(s, c) as int]);
        }
    }
}

/// The index of a character is the first position holding it.
pub proof fn lemma_index_of_exact(s: Seq<char>, c: char, k: int)
    requires
        0 <= k <= s.len(),
        forall|j: int| 0 <= j < k ==> #[trigger] s[j] != c,
        k < s.len() ==> s[k] == c,
    ensures
        index_of(s, c) == k,
    decreases k,
{
    if k > 0 {
        assert forall|j: int| 0 <= j < k - 1 implies #[trigger] s.drop_first()[j] != c by {
            assert(s.drop_first()[j] == s[j + 1]);
        }
        if k < s.len() {
            assert(s.drop_first()[k - 1] == s[k]);
        }
        lemma_index_of_exact(s.drop_first(), c, k - 1);
    }
}

// ---------------------------------------------------------------------------
// Trusted std calls
// ---------------------------------------------------------------------------

/// Every character of `s` is ASCII.
pub open spec fn is_ascii_text(s: Seq<char>) -> bool {
    forall|i: int| 0 <= i < s.len() ==> (#[trigger] s[i] as int) < 128
}

/// ASCII lower-casing: `A` to `Z` become `a` to `z`, every other character stays.
pub open spec fn ascii_lower(s: Seq<char>) -> Seq<char> {
    s.map_values(|c: char| if 'A' <= c && c <= 'Z' {
        ((c as int) + 32) as char
    } else {
        c
    })
}

/// Calls `str::to_lowercase`. Claims that the result is the Unicode lower-casing of the
/// argument's characters, a function of those characters alone, and that on ASCII text it
/// maps `A` to `Z` to `a` to `z` and keeps every other character (the Unicode lower-case
/// mapping of the ASCII letters, which std documents for `char::to_lowercase`).
#[verifier::external_body]
pub(crate) fn to_lowercase(s: &str) -> (r: String)
    ensures
        r@ == lowercase(s@),
        is_ascii_text(s@) ==> r@ == ascii_lower(s@),
{
    s.to_lowercase()
}

/// Collects characters into a `String` (`FromIterator<char>` for `String`): the string
/// holds exactly those characters, in order.
#[verifier::external_body]
pub(crate) fn string_of(v: &[char]) -> (r: String)
    ensures
        r@ == v@,
{
    v.iter().collect()
}

// ---------------------------------------------------------------------------
// Executable primitives
// ---------------------------------------------------------------------------

/// The characters of `s`, in order.
pub fn chars_of(s: &str) -> (r: Vec<char>)
    ensures
        r@ == s@,
{
    let mut r: Vec<char> = Vec::new();
    for c in it: s.chars()
        invariant
            r@ == it.seq().take(it.index() as int),
            it.seq() == s@,
    {
        r.push(c);
    }
    r
}

/// The lower-cased characters of `s`.
pub fn lower_chars(s: &str) -> (r: Vec<char>)
    ensures
        r@ == lowercase(s@),
        is_ascii_text(s@) ==> r@ == ascii_lower(s@),
{
    let l = to_lowercase(s);
    chars_of(l.as_str())
}

/// A copy of `s[i..j]`.
pub fn slice_copy(s: &[char], i: usize, j: usize) -> (r: Vec<char>)
    requires
        i <= j <= s@.len(),
    ensures
        r@ == s@.subrange(i as int, j as int),
{
    let mut r: Vec<char> = Vec::new();
    let mut k = i;
    while k < j
        invariant
            i <= k <= j <= s@.len(),
            r@ == s@.subrange(i as int, k as int),
        decreases j - k,
    {
        r.push(s[k]);
        k += 1;
        assert(r@ == s@.subrange(i as int, k as int));
    }
    r
}

/// Character-wise equality.
pub fn eq(a: &[char], b: &[char]) -> (r: bool)
    ensures
        r == (a@ == b@),
{
    if a.len() != b.len() {
        return false;
    }
    let mut i: usize = 0;
    while i < a.len()
        invariant
            a@.len() == b@.len(),
            0 <= i <= a@.len(),
            forall|j: int| 0 <= j < i ==> a@[j] == b@[j],
        decreases a@.len() - i,
    {
        if a[i] != b[i] {
            return false;
        }
        i += 1;
    }
    assert(a@ =~= b@);
    true
}

/// Character-wise equality with a string.
pub fn eq_str(a: &[char], b: &str) -> (r: bool)
    ensures
        r == (a@ == b@),
{
    let bv = chars_of(b);
    eq(a, bv.as_slice())
}

/// Whether `p` occurs in `s` at index `i`.
pub fn matches_at(s: &[char], p: &[char], i: usize) -> (r: bool)
    ensures
        r == occurs_at(s@, p@, i as int),
{
    if i > s.len() || p.len() > s.len() - i {
        return false;
    }
    let end = i + p.len();
    let mut k: usize = 0;
    while k < p.len()
        invariant
            end == i + p@.len(),
            end <= s@.len(),
            i + p@.len() <= s@.len(),
            0 <= k <= p@.len(),
            forall|j: int| 0 <= j < k ==> s@[i + j] == p@[j],
        decreases p@.len() - k,
    {
        if s[i + k] != p[k] {
            assert(s@.subrange(i as int, i + p@.len())[k as int] != p@[k as int]);
            return false;
        }
        k += 1;
    }
    assert(s@.subrange(i as int, i + p@.len()) =~= p@);
    true
}

/// Whether `s` starts with `p`.
pub fn starts_with(s: &[char], p: &str) -> (r: bool)
    ensures
        r == is_prefix(p@, s@),
{
    let pv = chars_of(p);
    matches_at(s, pv.as_slice(), 0)
}

/// Whether `s` ends with `p`.
pub fn ends_with(s: &[char], p: &str) -> (r: bool)
    ensures
        r == is_suffix(p@, s@),
{
    let pv = chars_of(p);
    if pv.len() > s.len() {
        return false;
    }
    matches_at(s, pv.as_slice(), s.len() - pv.len())
}

/// The first index at which `p` occurs in `s` at or after `from`.
pub fn find_from(s: &[char], p: &[char], from: usize) -> (r: Option<usize>)
    ensures
        match r {
            Some(i) => from <= i && occurs_at(s@, p@, i as int) && forall|j: int|
                from <= j < i ==> !occurs_at(s@, p@, j),
            None => forall|j: int| from <= j ==> !occurs_at(s@, p@, j),
        },
{
    if from > s.len() || p.len() > s.len() {
        return None;
    }
    let last = s.len() - p.len();
    let mut i = from;
    while i <= last
        invariant
            p@.len() <= s@.len(),
            last == s@.len() - p@.len(),
            from <= i,
            forall|j: int| from <= j < i ==> !occurs_at(s@, p@, j),
        decreases last + 1 - i,
    {
        if matches_at(s, p, i) {
            return Some(i);
        }
        if i == last {
            return None;
        }
        i += 1;
    }
    None
}

/// Whether `p` occurs in `s`.
pub fn contains_chars(s: &[char], p: &[char]) -> (r: bool)
    ensures
        r == contains(s@, p@),
{
    match find_from(s, p, 0) {
        Some(i) => true,
        None => {
            assert forall|j: int| !occurs_at(s@, p@, j) by {
                if 0 <= j {
                }
            }
            false
        },
    }
}

/// Whether the string `p` occurs in `s`.
pub fn contains_str(s: &[char], p: &str) -> (r: bool)
    ensures
        r == contains(s@, p@),
{
    let pv = chars_of(p);
    contains_chars(s, pv.as_slice())
}

/// Whether `c` is Unicode whitespace.
pub fn is_whitespace(c: char) -> (r: bool)
    ensures
        r == is_ws(c),
{
    ('\u{9}' <= c && c <= '\u{d}') || c == ' ' || c == '\u{85}' || c == '\u{a0}' || c
        == '\u{1680}' || ('\u{2000}' <= c && c <= '\u{200a}') || c == '\u{2028}' || c
        == '\u{2029}' || c == '\u{202f}' || c == '\u{205f}' || c == '\u{3000}'
}

/// `s` without leading and trailing whitespace.
pub fn trim_chars(s: &[char]) -> (r: Vec<char>)
    ensures
        r@ == trim(s@),
{
    let mut i: usize = 0;
    while i < s.len() && is_whitespace(s[i])
        invariant
            0 <= i <= s@.len(),
            forall|j: int| 0 <= j < i ==> is_ws(#[trigger] s@[j]),
        decreases s@.len() - i,
    {
        i += 1;
    }
    proof {
        lemma_trim_start_index(s@, i as int);
    }
    let ghost t = s@.subrange(i as int, s@.len() as int);
    assert(trim_start(t) == t);
    let mut k: usize = s.len();
    while k > i && is_whitespace(s[k - 1])
        invariant
            i <= k <= s@.len(),
            forall|j: int| k <= j < s@.len() ==> is_ws(#[trigger] s@[j]),
        decreases k,
    {
        k -= 1;
    }
    proof {
        lemma_trim_end_index(t, k - i);
        assert(t.subrange(0, k - i) == s@.subrange(i as int, k as int));
        let u = s@.subrange(i as int, k as int);
        if u.len() > 0 {
            assert(u.last() == s@[k - 1]);
        }
        assert(trim_end(u) == u);
    }
    slice_copy(s, i, k)
}

/// The string `s` without leading and trailing whitespace.
pub fn trim_str(s: &str) -> (r: String)
    ensures
        r@ == trim(s@),
{
    let v = chars_of(s);
    let t = trim_chars(v.as_slice());
    string_of(t.as_slice())
}

/// The character sequences of a list of character vectors.
pub open spec fn views(v: Seq<Vec<char>>) -> Seq<Seq<char>> {
    v.map_values(|w: Vec<char>| w@)
}

/// The whitespace-separated words of `s`.
pub fn split_words(s: &[char]) -> (r: Vec<Vec<char>>)
    ensures
        views(r@) == words(s@),
{
    let mut acc: Vec<Vec<char>> = Vec::new();
    let mut i: usize = 0;
    let n = s.len();
    assert(s@.subrange(0, n as int) == s@);
    while i < n
        invariant
            n == s@.len(),
            0 <= i <= n,
            views(acc@) + words(s@.subrange(i as int, n as int)) == words(s@),
        decreases n - i,
    {
        let ghost rest = s@.subrange(i as int, n as int);
        let mut j = i;
        while j < n && is_whitespace(s[j])
            invariant
                n == s@.len(),
                i <= j <= n,
                forall|m: int| i <= m < j ==> is_ws(#[trigger] s@[m]),
            decreases n - j,
        {
            j += 1;
        }
        proof {
            assert forall|m: int| 0 <= m < j - i implies is_ws(#[trigger] rest[m]) by {
                assert(rest[m] == s@[i + m]);
            }
            lemma_trim_start_index(rest, j - i);
            assert(rest.subrange(j - i, rest.len() as int) == s@.subrange(j as int, n as int));
        }
        if j == n {
            proof {
                assert(s@.subrange(j as int, n as int).len() == 0);
                assert(trim_start(rest).len() == 0);
                assert(words(rest) == Seq::<Seq<char>>::empty());
                assert(views(acc@) + words(rest) == views(acc@));
                assert(s@.subrange(n as int, n as int).len() == 0);
                assert(words(s@.subrange(n as int, n as int)) == Seq::<Seq<char>>::empty());
                assert(views(acc@) + words(s@.subrange(n as int, n as int)) == views(acc@));
            }
            i = n;
        } else {
            let ghost t = s@.subrange(j as int, n as int);
            assert(t[0] == s@[j as int]);
            assert(trim_start(t) == t);
            let mut k = j;
            while k < n && !is_whitespace(s[k])
                invariant
                    n == s@.len(),
                    j <= k <= n,
                    forall|m: int| j <= m < k ==> !is_ws(#[trigger] s@[m]),
                decreases n - k,
            {
                k += 1;
            }
            proof {
                assert forall|m: int| 0 <= m < k - j implies !is_ws(#[trigger] t[m]) by {
                    assert(t[m] == s@[j + m]);
                }
                if k < n {
                    assert(t[k - j] == s@[k as int]);
                }
                lemma_word_len_exact(t, k - j);
                assert(t.take(k - j) == s@.subrange(j as int, k as int));
                assert(t.skip(k - j) == s@.subrange(k as int, n as int));
            }
            let w = slice_copy(s, j, k);
            let ghost old_acc = acc@;
            acc.push(w);
            proof {
                assert(views(acc@) == views(old_acc).push(w@));
                assert(words(rest) == seq![w@] + words(s@.subrange(k as int, n as int)));
                assert(views(old_acc) + words(rest) == views(acc@) + words(
                    s@.subrange(k as int, n as int),
                ));
            }
            i = k;
        }
    }
    proof {
        assert(s@.subrange(n as int, n as int).len() == 0);
        assert(words(s@.subrange(n as int, n as int)) == Seq::<Seq<char>>::empty());
        assert(views(acc@) + words(s@.subrange(n as int, n as int)) == views(acc@));
    }
    acc
}

/// The lines of `s`.
pub fn split_lines(s: &[char]) -> (r: Vec<Vec<char>>)
    ensures
        views(r@) == lines(s@),
{
    let mut acc: Vec<Vec<char>> = Vec::new();
    let mut i: usize = 0;
    let n = s.len();
    assert(s@.subrange(0, n as int) == s@);
    while i < n
        invariant
            n == s@.len(),
            0 <= i <= n,
            views(acc@) + lines(s@.subrange(i as int, n as int)) == lines(s@),
        decreases n - i,
    {
        let ghost rest = s@.subrange(i as int, n as int);
        let mut j = i;
        while j < n && s[j] != '\n'
            invariant
                n == s@.len(),
                i <= j <= n,
                forall|m: int| i <= m < j ==> #[trigger] s@[m] != '\n',
            decreases n - j,
        {
            j += 1;
        }
        proof {
            assert forall|m: int| 0 <= m < j - i implies #[trigger] rest[m] != '\n' by {
                assert(rest[m] == s@[i + m]);
            }
            if j < n {
                assert(rest[j - i] == s@[j as int]);
            }
            lemma_index_of_exact(rest, '\n', j - i);
        }
        let ghost old_acc = acc@;
        if j == n {
            let line = slice_copy(s, i, n);
            acc.push(line);
            proof {
                assert(line@ == rest);
                assert(lines(rest) == seq![rest]);
                assert(views(acc@) == views(old_acc).push(line@));
                assert(s@.subrange(n as int, n as int).len() == 0);
                assert(lines(s@.subrange(n as int, n as int)) == Seq::<Seq<char>>::empty());
                assert(views(old_acc) + lines(rest) == views(acc@) + lines(
                    s@.subrange(n as int, n as int),
                ));
            }
            i = n;
        } else {
            let end = if j > i && s[j - 1] == '\r' {
                j - 1
            } else {
                j
            };
            let line = slice_copy(s, i, end);
            acc.push(line);
            proof {
                let raw = rest.take(j - i);
                assert(raw == s@.subrange(i as int, j as int));
                if j > i && s@[j - 1] == '\r' {
                    assert(raw.last() == s@[j - 1]);
                    assert(raw.drop_last() == s@.subrange(i as int, end as int));
                } else {
                    if raw.len() > 0 {
                        assert(raw.last() == s@[j - 1]);
                    }
                }
                assert(line@ == strip_cr(raw));
                assert(rest.skip(j - i + 1) == s@.subrange(j + 1, n as int));
                assert(lines(rest) == seq![line@] + lines(s@.subrange(j + 1, n as int)));
                assert(views(acc@) == views(old_acc).push(line@));
                assert(views(old_acc) + lines(rest) == views(acc@) + lines(
                    s@.subrange(j + 1, n as int),
                ));
            }
            i = j + 1;
        }
    }
    proof {
        assert(s@.subrange(n as int, n as int).len() == 0);
        assert(lines(s@.subrange(n as int, n as int)) == Seq::<Seq<char>>::empty());
        assert(views(acc@) + lines(s@.subrange(n as int, n as int)) == views(acc@));
    }
    acc
}

/// The position of the first `c` in `s`, if any.
pub fn find_char(s: &[char], c: char) -> (r: Option<usize>)
    ensures
        index_of(s@, c) < s@.len() ==> r == Some(index_of(s@, c) as usize),
        index_of(s@, c) == s@.len() ==> r is None,
{
    let mut i: usize = 0;
    while i < s.len()
        invariant
            0 <= i <= s@.len(),
            forall|m: int| 0 <= m < i ==> #[trigger] s@[m] != c,
        decreases s@.len() - i,
    {
        if s[i] == c {
            proof {
                lemma_index_of_exact(s@, c, i as int);
            }
            return Some(i);
        }
        i += 1;
    }
    proof {
        lemma_index_of_exact(s@, c, s@.len() as int);
    }
    None
}

/// `s` with every leading and trailing `c` removed.
pub fn trim_char_chars(s: &[char], c: char) -> (r: Vec<char>)
    ensures
        r@ == trim_char(s@, c),
{
    let mut i: usize = 0;
    let mut k: usize = s.len();
    assert(s@.subrange(0, k as int) == s@);
    while i < k && (s[i] == c || s[k - 1] == c)
        invariant
            0 <= i <= k <= s@.len(),
            trim_char(s@.subrange(i as int, k as int), c) == trim_char(s@, c),
        decreases k - i,
    {
        let ghost cur = s@.subrange(i as int, k as int);
        if s[i] == c {
            assert(cur[0] == s@[i as int]);
            assert(cur.drop_first() == s@.subrange(i + 1, k as int));
            i += 1;
        } else {
            assert(cur[0] == s@[i as int]);
            assert(cur.last() == s@[k - 1]);
            assert(cur.drop_last() == s@.subrange(i as int, k - 1));
            k -= 1;
        }
    }
    proof {
        let cur = s@.subrange(i as int, k as int);
        if cur.len() > 0 {
            assert(cur[0] == s@[i as int]);
            assert(cur.last() == s@[k - 1]);
        }
    }
    slice_copy(s, i, k)
}

/// `s` with every trailing `c` removed.
pub fn trim_end_char_chars(s: &[char], c: char) -> (r: Vec<char>)
    ensures
        r@ == trim_end_char(s@, c),
{
    let mut k: usize = s.len();
    assert(s@.subrange(0, k as int) == s@);
    while k > 0 && s[k - 1] == c
        invariant
            0 <= k <= s@.len(),
            trim_end_char(s@.subrange(0, k as int), c) == trim_end_char(s@, c),
        decreases k,
    {
        let ghost cur = s@.subrange(0, k as int);
        assert(cur.last() == s@[k - 1]);
        assert(cur.drop_last() == s@.subrange(0, k - 1));
        k -= 1;
    }
    proof {
        let cur = s@.subrange(0, k as int);
        if cur.len() > 0 {
            assert(cur.last() == s@[k - 1]);
        }
    }
    slice_copy(s, 0, k)
}

/// `s` with every occurrence of the non-empty pattern `p` replaced by `w`.
pub fn replace_all(s: &[char], p: &str, w: &str) -> (r: Vec<char>)
    requires
        p@.len() > 0,
    ensures
        r@ == replace(s@, p@, w@),
{
    let pv = chars_of(p);
    let wv = chars_of(w);
    let n = s.len();
    let mut out: Vec<char> = Vec::new();
    let mut i: usize = 0;
    assert(s@.subrange(0, n as int) == s@);
    while i < n
        invariant
            n == s@.len(),
            0 <= i <= n,
            pv@ == p@,
            wv@ == w@,
            pv@.len() > 0,
            out@ + replace(s@.subrange(i as int, n as int), p@, w@) == replace(s@, p@, w@),
        decreases n - i,
    {
        let ghost t = s@.subrange(i as int, n as int);
        if matches_at(s, pv.as_slice(), i) {
            let ghost old_out = out@;
            let mut k: usize = 0;
            while k < wv.len()
                invariant
                    0 <= k <= wv@.len(),
                    out@ == old_out + wv@.take(k as int),
                decreases wv@.len() - k,
            {
                out.push(wv[k]);
                k += 1;
                assert(out@ == old_out + wv@.take(k as int));
            }
            proof {
                assert(wv@.take(wv@.len() as int) == wv@);
                assert(t.take(p@.len() as int) == s@.subrange(i as int, i + p@.len()));
                assert(t.skip(p@.len() as int) == s@.subrange(i + p@.len(), n as int));
                assert(replace(t, p@, w@) == w@ + replace(
                    s@.subrange(i + p@.len(), n as int),
                    p@,
                    w@,
                ));
                assert(old_out + replace(t, p@, w@) == out@ + replace(
                    s@.subrange(i + p@.len(), n as int),
                    p@,
                    w@,
                ));
            }
            i = i + pv.len();
        } else {
            let ghost old_out = out@;
            out.push(s[i]);
            proof {
                assert(t[0] == s@[i as int]);
                assert(t.drop_first() == s@.subrange(i + 1, n as int));
                if p@.len() <= t.len() {
                    assert(t.take(p@.len() as int) == s@.subrange(i as int, i + p@.len()));
                }
                assert(replace(t, p@, w@) == seq![s@[i as int]] + replace(
                    s@.subrange(i + 1, n as int),
                    p@,
                    w@,
                ));
                assert(old_out + replace(t, p@, w@) == out@ + replace(
                    s@.subrange(i + 1, n as int),
                    p@,
                    w@,
                ));
            }
            i = i + 1;
        }
    }
    proof {
        assert(s@.subrange(n as int, n as int).len() == 0);
        assert(out@ + replace(s@.subrange(n as int, n as int), p@, w@) == out@);
    }
    out
}

/// `a` followed by `b`.
pub fn concat(a: &[char], b: &[char]) -> (r: Vec<char>)
    ensures
        r@ == a@ + b@,
{
    let mut out = slice_copy(a, 0, a.len());
    assert(a@.subrange(0, a@.len() as int) == a@);
    let mut k: usize = 0;
    while k < b.len()
        invariant
            0 <= k <= b@.len(),
            out@ == a@ + b@.take(k as int),
        decreases b@.len() - k,
    {
        out.push(b[k]);
        k += 1;
        assert(out@ == a@ + b@.take(k as int));
    }
    assert(b@.take(b@.len() as int) == b@);
    out
}

/// `a` followed by the string `b`.
pub fn concat_str(a: &[char], b: &str) -> (r: Vec<char>)
    ensures
        r@ == a@ + b@,
{
    let bv = chars_of(b);
    concat(a, bv.as_slice())
}

/// The character sequences of a list of strings.
pub open spec fn string_views(v: Seq<String>) -> Seq<Seq<char>> {
    v.map_values(|s: String| s@)
}

/// Whether one of the strings in `v` is `s`.
pub fn contains_string(v: &Vec<String>, s: &[char]) -> (r: bool)
    ensures
        r == string_views(v@).contains(s@),
{
    let mut i: usize = 0;
    while i < v.len()
        invariant
            0 <= i <= v@.len(),
            forall|j: int| 0 <= j < i ==> string_views(v@)[j] != s@,
        decreases v@.len() - i,
    {
        let c = chars_of(v[i].as_str());
        if eq(c.as_slice(), s) {
            assert(string_views(v@)[i as int] == s@);
            return true;
        }
        i += 1;
    }
    false
}

/// A longer run of digits is worth at least as much as its prefix.
pub proof fn lemma_digits_value_monotone(d: Seq<char>, i: int)
    requires
        0 <= i <= d.len(),
        forall|k: int| 0 <= k < d.len() ==> is_digit(#[trigger] d[k]),
    ensures
        digits_value(d) >= digits_value(d.take(i)),
        digits_value(d) >= 0,
    decreases d.len(),
{
    if d.len() > 0 {
        assert forall|k: int| 0 <= k < d.drop_last().len() implies is_digit(#[trigger] d.drop_last()[k]) by {
            assert(d.drop_last()[k] == d[k]);
        }
        assert(is_digit(d[d.len() - 1]));
        if i == d.len() {
            assert(d.take(i) == d);
            lemma_digits_value_monotone(d.drop_last(), 0);
        } else {
            lemma_digits_value_monotone(d.drop_last(), i);
            assert(d.drop_last().take(i) == d.take(i));
        }
    } else {
        assert(d.take(i).len() == 0);
    }
}

/// The decimal `u32` that `s` spells, if it spells one.
pub fn parse_u32_chars(s: &[char]) -> (r: Option<u32>)
    ensures
        r == parse_u32(s@),
{
    let start: usize = if s.len() > 0 && s[0] == '+' {
        1
    } else {
        0
    };
    let ghost d = unsigned_digits(s@);
    assert(d == s@.subrange(start as int, s@.len() as int));
    if start == s.len() {
        return None;
    }
    let mut acc: u64 = 0;
    let mut i: usize = start;
    while i < s.len()
        invariant
            start <= i <= s@.len(),
            d == s@.subrange(start as int, s@.len() as int),
            d == unsigned_digits(s@),
            forall|k: int| start <= k < i ==> is_digit(#[trigger] s@[k]),
            acc as int == digits_value(d.take(i - start)),
            acc <= u32::MAX,
        decreases s@.len() - i,
    {
        let c = s[i];
        if !('0' <= c && c <= '9') {
            assert(d[i - start] == c);
            assert(!is_digit(d[i - start]));
            assert(!all_digits(d));
            return None;
        }
        let dv = (c as u32 - '0' as u32) as u64;
        assert(d.take(i + 1 - start).drop_last() == d.take(i - start));
        assert(d.take(i + 1 - start).last() == c);
        assert(dv as int == c as int - '0' as int);
        let next = acc * 10 + dv;
        assert(next as int == digits_value(d.take(i + 1 - start)));
        if next > u32::MAX as u64 {
            proof {
                if all_digits(d) {
                    lemma_digits_value_monotone(d, i + 1 - start);
                    assert(digits_value(d) > u32::MAX);
                }
            }
            return None;
        }
        acc = next;
        i += 1;
    }
    proof {
        assert(d.take(s@.len() - start) == d);
        assert forall|k: int| 0 <= k < d.len() implies is_digit(#[trigger] d[k]) by {
            assert(d[k] == s@[start + k]);
        }
    }
    Some(acc as u32)
}

/// The decimal `u64` that `s` spells, if it spells one.
pub fn parse_u64_chars(s: &[char]) -> (r: Option<u64>)
    ensures
        r == parse_u64(s@),
{
    let start: usize = if s.len() > 0 && s[0] == '+' {
        1
    } else {
        0
    };
    let ghost d = unsigned_digits(s@);
    assert(d == s@.subrange(start as int, s@.len() as int));
    if start == s.len() {
        return None;
    }
    let mut acc: u128 = 0;
    let mut i: usize = start;
    while i < s.len()
        invariant
            start <= i <= s@.len(),
            d == s@.subrange(start as int, s@.len() as int),
            d == unsigned_digits(s@),
            forall|k: int| start <= k < i ==> is_digit(#[trigger] s@[k]),
            acc as int == digits_value(d.take(i - start)),
            acc <= u64::MAX,
        decreases s@.len() - i,
    {
        let c = s[i];
        if !('0' <= c && c <= '9') {
            assert(d[i - start] == c);
            assert(!is_digit(d[i - start]));
            assert(!all_digits(d));
            return None;
        }
        let dv = (c as u32 - '0' as u32) as u128;
        assert(d.take(i + 1 - start).drop_last() == d.take(i - start));
        assert(d.take(i + 1 - start).last() == c);
        assert(dv as int == c as int - '0' as int);
        let next = acc * 10 + dv;
        assert(next as int == digits_value(d.take(i + 1 - start)));
        if next > u64::MAX as u128 {
            proof {
                if all_digits(d) {
                    lemma_digits_value_monotone(d, i + 1 - start);
                    assert(digits_value(d) > u64::MAX);
                }
            }
            return None;
        }
        acc = next;
        i += 1;
    }
    proof {
        assert(d.take(s@.len() - start) == d);
        assert forall|k: int| 0 <= k < d.len() implies is_digit(#[trigger] d[k]) by {
            assert(d[k] == s@[start + k]);
        }
    }
    Some(acc as u64)
}

/// The decimal `i64` that `s` spells, if it spells one.
pub fn parse_i64_chars(s: &[char]) -> (r: Option<i64>)
    ensures
        r == parse_i64(s@),
{
    let neg = s.len() > 0 && s[0] == '-';
    let start: usize = if s.len() > 0 && (s[0] == '+' || s[0] == '-') {
        1
    } else {
        0
    };
    let ghost d = signed_digits(s@);
    assert(d == s@.subrange(start as int, s@.len() as int));
    if start == s.len() {
        return None;
    }
    let limit: u64 = if neg {
        0x8000_0000_0000_0000
    } else {
        0x7fff_ffff_ffff_ffff
    };
    let mut acc: u64 = 0;
    let mut i: usize = start;
    while i < s.len()
        invariant
            start <= i <= s@.len(),
            d == s@.subrange(start as int, s@.len() as int),
            d == signed_digits(s@),
            neg == (s@.len() > 0 && s@[0] == '-'),
            limit == (if neg {
                0x8000_0000_0000_0000u64
            } else {
                0x7fff_ffff_ffff_ffffu64
            }),
            forall|k: int| start <= k < i ==> is_digit(#[trigger] s@[k]),
            acc as int == digits_value(d.take(i - start)),
            acc <= limit,
        decreases s@.len() - i,
    {
        let c = s[i];
        if !('0' <= c && c <= '9') {
            assert(d[i - start] == c);
            assert(!is_digit(d[i - start]));
            assert(!all_digits(d));
            return None;
        }
        let dv = (c as u32 - '0' as u32) as u64;
        assert(d.take(i + 1 - start).drop_last() == d.take(i - start));
        assert(d.take(i + 1 - start).last() == c);
        assert(dv as int == c as int - '0' as int);
        if acc > (limit - dv) / 10 {
            proof {
                assert(acc * 10 + dv > limit) by (nonlinear_arith)
                    requires
                        acc > (limit - dv) / 10,
                        dv <= 9,
                        limit >= 9,
                ;
                assert(acc * 10 + dv == digits_value(d.take(i + 1 - start)));
                if all_digits(d) {
                    lemma_digits_value_monotone(d, i + 1 - start);
                }
            }
            return None;
        }
        assert(acc * 10 + dv <= limit) by (nonlinear_arith)
            requires
                acc <= (limit - dv) / 10,
                dv <= 9,
                limit >= 9,
        ;
        acc = acc * 10 + dv;
        i += 1;
    }
    proof {
        assert(d.take(s@.len() - start) == d);
        assert forall|k: int| 0 <= k < d.len() implies is_digit(#[trigger] d[k]) by {
            assert(d[k] == s@[start + k]);
        }
    }
    if neg {
        if acc == 0x8000_0000_0000_0000 {
            Some(i64::MIN)
        } else {
            Some(0 - (acc as i64))
        }
    } else {
        Some(acc as i64)
    }
}

/// The lexicographic order is irreflexive and total on distinct sequences.
pub proof fn lemma_lex_total(a: Seq<char>, b: Seq<char>)
    ensures
        !lex_lt(a, a),
        a != b ==> (lex_lt(a, b) || lex_lt(b, a)),
        !(lex_lt(a, b) && lex_lt(b, a)),
    decreases a.len(),
{
    if a.len() > 0 && b.len() > 0 {
        lemma_lex_total(a.drop_first(), b.drop_first());
        lemma_lex_total(a.drop_first(), a.drop_first());
        if a != b && a[0] == b[0] {
            if a.drop_first() == b.drop_first() {
                assert(a.len() == b.len());
                assert forall|i: int| 0 <= i < a.len() implies a[i] == b[i] by {
                    if i > 0 {
                        assert(a[i] == a.drop_first()[i - 1]);
                        assert(b[i] == b.drop_first()[i - 1]);
                    }
                }
                assert(a =~= b);
            }
        }
    } else if a.len() > 0 {
        lemma_lex_total(a.drop_first(), a.drop_first());
    } else if b.len() == 0 {
        assert(a =~= b);
    }
}

/// The lexicographic order is transitive.
pub proof fn lemma_lex_transitive(a: Seq<char>, b: Seq<char>, c: Seq<char>)
    requires
        lex_lt(a, b),
        lex_lt(b, c),
    ensures
        lex_lt(a, c),
    decreases a.len(),
{
    if a.len() > 0 && b.len() > 0 && c.len() > 0 {
        if a[0] == b[0] && b[0] == c[0] {
            lemma_lex_transitive(a.drop_first(), b.drop_first(), c.drop_first());
        }
    }
}

/// Whether `a` comes before `b` in code-point lexicographic order.
pub fn lex_less(a: &[char], b: &[char]) -> (r: bool)
    ensures
        r == lex_lt(a@, b@),
{
    let mut i: usize = 0;
    assert(a@.skip(0) =~= a@);
    assert(b@.skip(0) =~= b@);
    while i < a.len() && i < b.len()
        invariant
            0 <= i <= a@.len(),
            i <= b@.len(),
            lex_lt(a@, b@) == lex_lt(a@.skip(i as int), b@.skip(i as int)),
        decreases a@.len() - i,
    {
        let x = a[i];
        let y = b[i];
        assert(a@.skip(i as int)[0] == a@[i as int]);
        assert(b@.skip(i as int)[0] == b@[i as int]);
        if x < y {
            return true;
        }
        if x > y {
            return false;
        }
        assert(a@.skip(i as int).drop_first() == a@.skip(i + 1));
        assert(b@.skip(i as int).drop_first() == b@.skip(i + 1));
        i += 1;
    }
    i == a.len() && i < b.len()
}

} // verus!
