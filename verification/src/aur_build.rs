//! Building AUR packages with makepkg: where the sources come from, what makepkg's error
//! output reveals while it runs (download progress, missing PGP keys, errors), the
//! message reported when a build fails, and which files are built packages.
use vstd::prelude::*;
use crate::text::{
    chars_of, contains, contains_str, is_digit, is_suffix, is_ws, lowercase, lower_chars, string_of,
    words,
};

verus! {

/// The git URL of an AUR package.
pub fn aur_clone_url(name: &str) -> (r: String)
    ensures
        r@ == "https://aur.archlinux.org/"@ + name@ + ".git"@,
{
    let a = crate::text::concat_str(chars_of("https://aur.archlinux.org/").as_slice(), name);
    let b = crate::text::concat_str(a.as_slice(), ".git");
    string_of(b.as_slice())
}

// ---------------------------------------------------------------------------
// Download progress
// ---------------------------------------------------------------------------

/// The value of a decimal `u8` (`u8::from_str`): an optional `+`, then digits, at most
/// 255.
pub open spec fn parse_u8(s: Seq<char>) -> Option<u8> {
    match crate::text::parse_u32(s) {
        Some(v) => if v <= 255 {
            Some(v as u8)
        } else {
            None
        },
        None => None,
    }
}

/// A makepkg error line that may report download progress: it has a `%`, or it is longer
/// than ten bytes and starts with an ASCII digit or whitespace.
pub open spec fn may_report_progress(line: Seq<char>) -> bool {
    line.contains('%') || (vstd::utf8::encode_utf8(line).len() > 10 && line.len() > 0 && (is_digit(
        line[0],
    ) || is_ws(line[0])))
}

/// The download percentage a makepkg error line reports: its first word read as a `u8`
/// of at most 100.
pub open spec fn progress_of(line: Seq<char>) -> Option<u8> {
    if may_report_progress(line) && words(line).len() > 0 {
        match parse_u8(words(line)[0]) {
            Some(p) => if p <= 100 {
                Some(p)
            } else {
                None
            },
            None => None,
        }
    } else {
        None
    }
}

fn has_char(s: &[char], c: char) -> (r: bool)
    ensures
        r == s@.contains(c),
{
    let mut i: usize = 0;
    while i < s.len()
        invariant
            0 <= i <= s@.len(),
            forall|k: int| 0 <= k < i ==> s@[k] != c,
        decreases s@.len() - i,
    {
        if s[i] == c {
            return true;
        }
        i += 1;
    }
    false
}

/// The download percentage reported by a makepkg error line, if any.
pub fn download_progress(line: &str) -> (r: Option<u8>)
    ensures
        r == progress_of(line@),
{
    let c = chars_of(line);
    let candidate = has_char(c.as_slice(), '%') || (line.as_bytes().len() > 10 && c.len() > 0 && (
    ('0' <= c[0] && c[0] <= '9') || crate::text::is_whitespace(c[0])));
    if !candidate {
        return None;
    }
    let ws = crate::text::split_words(c.as_slice());
    if ws.len() == 0 {
        return None;
    }
    assert(crate::text::views(ws@)[0] == ws@[0]@);
    match crate::text::parse_u32_chars(ws[0].as_slice()) {
        Some(v) => {
            if v <= 100 {
                Some(v as u8)
            } else {
                None
            }
        },
        None => None,
    }
}

// ---------------------------------------------------------------------------
// Missing PGP keys
// ---------------------------------------------------------------------------

/// Whether a character is alphanumeric (`char::is_alphanumeric`, Unicode's alphabetic and
/// numeric characters).
pub uninterp spec fn alphanumeric(c: char) -> bool;

/// Calls `char::is_alphanumeric`; the answer depends on the character alone.
#[verifier::external_body]
fn is_alphanumeric(c: char) -> (r: bool)
    ensures
        r == alphanumeric(c),
{
    c.is_alphanumeric()
}

/// `w` without the non-alphanumeric characters at either end.
pub open spec fn clean_word(w: Seq<char>) -> Seq<char>
    decreases w.len(),
{
    if w.len() > 0 && !alphanumeric(w[0]) {
        clean_word(w.drop_first())
    } else if w.len() > 0 && !alphanumeric(w.last()) {
        clean_word(w.drop_last())
    } else {
        w
    }
}

/// Every character is an ASCII hexadecimal digit.
pub open spec fn all_hex(w: Seq<char>) -> bool {
    forall|i: int| 0 <= i < w.len() ==> #[trigger] is_hex(w[i])
}

/// An ASCII hexadecimal digit.
pub open spec fn is_hex(c: char) -> bool {
    ('0' <= c && c <= '9') || ('a' <= c && c <= 'f') || ('A' <= c && c <= 'F')
}

/// A makepkg line about a key that could not be verified.
pub open spec fn mentions_missing_key(line: Seq<char>) -> bool {
    contains(line, "unknown public key"@) || contains(line, "not found in keychain"@) || contains(
        line,
        "FAILED (unknown public key"@,
    ) || contains(line, "could not be verified"@)
}

/// The word `w` is a key id: cleaned, at least eight bytes of hexadecimal digits.
pub open spec fn is_key_word(w: Seq<char>) -> bool {
    clean_word(w).len() >= 8 && all_hex(clean_word(w))
}

/// `w` is the word "key" or ends with it.
pub open spec fn names_key(w: Seq<char>) -> bool {
    is_suffix("key"@, w)
}

/// The keys after looking at the words `ws[..n]` of a line: each hexadecimal key id, and
/// each word after a "key" word whose cleaned form has at least eight bytes, added when
/// new.
pub open spec fn keys_after(keys: Seq<Seq<char>>, ws: Seq<Seq<char>>, n: int) -> Seq<Seq<char>>
    decreases n,
{
    if n <= 0 {
        keys
    } else {
        let prev = keys_after(keys, ws, n - 1);
        let w = ws[n - 1];
        let k1 = if is_key_word(w) && !prev.contains(clean_word(w)) {
            prev.push(clean_word(w))
        } else {
            prev
        };
        if names_key(w) && n < ws.len() && vstd::utf8::encode_utf8(clean_word(ws[n])).len() >= 8
            && !k1.contains(clean_word(ws[n])) {
            k1.push(clean_word(ws[n]))
        } else {
            k1
        }
    }
}

/// The missing keys after reading one makepkg error line.
pub open spec fn keys_from_line(keys: Seq<Seq<char>>, line: Seq<char>) -> Seq<Seq<char>> {
    if mentions_missing_key(line) {
        keys_after(keys, words(line), words(line).len() as int)
    } else {
        keys
    }
}

fn clean_word_exec(w: &[char]) -> (r: Vec<char>)
    ensures
        r@ == clean_word(w@),
{
    let mut i: usize = 0;
    let mut k: usize = w.len();
    assert(w@.subrange(0, k as int) == w@);
    while i < k && (!is_alphanumeric(w[i]) || !is_alphanumeric(w[k - 1]))
        invariant
            0 <= i <= k <= w@.len(),
            clean_word(w@.subrange(i as int, k as int)) == clean_word(w@),
        decreases k - i,
    {
        let ghost cur = w@.subrange(i as int, k as int);
        if !is_alphanumeric(w[i]) {
            assert(cur[0] == w@[i as int]);
            assert(cur.drop_first() == w@.subrange(i + 1, k as int));
            i += 1;
        } else {
            assert(cur[0] == w@[i as int]);
            assert(cur.last() == w@[k - 1]);
            assert(cur.drop_last() == w@.subrange(i as int, k - 1));
            k -= 1;
        }
    }
    proof {
        let cur = w@.subrange(i as int, k as int);
        if cur.len() > 0 {
            assert(cur[0] == w@[i as int]);
            assert(cur.last() == w@[k - 1]);
        }
    }
    crate::text::slice_copy(w, i, k)
}

fn all_hex_exec(w: &[char]) -> (r: bool)
    ensures
        r == all_hex(w@),
{
    let mut i: usize = 0;
    while i < w.len()
        invariant
            0 <= i <= w@.len(),
            forall|j: int| 0 <= j < i ==> #[trigger] is_hex(w@[j]),
        decreases w@.len() - i,
    {
        let c = w[i];
        if !(('0' <= c && c <= '9') || ('a' <= c && c <= 'f') || ('A' <= c && c <= 'F')) {
            assert(!is_hex(w@[i as int]));
            return false;
        }
        i += 1;
    }
    true
}

fn contains_key(keys: &Vec<String>, k: &[char]) -> (r: bool)
    ensures
        r == crate::text::string_views(keys@).contains(k@),
{
    crate::text::contains_string(keys, k)
}

/// Adds the missing key ids mentioned by a makepkg error line to `keys`.
pub fn collect_missing_keys(keys: &mut Vec<String>, line: &str)
    ensures
        crate::text::string_views(final(keys)@) == keys_from_line(
            crate::text::string_views(old(keys)@),
            line@,
        ),
{
    let c = chars_of(line);
    if !(contains_str(c.as_slice(), "unknown public key") || contains_str(c.as_slice(), "not found in keychain")
        || contains_str(c.as_slice(), "FAILED (unknown public key") || contains_str(
        c.as_slice(),
        "could not be verified",
    )) {
        return;
    }
    let ws = crate::text::split_words(c.as_slice());
    let ghost wv = crate::text::views(ws@);
    let ghost start = crate::text::string_views(keys@);
    let mut i: usize = 0;
    while i < ws.len()
        invariant
            0 <= i <= ws@.len(),
            wv == crate::text::views(ws@),
            wv == words(line@),
            crate::text::string_views(keys@) == keys_after(start, wv, i as int),
        decreases ws@.len() - i,
    {
        assert(wv[i as int] == ws@[i as int]@);
        let w = clean_word_exec(ws[i].as_slice());
        if w.len() >= 8 && all_hex_exec(w.as_slice()) && !contains_key(keys, w.as_slice()) {
            let ghost before = crate::text::string_views(keys@);
            keys.push(string_of(w.as_slice()));
            assert(crate::text::string_views(keys@) == before.push(w@));
        }
        if crate::text::ends_with(ws[i].as_slice(), "key") && i + 1 < ws.len() {
            assert(wv[i + 1] == ws@[i + 1]@);
            let next = clean_word_exec(ws[i + 1].as_slice());
            let ns = string_of(next.as_slice());
            if ns.as_str().as_bytes().len() >= 8 && !contains_key(keys, next.as_slice()) {
                let ghost before = crate::text::string_views(keys@);
                keys.push(ns);
                assert(crate::text::string_views(keys@) == before.push(next@));
            }
        }
        i += 1;
    }
}

// ---------------------------------------------------------------------------
// Build failures and artefacts
// ---------------------------------------------------------------------------

/// The advice given when makepkg fails with its unknown error.
pub open spec fn unknown_error_advice() -> Seq<char> {
    "AUR build failed: makepkg reported an unknown error. Ensure base-devel and git are installed; run scripts/monarch-permission-sanitizer.sh to fix build cache permissions."@
}

/// The message for a failed build: the last `ERROR:` line makepkg printed (or the
/// advice for its unknown error), else a generic message, which differs when the build
/// was retried after importing keys.
pub open spec fn build_failure_of(errors: Seq<Seq<char>>, after_key_import: bool) -> Seq<char> {
    if errors.len() == 0 {
        if after_key_import {
            "Build failed after key import. Check logs for details."@
        } else {
            "makepkg build failed. Check logs for details."@
        }
    } else if contains(lowercase(errors.last()), "unknown error has occurred"@) {
        unknown_error_advice()
    } else {
        errors.last()
    }
}

/// Whether a makepkg error line is an error to report.
pub fn is_build_error_line(line: &str) -> (r: bool)
    ensures
        r == contains(line@, "ERROR:"@),
{
    contains_str(chars_of(line).as_slice(), "ERROR:")
}

/// The message reported for a failed build.
pub fn build_failure_message(errors: &Vec<String>, after_key_import: bool) -> (r: String)
    ensures
        r@ == build_failure_of(crate::text::string_views(errors@), after_key_import),
{
    if errors.len() == 0 {
        if after_key_import {
            return String::from_str("Build failed after key import. Check logs for details.");
        } else {
            return String::from_str("makepkg build failed. Check logs for details.");
        }
    }
    let last = &errors[errors.len() - 1];
    assert(crate::text::string_views(errors@).last() == last@);
    let l = lower_chars(last.as_str());
    if contains_str(l.as_slice(), "unknown error has occurred") {
        String::from_str("AUR build failed: makepkg reported an unknown error. Ensure base-devel and git are installed; run scripts/monarch-permission-sanitizer.sh to fix build cache permissions.")
    } else {
        string_of(chars_of(last.as_str()).as_slice())
    }
}

/// The message when the missing keys could not be imported: the keys joined by commas.
pub fn pgp_failure_message(keys: &Vec<String>) -> (r: String)
    ensures
        r@ == "PGP verification failed. Could not import required keys: "@ + crate::search_core::join(
            crate::text::string_views(keys@),
            ", "@,
        ) + ". You may need to import them manually."@,
{
    let mut parts: Vec<Vec<char>> = Vec::new();
    let mut i: usize = 0;
    while i < keys.len()
        invariant
            0 <= i <= keys@.len(),
            crate::text::views(parts@) == crate::text::string_views(keys@).take(i as int),
        decreases keys@.len() - i,
    {
        let ghost before = crate::text::views(parts@);
        parts.push(chars_of(keys[i].as_str()));
        assert(crate::text::views(parts@) == before.push(keys@[i as int]@));
        assert(crate::text::string_views(keys@).take(i + 1) == crate::text::string_views(keys@).take(
            i as int,
        ).push(keys@[i as int]@));
        i += 1;
    }
    assert(crate::text::string_views(keys@).take(keys@.len() as int) == crate::text::string_views(keys@));
    let joined = crate::search_core::join_chars(&parts, ", ");
    let a = crate::text::concat(
        chars_of("PGP verification failed. Could not import required keys: ").as_slice(),
        joined.as_slice(),
    );
    let b = crate::text::concat_str(a.as_slice(), ". You may need to import them manually.");
    string_of(b.as_slice())
}

/// A built package: a path whose extension is `zst` (it ends in `.zst` and its file name
/// is not just `.zst`) and that contains `.pkg.tar.`.
pub open spec fn is_artifact(path: Seq<char>) -> bool {
    is_suffix(".zst"@, path) && path != ".zst"@ && !is_suffix("/.zst"@, path) && contains(
        path,
        ".pkg.tar."@,
    )
}

/// Whether a file in the build directory is a built package.
pub fn is_build_artifact(path: &str) -> (r: bool)
    ensures
        r == is_artifact(path@),
{
    let p = chars_of(path);
    crate::text::ends_with(p.as_slice(), ".zst") && !crate::text::eq_str(p.as_slice(), ".zst")
        && !crate::text::ends_with(p.as_slice(), "/.zst") && contains_str(p.as_slice(), ".pkg.tar.")
}


/// The message when makepkg would run as root.
pub open spec fn root_build_message() -> Seq<char> {
    "Security Violation: Attempted to run makepkg as root. This is forbidden."@
}

/// Refuses to run makepkg as root: `id_output` is what `id -u` printed; the build is refused
/// when it reads `0` once trimmed.
pub fn makepkg_root_guard(id_output: &str) -> (r: Result<(), String>)
    ensures
        r is Err <==> crate::text::trim(id_output@) == "0"@,
        r matches Err(m) ==> m@ == root_build_message(),
{
    let t = crate::text::trim_chars(chars_of(id_output).as_slice());
    if crate::text::eq_str(t.as_slice(), "0") {
        Err(String::from_str("Security Violation: Attempted to run makepkg as root. This is forbidden."))
    } else {
        Ok(())
    }
}

} // verus!
