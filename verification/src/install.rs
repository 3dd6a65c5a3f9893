//! Installing a package: the checks made before a transaction, the repositories and
//! target it uses, the reading of the helper's output while it runs, and the decision
//! that follows it (retry, ask for a system update, or report why it failed).
use vstd::prelude::*;
use crate::models::PackageSource;
use crate::text::{chars_of, contains, contains_str, eq_str, is_prefix, lowercase, lower_chars, string_of, trim};

verus! {

/// The message shown when Manjaro refuses a pre-built package.
pub open spec fn manjaro_guard_message() -> Seq<char> {
    "Manjaro Stability Guard: Installing pre-built binaries (Chaotic/CachyOS) is blocked on Manjaro to prevent system breakage. Please use the AUR (Native Build) version instead."@
}

/// On Manjaro, packages from Chaotic-AUR and CachyOS are refused.
pub open spec fn manjaro_blocks(is_manjaro: bool, source_id: Seq<char>) -> bool {
    is_manjaro && (source_id == "chaotic-aur"@ || source_id == "cachyos"@)
}

/// Refuses an install that Manjaro's stability guard forbids, with its message.
pub fn manjaro_guard(is_manjaro: bool, source: &PackageSource) -> (r: Result<(), String>)
    ensures
        manjaro_blocks(is_manjaro, source.id@) ==> (r matches Err(m) && m@ == manjaro_guard_message()),
        !manjaro_blocks(is_manjaro, source.id@) ==> r is Ok,
{
    let id = chars_of(source.id.as_str());
    if is_manjaro && (eq_str(id.as_slice(), "chaotic-aur") || eq_str(id.as_slice(), "cachyos")) {
        Err(String::from_str("Manjaro Stability Guard: Installing pre-built binaries (Chaotic/CachyOS) is blocked on Manjaro to prevent system breakage. Please use the AUR (Native Build) version instead."))
    } else {
        Ok(())
    }
}

/// The CPU optimisation requested from the helper: Zen 4, x86-64-v4, x86-64-v3, or none.
pub fn cpu_optimization_flag(znver4: bool, v4: bool, v3: bool) -> (r: Option<&'static str>)
    ensures
        match r {
            Some(s) => (znver4 && s@ == "znver4"@) || (!znver4 && v4 && s@ == "v4"@) || (!znver4
                && !v4 && v3 && s@ == "v3"@),
            None => !znver4 && !v4 && !v3,
        },
{
    if znver4 {
        Some("znver4")
    } else if v4 {
        Some("v4")
    } else if v3 {
        Some("v3")
    } else {
        None
    }
}

/// The repositories of a transaction: the enabled ones, then Arch's system repositories
/// that are not among them.
pub open spec fn transaction_repos_of(enabled: Seq<Seq<char>>) -> Seq<Seq<char>> {
    crate::discovery::push_new(enabled, crate::ranking::strs(seq!["core", "extra", "community", "multilib"]))
}

/// The repositories a transaction may resolve dependencies from.
pub fn transaction_repos(enabled: Vec<String>) -> (r: Vec<String>)
    ensures
        crate::text::string_views(r@) == transaction_repos_of(crate::text::string_views(enabled@)),
{
    let mut repos = enabled;
    let sys = crate::discovery::to_strings(&["core", "extra", "community", "multilib"]);
    crate::discovery::append_new(&mut repos, &sys);
    repos
}

/// The repository a repository package is installed from: its own id when it has a real
/// one, else the repository named by the request.
pub open spec fn target_repo_of(source: PackageSource, repo_name: Option<Seq<char>>) -> Option<Seq<char>> {
    if source.source_type@ == "repo"@ && source.id@.len() > 0 && source.id@ != "id_unknown"@ {
        Some(source.id@)
    } else {
        repo_name
    }
}

/// The repository to install from.
pub fn target_repo(source: &PackageSource, repo_name: Option<String>) -> (r: Option<String>)
    ensures
        match r {
            Some(s) => target_repo_of(*source, match repo_name {
                Some(n) => Some(n@),
                None => None,
            }) == Some(s@),
            None => target_repo_of(*source, match repo_name {
                Some(n) => Some(n@),
                None => None,
            }) is None,
        },
{
    let t = chars_of(source.source_type.as_str());
    let id = chars_of(source.id.as_str());
    if eq_str(t.as_slice(), "repo") && id.len() > 0 && !eq_str(id.as_slice(), "id_unknown") {
        Some(string_of(id.as_slice()))
    } else {
        repo_name
    }
}

/// The repositories whose use first needs the system configuration applied.
pub fn is_managed_repo(source_id: &str) -> (r: bool)
    ensures
        r == (source_id@ == "chaotic-aur"@ || source_id@ == "cachyos"@ || source_id@ == "garuda"@
            || source_id@ == "endeavour"@ || source_id@ == "manjaro"@),
{
    let id = chars_of(source_id);
    eq_str(id.as_slice(), "chaotic-aur") || eq_str(id.as_slice(), "cachyos") || eq_str(
        id.as_slice(),
        "garuda",
    ) || eq_str(id.as_slice(), "endeavour") || eq_str(id.as_slice(), "manjaro")
}

// ---------------------------------------------------------------------------
// The helper's output
// ---------------------------------------------------------------------------

/// The most lines of helper output kept.
pub const INSTALL_LOG_CAP: usize = 50;

/// A message shows that the installed helper does not know the command it was sent.
pub open spec fn is_unknown_variant(m: Seq<char>) -> bool {
    (contains(m, "unknown variant"@) && contains(m, "AlpmInstall"@)) || (contains(
        m,
        "expected one of"@,
    ) && contains(m, "ExecuteBatch"@)) || contains(m, "outdated and does not support ALPM"@)
}

/// A message shows corrupt sync databases.
pub open spec fn is_corrupt_db(m: Seq<char>) -> bool {
    contains(m, "Unrecognized archive format"@) || contains(m, "could not open database"@)
}

/// A message shows a failed download (a stale database).
pub open spec fn is_download_error(m: Seq<char>) -> bool {
    contains(lowercase(m), "failed retrieving"@) || contains(lowercase(m), "404"@) || contains(
        m,
        "unexpected error: package"@,
    )
}

/// The log after a line: the line appended, the oldest dropped beyond the cap.
pub open spec fn log_push(log: Seq<Seq<char>>, m: Seq<char>) -> Seq<Seq<char>> {
    if log.len() + 1 > INSTALL_LOG_CAP {
        log.push(m).drop_first()
    } else {
        log.push(m)
    }
}

/// What has been seen of an install's helper output: the last lines, and whether the
/// helper was outdated, the databases corrupt, or a download failed.
pub struct InstallMonitor {
    pub log: Vec<String>,
    pub saw_unknown_variant: bool,
    pub saw_corrupt_db: bool,
    pub saw_download_error: bool,
}

/// The texts of the log lines.
pub open spec fn log_texts(v: Seq<String>) -> Seq<Seq<char>> {
    v.map_values(|s: String| s@)
}

/// Some line of the log contains `p`.
pub open spec fn log_mentions(log: Seq<Seq<char>>, p: Seq<char>) -> bool {
    exists|k: int| 0 <= k < log.len() && contains(#[trigger] log[k], p)
}

/// The log shows a failed dependency resolution.
pub open spec fn dependency_failure(log: Seq<Seq<char>>) -> bool {
    log_mentions(log, "could not satisfy dependencies"@) || log_mentions(log, "could not satisfy dependency"@)
}

/// The log shows a package that a fresh sync might provide.
pub open spec fn might_need_sync(log: Seq<Seq<char>>) -> bool {
    log_mentions(log, "not found in any enabled repository"@) || log_mentions(log, "target not found"@)
        || log_mentions(log, "no such package"@) || log_mentions(log, "could not find"@)
}

fn log_mentions_exec(log: &Vec<String>, p: &str) -> (r: bool)
    ensures
        r == log_mentions(log_texts(log@), p@),
{
    let mut i: usize = 0;
    while i < log.len()
        invariant
            0 <= i <= log@.len(),
            forall|k: int| 0 <= k < i ==> !contains(#[trigger] log_texts(log@)[k], p@),
        decreases log@.len() - i,
    {
        assert(log_texts(log@)[i as int] == log@[i as int]@);
        if contains_str(chars_of(log[i].as_str()).as_slice(), p) {
            return true;
        }
        i += 1;
    }
    false
}

impl InstallMonitor {
    /// Nothing seen yet.
    pub fn new() -> (r: Self)
        ensures
            r.log@.len() == 0,
            !r.saw_unknown_variant && !r.saw_corrupt_db && !r.saw_download_error,
    {
        InstallMonitor { log: Vec::new(), saw_unknown_variant: false, saw_corrupt_db: false, saw_download_error: false }
    }

    fn push_line(&mut self, message: &str)
        requires
            old(self).log@.len() <= INSTALL_LOG_CAP,
        ensures
            log_texts(final(self).log@) == log_push(log_texts(old(self).log@), message@),
            final(self).log@.len() <= INSTALL_LOG_CAP,
            final(self).saw_unknown_variant == old(self).saw_unknown_variant,
            final(self).saw_corrupt_db == old(self).saw_corrupt_db,
            final(self).saw_download_error == old(self).saw_download_error,
    {
        let ghost before = log_texts(self.log@);
        self.log.push(String::from_str(message));
        assert(log_texts(self.log@) == before.push(message@));
        if self.log.len() > INSTALL_LOG_CAP {
            let ghost pushed = self.log@;
            self.log.remove(0);
            assert(log_texts(self.log@) == before.push(message@).drop_first()) by {
                assert(self.log@ == pushed.drop_first());
            }
        }
    }

    /// Records one message of the first install attempt.
    pub fn observe(&mut self, message: &str)
        requires
            old(self).log@.len() <= INSTALL_LOG_CAP,
        ensures
            log_texts(final(self).log@) == log_push(log_texts(old(self).log@), message@),
            final(self).log@.len() <= INSTALL_LOG_CAP,
            final(self).saw_unknown_variant == (old(self).saw_unknown_variant || is_unknown_variant(
                message@,
            )),
            final(self).saw_corrupt_db == (old(self).saw_corrupt_db || is_corrupt_db(message@)),
            final(self).saw_download_error == (old(self).saw_download_error || is_download_error(
                message@,
            )),
    {
        self.push_line(message);
        let m = chars_of(message);
        let l = lower_chars(message);
        if (contains_str(m.as_slice(), "unknown variant") && contains_str(m.as_slice(), "AlpmInstall"))
            || (contains_str(m.as_slice(), "expected one of") && contains_str(
            m.as_slice(),
            "ExecuteBatch",
        )) || contains_str(m.as_slice(), "outdated and does not support ALPM") {
            self.saw_unknown_variant = true;
        }
        if contains_str(m.as_slice(), "Unrecognized archive format") || contains_str(
            m.as_slice(),
            "could not open database",
        ) {
            self.saw_corrupt_db = true;
        }
        if contains_str(l.as_slice(), "failed retrieving") || contains_str(l.as_slice(), "404")
            || contains_str(m.as_slice(), "unexpected error: package") {
            self.saw_download_error = true;
        }
    }

    /// Records one message of a follow-up attempt (the legacy path or the retry with a
    /// sync): only corrupt databases are looked for.
    pub fn observe_followup(&mut self, message: &str)
        requires
            old(self).log@.len() <= INSTALL_LOG_CAP,
        ensures
            log_texts(final(self).log@) == log_push(log_texts(old(self).log@), message@),
            final(self).log@.len() <= INSTALL_LOG_CAP,
            final(self).saw_unknown_variant == old(self).saw_unknown_variant,
            final(self).saw_corrupt_db == (old(self).saw_corrupt_db || is_corrupt_db(message@)),
            final(self).saw_download_error == old(self).saw_download_error,
    {
        self.push_line(message);
        let m = chars_of(message);
        if contains_str(m.as_slice(), "Unrecognized archive format") || contains_str(
            m.as_slice(),
            "could not open database",
        ) {
            self.saw_corrupt_db = true;
        }
    }

    /// A failed download without corrupt databases: a full system update must come first.
    pub fn needs_system_update(&self) -> (r: bool)
        ensures
            r == (self.saw_download_error && !self.saw_corrupt_db),
    {
        self.saw_download_error && !self.saw_corrupt_db
    }

    /// Whether the log shows a failed dependency resolution.
    pub fn is_dependency_failure(&self) -> (r: bool)
        ensures
            r == dependency_failure(log_texts(self.log@)),
    {
        log_mentions_exec(&self.log, "could not satisfy dependencies") || log_mentions_exec(
            &self.log,
            "could not satisfy dependency",
        )
    }

    /// Whether an unverified install of a non-AUR package should be retried once after a
    /// sync: the helper was current, and the log shows a missing package rather than a
    /// dependency failure.
    pub fn should_retry_with_sync(&self, verified: bool, source_type: &str) -> (r: bool)
        ensures
            r == (!verified && source_type@ != "aur"@ && !self.saw_unknown_variant && might_need_sync(
                log_texts(self.log@),
            ) && !dependency_failure(log_texts(self.log@))),
    {
        let t = chars_of(source_type);
        !verified && !eq_str(t.as_slice(), "aur") && !self.saw_unknown_variant && (
        log_mentions_exec(&self.log, "not found in any enabled repository") || log_mentions_exec(
            &self.log,
            "target not found",
        ) || log_mentions_exec(&self.log, "no such package") || log_mentions_exec(
            &self.log,
            "could not find",
        )) && !self.is_dependency_failure()
    }
}

/// The index of the first log line containing `p`, or the length of the log.
pub open spec fn first_mention(log: Seq<Seq<char>>, p: Seq<char>) -> int
    decreases log.len(),
{
    if log.len() == 0 || contains(log[0], p) {
        0
    } else {
        1 + first_mention(log.drop_first(), p)
    }
}

/// A line that explains a dependency failure.
pub open spec fn explains_dependencies(m: Seq<char>) -> bool {
    contains(m, "Transaction preparation failed"@) || contains(m, "could not satisfy"@) || contains(
        m,
        "unable to satisfy"@,
    ) || contains(m, "breaks dependency"@)
}

/// The index of the first line that explains a dependency failure, or the length.
pub open spec fn first_explanation(log: Seq<Seq<char>>) -> int
    decreases log.len(),
{
    if log.len() == 0 || explains_dependencies(log[0]) {
        0
    } else {
        1 + first_explanation(log.drop_first())
    }
}

/// `s` without any number of leading `p`s.
pub open spec fn strip_all_prefix(s: Seq<char>, p: Seq<char>) -> Seq<char>
    decreases s.len(),
{
    if p.len() > 0 && is_prefix(p, s) {
        strip_all_prefix(s.skip(p.len() as int), p)
    } else {
        s
    }
}

/// Why an install of `name` failed, from what its helper output showed.
pub open spec fn failure_message(name: Seq<char>, corrupt: bool, log: Seq<Seq<char>>) -> Seq<char> {
    let nf = first_mention(log, "not found in any enabled repository"@);
    let ex = first_explanation(log);
    if corrupt {
        "Sync databases are corrupt (Unrecognized archive format). Use Settings → System Management → Refresh Databases, then retry. If it still fails, run 'sudo pacman -Syy' once."@
    } else if nf < log.len() {
        trim(log[nf]) + " Try enabling Chaotic-AUR or another repo that provides this package, or install from AUR."@
    } else if dependency_failure(log) {
        if ex < log.len() && strip_all_prefix(trim(log[ex]), "Error: "@).len() > 0 {
            "Dependencies could not be satisfied for '"@ + name + "': "@ + strip_all_prefix(
                trim(log[ex]),
                "Error: "@,
            )
                + ". Try enabling more repos (e.g. multilib, Chaotic-AUR) or install the missing dependency first."@
        } else {
            "Dependencies could not be satisfied for '"@ + name
                + "'. A required dependency may be missing from your enabled repos, or there may be a version conflict. Check the log above or try: pacman -S "@
                + name
        }
    } else {
        "Package '"@ + name + "' could not be installed. Check the log above for details."@
    }
}

proof fn lemma_first_mention(log: Seq<Seq<char>>, p: Seq<char>, k: int)
    requires
        0 <= k <= log.len(),
        k < log.len() ==> contains(log[k], p),
        forall|j: int| 0 <= j < k ==> !contains(#[trigger] log[j], p),
    ensures
        first_mention(log, p) == k,
    decreases log.len(),
{
    if log.len() > 0 && k > 0 {
        assert(!contains(log[0], p));
        assert forall|j: int| 0 <= j < k - 1 implies !contains(#[trigger] log.drop_first()[j], p) by {
            assert(log.drop_first()[j] == log[j + 1]);
        }
        lemma_first_mention(log.drop_first(), p, k - 1);
    }
}

proof fn lemma_first_explanation(log: Seq<Seq<char>>, k: int)
    requires
        0 <= k <= log.len(),
        k < log.len() ==> explains_dependencies(log[k]),
        forall|j: int| 0 <= j < k ==> !explains_dependencies(#[trigger] log[j]),
    ensures
        first_explanation(log) == k,
    decreases log.len(),
{
    if log.len() > 0 && k > 0 {
        assert(!explains_dependencies(log[0]));
        assert forall|j: int| 0 <= j < k - 1 implies !explains_dependencies(#[trigger] log.drop_first()[j]) by {
            assert(log.drop_first()[j] == log[j + 1]);
        }
        lemma_first_explanation(log.drop_first(), k - 1);
    }
}

pub(crate) fn strip_all_prefix_exec(s: &[char], p: &str) -> (r: Vec<char>)
    requires
        p@.len() > 0,
    ensures
        r@ == strip_all_prefix(s@, p@),
{
    let pv = chars_of(p);
    let mut i: usize = 0;
    assert(s@.skip(0) == s@);
    while pv.len() <= s.len() - i && crate::text::matches_at(s, pv.as_slice(), i)
        invariant
            0 <= i <= s@.len(),
            pv@ == p@,
            pv@.len() > 0,
            strip_all_prefix(s@, p@) == strip_all_prefix(s@.skip(i as int), p@),
        decreases s@.len() - i,
    {
        proof {
            let t = s@.skip(i as int);
            assert(t.subrange(0, pv@.len() as int) == s@.subrange(i as int, i + pv@.len()));
            assert(is_prefix(p@, t));
            assert(t.skip(pv@.len() as int) == s@.skip(i + pv@.len()));
        }
        i = i + pv.len();
    }
    proof {
        let t = s@.skip(i as int);
        if is_prefix(p@, t) {
            assert(t.subrange(0, pv@.len() as int) == s@.subrange(i as int, i + pv@.len()));
        }
    }
    crate::text::slice_copy(s, i, s.len())
}

fn first_explanation_index(log: &Vec<String>) -> (r: usize)
    ensures
        r as int == first_explanation(log_texts(log@)),
        r <= log@.len(),
{
    let ghost lt = log_texts(log@);
    let mut k: usize = 0;
    while k < log.len()
        invariant
            0 <= k <= log@.len(),
            lt == log_texts(log@),
            forall|j: int| 0 <= j < k ==> !explains_dependencies(#[trigger] lt[j]),
        decreases log@.len() - k,
    {
        assert(lt[k as int] == log@[k as int]@);
        let m = chars_of(log[k].as_str());
        if contains_str(m.as_slice(), "Transaction preparation failed") || contains_str(
            m.as_slice(),
            "could not satisfy",
        ) || contains_str(m.as_slice(), "unable to satisfy") || contains_str(
            m.as_slice(),
            "breaks dependency",
        ) {
            proof {
                lemma_first_explanation(lt, k as int);
            }
            return k;
        }
        k += 1;
    }
    proof {
        lemma_first_explanation(lt, k as int);
    }
    k
}

impl InstallMonitor {
    /// The error reported when the package `name` is not installed after all attempts.
    pub fn failure_message(&self, name: &str) -> (r: String)
        ensures
            r@ == failure_message(name@, self.saw_corrupt_db, log_texts(self.log@)),
    {
        let ghost log = log_texts(self.log@);
        if self.saw_corrupt_db {
            return String::from_str("Sync databases are corrupt (Unrecognized archive format). Use Settings → System Management → Refresh Databases, then retry. If it still fails, run 'sudo pacman -Syy' once.");
        }
        let mut i: usize = 0;
        while i < self.log.len()
            invariant
                0 <= i <= self.log@.len(),
                log == log_texts(self.log@),
                !self.saw_corrupt_db,
                forall|j: int| 0 <= j < i ==> !contains(#[trigger] log[j], "not found in any enabled repository"@),
            decreases self.log@.len() - i,
        {
            assert(log[i as int] == self.log@[i as int]@);
            if contains_str(chars_of(self.log[i].as_str()).as_slice(), "not found in any enabled repository") {
                proof {
                    lemma_first_mention(log, "not found in any enabled repository"@, i as int);
                }
                let t = crate::text::trim_str(self.log[i].as_str());
                let a = crate::text::concat_str(
                    chars_of(t.as_str()).as_slice(),
                    " Try enabling Chaotic-AUR or another repo that provides this package, or install from AUR.",
                );
                return string_of(a.as_slice());
            }
            i += 1;
        }
        proof {
            lemma_first_mention(log, "not found in any enabled repository"@, log.len() as int);
        }
        if self.is_dependency_failure() {
            let k = first_explanation_index(&self.log);
            let detail: Option<Vec<char>> = if k < self.log.len() {
                let t = crate::text::trim_chars(chars_of(self.log[k].as_str()).as_slice());
                proof {
                    reveal_strlit("Error: ");
                }
                let d = strip_all_prefix_exec(t.as_slice(), "Error: ");
                if d.len() > 0 {
                    Some(d)
                } else {
                    None
                }
            } else {
                None
            };
            return match detail {
                Some(d) => {
                    let a = crate::text::concat_str(chars_of("Dependencies could not be satisfied for '").as_slice(), name);
                    let b = crate::text::concat_str(a.as_slice(), "': ");
                    let c = crate::text::concat(b.as_slice(), d.as_slice());
                    let e = crate::text::concat_str(
                        c.as_slice(),
                        ". Try enabling more repos (e.g. multilib, Chaotic-AUR) or install the missing dependency first.",
                    );
                    string_of(e.as_slice())
                },
                None => {
                    let a = crate::text::concat_str(chars_of("Dependencies could not be satisfied for '").as_slice(), name);
                    let b = crate::text::concat_str(
                        a.as_slice(),
                        "'. A required dependency may be missing from your enabled repos, or there may be a version conflict. Check the log above or try: pacman -S ",
                    );
                    let c = crate::text::concat_str(b.as_slice(), name);
                    string_of(c.as_slice())
                },
            };
        }
        let a = crate::text::concat_str(chars_of("Package '").as_slice(), name);
        let b = crate::text::concat_str(a.as_slice(), "' could not be installed. Check the log above for details.");
        string_of(b.as_slice())
    }
}

/// The log never holds more than its cap of lines, and the latest line is always kept.
pub proof fn law_log_is_capped(log: Seq<Seq<char>>, m: Seq<char>)
    requires
        log.len() <= INSTALL_LOG_CAP,
    ensures
        log_push(log, m).len() <= INSTALL_LOG_CAP,
        log_push(log, m).last() == m,
{
}

// ---------------------------------------------------------------------------
// Privileged pacman command
// ---------------------------------------------------------------------------

/// The program and arguments that run pacman with `action_args` as root. Without a password
/// the request goes through pkexec with the desktop's own agent, via the store's wrapper
/// when it is installed; with a password it goes through `sudo -S`.
pub open spec fn pacman_invocation(action_args: Seq<Seq<char>>, has_password: bool, wrapper_installed: bool) -> (
    Seq<char>,
    Seq<Seq<char>>,
) {
    if !has_password && wrapper_installed {
        (
            "/usr/bin/pkexec"@,
            seq![
                "--disable-internal-agent"@,
                "/usr/lib/monarch-store/monarch-wrapper"@,
                "/usr/bin/pacman"@,
            ] + action_args,
        )
    } else if !has_password {
        ("/usr/bin/pkexec"@, seq!["--disable-internal-agent"@, "/usr/bin/pacman"@] + action_args)
    } else {
        ("/usr/bin/sudo"@, seq!["-S"@, "/usr/bin/pacman"@] + action_args)
    }
}

/// The command that runs pacman with `action_args` as root, given whether a password was
/// supplied and whether the store's pkexec wrapper is installed.
pub fn build_pacman_cmd(action_args: &Vec<String>, has_password: bool, wrapper_installed: bool) -> (r: (
    String,
    Vec<String>,
))
    ensures
        (r.0@, crate::text::string_views(r.1@)) == pacman_invocation(
            crate::text::string_views(action_args@),
            has_password,
            wrapper_installed,
        ),
{
    let mut args: Vec<String> = Vec::new();
    let program;
    if !has_password {
        program = String::from_str("/usr/bin/pkexec");
        args.push(String::from_str("--disable-internal-agent"));
        if wrapper_installed {
            args.push(String::from_str("/usr/lib/monarch-store/monarch-wrapper"));
        }
    } else {
        program = String::from_str("/usr/bin/sudo");
        args.push(String::from_str("-S"));
    }
    args.push(String::from_str("/usr/bin/pacman"));
    let ghost head = crate::text::string_views(args@);
    let mut i: usize = 0;
    while i < action_args.len()
        invariant
            0 <= i <= action_args@.len(),
            crate::text::string_views(args@) == head + crate::text::string_views(action_args@).take(i as int),
        decreases action_args@.len() - i,
    {
        let ghost before = crate::text::string_views(args@);
        args.push(action_args[i].clone());
        assert(crate::text::string_views(action_args@).take(i + 1) == crate::text::string_views(
            action_args@,
        ).take(i as int).push(action_args@[i as int]@));
        assert(crate::text::string_views(args@) == before.push(action_args@[i as int]@));
        i += 1;
    }
    assert(crate::text::string_views(action_args@).take(action_args@.len() as int)
        == crate::text::string_views(action_args@));
    (program, args)
}

} // verus!
