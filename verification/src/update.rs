//! System updates: the command shown for updating in a terminal, the reading of the
//! helper's progress messages, and the summary of an update run (per-source status,
//! failed packages, warnings) with its overall verdict.
use vstd::prelude::*;
use crate::text::{chars_of, contains, contains_str, is_prefix, lower_chars, lowercase, string_of};

verus! {

/// The command for a full system upgrade, and what it does.
#[derive(Debug, Clone)]
pub struct SystemUpdateCommandPayload {
    pub command: String,
    pub description: String,
}

/// Sent when an update run ends.
#[derive(Debug, Clone)]
pub struct UpdateCompletePayload {
    pub overall: String,
    pub summary: UpdateRunSummary,
    pub message: String,
}

/// Progress of the update run as a whole.
#[derive(Debug, Clone)]
pub struct UpdateProgressPayload {
    pub phase: String,
    pub progress: u8,
    pub message: String,
}

/// Progress of the update of one source (repositories, AUR or Flatpak).
#[derive(Debug, Clone)]
pub struct UpdateSourceProgressPayload {
    pub source: String,
    pub stage: String,
    pub current: u32,
    pub total: u32,
    pub package: Option<String>,
}

/// A package that failed to update, with its source and the reason.
#[derive(Debug, Clone)]
pub struct UpdateFailedPackage {
    pub name: String,
    pub source: String,
    pub reason: String,
}

/// What an update run did: the status of each source ("success", "partial", "failed" or
/// "skipped"), the packages updated and failed, the warnings, and how long it took.
#[derive(Debug, Clone)]
pub struct UpdateRunSummary {
    pub repo: String,
    pub aur: String,
    pub flatpak: String,
    pub succeeded_packages: Vec<String>,
    pub failed_packages: Vec<UpdateFailedPackage>,
    pub warnings: Vec<String>,
    pub duration_ms: u64,
}

/// The command for updating the whole system in a terminal: always a full sync and
/// upgrade.
pub fn get_system_update_command() -> (r: SystemUpdateCommandPayload)
    ensures
        r.command@ == "sudo pacman -Syu"@,
        r.description@ == "Full system upgrade (sync databases + upgrade all packages)"@,
{
    SystemUpdateCommandPayload {
        command: String::from_str("sudo pacman -Syu"),
        description: String::from_str("Full system upgrade (sync databases + upgrade all packages)"),
    }
}

// ---------------------------------------------------------------------------
// Helper messages
// ---------------------------------------------------------------------------

/// A helper message reports that the system upgrade failed: it starts with `Error:` or
/// mentions a failed transaction preparation.
pub open spec fn reports_failure(message: Seq<char>) -> bool {
    is_prefix("Error:"@, message) || contains(message, "Transaction preparation failed"@)
}

/// Whether a helper message reports that the system upgrade failed.
pub fn is_sysupgrade_failure(message: &str) -> (r: bool)
    ensures
        r == reports_failure(message@),
{
    let m = chars_of(message);
    crate::text::starts_with(m.as_slice(), "Error:") || contains_str(
        m.as_slice(),
        "Transaction preparation failed",
    )
}

/// The phase a helper message belongs to: "refresh" when it speaks of syncing or
/// databases (in any case), else "upgrade".
pub open spec fn message_phase(message: Seq<char>) -> Seq<char> {
    let l = lowercase(message);
    if contains(l, "sync"@) || contains(l, "database"@) {
        "refresh"@
    } else {
        "upgrade"@
    }
}

/// The phase of the update run that a helper message belongs to.
pub fn progress_phase(message: &str) -> (r: &'static str)
    ensures
        r@ == message_phase(message@),
{
    let l = lower_chars(message);
    if contains_str(l.as_slice(), "sync") || contains_str(l.as_slice(), "database") {
        "refresh"
    } else {
        "upgrade"
    }
}

// ---------------------------------------------------------------------------
// Statuses
// ---------------------------------------------------------------------------

/// The status of a source after `failed` of its `total` updates failed: success when none
/// failed, partial when some succeeded, failed otherwise.
pub open spec fn source_status(total: nat, failed: nat) -> Seq<char> {
    if failed == 0 {
        "success"@
    } else if total > failed {
        "partial"@
    } else {
        "failed"@
    }
}

/// The status of a source from its counts.
pub fn source_status_of(total: usize, failed: usize) -> (r: &'static str)
    ensures
        r@ == source_status(total as nat, failed as nat),
{
    if failed == 0 {
        "success"
    } else if total.saturating_sub(failed) > 0 {
        "partial"
    } else {
        "failed"
    }
}

/// The verdict of a run: failed when the system upgrade failed; partial when a source
/// failed or partly failed or any package failed; success otherwise.
pub open spec fn overall_of(repo: Seq<char>, aur: Seq<char>, flatpak: Seq<char>, any_failed: bool) -> Seq<char> {
    if repo == "failed"@ {
        "failed"@
    } else if aur == "failed"@ || aur == "partial"@ || flatpak == "failed"@ || flatpak
        == "partial"@ || any_failed {
        "partial"@
    } else {
        "success"@
    }
}

/// The message shown at the end of a run with the given verdict.
pub open spec fn final_message_of(overall: Seq<char>) -> Seq<char> {
    if overall == "success"@ {
        "All updates completed successfully."@
    } else if overall == "partial"@ {
        "Updates completed with some issues. Review failed items."@
    } else {
        "Update failed."@
    }
}

/// The message shown at the end of a run.
pub fn final_message(overall: &str) -> (r: &'static str)
    ensures
        r@ == final_message_of(overall@),
{
    let o = chars_of(overall);
    if crate::text::eq_str(o.as_slice(), "success") {
        "All updates completed successfully."
    } else if crate::text::eq_str(o.as_slice(), "partial") {
        "Updates completed with some issues. Review failed items."
    } else {
        "Update failed."
    }
}

/// The message that ends an update run whose system upgrade failed.
pub open spec fn abort_message() -> Seq<char> {
    "System update failed. Aborting AUR/Flatpak updates to prevent partial upgrade state."@
}

/// The fields of a failed package.
pub open spec fn failure_view(f: UpdateFailedPackage) -> (Seq<char>, Seq<char>, Seq<char>) {
    (f.name@, f.source@, f.reason@)
}

/// The fields of each failed package.
pub open spec fn failures_view(v: Seq<UpdateFailedPackage>) -> Seq<(Seq<char>, Seq<char>, Seq<char>)> {
    v.map_values(|f: UpdateFailedPackage| failure_view(f))
}

/// The texts of a list of strings.
pub open spec fn texts(v: Seq<String>) -> Seq<Seq<char>> {
    v.map_values(|s: String| s@)
}

fn failed_package(name: &str, source: &str, reason: &str) -> (r: UpdateFailedPackage)
    ensures
        failure_view(r) == (name@, source@, reason@),
{
    UpdateFailedPackage {
        name: String::from_str(name),
        source: String::from_str(source),
        reason: String::from_str(reason),
    }
}

fn join3(a: &str, b: &str, c: &str) -> (r: String)
    ensures
        r@ == a@ + b@ + c@,
{
    let x = crate::text::concat_str(chars_of(a).as_slice(), b);
    let y = crate::text::concat_str(x.as_slice(), c);
    string_of(y.as_slice())
}

impl UpdateRunSummary {
    /// A run that has done nothing yet: every source skipped.
    pub fn new() -> (r: Self)
        ensures
            r.repo@ == "skipped"@,
            r.aur@ == "skipped"@,
            r.flatpak@ == "skipped"@,
            r.succeeded_packages@.len() == 0,
            r.failed_packages@.len() == 0,
            r.warnings@.len() == 0,
            r.duration_ms == 0,
    {
        UpdateRunSummary {
            repo: String::from_str("skipped"),
            aur: String::from_str("skipped"),
            flatpak: String::from_str("skipped"),
            succeeded_packages: Vec::new(),
            failed_packages: Vec::new(),
            warnings: Vec::new(),
            duration_ms: 0,
        }
    }

    /// The system upgrade failed for `reason` (offline, the helper could not start, or it
    /// reported a failure): the repositories failed, with the system as the failed
    /// package.
    pub fn record_repo_failure(&mut self, reason: &str)
        ensures
            final(self).repo@ == "failed"@,
            final(self).aur == old(self).aur,
            final(self).flatpak == old(self).flatpak,
            final(self).succeeded_packages == old(self).succeeded_packages,
            failures_view(final(self).failed_packages@) == failures_view(
                old(self).failed_packages@,
            ).push(("system"@, "repo"@, reason@)),
            final(self).warnings == old(self).warnings,
            final(self).duration_ms == old(self).duration_ms,
    {
        self.repo = String::from_str("failed");
        let ghost before = failures_view(self.failed_packages@);
        self.failed_packages.push(failed_package("system", "repo", reason));
        assert(failures_view(self.failed_packages@) == before.push(("system"@, "repo"@, reason@)));
    }

    /// Closes the system-upgrade phase. When the upgrade reported a failure, the
    /// repositories failed with the abort message as the system's reason, and the message is
    /// returned: the AUR and Flatpak phases must not run. Otherwise the repositories
    /// succeeded and the run goes on (`None`).
    pub fn finish_system_upgrade(&mut self, failed: bool) -> (r: Option<String>)
        ensures
            r is Some <==> failed,
            r matches Some(m) ==> m@ == abort_message(),
            failed ==> final(self).repo@ == "failed"@ && failures_view(final(self).failed_packages@)
                == failures_view(old(self).failed_packages@).push(("system"@, "repo"@, abort_message())),
            !failed ==> final(self).repo@ == "success"@ && final(self).failed_packages
                == old(self).failed_packages,
            final(self).aur == old(self).aur,
            final(self).flatpak == old(self).flatpak,
            final(self).succeeded_packages == old(self).succeeded_packages,
            final(self).warnings == old(self).warnings,
            final(self).duration_ms == old(self).duration_ms,
    {
        if failed {
            let msg = "System update failed. Aborting AUR/Flatpak updates to prevent partial upgrade state.";
            self.record_repo_failure(msg);
            Some(String::from_str(msg))
        } else {
            self.record_repo_success();
            None
        }
    }

    /// The system upgrade succeeded.
    pub fn record_repo_success(&mut self)
        ensures
            final(self).repo@ == "success"@,
            final(self).aur == old(self).aur,
            final(self).flatpak == old(self).flatpak,
            final(self).succeeded_packages == old(self).succeeded_packages,
            final(self).failed_packages == old(self).failed_packages,
            final(self).warnings == old(self).warnings,
            final(self).duration_ms == old(self).duration_ms,
    {
        self.repo = String::from_str("success");
    }

    /// The AUR update check failed with `error`: a warning, a failed "aur-check" entry, and
    /// the AUR failed.
    pub fn record_aur_check_failure(&mut self, error: &str)
        ensures
            final(self).aur@ == "failed"@,
            final(self).repo == old(self).repo,
            final(self).flatpak == old(self).flatpak,
            final(self).succeeded_packages == old(self).succeeded_packages,
            failures_view(final(self).failed_packages@) == failures_view(
                old(self).failed_packages@,
            ).push(("aur-check"@, "aur"@, error@)),
            texts(final(self).warnings@) == texts(old(self).warnings@).push(
                "AUR update check failed: "@ + error@,
            ),
            final(self).duration_ms == old(self).duration_ms,
    {
        let ghost w0 = texts(self.warnings@);
        let ghost f0 = failures_view(self.failed_packages@);
        let w = crate::text::concat_str(chars_of("AUR update check failed: ").as_slice(), error);
        self.warnings.push(string_of(w.as_slice()));
        self.failed_packages.push(failed_package("aur-check", "aur", error));
        self.aur = String::from_str("failed");
        assert(texts(self.warnings@) == w0.push("AUR update check failed: "@ + error@));
        assert(failures_view(self.failed_packages@) == f0.push(("aur-check"@, "aur"@, error@)));
    }

    /// Building the AUR package `name` failed with `error`.
    pub fn record_aur_build_failure(&mut self, name: &str, error: &str)
        ensures
            final(self).repo == old(self).repo,
            final(self).aur == old(self).aur,
            final(self).flatpak == old(self).flatpak,
            final(self).succeeded_packages == old(self).succeeded_packages,
            failures_view(final(self).failed_packages@) == failures_view(
                old(self).failed_packages@,
            ).push((name@, "aur"@, error@)),
            texts(final(self).warnings@) == texts(old(self).warnings@).push(
                "AUR build failed: "@ + name@ + " ("@ + error@ + ")"@,
            ),
            final(self).duration_ms == old(self).duration_ms,
    {
        let ghost w0 = texts(self.warnings@);
        let ghost f0 = failures_view(self.failed_packages@);
        self.failed_packages.push(failed_package(name, "aur", error));
        let a = join3("AUR build failed: ", name, " (");
        let b = join3(a.as_str(), error, ")");
        self.warnings.push(b);
        assert(texts(self.warnings@) == w0.push("AUR build failed: "@ + name@ + " ("@ + error@ + ")"@));
        assert(failures_view(self.failed_packages@) == f0.push((name@, "aur"@, error@)));
    }

    /// Installing the built AUR packages `names` failed with `error`: each of them failed.
    pub fn record_aur_install_failure(&mut self, names: &Vec<String>, error: &str)
        ensures
            final(self).repo == old(self).repo,
            final(self).aur == old(self).aur,
            final(self).flatpak == old(self).flatpak,
            final(self).succeeded_packages == old(self).succeeded_packages,
            failures_view(final(self).failed_packages@) == failures_view(old(self).failed_packages@)
                + texts(names@).map_values(
                |n: Seq<char>| (n, "aur"@, "Install failed: "@ + error@),
            ),
            texts(final(self).warnings@) == texts(old(self).warnings@).push(
                "AUR install phase failed: "@ + error@,
            ),
            final(self).duration_ms == old(self).duration_ms,
    {
        let ghost f0 = failures_view(self.failed_packages@);
        let reason = crate::text::concat_str(chars_of("Install failed: ").as_slice(), error);
        let rs = string_of(reason.as_slice());
        let mut i: usize = 0;
        while i < names.len()
            invariant
                0 <= i <= names@.len(),
                rs@ == "Install failed: "@ + error@,
                failures_view(self.failed_packages@) == f0 + texts(names@.take(i as int)).map_values(
                    |n: Seq<char>| (n, "aur"@, "Install failed: "@ + error@),
                ),
                self.repo == old(self).repo,
                self.aur == old(self).aur,
                self.flatpak == old(self).flatpak,
                self.succeeded_packages == old(self).succeeded_packages,
                self.warnings == old(self).warnings,
                self.duration_ms == old(self).duration_ms,
            decreases names@.len() - i,
        {
            let ghost before = failures_view(self.failed_packages@);
            self.failed_packages.push(failed_package(names[i].as_str(), "aur", rs.as_str()));
            assert(failures_view(self.failed_packages@) == before.push(
                (names@[i as int]@, "aur"@, rs@),
            ));
            assert(texts(names@.take(i + 1)) == texts(names@.take(i as int)).push(names@[i as int]@));
            i += 1;
        }
        assert(names@.take(names@.len() as int) == names@);
        let ghost w0 = texts(self.warnings@);
        let w = crate::text::concat_str(chars_of("AUR install phase failed: ").as_slice(), error);
        self.warnings.push(string_of(w.as_slice()));
        assert(texts(self.warnings@) == w0.push("AUR install phase failed: "@ + error@));
    }

    /// Updating the Flatpak app `name` failed with `error`.
    pub fn record_flatpak_failure(&mut self, name: &str, error: &str)
        ensures
            final(self).repo == old(self).repo,
            final(self).aur == old(self).aur,
            final(self).flatpak == old(self).flatpak,
            final(self).succeeded_packages == old(self).succeeded_packages,
            failures_view(final(self).failed_packages@) == failures_view(
                old(self).failed_packages@,
            ).push((name@, "flatpak"@, error@)),
            texts(final(self).warnings@) == texts(old(self).warnings@).push(
                "Flatpak update failed: "@ + name@ + " ("@ + error@ + ")"@,
            ),
            final(self).duration_ms == old(self).duration_ms,
    {
        let ghost w0 = texts(self.warnings@);
        let ghost f0 = failures_view(self.failed_packages@);
        self.failed_packages.push(failed_package(name, "flatpak", error));
        let a = join3("Flatpak update failed: ", name, " (");
        let b = join3(a.as_str(), error, ")");
        self.warnings.push(b);
        assert(texts(self.warnings@) == w0.push("Flatpak update failed: "@ + name@ + " ("@ + error@ + ")"@));
        assert(failures_view(self.failed_packages@) == f0.push((name@, "flatpak"@, error@)));
    }

    /// The Flatpak update check failed with `error`: Flatpak failed.
    pub fn record_flatpak_check_failure(&mut self, error: &str)
        ensures
            final(self).flatpak@ == "failed"@,
            final(self).repo == old(self).repo,
            final(self).aur == old(self).aur,
            final(self).succeeded_packages == old(self).succeeded_packages,
            failures_view(final(self).failed_packages@) == failures_view(
                old(self).failed_packages@,
            ).push(("flatpak-check"@, "flatpak"@, error@)),
            texts(final(self).warnings@) == texts(old(self).warnings@).push(
                "Flatpak check failed: "@ + error@,
            ),
            final(self).duration_ms == old(self).duration_ms,
    {
        let ghost w0 = texts(self.warnings@);
        let ghost f0 = failures_view(self.failed_packages@);
        self.flatpak = String::from_str("failed");
        self.failed_packages.push(failed_package("flatpak-check", "flatpak", error));
        let w = crate::text::concat_str(chars_of("Flatpak check failed: ").as_slice(), error);
        self.warnings.push(string_of(w.as_slice()));
        assert(texts(self.warnings@) == w0.push("Flatpak check failed: "@ + error@));
        assert(failures_view(self.failed_packages@) == f0.push(("flatpak-check"@, "flatpak"@, error@)));
    }

    /// The verdict of the run.
    pub fn overall(&self) -> (r: &'static str)
        ensures
            r@ == overall_of(
                self.repo@,
                self.aur@,
                self.flatpak@,
                self.failed_packages@.len() > 0,
            ),
    {
        let repo = chars_of(self.repo.as_str());
        let aur = chars_of(self.aur.as_str());
        let flatpak = chars_of(self.flatpak.as_str());
        if crate::text::eq_str(repo.as_slice(), "failed") {
            "failed"
        } else if crate::text::eq_str(aur.as_slice(), "failed") || crate::text::eq_str(
            aur.as_slice(),
            "partial",
        ) || crate::text::eq_str(flatpak.as_slice(), "failed") || crate::text::eq_str(
            flatpak.as_slice(),
            "partial",
        ) || self.failed_packages.len() > 0 {
            "partial"
        } else {
            "success"
        }
    }
}

/// The three verdicts are different words.
proof fn lemma_status_words_distinct()
    ensures
        "failed"@ != "success"@,
        "failed"@ != "partial"@,
        "partial"@ != "success"@,
{
    reveal_strlit("failed");
    reveal_strlit("success");
    reveal_strlit("partial");
    assert("failed"@.len() != "success"@.len());
    assert("failed"@.len() != "partial"@.len());
    assert("partial"@[0] != "success"@[0]);
}

/// A run whose system upgrade failed has failed as a whole, whatever happened to the AUR
/// and Flatpak.
pub proof fn law_repo_failure_fails_run(aur: Seq<char>, flatpak: Seq<char>, any_failed: bool)
    ensures
        overall_of("failed"@, aur, flatpak, any_failed) == "failed"@,
        final_message_of(overall_of("failed"@, aur, flatpak, any_failed)) == "Update failed."@,
{
    lemma_status_words_distinct();
}

/// A run is a success only when no package failed.
pub proof fn law_success_means_no_failures(repo: Seq<char>, aur: Seq<char>, flatpak: Seq<char>, any_failed: bool)
    requires
        overall_of(repo, aur, flatpak, any_failed) == "success"@,
    ensures
        !any_failed,
        repo != "failed"@,
{
    lemma_status_words_distinct();
}

/// A source with a failure is never reported as a success, and a source with no failure
/// always is.
pub proof fn law_source_status(total: nat, failed: nat)
    ensures
        (source_status(total, failed) == "success"@) == (failed == 0),
{
    lemma_status_words_distinct();
}

// ---------------------------------------------------------------------------
// The stages of an update run
// ---------------------------------------------------------------------------

/// A stage of an update run: the connectivity check, the system upgrade, the AUR and the
/// Flatpak updates, and the end.
#[derive(Debug, Clone, Copy, PartialEq, Eq, Structural)]
pub enum UpdateStage {
    Connectivity,
    SystemUpgrade,
    Aur,
    Flatpak,
    Done,
}

/// What the runner reports of the stage it has just run.
#[derive(Debug, Clone)]
pub enum UpdateEvent {
    /// The connectivity check answered: whether the network is reachable.
    Connectivity(bool),
    /// The helper that runs the system upgrade could not be started, with its error.
    HelperUnavailable(String),
    /// The system upgrade ran: whether the helper reported a failure.
    SystemUpgraded(bool),
    /// The AUR updates ran; what they did is recorded in the summary.
    AurDone,
    /// The Flatpak updates ran; what they did is recorded in the summary.
    FlatpakDone,
}

/// An update run in progress: the stage to run next, which optional sources are included,
/// what has happened so far, and the message it ended with when it was cut short.
#[derive(Debug, Clone)]
pub struct UpdateRun {
    pub stage: UpdateStage,
    pub include_aur: bool,
    pub include_flatpak: bool,
    pub summary: UpdateRunSummary,
    pub abort_reason: Option<String>,
}

/// The message of a run cut short because the network was not reachable.
pub open spec fn offline_message() -> Seq<char> {
    "OFFLINE: Cannot perform update without internet connectivity."@
}

/// The stage after a successful system upgrade: the AUR when included, else Flatpak when
/// included, else the end.
pub open spec fn stage_after_repo(include_aur: bool, include_flatpak: bool) -> UpdateStage {
    if include_aur {
        UpdateStage::Aur
    } else if include_flatpak {
        UpdateStage::Flatpak
    } else {
        UpdateStage::Done
    }
}

/// The stage that follows `stage` on `event`. A report that does not belong to the stage
/// leaves it where it is.
pub open spec fn next_stage(stage: UpdateStage, event: UpdateEvent, include_aur: bool, include_flatpak: bool) -> UpdateStage {
    match (stage, event) {
        (UpdateStage::Connectivity, UpdateEvent::Connectivity(online)) => if online {
            UpdateStage::SystemUpgrade
        } else {
            UpdateStage::Done
        },
        (UpdateStage::SystemUpgrade, UpdateEvent::HelperUnavailable(_)) => UpdateStage::Done,
        (UpdateStage::SystemUpgrade, UpdateEvent::SystemUpgraded(failed)) => if failed {
            UpdateStage::Done
        } else {
            stage_after_repo(include_aur, include_flatpak)
        },
        (UpdateStage::Aur, UpdateEvent::AurDone) => if include_flatpak {
            UpdateStage::Flatpak
        } else {
            UpdateStage::Done
        },
        (UpdateStage::Flatpak, UpdateEvent::FlatpakDone) => UpdateStage::Done,
        _ => stage,
    }
}

/// The reason the run is cut short by `event` at `stage`, if it is: offline, the helper's
/// error, or a failed system upgrade.
pub open spec fn abort_reason_of(stage: UpdateStage, event: UpdateEvent) -> Option<Seq<char>> {
    match (stage, event) {
        (UpdateStage::Connectivity, UpdateEvent::Connectivity(online)) => if online {
            None
        } else {
            Some(offline_message())
        },
        (UpdateStage::SystemUpgrade, UpdateEvent::HelperUnavailable(e)) => Some(e@),
        (UpdateStage::SystemUpgrade, UpdateEvent::SystemUpgraded(failed)) => if failed {
            Some(abort_message())
        } else {
            None
        },
        _ => None,
    }
}

/// What a summary says, by value.
pub open spec fn summary_view(s: UpdateRunSummary) -> (
    Seq<char>,
    Seq<char>,
    Seq<char>,
    Seq<Seq<char>>,
    Seq<(Seq<char>, Seq<char>, Seq<char>)>,
    Seq<Seq<char>>,
    u64,
) {
    (s.repo@, s.aur@, s.flatpak@, texts(s.succeeded_packages@), failures_view(s.failed_packages@), texts(s.warnings@), s.duration_ms)
}

/// The summary after `event` at `stage`: a run cut short has failed its repositories,
/// with the system failed for the reason; a successful system upgrade marks the
/// repositories a success; other reports leave it as it is.
pub open spec fn summary_after(
    v: (Seq<char>, Seq<char>, Seq<char>, Seq<Seq<char>>, Seq<(Seq<char>, Seq<char>, Seq<char>)>, Seq<Seq<char>>, u64),
    stage: UpdateStage,
    event: UpdateEvent,
) -> (Seq<char>, Seq<char>, Seq<char>, Seq<Seq<char>>, Seq<(Seq<char>, Seq<char>, Seq<char>)>, Seq<Seq<char>>, u64) {
    match abort_reason_of(stage, event) {
        Some(reason) => ("failed"@, v.1, v.2, v.3, v.4.push(("system"@, "repo"@, reason)), v.5, v.6),
        None => if stage == UpdateStage::SystemUpgrade && event matches UpdateEvent::SystemUpgraded(_) {
            ("success"@, v.1, v.2, v.3, v.4, v.5, v.6)
        } else {
            v
        },
    }
}

impl UpdateRun {
    /// A run about to check connectivity, with nothing done yet.
    pub fn new(include_aur: bool, include_flatpak: bool) -> (r: Self)
        ensures
            r.stage == UpdateStage::Connectivity,
            r.include_aur == include_aur,
            r.include_flatpak == include_flatpak,
            summary_view(r.summary) == ("skipped"@, "skipped"@, "skipped"@, Seq::<Seq<char>>::empty(),
                Seq::<(Seq<char>, Seq<char>, Seq<char>)>::empty(), Seq::<Seq<char>>::empty(), 0u64),
            r.abort_reason is None,
    {
        let summary = UpdateRunSummary::new();
        proof {
            assert(texts(summary.succeeded_packages@) =~= Seq::<Seq<char>>::empty());
            assert(texts(summary.warnings@) =~= Seq::<Seq<char>>::empty());
            assert(failures_view(summary.failed_packages@) =~= Seq::<(Seq<char>, Seq<char>, Seq<char>)>::empty());
        }
        UpdateRun { stage: UpdateStage::Connectivity, include_aur, include_flatpak, summary, abort_reason: None }
    }

    /// Takes the report of the stage just run, records what it means in the summary and
    /// gives the stage to run next. A run whose network is unreachable, whose helper
    /// cannot start or whose system upgrade fails ends there, with the reason; AUR and
    /// Flatpak run only after a successful system upgrade, and only when included.
    pub fn advance(&mut self, event: UpdateEvent) -> (r: UpdateStage)
        ensures
            r == final(self).stage,
            final(self).stage == next_stage(old(self).stage, event, old(self).include_aur, old(self).include_flatpak),
            final(self).include_aur == old(self).include_aur,
            final(self).include_flatpak == old(self).include_flatpak,
            summary_view(final(self).summary) == summary_after(summary_view(old(self).summary), old(self).stage, event),
            match abort_reason_of(old(self).stage, event) {
                Some(reason) => final(self).abort_reason matches Some(m) && m@ == reason,
                None => final(self).abort_reason == old(self).abort_reason,
            },
    {
        let ghost v0 = summary_view(self.summary);
        match (self.stage, &event) {
            (UpdateStage::Connectivity, UpdateEvent::Connectivity(online)) => {
                if *online {
                    self.stage = UpdateStage::SystemUpgrade;
                } else {
                    let msg = "OFFLINE: Cannot perform update without internet connectivity.";
                    self.summary.record_repo_failure(msg);
                    self.abort_reason = Some(String::from_str(msg));
                    self.stage = UpdateStage::Done;
                }
            },
            (UpdateStage::SystemUpgrade, UpdateEvent::HelperUnavailable(e)) => {
                self.summary.record_repo_failure(e.as_str());
                self.abort_reason = Some(e.clone());
                self.stage = UpdateStage::Done;
            },
            (UpdateStage::SystemUpgrade, UpdateEvent::SystemUpgraded(failed)) => {
                match self.summary.finish_system_upgrade(*failed) {
                    Some(m) => {
                        self.abort_reason = Some(m);
                        self.stage = UpdateStage::Done;
                    },
                    None => {
                        self.stage = if self.include_aur {
                            UpdateStage::Aur
                        } else if self.include_flatpak {
                            UpdateStage::Flatpak
                        } else {
                            UpdateStage::Done
                        };
                    },
                }
            },
            (UpdateStage::Aur, UpdateEvent::AurDone) => {
                self.stage = if self.include_flatpak {
                    UpdateStage::Flatpak
                } else {
                    UpdateStage::Done
                };
            },
            (UpdateStage::Flatpak, UpdateEvent::FlatpakDone) => {
                self.stage = UpdateStage::Done;
            },
            _ => {},
        }
        self.stage
    }

    /// The message the run ends with: the reason it was cut short, else the message of its
    /// verdict.
    pub fn closing_message(&self) -> (r: String)
        ensures
            match self.abort_reason {
                Some(m) => r@ == m@,
                None => r@ == final_message_of(
                    overall_of(self.summary.repo@, self.summary.aur@, self.summary.flatpak@, self.summary.failed_packages@.len() > 0),
                ),
            },
    {
        match &self.abort_reason {
            Some(m) => m.clone(),
            None => String::from_str(final_message(self.summary.overall())),
        }
    }
}

/// AUR and Flatpak updates run only after a successful system upgrade, and each only when
/// it is included: a step never leads to a source that is left out, and the AUR is
/// entered only from a system upgrade that did not fail.
pub proof fn law_excluded_sources_never_run(stage: UpdateStage, event: UpdateEvent, include_aur: bool, include_flatpak: bool)
    ensures
        next_stage(stage, event, include_aur, include_flatpak) == UpdateStage::Aur && stage != UpdateStage::Aur
            ==> include_aur && stage == UpdateStage::SystemUpgrade && event == UpdateEvent::SystemUpgraded(false),
        next_stage(stage, event, include_aur, include_flatpak) == UpdateStage::Flatpak && stage != UpdateStage::Flatpak
            ==> include_flatpak && (stage == UpdateStage::Aur || (stage == UpdateStage::SystemUpgrade
                && event == UpdateEvent::SystemUpgraded(false))),
{
}

/// A run that is cut short ends at once, and its verdict is failed: no AUR or Flatpak
/// update follows an unreachable network, a helper that cannot start or a failed system
/// upgrade.
pub proof fn law_cut_short_run_ends_failed(
    v: (Seq<char>, Seq<char>, Seq<char>, Seq<Seq<char>>, Seq<(Seq<char>, Seq<char>, Seq<char>)>, Seq<Seq<char>>, u64),
    stage: UpdateStage,
    event: UpdateEvent,
    include_aur: bool,
    include_flatpak: bool,
)
    requires
        abort_reason_of(stage, event) is Some,
    ensures
        next_stage(stage, event, include_aur, include_flatpak) == UpdateStage::Done,
        ({
            let w = summary_after(v, stage, event);
            overall_of(w.0, w.1, w.2, w.4.len() > 0) == "failed"@
        }),
{
}

// ---------------------------------------------------------------------------
// Selected updates
// ---------------------------------------------------------------------------

/// One available update: the package (for Flatpak, its application id), the installed and
/// the new version, the source it comes from, the download size where known, and what the
/// catalogue adds for display.
#[derive(Debug, Clone)]
pub struct UpdateItem {
    pub name: String,
    pub current_version: String,
    pub new_version: String,
    pub source: crate::models::PackageSource,
    pub size: Option<u64>,
    pub icon: Option<String>,
    pub display_name: Option<String>,
}

/// The selected updates grouped by source, shown before they are applied.
#[derive(Debug, Clone)]
pub struct UpdateManifest {
    pub total: usize,
    pub repo_count: usize,
    pub aur_count: usize,
    pub flatpak_count: usize,
    pub repo_packages: Vec<String>,
    pub aur_packages: Vec<String>,
    pub flatpak_packages: Vec<String>,
}

/// The names of the selected updates of source kind `kind`, in order.
pub open spec fn names_of_kind(items: Seq<UpdateItem>, kind: Seq<char>) -> Seq<Seq<char>>
    decreases items.len(),
{
    if items.len() == 0 {
        Seq::empty()
    } else {
        let prev = names_of_kind(items.drop_last(), kind);
        if items.last().source.source_type@ == kind {
            prev.push(items.last().name@)
        } else {
            prev
        }
    }
}

/// The three source kinds are different words.
proof fn lemma_kinds_distinct()
    ensures
        "repo"@ != "aur"@,
        "repo"@ != "flatpak"@,
        "aur"@ != "flatpak"@,
{
    reveal_strlit("repo");
    reveal_strlit("aur");
    reveal_strlit("flatpak");
    assert("repo"@.len() != "aur"@.len());
    assert("repo"@.len() != "flatpak"@.len());
    assert("aur"@.len() != "flatpak"@.len());
}

/// The manifest of the selected updates.
pub fn update_manifest(targets: &Vec<UpdateItem>) -> (r: UpdateManifest)
    ensures
        r.total == targets@.len(),
        texts(r.repo_packages@) == names_of_kind(targets@, "repo"@),
        texts(r.aur_packages@) == names_of_kind(targets@, "aur"@),
        texts(r.flatpak_packages@) == names_of_kind(targets@, "flatpak"@),
        r.repo_count == r.repo_packages@.len(),
        r.aur_count == r.aur_packages@.len(),
        r.flatpak_count == r.flatpak_packages@.len(),
{
    let mut repo: Vec<String> = Vec::new();
    let mut aur: Vec<String> = Vec::new();
    let mut flatpak: Vec<String> = Vec::new();
    let mut i: usize = 0;
    while i < targets.len()
        invariant
            0 <= i <= targets@.len(),
            texts(repo@) == names_of_kind(targets@.take(i as int), "repo"@),
            texts(aur@) == names_of_kind(targets@.take(i as int), "aur"@),
            texts(flatpak@) == names_of_kind(targets@.take(i as int), "flatpak"@),
            repo@.len() <= i,
            aur@.len() <= i,
            flatpak@.len() <= i,
        decreases targets@.len() - i,
    {
        let t = &targets[i];
        proof {
            lemma_kinds_distinct();
        }
        assert(targets@.take(i + 1).drop_last() == targets@.take(i as int));
        assert(targets@.take(i + 1).last() == targets@[i as int]);
        let k = chars_of(t.source.source_type.as_str());
        let n = string_of(chars_of(t.name.as_str()).as_slice());
        if crate::text::eq_str(k.as_slice(), "repo") {
            let ghost b = texts(repo@);
            repo.push(n);
            assert(texts(repo@) == b.push(t.name@));
        } else if crate::text::eq_str(k.as_slice(), "aur") {
            let ghost b = texts(aur@);
            aur.push(n);
            assert(texts(aur@) == b.push(t.name@));
        } else if crate::text::eq_str(k.as_slice(), "flatpak") {
            let ghost b = texts(flatpak@);
            flatpak.push(n);
            assert(texts(flatpak@) == b.push(t.name@));
        }
        i += 1;
    }
    assert(targets@.take(targets@.len() as int) == targets@);
    UpdateManifest {
        total: targets.len(),
        repo_count: repo.len(),
        aur_count: aur.len(),
        flatpak_count: flatpak.len(),
        repo_packages: repo,
        aur_packages: aur,
        flatpak_packages: flatpak,
    }
}

/// Selecting any repository package forces a full system upgrade: pacman cannot upgrade
/// official packages one by one.
pub fn requires_system_upgrade(targets: &Vec<UpdateItem>) -> (r: bool)
    ensures
        r == (exists|k: int| 0 <= k < targets@.len() && (#[trigger] targets@[k]).source.source_type@ == "repo"@),
{
    let mut i: usize = 0;
    while i < targets.len()
        invariant
            0 <= i <= targets@.len(),
            forall|k: int| 0 <= k < i ==> (#[trigger] targets@[k]).source.source_type@ != "repo"@,
        decreases targets@.len() - i,
    {
        if crate::text::eq_str(chars_of(targets[i].source.source_type.as_str()).as_slice(), "repo") {
            return true;
        }
        i += 1;
    }
    false
}


/// The reply to a request that selects no update: "No updates selected"; `None` when
/// some update is selected and the request goes on.
pub fn empty_selection_reply(targets: &Vec<UpdateItem>) -> (r: Option<String>)
    ensures
        r is Some <==> targets@.len() == 0,
        r matches Some(m) ==> m@ == "No updates selected"@,
{
    if targets.len() == 0 {
        Some(String::from_str("No updates selected"))
    } else {
        None
    }
}

} // verus!
