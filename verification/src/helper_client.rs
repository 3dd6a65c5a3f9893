//! The privileged helper: the commands sent to it, the spacing of its invocations, the
//! check of the command file, the choice of the helper binary and of the way it is run,
//! and the progress read back from it.
use vstd::prelude::*;
use crate::alpm_progress::AlpmProgressEvent;
use crate::text::{chars_of, eq, string_of, trim};

verus! {

/// A batch of work for one helper transaction.
#[derive(Debug, Clone)]
pub struct TransactionManifest {
    pub update_system: bool,
    pub refresh_db: bool,
    pub remove_orphans: bool,
    pub clear_cache: bool,
    pub install_targets: Vec<String>,
    pub cpu_optimization: Option<String>,
    pub target_repo: Option<String>,
    pub parallel_downloads: Option<u32>,
}

/// A command for the privileged helper.
#[derive(Debug, Clone)]
pub enum HelperCommand {
    AlpmInstall {
        packages: Vec<String>,
        sync_first: bool,
        enabled_repos: Vec<String>,
        cpu_optimization: Option<String>,
        target_repo: Option<String>,
    },
    CheckUpdatesSafe { enabled_repos: Vec<String> },
    AlpmUninstall { packages: Vec<String>, remove_deps: bool },
    AlpmUpgrade { packages: Option<Vec<String>>, enabled_repos: Vec<String> },
    AlpmSync { enabled_repos: Vec<String> },
    AlpmInstallFiles { paths: Vec<String> },
    ExecuteBatch { manifest: TransactionManifest },
}

/// A progress report from the helper.
#[derive(Debug, Clone)]
pub struct ProgressMessage {
    pub progress: u8,
    pub message: String,
}

impl TransactionManifest {
    /// An empty manifest: nothing to do.
    pub fn empty() -> (r: Self)
        ensures
            !r.update_system && !r.refresh_db && !r.remove_orphans && !r.clear_cache,
            r.install_targets@.len() == 0,
            r.cpu_optimization is None,
            r.target_repo is None,
            r.parallel_downloads is None,
    {
        TransactionManifest {
            update_system: false,
            refresh_db: false,
            remove_orphans: false,
            clear_cache: false,
            install_targets: Vec::new(),
            cpu_optimization: None,
            target_repo: None,
            parallel_downloads: None,
        }
    }

    /// The manifest of a full system upgrade: refresh the databases and upgrade
    /// everything, with the given number of parallel downloads.
    pub fn system_upgrade(parallel_downloads: Option<u32>) -> (r: Self)
        ensures
            r.update_system && r.refresh_db && !r.remove_orphans && !r.clear_cache,
            r.install_targets@.len() == 0,
            r.cpu_optimization is None,
            r.target_repo is None,
            r.parallel_downloads == parallel_downloads,
    {
        TransactionManifest {
            update_system: true,
            refresh_db: true,
            remove_orphans: false,
            clear_cache: false,
            install_targets: Vec::new(),
            cpu_optimization: None,
            target_repo: None,
            parallel_downloads,
        }
    }
}

// ---------------------------------------------------------------------------
// Spacing of invocations
// ---------------------------------------------------------------------------

/// The least time between two helper invocations, in milliseconds.
pub const HELPER_DEBOUNCE_MS: u64 = 800;

/// When the helper is invoked at `now` (milliseconds on a monotonic clock) after a
/// previous invocation at `last`: how long to wait first (none when the previous one is
/// at least the debounce interval ago, or there was none), and the time recorded as the
/// last invocation when there is no wait.
pub open spec fn debounce(last: Option<u64>, now: u64) -> (Option<u64>, Option<u64>) {
    match last {
        Some(prev) => {
            let elapsed: int = if now >= prev {
                now - prev
            } else {
                0
            };
            if elapsed < HELPER_DEBOUNCE_MS {
                (Some((HELPER_DEBOUNCE_MS - elapsed) as u64), last)
            } else {
                (None, Some(now))
            }
        },
        None => (None, Some(now)),
    }
}

/// How long to wait before invoking the helper, and the invocation time to record.
pub fn debounce_wait(last: Option<u64>, now: u64) -> (r: (Option<u64>, Option<u64>))
    ensures
        r == debounce(last, now),
{
    match last {
        Some(prev) => {
            let elapsed: u64 = if now >= prev {
                now - prev
            } else {
                0
            };
            if elapsed < HELPER_DEBOUNCE_MS {
                (Some(HELPER_DEBOUNCE_MS - elapsed), last)
            } else {
                (None, Some(now))
            }
        },
        None => (None, Some(now)),
    }
}

/// Two invocations are never started closer than the debounce interval: when one was
/// recorded at `t`, an invocation at `now` waits until `t` plus the interval.
pub proof fn law_debounce_spacing(t: u64, now: u64)
    requires
        t <= now,
    ensures
        match debounce(Some(t), now).0 {
            Some(w) => now + w == t + HELPER_DEBOUNCE_MS,
            None => now >= t + HELPER_DEBOUNCE_MS,
        },
{
}

// ---------------------------------------------------------------------------
// The command file
// ---------------------------------------------------------------------------

/// Why a written command file is refused: it is empty once trimmed, or it does not hold
/// the command that was written.
pub open spec fn command_file_problem(contents: Seq<char>, json: Seq<char>) -> Option<Seq<char>> {
    if trim(contents).len() == 0 {
        Some("Command file was empty after write"@)
    } else if trim(contents) != trim(json) {
        Some("Command file content mismatch"@)
    } else {
        None
    }
}

/// Checks the command file read back after writing `json`.
pub fn check_command_file(contents: &str, json: &str) -> (r: Result<(), String>)
    ensures
        match command_file_problem(contents@, json@) {
            Some(m) => r matches Err(e) && e@ == m,
            None => r is Ok,
        },
{
    let c = crate::text::trim_chars(chars_of(contents).as_slice());
    if c.len() == 0 {
        return Err(String::from_str("Command file was empty after write"));
    }
    let j = crate::text::trim_chars(chars_of(json).as_slice());
    if !eq(c.as_slice(), j.as_slice()) {
        return Err(String::from_str("Command file content mismatch"));
    }
    Ok(())
}

// ---------------------------------------------------------------------------
// The helper binary and how it is run
// ---------------------------------------------------------------------------

/// The helper binary to run: the installed one when it exists; in a debug build the
/// development helper, which must exist; otherwise the development helper when there is
/// one, else the installed path. `None` when a debug build finds no helper at all.
pub open spec fn helper_choice(
    installed: Seq<char>,
    installed_exists: bool,
    debug_build: bool,
    dev_helper: Option<Seq<char>>,
) -> Option<Seq<char>> {
    if installed_exists {
        Some(installed)
    } else if debug_build {
        dev_helper
    } else {
        match dev_helper {
            Some(d) => Some(d),
            None => Some(installed),
        }
    }
}

/// The helper binary to run, if one can be run.
pub fn select_helper(installed: &str, installed_exists: bool, debug_build: bool, dev_helper: Option<String>) -> (r: Option<String>)
    ensures
        match r {
            Some(s) => helper_choice(
                installed@,
                installed_exists,
                debug_build,
                match dev_helper {
                    Some(d) => Some(d@),
                    None => None,
                },
            ) == Some(s@),
            None => helper_choice(
                installed@,
                installed_exists,
                debug_build,
                match dev_helper {
                    Some(d) => Some(d@),
                    None => None,
                },
            ) is None,
        },
{
    if installed_exists {
        Some(String::from_str(installed))
    } else if debug_build {
        dev_helper
    } else {
        match dev_helper {
            Some(d) => Some(d),
            None => Some(String::from_str(installed)),
        }
    }
}

/// The program and arguments that run the helper on a command file: with a password,
/// `sudo -E -S <helper> <file>` (the password goes on standard input); without one,
/// `pkexec --disable-internal-agent <helper> <file>` so that the polkit policy applies.
pub open spec fn helper_invocation(use_password: bool, helper: Seq<char>, file: Seq<char>) -> (Seq<char>, Seq<Seq<char>>) {
    if use_password {
        ("sudo"@, seq!["-E"@, "-S"@, helper, file])
    } else {
        ("pkexec"@, seq!["--disable-internal-agent"@, helper, file])
    }
}

/// The program and arguments that run the helper.
pub fn helper_command_line(use_password: bool, helper: &str, file: &str) -> (r: (String, Vec<String>))
    ensures
        (r.0@, crate::text::string_views(r.1@)) == helper_invocation(use_password, helper@, file@),
{
    let mut args: Vec<String> = Vec::new();
    let prog = if use_password {
        args.push(String::from_str("-E"));
        args.push(String::from_str("-S"));
        String::from_str("sudo")
    } else {
        args.push(String::from_str("--disable-internal-agent"));
        String::from_str("pkexec")
    };
    args.push(String::from_str(helper));
    args.push(String::from_str(file));
    assert(crate::text::string_views(args@) =~= helper_invocation(use_password, helper@, file@).1);
    (prog, args)
}

/// How the helper is authenticated, as shown in the log.
pub fn auth_label(use_password: bool) -> (r: &'static str)
    ensures
        r@ == (if use_password {
            "sudo (password on stdin)"@
        } else {
            "pkexec (Polkit)"@
        }),
{
    if use_password {
        "sudo (password on stdin)"
    } else {
        "pkexec (Polkit)"
    }
}

// ---------------------------------------------------------------------------
// Progress read back
// ---------------------------------------------------------------------------

/// The progress message that stands for a structured ALPM event: its percentage (0 when
/// it has none) and its message.
pub fn progress_from_event(event: &AlpmProgressEvent) -> (r: ProgressMessage)
    ensures
        r.progress == (match event.percent {
            Some(p) => p,
            None => 0,
        }),
        r.message@ == event.message@,
{
    ProgressMessage {
        progress: match event.percent {
            Some(p) => p,
            None => 0,
        },
        message: string_of(chars_of(event.message.as_str()).as_slice()),
    }
}

/// A helper output line that may hold a JSON progress record: it starts with `{`.
pub fn is_structured_line(line: &str) -> (r: bool)
    ensures
        r == (line@.len() > 0 && line@[0] == '{'),
{
    let c = chars_of(line);
    c.len() > 0 && c[0] == '{'
}

} // verus!
