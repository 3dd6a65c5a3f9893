//! Classification of pacman error output into structured errors with a recovery action.
use vstd::prelude::*;
use crate::text::{contains, contains_str, lower_chars, lowercase};

verus! {

/// Classified error types that the UI can act upon.
#[derive(Debug, Clone, Copy, PartialEq, Eq, Structural)]
pub enum PacmanErrorKind {
    /// Database is locked by another process
    DatabaseLocked,
    /// PGP signature verification failed
    KeyringError,
    /// Package not found in any repository
    PackageNotFound,
    /// Mirror/network issues
    MirrorFailure,
    /// Disk space insufficient
    DiskFull,
    /// Dependency conflict
    DependencyConflict,
    /// File conflict with existing package
    FileConflict,
    /// Corrupted package download
    CorruptedPackage,
    /// Permission denied
    PermissionDenied,
    /// Generic/unknown error
    Unknown,
}

/// Actions that can be taken to recover from an error.
#[derive(Debug, Clone)]
pub enum RecoveryAction {
    /// Remove the database lock file
    UnlockDatabase,
    /// Reset and repopulate the keyring
    RepairKeyring,
    /// Refresh mirrors with reflector or manual intervention
    RefreshMirrors,
    /// Force refresh sync databases
    ForceRefreshDb,
    /// Free up disk space
    CleanCache,
    /// Retry the operation
    Retry,
    /// Show manual resolution steps
    ShowManualSteps(String),
}

/// A recovery action with its text as a character sequence.
pub enum RecoveryActionView {
    UnlockDatabase,
    RepairKeyring,
    RefreshMirrors,
    ForceRefreshDb,
    CleanCache,
    Retry,
    ShowManualSteps(Seq<char>),
}

impl View for RecoveryAction {
    type V = RecoveryActionView;

    open spec fn view(&self) -> RecoveryActionView {
        match self {
            RecoveryAction::UnlockDatabase => RecoveryActionView::UnlockDatabase,
            RecoveryAction::RepairKeyring => RecoveryActionView::RepairKeyring,
            RecoveryAction::RefreshMirrors => RecoveryActionView::RefreshMirrors,
            RecoveryAction::ForceRefreshDb => RecoveryActionView::ForceRefreshDb,
            RecoveryAction::CleanCache => RecoveryActionView::CleanCache,
            RecoveryAction::Retry => RecoveryActionView::Retry,
            RecoveryAction::ShowManualSteps(s) => RecoveryActionView::ShowManualSteps(s@),
        }
    }
}

/// Structured error with classification and suggested action.
#[derive(Debug, Clone)]
pub struct ClassifiedError {
    pub kind: PacmanErrorKind,
    pub title: String,
    pub description: String,
    pub recovery_action: Option<RecoveryAction>,
    pub raw_message: String,
}

/// The kind of error that lower-cased pacman output reports, checked in priority order;
/// `None` when the output matches no known pattern.
pub open spec fn error_kind_of(lower: Seq<char>) -> Option<PacmanErrorKind> {
    if contains(lower, "database is locked"@) || contains(lower, "unable to lock database"@)
        || contains(lower, "db.lck"@) {
        Some(PacmanErrorKind::DatabaseLocked)
    } else if contains(lower, "gpgme error"@) || contains(lower, "pgp signature"@) || contains(
        lower,
        "invalid or corrupted package"@,
    ) || contains(lower, "key could not be looked up"@) || contains(lower, "unknown public key"@)
        || contains(lower, "signature from"@) || contains(lower, "trust database"@) {
        Some(PacmanErrorKind::KeyringError)
    } else if contains(lower, "target not found"@) || contains(lower, "no results found"@)
        || contains(lower, "package not found"@) {
        Some(PacmanErrorKind::PackageNotFound)
    } else if contains(lower, "failed retrieving file"@) || contains(
        lower,
        "failed to synchronize"@,
    ) || contains(lower, "could not resolve host"@) || contains(lower, "connection timed out"@)
        || contains(lower, "error downloading"@) || contains(lower, "404"@) {
        Some(PacmanErrorKind::MirrorFailure)
    } else if contains(lower, "no space left on device"@) || contains(
        lower,
        "not enough free disk space"@,
    ) {
        Some(PacmanErrorKind::DiskFull)
    } else if contains(lower, "conflicting dependencies"@) || contains(lower, "breaks dependency"@)
        || contains(lower, "satisfies dependency"@) || contains(
        lower,
        "unresolvable package conflicts"@,
    ) {
        Some(PacmanErrorKind::DependencyConflict)
    } else if contains(lower, "exists in filesystem"@) || contains(lower, "file conflict"@) {
        Some(PacmanErrorKind::FileConflict)
    } else if contains(lower, "corrupted package"@) || contains(lower, "failed integrity"@) {
        Some(PacmanErrorKind::CorruptedPackage)
    } else if contains(lower, "permission denied"@) || contains(lower, "operation not permitted"@) {
        Some(PacmanErrorKind::PermissionDenied)
    } else {
        None
    }
}

/// The title shown for a kind of error.
pub open spec fn title_of(kind: PacmanErrorKind) -> Seq<char> {
    match kind {
        PacmanErrorKind::DatabaseLocked => "Database Locked"@,
        PacmanErrorKind::KeyringError => "Security Key Issue"@,
        PacmanErrorKind::PackageNotFound => "Package Not Found"@,
        PacmanErrorKind::MirrorFailure => "Download Failed"@,
        PacmanErrorKind::DiskFull => "Disk Full"@,
        PacmanErrorKind::DependencyConflict => "Dependency Conflict"@,
        PacmanErrorKind::FileConflict => "File Conflict"@,
        PacmanErrorKind::CorruptedPackage => "Corrupted Download"@,
        PacmanErrorKind::PermissionDenied => "Permission Denied"@,
        PacmanErrorKind::Unknown => Seq::empty(),
    }
}

/// The explanation shown for a kind of error.
pub open spec fn description_of(kind: PacmanErrorKind) -> Seq<char> {
    match kind {
        PacmanErrorKind::DatabaseLocked =>
            "Another package manager is running or a previous operation was interrupted."@,
        PacmanErrorKind::KeyringError =>
            "Package signatures could not be verified. Your keyring may need to be refreshed."@,
        PacmanErrorKind::PackageNotFound =>
            "The package could not be found. It may have been renamed, removed, or your repositories need syncing."@,
        PacmanErrorKind::MirrorFailure =>
            "Could not download packages from mirrors. Check your internet connection or try refreshing your mirror list."@,
        PacmanErrorKind::DiskFull =>
            "Not enough disk space to complete the operation. Try clearing the package cache."@,
        PacmanErrorKind::DependencyConflict =>
            "Package dependencies conflict with installed packages. Manual intervention may be required."@,
        PacmanErrorKind::FileConflict =>
            "A file already exists on your system that would be overwritten. This usually happens when files were installed outside of pacman."@,
        PacmanErrorKind::CorruptedPackage =>
            "A downloaded package was corrupted. This usually resolves by retrying."@,
        PacmanErrorKind::PermissionDenied => "The operation requires administrator privileges."@,
        PacmanErrorKind::Unknown => Seq::empty(),
    }
}

/// The recovery action suggested for a kind of error.
pub open spec fn recovery_of(kind: PacmanErrorKind) -> RecoveryActionView {
    match kind {
        PacmanErrorKind::DatabaseLocked => RecoveryActionView::UnlockDatabase,
        PacmanErrorKind::KeyringError => RecoveryActionView::RepairKeyring,
        PacmanErrorKind::PackageNotFound => RecoveryActionView::ForceRefreshDb,
        PacmanErrorKind::MirrorFailure => RecoveryActionView::RefreshMirrors,
        PacmanErrorKind::DiskFull => RecoveryActionView::CleanCache,
        PacmanErrorKind::DependencyConflict => RecoveryActionView::ShowManualSteps(
            "Review the conflicting packages and decide which to keep. You may need to remove one before installing the other."@,
        ),
        PacmanErrorKind::FileConflict => RecoveryActionView::ShowManualSteps(
            "You can either: 1) Remove the conflicting file manually, or 2) Use --overwrite flag (advanced users only)."@,
        ),
        PacmanErrorKind::CorruptedPackage => RecoveryActionView::Retry,
        PacmanErrorKind::PermissionDenied => RecoveryActionView::Retry,
        PacmanErrorKind::Unknown => RecoveryActionView::Retry,
    }
}

/// `e` is the structured error of kind `kind` for the raw output `raw`.
pub open spec fn describes(e: ClassifiedError, kind: PacmanErrorKind, raw: Seq<char>) -> bool {
    &&& e.kind == kind
    &&& e.title@ == title_of(kind)
    &&& e.description@ == description_of(kind)
    &&& e.recovery_action matches Some(a) && a@ == recovery_of(kind)
    &&& e.raw_message@ == raw
}

/// The kinds that can be recovered from without user intervention.
pub open spec fn auto_recoverable_kind(kind: PacmanErrorKind) -> bool {
    kind == PacmanErrorKind::DatabaseLocked || kind == PacmanErrorKind::KeyringError || kind
        == PacmanErrorKind::CorruptedPackage
}

fn make(kind: PacmanErrorKind, title: &str, description: &str, action: RecoveryAction, raw: &str) -> (e: ClassifiedError)
    ensures
        e.kind == kind,
        e.title@ == title@,
        e.description@ == description@,
        e.recovery_action == Some(action),
        e.raw_message@ == raw@,
{
    ClassifiedError {
        kind,
        title: String::from_str(title),
        description: String::from_str(description),
        recovery_action: Some(action),
        raw_message: String::from_str(raw),
    }
}

impl ClassifiedError {
    /// Classifies output whose lower-cased form is `lower`; `raw` is kept as the message.
    pub fn classify_lowercased(lower: &[char], raw: &str) -> (r: Option<ClassifiedError>)
        ensures
            match error_kind_of(lower@) {
                Some(kind) => r matches Some(e) && describes(e, kind, raw@),
                None => r is None,
            },
    {
        if contains_str(lower, "database is locked") || contains_str(lower, "unable to lock database")
            || contains_str(lower, "db.lck") {
            return Some(make(
                PacmanErrorKind::DatabaseLocked,
                "Database Locked",
                "Another package manager is running or a previous operation was interrupted.",
                RecoveryAction::UnlockDatabase,
                raw,
            ));
        }
        if contains_str(lower, "gpgme error") || contains_str(lower, "pgp signature")
            || contains_str(lower, "invalid or corrupted package") || contains_str(
            lower,
            "key could not be looked up",
        ) || contains_str(lower, "unknown public key") || contains_str(lower, "signature from")
            || contains_str(lower, "trust database") {
            return Some(make(
                PacmanErrorKind::KeyringError,
                "Security Key Issue",
                "Package signatures could not be verified. Your keyring may need to be refreshed.",
                RecoveryAction::RepairKeyring,
                raw,
            ));
        }
        if contains_str(lower, "target not found") || contains_str(lower, "no results found")
            || contains_str(lower, "package not found") {
            return Some(make(
                PacmanErrorKind::PackageNotFound,
                "Package Not Found",
                "The package could not be found. It may have been renamed, removed, or your repositories need syncing.",
                RecoveryAction::ForceRefreshDb,
                raw,
            ));
        }
        if contains_str(lower, "failed retrieving file") || contains_str(lower, "failed to synchronize")
            || contains_str(lower, "could not resolve host") || contains_str(
            lower,
            "connection timed out",
        ) || contains_str(lower, "error downloading") || contains_str(lower, "404") {
            return Some(make(
                PacmanErrorKind::MirrorFailure,
                "Download Failed",
                "Could not download packages from mirrors. Check your internet connection or try refreshing your mirror list.",
                RecoveryAction::RefreshMirrors,
                raw,
            ));
        }
        if contains_str(lower, "no space left on device") || contains_str(
            lower,
            "not enough free disk space",
        ) {
            return Some(make(
                PacmanErrorKind::DiskFull,
                "Disk Full",
                "Not enough disk space to complete the operation. Try clearing the package cache.",
                RecoveryAction::CleanCache,
                raw,
            ));
        }
        if contains_str(lower, "conflicting dependencies") || contains_str(lower, "breaks dependency")
            || contains_str(lower, "satisfies dependency") || contains_str(
            lower,
            "unresolvable package conflicts",
        ) {
            return Some(make(
                PacmanErrorKind::DependencyConflict,
                "Dependency Conflict",
                "Package dependencies conflict with installed packages. Manual intervention may be required.",
                RecoveryAction::ShowManualSteps(
                    String::from_str(
                        "Review the conflicting packages and decide which to keep. You may need to remove one before installing the other.",
                    ),
                ),
                raw,
            ));
        }
        if contains_str(lower, "exists in filesystem") || contains_str(lower, "file conflict") {
            return Some(make(
                PacmanErrorKind::FileConflict,
                "File Conflict",
                "A file already exists on your system that would be overwritten. This usually happens when files were installed outside of pacman.",
                RecoveryAction::ShowManualSteps(
                    String::from_str(
                        "You can either: 1) Remove the conflicting file manually, or 2) Use --overwrite flag (advanced users only).",
                    ),
                ),
                raw,
            ));
        }
        if contains_str(lower, "corrupted package") || contains_str(lower, "failed integrity") {
            return Some(make(
                PacmanErrorKind::CorruptedPackage,
                "Corrupted Download",
                "A downloaded package was corrupted. This usually resolves by retrying.",
                RecoveryAction::Retry,
                raw,
            ));
        }
        if contains_str(lower, "permission denied") || contains_str(lower, "operation not permitted") {
            return Some(make(
                PacmanErrorKind::PermissionDenied,
                "Permission Denied",
                "The operation requires administrator privileges.",
                RecoveryAction::Retry,
                raw,
            ));
        }
        None
    }

    /// Analyzes pacman output and classifies the error: the first matching pattern group
    /// (checked case-insensitively, in priority order) decides the kind.
    pub fn from_output(output: &str) -> (r: Option<ClassifiedError>)
        ensures
            match error_kind_of(lowercase(output@)) {
                Some(kind) => r matches Some(e) && describes(e, kind, output@),
                None => r is None,
            },
    {
        let lower = lower_chars(output);
        Self::classify_lowercased(lower.as_slice(), output)
    }

    /// Whether this error is recoverable automatically.
    pub fn is_auto_recoverable(&self) -> (r: bool)
        ensures
            r == auto_recoverable_kind(self.kind),
    {
        match self.kind {
            PacmanErrorKind::DatabaseLocked | PacmanErrorKind::KeyringError
            | PacmanErrorKind::CorruptedPackage => true,
            _ => false,
        }
    }
}

/// Every error that the classifier reports comes with a recovery action, and keeps the
/// pacman output that it was classified from, unchanged.
pub proof fn law_classified_errors_are_actionable(e: ClassifiedError, lower: Seq<char>, raw: Seq<char>)
    requires
        error_kind_of(lower) matches Some(kind) && describes(e, kind, raw),
    ensures
        e.recovery_action is Some,
        e.raw_message@ == raw,
        e.kind != PacmanErrorKind::Unknown,
{
}

/// A database lock is reported whenever the lower-cased output mentions it, whatever else
/// the output says: the lock check comes first.
pub proof fn law_database_lock_takes_priority(lower: Seq<char>)
    requires
        contains(lower, "database is locked"@) || contains(lower, "unable to lock database"@)
            || contains(lower, "db.lck"@),
    ensures
        error_kind_of(lower) == Some(PacmanErrorKind::DatabaseLocked),
{
}

/// The errors recovered from automatically are exactly those whose suggested action needs
/// no user decision: unlocking, keyring repair or a retry.
pub proof fn law_auto_recoverable_actions(kind: PacmanErrorKind)
    requires
        auto_recoverable_kind(kind),
    ensures
        recovery_of(kind) is UnlockDatabase || recovery_of(kind) is RepairKeyring || recovery_of(
            kind,
        ) is Retry,
{
}

/// Output that mentions a signature or keyring problem, and no database lock, is a keyring error: each of these mentions on its own.
pub proof fn law_keyring_patterns(lower: Seq<char>)
    requires
        !contains(lower, "database is locked"@),
        !contains(lower, "unable to lock database"@),
        !contains(lower, "db.lck"@),
    ensures
        contains(lower, "gpgme error"@) ==> error_kind_of(lower) == Some(PacmanErrorKind::KeyringError),
        contains(lower, "pgp signature"@) ==> error_kind_of(lower) == Some(PacmanErrorKind::KeyringError),
        contains(lower, "invalid or corrupted package"@) ==> error_kind_of(lower) == Some(PacmanErrorKind::KeyringError),
        contains(lower, "key could not be looked up"@) ==> error_kind_of(lower) == Some(PacmanErrorKind::KeyringError),
        contains(lower, "unknown public key"@) ==> error_kind_of(lower) == Some(PacmanErrorKind::KeyringError),
        contains(lower, "signature from"@) ==> error_kind_of(lower) == Some(PacmanErrorKind::KeyringError),
        contains(lower, "trust database"@) ==> error_kind_of(lower) == Some(PacmanErrorKind::KeyringError),
{
}

/// Output that mentions a missing target, and none of the earlier problems (lock, keyring), is a package that was not found: each mention on its own.
pub proof fn law_not_found_patterns(lower: Seq<char>)
    requires
        !contains(lower, "database is locked"@),
        !contains(lower, "unable to lock database"@),
        !contains(lower, "db.lck"@),
        !contains(lower, "gpgme error"@),
        !contains(lower, "pgp signature"@),
        !contains(lower, "invalid or corrupted package"@),
        !contains(lower, "key could not be looked up"@),
        !contains(lower, "unknown public key"@),
        !contains(lower, "signature from"@),
        !contains(lower, "trust database"@),
    ensures
        contains(lower, "target not found"@) ==> error_kind_of(lower) == Some(PacmanErrorKind::PackageNotFound),
        contains(lower, "no results found"@) ==> error_kind_of(lower) == Some(PacmanErrorKind::PackageNotFound),
        contains(lower, "package not found"@) ==> error_kind_of(lower) == Some(PacmanErrorKind::PackageNotFound),
{
}

/// Output that mentions a failed download or synchronisation, and none of the earlier problems (lock, keyring, missing package), is a mirror failure: each mention on its own.
pub proof fn law_mirror_patterns(lower: Seq<char>)
    requires
        !contains(lower, "database is locked"@),
        !contains(lower, "unable to lock database"@),
        !contains(lower, "db.lck"@),
        !contains(lower, "gpgme error"@),
        !contains(lower, "pgp signature"@),
        !contains(lower, "invalid or corrupted package"@),
        !contains(lower, "key could not be looked up"@),
        !contains(lower, "unknown public key"@),
        !contains(lower, "signature from"@),
        !contains(lower, "trust database"@),
        !contains(lower, "target not found"@),
        !contains(lower, "no results found"@),
        !contains(lower, "package not found"@),
    ensures
        contains(lower, "failed retrieving file"@) ==> error_kind_of(lower) == Some(PacmanErrorKind::MirrorFailure),
        contains(lower, "failed to synchronize"@) ==> error_kind_of(lower) == Some(PacmanErrorKind::MirrorFailure),
        contains(lower, "could not resolve host"@) ==> error_kind_of(lower) == Some(PacmanErrorKind::MirrorFailure),
        contains(lower, "connection timed out"@) ==> error_kind_of(lower) == Some(PacmanErrorKind::MirrorFailure),
        contains(lower, "error downloading"@) ==> error_kind_of(lower) == Some(PacmanErrorKind::MirrorFailure),
        contains(lower, "404"@) ==> error_kind_of(lower) == Some(PacmanErrorKind::MirrorFailure),
{
}

/// Output that mentions a full disk, and none of the earlier problems, is a full disk: each mention on its own.
pub proof fn law_disk_full_patterns(lower: Seq<char>)
    requires
        !contains(lower, "database is locked"@),
        !contains(lower, "unable to lock database"@),
        !contains(lower, "db.lck"@),
        !contains(lower, "gpgme error"@),
        !contains(lower, "pgp signature"@),
        !contains(lower, "invalid or corrupted package"@),
        !contains(lower, "key could not be looked up"@),
        !contains(lower, "unknown public key"@),
        !contains(lower, "signature from"@),
        !contains(lower, "trust database"@),
        !contains(lower, "target not found"@),
        !contains(lower, "no results found"@),
        !contains(lower, "package not found"@),
        !contains(lower, "failed retrieving file"@),
        !contains(lower, "failed to synchronize"@),
        !contains(lower, "could not resolve host"@),
        !contains(lower, "connection timed out"@),
        !contains(lower, "error downloading"@),
        !contains(lower, "404"@),
    ensures
        contains(lower, "no space left on device"@) ==> error_kind_of(lower) == Some(PacmanErrorKind::DiskFull),
        contains(lower, "not enough free disk space"@) ==> error_kind_of(lower) == Some(PacmanErrorKind::DiskFull),
{
}

/// Output that mentions a dependency conflict, and none of the earlier problems, is a dependency conflict: each mention on its own.
pub proof fn law_dependency_patterns(lower: Seq<char>)
    requires
        !contains(lower, "database is locked"@),
        !contains(lower, "unable to lock database"@),
        !contains(lower, "db.lck"@),
        !contains(lower, "gpgme error"@),
        !contains(lower, "pgp signature"@),
        !contains(lower, "invalid or corrupted package"@),
        !contains(lower, "key could not be looked up"@),
        !contains(lower, "unknown public key"@),
        !contains(lower, "signature from"@),
        !contains(lower, "trust database"@),
        !contains(lower, "target not found"@),
        !contains(lower, "no results found"@),
        !contains(lower, "package not found"@),
        !contains(lower, "failed retrieving file"@),
        !contains(lower, "failed to synchronize"@),
        !contains(lower, "could not resolve host"@),
        !contains(lower, "connection timed out"@),
        !contains(lower, "error downloading"@),
        !contains(lower, "404"@),
        !contains(lower, "no space left on device"@),
        !contains(lower, "not enough free disk space"@),
    ensures
        contains(lower, "conflicting dependencies"@) ==> error_kind_of(lower) == Some(PacmanErrorKind::DependencyConflict),
        contains(lower, "breaks dependency"@) ==> error_kind_of(lower) == Some(PacmanErrorKind::DependencyConflict),
        contains(lower, "satisfies dependency"@) ==> error_kind_of(lower) == Some(PacmanErrorKind::DependencyConflict),
        contains(lower, "unresolvable package conflicts"@) ==> error_kind_of(lower) == Some(PacmanErrorKind::DependencyConflict),
{
}

/// Output that mentions a file conflict, and none of the earlier problems, is a file conflict: each mention on its own.
pub proof fn law_file_conflict_patterns(lower: Seq<char>)
    requires
        !contains(lower, "database is locked"@),
        !contains(lower, "unable to lock database"@),
        !contains(lower, "db.lck"@),
        !contains(lower, "gpgme error"@),
        !contains(lower, "pgp signature"@),
        !contains(lower, "invalid or corrupted package"@),
        !contains(lower, "key could not be looked up"@),
        !contains(lower, "unknown public key"@),
        !contains(lower, "signature from"@),
        !contains(lower, "trust database"@),
        !contains(lower, "target not found"@),
        !contains(lower, "no results found"@),
        !contains(lower, "package not found"@),
        !contains(lower, "failed retrieving file"@),
        !contains(lower, "failed to synchronize"@),
        !contains(lower, "could not resolve host"@),
        !contains(lower, "connection timed out"@),
        !contains(lower, "error downloading"@),
        !contains(lower, "404"@),
        !contains(lower, "no space left on device"@),
        !contains(lower, "not enough free disk space"@),
        !contains(lower, "conflicting dependencies"@),
        !contains(lower, "breaks dependency"@),
        !contains(lower, "satisfies dependency"@),
        !contains(lower, "unresolvable package conflicts"@),
    ensures
        contains(lower, "exists in filesystem"@) ==> error_kind_of(lower) == Some(PacmanErrorKind::FileConflict),
        contains(lower, "file conflict"@) ==> error_kind_of(lower) == Some(PacmanErrorKind::FileConflict),
{
}

/// Output that mentions a corrupted package or failed integrity check, and none of the earlier problems, is a corrupted package: each mention on its own.
pub proof fn law_corrupted_patterns(lower: Seq<char>)
    requires
        !contains(lower, "database is locked"@),
        !contains(lower, "unable to lock database"@),
        !contains(lower, "db.lck"@),
        !contains(lower, "gpgme error"@),
        !contains(lower, "pgp signature"@),
        !contains(lower, "invalid or corrupted package"@),
        !contains(lower, "key could not be looked up"@),
        !contains(lower, "unknown public key"@),
        !contains(lower, "signature from"@),
        !contains(lower, "trust database"@),
        !contains(lower, "target not found"@),
        !contains(lower, "no results found"@),
        !contains(lower, "package not found"@),
        !contains(lower, "failed retrieving file"@),
        !contains(lower, "failed to synchronize"@),
        !contains(lower, "could not resolve host"@),
        !contains(lower, "connection timed out"@),
        !contains(lower, "error downloading"@),
        !contains(lower, "404"@),
        !contains(lower, "no space left on device"@),
        !contains(lower, "not enough free disk space"@),
        !contains(lower, "conflicting dependencies"@),
        !contains(lower, "breaks dependency"@),
        !contains(lower, "satisfies dependency"@),
        !contains(lower, "unresolvable package conflicts"@),
        !contains(lower, "exists in filesystem"@),
        !contains(lower, "file conflict"@),
    ensures
        contains(lower, "corrupted package"@) ==> error_kind_of(lower) == Some(PacmanErrorKind::CorruptedPackage),
        contains(lower, "failed integrity"@) ==> error_kind_of(lower) == Some(PacmanErrorKind::CorruptedPackage),
{
}

/// Output that mentions missing permissions, and none of the earlier problems, is a permission error: each mention on its own.
pub proof fn law_permission_patterns(lower: Seq<char>)
    requires
        !contains(lower, "database is locked"@),
        !contains(lower, "unable to lock database"@),
        !contains(lower, "db.lck"@),
        !contains(lower, "gpgme error"@),
        !contains(lower, "pgp signature"@),
        !contains(lower, "invalid or corrupted package"@),
        !contains(lower, "key could not be looked up"@),
        !contains(lower, "unknown public key"@),
        !contains(lower, "signature from"@),
        !contains(lower, "trust database"@),
        !contains(lower, "target not found"@),
        !contains(lower, "no results found"@),
        !contains(lower, "package not found"@),
        !contains(lower, "failed retrieving file"@),
        !contains(lower, "failed to synchronize"@),
        !contains(lower, "could not resolve host"@),
        !contains(lower, "connection timed out"@),
        !contains(lower, "error downloading"@),
        !contains(lower, "404"@),
        !contains(lower, "no space left on device"@),
        !contains(lower, "not enough free disk space"@),
        !contains(lower, "conflicting dependencies"@),
        !contains(lower, "breaks dependency"@),
        !contains(lower, "satisfies dependency"@),
        !contains(lower, "unresolvable package conflicts"@),
        !contains(lower, "exists in filesystem"@),
        !contains(lower, "file conflict"@),
        !contains(lower, "corrupted package"@),
        !contains(lower, "failed integrity"@),
    ensures
        contains(lower, "permission denied"@) ==> error_kind_of(lower) == Some(PacmanErrorKind::PermissionDenied),
        contains(lower, "operation not permitted"@) ==> error_kind_of(lower) == Some(PacmanErrorKind::PermissionDenied),
{
}

/// Output that mentions none of the known problems is left unclassified.
pub proof fn law_unmatched_output_is_unclassified(lower: Seq<char>)
    requires
        !contains(lower, "database is locked"@),
        !contains(lower, "unable to lock database"@),
        !contains(lower, "db.lck"@),
        !contains(lower, "gpgme error"@),
        !contains(lower, "pgp signature"@),
        !contains(lower, "invalid or corrupted package"@),
        !contains(lower, "key could not be looked up"@),
        !contains(lower, "unknown public key"@),
        !contains(lower, "signature from"@),
        !contains(lower, "trust database"@),
        !contains(lower, "target not found"@),
        !contains(lower, "no results found"@),
        !contains(lower, "package not found"@),
        !contains(lower, "failed retrieving file"@),
        !contains(lower, "failed to synchronize"@),
        !contains(lower, "could not resolve host"@),
        !contains(lower, "connection timed out"@),
        !contains(lower, "error downloading"@),
        !contains(lower, "404"@),
        !contains(lower, "no space left on device"@),
        !contains(lower, "not enough free disk space"@),
        !contains(lower, "conflicting dependencies"@),
        !contains(lower, "breaks dependency"@),
        !contains(lower, "satisfies dependency"@),
        !contains(lower, "unresolvable package conflicts"@),
        !contains(lower, "exists in filesystem"@),
        !contains(lower, "file conflict"@),
        !contains(lower, "corrupted package"@),
        !contains(lower, "failed integrity"@),
        !contains(lower, "permission denied"@),
        !contains(lower, "operation not permitted"@),
    ensures
        error_kind_of(lower) is None,
{
}

/// How each kind of error is presented: its title and the recovery it offers.
pub proof fn law_error_presentation()
    ensures
        title_of(PacmanErrorKind::DatabaseLocked) == "Database Locked"@ && recovery_of(PacmanErrorKind::DatabaseLocked) == RecoveryActionView::UnlockDatabase,
        title_of(PacmanErrorKind::KeyringError) == "Security Key Issue"@ && recovery_of(PacmanErrorKind::KeyringError) == RecoveryActionView::RepairKeyring,
        title_of(PacmanErrorKind::PackageNotFound) == "Package Not Found"@ && recovery_of(PacmanErrorKind::PackageNotFound) == RecoveryActionView::ForceRefreshDb,
        title_of(PacmanErrorKind::MirrorFailure) == "Download Failed"@ && recovery_of(PacmanErrorKind::MirrorFailure) == RecoveryActionView::RefreshMirrors,
        title_of(PacmanErrorKind::DiskFull) == "Disk Full"@ && recovery_of(PacmanErrorKind::DiskFull) == RecoveryActionView::CleanCache,
        title_of(PacmanErrorKind::DependencyConflict) == "Dependency Conflict"@ && recovery_of(PacmanErrorKind::DependencyConflict) is ShowManualSteps,
        title_of(PacmanErrorKind::FileConflict) == "File Conflict"@ && recovery_of(PacmanErrorKind::FileConflict) is ShowManualSteps,
        title_of(PacmanErrorKind::CorruptedPackage) == "Corrupted Download"@ && recovery_of(PacmanErrorKind::CorruptedPackage) == RecoveryActionView::Retry,
        title_of(PacmanErrorKind::PermissionDenied) == "Permission Denied"@ && recovery_of(PacmanErrorKind::PermissionDenied) == RecoveryActionView::Retry,
{
}

/// Each mention of a database lock on its own makes the output a database lock.
pub proof fn law_lock_patterns(lower: Seq<char>)
    ensures
        contains(lower, "database is locked"@) ==> error_kind_of(lower) == Some(PacmanErrorKind::DatabaseLocked),
        contains(lower, "unable to lock database"@) ==> error_kind_of(lower) == Some(PacmanErrorKind::DatabaseLocked),
        contains(lower, "db.lck"@) ==> error_kind_of(lower) == Some(PacmanErrorKind::DatabaseLocked),
{
}

} // verus!
