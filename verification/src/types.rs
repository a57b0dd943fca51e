//! The records that environment checks, installs and update checks hand
//! to the presentation layer, and the readiness rule over them.

use vstd::prelude::*;

verus! {

/// The outcome of a full environment check.
#[derive(Debug, Clone)]
pub struct EnvironmentStatus {
    /// Whether Node.js is installed.
    pub node_installed: bool,
    /// The Node.js version, when one was read.
    pub node_version: Option<String>,
    /// Whether the Node.js version satisfies the required floor.
    pub node_version_ok: bool,
    /// Whether a bundled Node.js runtime is present.
    pub has_bundled_nodejs: bool,
    /// Whether Git is installed.
    pub git_installed: bool,
    /// The Git version, when one was read.
    pub git_version: Option<String>,
    /// Whether an offline install package is present.
    pub has_offline_package: bool,
    /// Whether the CLI is installed.
    pub openclaw_installed: bool,
    /// The CLI version, when one was read.
    pub openclaw_version: Option<String>,
    /// Whether the configuration directory exists.
    pub config_dir_exists: bool,
    /// Whether everything needed for installation is in place.
    pub ready: bool,
    /// The operating system name.
    pub os: String,
}

/// One step of install progress reported to the presentation layer.
#[derive(Debug, Clone)]
pub struct InstallProgress {
    pub step: String,
    pub progress: u8,
    pub message: String,
    pub error: Option<String>,
}

/// The outcome of an install or update action.
#[derive(Debug, Clone)]
pub struct InstallResult {
    pub success: bool,
    pub message: String,
    pub error: Option<String>,
}

/// The outcome of an update check.
#[derive(Debug, Clone)]
pub struct UpdateInfo {
    pub update_available: bool,
    pub current_version: Option<String>,
    pub latest_version: Option<String>,
    pub error: Option<String>,
}

/// The pieces of the Windows offline runtime once unpacked, each as the
/// path's text.
#[derive(Debug, Clone)]
pub struct WindowsOfflineRuntime {
    pub node_dir: String,
    pub npm_prefix: String,
    pub openclaw_cmd: String,
    pub openclaw_package: String,
    pub git_exe: Option<String>,
}

/// A deduplication cache for path logging, owned by whoever does the
/// logging: a path is worth reporting only when it differs from the one
/// reported last.
pub struct PathLogCache {
    /// The path most recently noted, if any.
    pub last: Option<String>,
}

impl PathLogCache {
    /// An empty cache: nothing has been noted yet.
    pub fn new() -> (c: Self)
        ensures
            c.last is None,
    {
        PathLogCache { last: None }
    }

    /// Notes `path` and says whether it differs from the previous note —
    /// that is, whether it is worth logging.
    pub fn note(&mut self, path: &str) -> (fresh: bool)
        ensures
            final(self).last matches Some(p) && p@ == path@,
            fresh == !(old(self).last matches Some(q) && q@ == path@),
    {
        let fresh = match &self.last {
            Some(prev) => {
                let a = crate::text::str_to_chars(prev.as_str());
                let b = crate::text::str_to_chars(path);
                !crate::text::eq_chars(&a, &b)
            },
            None => true,
        };
        self.last = Some(String::from_str(path));
        fresh
    }
}

/// The readiness rule: the CLI already installed is enough; a bundled
/// Node.js together with an offline package is enough; an offline
/// package alone needs a good Node.js; otherwise a good Node.js is
/// needed, and on Windows Git as well.
pub open spec fn environment_ready_spec(
    openclaw_installed: bool,
    has_bundled_nodejs: bool,
    has_offline_package: bool,
    is_windows: bool,
    node_installed: bool,
    node_version_ok: bool,
    git_installed: bool,
) -> bool {
    if openclaw_installed {
        true
    } else if has_bundled_nodejs && has_offline_package {
        true
    } else if has_offline_package {
        node_installed && node_version_ok
    } else if is_windows {
        node_installed && node_version_ok && git_installed
    } else {
        node_installed && node_version_ok
    }
}

/// Whether the environment is ready, from the individual check results.
pub fn environment_ready(
    openclaw_installed: bool,
    has_bundled_nodejs: bool,
    has_offline_package: bool,
    is_windows: bool,
    node_installed: bool,
    node_version_ok: bool,
    git_installed: bool,
) -> (r: bool)
    ensures
        r == environment_ready_spec(
            openclaw_installed,
            has_bundled_nodejs,
            has_offline_package,
            is_windows,
            node_installed,
            node_version_ok,
            git_installed,
        ),
{
    if openclaw_installed {
        true
    } else if has_bundled_nodejs && has_offline_package {
        true
    } else if has_offline_package {
        node_installed && node_version_ok
    } else if is_windows {
        node_installed && node_version_ok && git_installed
    } else {
        node_installed && node_version_ok
    }
}

} // verus!
