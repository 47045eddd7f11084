//! The installed app versions and the decisions of installing them: which
//! existing install to keep, re-enable or reinstall, which agent key a fresh
//! install reuses, whether data must be migrated, and how long to wait for
//! cells to come up.
//!
//! The conductor's admin interface is the caller's: it reports what is
//! installed and what each request gave, and these functions decide.

use vstd::prelude::*;

use crate::agent_key::AgentPubKey;
use crate::text::{contains, str_contains, str_eq};

verus! {

/// The first installed app id, kept for legacy reads.
pub const APP_ID_V1_0: &'static str = "proofpoll_v1_0";

/// The second installed app id, kept for migration reads.
pub const APP_ID_V1_1: &'static str = "proofpoll_v1_1";

/// The third installed app id, the source of migrated data.
pub const APP_ID_V1_2: &'static str = "proofpoll_v1_2";

/// The current app id.
pub const APP_ID_V1_3: &'static str = "fieldnotes_v1_3";

/// The bundle file the current version installs from.
pub const HAPP_FILE_V1_3: &'static str = "fieldnotes_v1_3_happ.happ";

/// The version all new reads and writes go to.
pub const ACTIVE_APP_ID: &'static str = APP_ID_V1_3;

/// The app versions this build knows.
#[derive(Clone, Copy, PartialEq, Eq, Structural, Debug)]
pub enum AppVersion {
    V1_0,
    V1_1,
    V1_2,
    V1_3,
}

/// The version an installed app id names, if it is one of ours.
pub open spec fn version_of(app_id: Seq<char>) -> Option<AppVersion> {
    if app_id == APP_ID_V1_0@ {
        Some(AppVersion::V1_0)
    } else if app_id == APP_ID_V1_1@ {
        Some(AppVersion::V1_1)
    } else if app_id == APP_ID_V1_2@ {
        Some(AppVersion::V1_2)
    } else if app_id == APP_ID_V1_3@ {
        Some(AppVersion::V1_3)
    } else {
        None
    }
}

/// Which of our versions an installed app id names.
pub fn app_version(app_id: &str) -> (r: Option<AppVersion>)
    ensures
        r == version_of(app_id@),
{
    if str_eq(app_id, APP_ID_V1_0) {
        Some(AppVersion::V1_0)
    } else if str_eq(app_id, APP_ID_V1_1) {
        Some(AppVersion::V1_1)
    } else if str_eq(app_id, APP_ID_V1_2) {
        Some(AppVersion::V1_2)
    } else if str_eq(app_id, APP_ID_V1_3) {
        Some(AppVersion::V1_3)
    } else {
        None
    }
}

/// What to do with an app found installed when the app starts.
#[derive(Clone, Copy, PartialEq, Eq, Structural, Debug)]
pub enum ExistingApp {
    /// An older version that is disabled: enable it; it is usable only if
    /// enabling succeeds.
    EnableLegacy(AppVersion),
    /// An older version that is usable as it stands; when `nudge` is set,
    /// enable it once more to recover disabled cells, ignoring any error.
    KeepLegacy { version: AppVersion, nudge: bool },
    /// The active version is disabled: uninstall it (an error aborts the
    /// start) and install it afresh.
    ReinstallActive,
    /// The active version is installed: enable it again (an error aborts the
    /// start); its agent key is kept.
    ReenableActive,
    /// Not one of ours.
    Ignore,
}

/// The plan for an installed app with id `app_id`.
pub open spec fn existing_app_plan(app_id: Seq<char>, disabled: bool) -> ExistingApp {
    match version_of(app_id) {
        None => ExistingApp::Ignore,
        Some(AppVersion::V1_3) => if disabled {
            ExistingApp::ReinstallActive
        } else {
            ExistingApp::ReenableActive
        },
        Some(v) => if disabled {
            ExistingApp::EnableLegacy(v)
        } else {
            ExistingApp::KeepLegacy { version: v, nudge: v != AppVersion::V1_0 }
        },
    }
}

/// Decides what to do with an app found installed: older versions are kept
/// (re-enabled when disabled) for legacy and migration reads; a disabled
/// active version is reinstalled; an enabled one is enabled again.
pub fn plan_existing_app(app_id: &str, disabled: bool) -> (r: ExistingApp)
    ensures
        r == existing_app_plan(app_id@, disabled),
{
    match app_version(app_id) {
        None => ExistingApp::Ignore,
        Some(AppVersion::V1_3) => if disabled {
            ExistingApp::ReinstallActive
        } else {
            ExistingApp::ReenableActive
        },
        Some(v) => if disabled {
            ExistingApp::EnableLegacy(v)
        } else {
            ExistingApp::KeepLegacy { version: v, nudge: v != AppVersion::V1_0 }
        },
    }
}

/// What the scan of installed apps found usable: the agent key of each
/// version that is installed and usable.
#[derive(Clone, Copy)]
pub struct InstallScan {
    pub v1_0: Option<AgentPubKey>,
    pub v1_1: Option<AgentPubKey>,
    pub v1_2: Option<AgentPubKey>,
    pub v1_3: Option<AgentPubKey>,
}

/// The outcome of installing: the agent key of the active version, whether
/// the previous version's data must be migrated, and which older versions
/// are usable.
#[derive(Clone, Copy)]
pub struct InstallResult {
    pub agent_pub_key: AgentPubKey,
    pub needs_migration: bool,
    pub v1_0_available: bool,
    pub v1_1_available: bool,
    pub v1_2_available: bool,
}

impl InstallScan {
    /// Nothing found yet.
    pub fn new() -> (r: Self)
        ensures
            r.v1_0 is None,
            r.v1_1 is None,
            r.v1_2 is None,
            r.v1_3 is None,
    {
        InstallScan { v1_0: None, v1_1: None, v1_2: None, v1_3: None }
    }

    /// Notes that `version` is installed and usable under `agent`.
    pub fn record(&mut self, version: AppVersion, agent: AgentPubKey)
        ensures
            final(self).v1_0 == (if version == AppVersion::V1_0 {
                Some(agent)
            } else {
                old(self).v1_0
            }),
            final(self).v1_1 == (if version == AppVersion::V1_1 {
                Some(agent)
            } else {
                old(self).v1_1
            }),
            final(self).v1_2 == (if version == AppVersion::V1_2 {
                Some(agent)
            } else {
                old(self).v1_2
            }),
            final(self).v1_3 == (if version == AppVersion::V1_3 {
                Some(agent)
            } else {
                old(self).v1_3
            }),
    {
        match version {
            AppVersion::V1_0 => self.v1_0 = Some(agent),
            AppVersion::V1_1 => self.v1_1 = Some(agent),
            AppVersion::V1_2 => self.v1_2 = Some(agent),
            AppVersion::V1_3 => self.v1_3 = Some(agent),
        }
    }

    /// The agent key a fresh install of the active version reuses, so that
    /// identity links survive: that of the most recent older version found.
    pub fn reused_agent_key(&self) -> (r: Option<AgentPubKey>)
        ensures
            r == (if self.v1_2 is Some {
                self.v1_2
            } else if self.v1_1 is Some {
                self.v1_1
            } else {
                self.v1_0
            }),
    {
        if self.v1_2.is_some() {
            self.v1_2
        } else if self.v1_1.is_some() {
            self.v1_1
        } else {
            self.v1_0
        }
    }

    /// Whether the previous version's data must be migrated: it is
    /// installed, and the active version was not.
    pub fn needs_migration(&self) -> (r: bool)
        ensures
            r == (self.v1_2 is Some && self.v1_3 is None),
    {
        self.v1_2.is_some() && self.v1_3.is_none()
    }

    /// Concludes the install once the active version is in place: `installed`
    /// is the agent key of a fresh install (none when the active version was
    /// already there), `active_enabled` whether the conductor lists the
    /// active version as enabled.
    pub fn finish(&self, installed: Option<AgentPubKey>, active_enabled: bool) -> (r: Result<
        InstallResult,
        String,
    >)
        ensures
            !active_enabled ==> (r matches Err(e) && e@
                == "Fieldnotes v1.3 DNA installation verification failed"@),
            active_enabled && self.v1_3 is None && installed is None ==> (r matches Err(e) && e@
                == "No agent key after installation"@),
            r matches Ok(res) ==> {
                &&& active_enabled
                &&& res.agent_pub_key == (if self.v1_3 is Some {
                    self.v1_3->0
                } else {
                    installed->0
                })
                &&& res.needs_migration == (self.v1_2 is Some && self.v1_3 is None)
                &&& res.v1_0_available == (self.v1_0 is Some)
                &&& res.v1_1_available == (self.v1_1 is Some)
                &&& res.v1_2_available == (self.v1_2 is Some)
            },
            active_enabled && (self.v1_3 is Some || installed is Some) ==> r is Ok,
    {
        if !active_enabled {
            return Err(crate::text::owned("Fieldnotes v1.3 DNA installation verification failed"));
        }
        let agent = match self.v1_3 {
            Some(k) => k,
            None => match installed {
                Some(k) => k,
                None => return Err(crate::text::owned("No agent key after installation")),
            },
        };
        Ok(
            InstallResult {
                agent_pub_key: agent,
                needs_migration: self.needs_migration(),
                v1_0_available: self.v1_0.is_some(),
                v1_1_available: self.v1_1.is_some(),
                v1_2_available: self.v1_2.is_some(),
            },
        )
    }
}

/// Whether any of the enabled apps is the active version.
pub fn active_enabled(enabled_app_ids: &Vec<String>) -> (r: bool)
    ensures
        r == exists|i: int| 0 <= i < enabled_app_ids@.len() && (#[trigger] enabled_app_ids@[i])@ == ACTIVE_APP_ID@,
{
    let mut i: usize = 0;
    while i < enabled_app_ids.len()
        invariant
            i <= enabled_app_ids@.len(),
            forall|j: int| 0 <= j < i ==> (#[trigger] enabled_app_ids@[j])@ != ACTIVE_APP_ID@,
        decreases enabled_app_ids@.len() - i,
    {
        if str_eq(enabled_app_ids[i].as_str(), ACTIVE_APP_ID) {
            assert(enabled_app_ids@[i as int]@ == ACTIVE_APP_ID@);
            return true;
        }
        i += 1;
    }
    false
}

/// The conductor refused a request because a cell is disabled, which
/// enabling its app again may cure.
pub fn is_cell_disabled(error: &str) -> (r: bool)
    ensures
        r == contains(error@, "CellDisabled"@),
{
    str_contains(error, "CellDisabled")
}

/// How many times readiness is probed before giving up.
pub const PROBE_ATTEMPTS: u32 = 6;

/// Seconds between readiness probes.
pub const PROBE_WAIT_SECS: u64 = 3;

/// What to do after a readiness probe.
#[derive(Clone, Copy, PartialEq, Eq, Structural, Debug)]
pub enum ProbeStep {
    /// The cells are ready.
    Ready,
    /// Not ready yet: wait, enable every app again and probe once more.
    WaitAndRetry,
    /// Give up waiting; what follows copes cell by cell.
    GiveUp,
}

/// Decides after probe `attempt` (counted from 1) of whether the cells are
/// ready, given the probe's error (none when it succeeded). Only a disabled
/// cell is worth waiting for, and only while attempts remain.
pub fn probe_step(attempt: u32, error: Option<&str>) -> (r: ProbeStep)
    ensures
        r == (match error {
            None => ProbeStep::Ready,
            Some(e) => if contains(e@, "CellDisabled"@) && attempt < PROBE_ATTEMPTS {
                ProbeStep::WaitAndRetry
            } else {
                ProbeStep::GiveUp
            },
        }),
{
    match error {
        None => ProbeStep::Ready,
        Some(e) => if is_cell_disabled(e) && attempt < PROBE_ATTEMPTS {
            ProbeStep::WaitAndRetry
        } else {
            ProbeStep::GiveUp
        },
    }
}

/// What to do after asking the conductor to authorize signing for a cell.
#[derive(Clone, Copy, PartialEq, Eq, Structural, Debug)]
pub enum AuthorizeStep {
    /// Authorized: keep the credentials.
    AddCredentials,
    /// The cell is disabled: enable its app again and ask once more (when
    /// enabling fails, the cell is skipped).
    ReenableAndRetry,
    /// Skip this cell; calls into it will not be signed.
    Skip,
}

/// Decides after an authorization request for a cell, given whether it was
/// already the retry after re-enabling and the request's error (none when it
/// succeeded). A disabled cell earns one re-enable and one retry; any other
/// error, or a failed retry, skips the cell.
pub fn authorize_step(retried: bool, error: Option<&str>) -> (r: AuthorizeStep)
    ensures
        r == (match error {
            None => AuthorizeStep::AddCredentials,
            Some(e) => if !retried && contains(e@, "CellDisabled"@) {
                AuthorizeStep::ReenableAndRetry
            } else {
                AuthorizeStep::Skip
            },
        }),
{
    match error {
        None => AuthorizeStep::AddCredentials,
        Some(e) => if !retried && is_cell_disabled(e) {
            AuthorizeStep::ReenableAndRetry
        } else {
            AuthorizeStep::Skip
        },
    }
}

} // verus!
