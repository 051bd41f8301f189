//! Settings, the snapshot the monitor shows, and the state it keeps between
//! requests.
use vstd::prelude::*;
use crate::official::OfficialReading;
use crate::usage::{RecentSession, UsageBucket};

verus! {

/// The user's settings.
#[derive(Clone)]
pub struct AppSettings {
    pub codex_home_override: Option<String>,
    pub refresh_interval_seconds: u64,
    pub start_on_login: bool,
    pub notifications_enabled: bool,
    pub notification_thresholds: Vec<u8>,
    pub daily_budget_tokens: Option<u64>,
    pub weekly_budget_tokens: Option<u64>,
    pub monthly_budget_tokens: Option<u64>,
    pub show_fallback_when_rpc_unavailable: bool,
}

/// The settings a first start uses: refresh every 60 seconds, notify at 50,
/// 75, 90 and 100 percent, no budgets, no start on login, fall back to the
/// logs when the RPC is unavailable.
pub open spec fn is_default_settings(s: AppSettings) -> bool {
    &&& s.codex_home_override is None
    &&& s.refresh_interval_seconds == 60
    &&& !s.start_on_login
    &&& s.notifications_enabled
    &&& s.notification_thresholds@ == seq![50u8, 75u8, 90u8, 100u8]
    &&& s.daily_budget_tokens is None
    &&& s.weekly_budget_tokens is None
    &&& s.monthly_budget_tokens is None
    &&& s.show_fallback_when_rpc_unavailable
}

impl Default for AppSettings {
    fn default() -> (res: AppSettings)
        ensures
            is_default_settings(res),
            res.refresh_interval_seconds == 60,
            res.notification_thresholds@ == seq![50u8, 75u8, 90u8, 100u8],
            res.notifications_enabled && !res.start_on_login && res.show_fallback_when_rpc_unavailable,
            res.codex_home_override is None,
            res.daily_budget_tokens is None && res.weekly_budget_tokens is None && res.monthly_budget_tokens is None,
    {
        let mut thresholds: Vec<u8> = Vec::new();
        thresholds.push(50);
        thresholds.push(75);
        thresholds.push(90);
        thresholds.push(100);
        assert(thresholds@ =~= seq![50u8, 75u8, 90u8, 100u8]);
        AppSettings {
            codex_home_override: None,
            refresh_interval_seconds: 60,
            start_on_login: false,
            notifications_enabled: true,
            notification_thresholds: thresholds,
            daily_budget_tokens: None,
            weekly_budget_tokens: None,
            monthly_budget_tokens: None,
            show_fallback_when_rpc_unavailable: true,
        }
    }
}

/// The settings with the start-on-login switch set.
pub open spec fn with_start_on_login(s: AppSettings, enabled: bool) -> AppSettings {
    AppSettings { start_on_login: enabled, ..s }
}

/// Where the official usage of a snapshot came from.
pub enum Official {
    /// The `codex app-server` replies.
    Rpc(OfficialReading),
    /// The latest rate limits recorded in the session logs.
    Local(OfficialReading),
    /// Neither: usage is unknown.
    Unavailable,
}

/// What the monitor shows.
pub struct UsageSnapshot {
    pub official: Official,
    pub local_buckets: Vec<UsageBucket>,
    pub recent_sessions: Vec<RecentSession>,
    pub last_updated_at: String,
    pub parser_warnings: Vec<String>,
}

/// Puts a snapshot together. Where the RPC answered, its reading is shown
/// with no warning; otherwise the reading from the logs is shown (or usage is
/// unknown), with one warning that carries the RPC's error.
pub fn assemble_snapshot(
    rpc: Result<OfficialReading, String>,
    local: Option<OfficialReading>,
    local_buckets: Vec<UsageBucket>,
    recent_sessions: Vec<RecentSession>,
    now: String,
) -> (res: UsageSnapshot)
    ensures
        res.local_buckets == local_buckets,
        res.recent_sessions == recent_sessions,
        res.last_updated_at == now,
        match rpc {
            Ok(r) => res.official == Official::Rpc(r) && res.parser_warnings@.len() == 0,
            Err(e) => res.official == (match local {
                Some(l) => Official::Local(l),
                None => Official::Unavailable,
            }) && res.parser_warnings@.len() == 1 && res.parser_warnings@[0]@ == "rpc unavailable: "@
                + e@,
        },
{
    match rpc {
        Ok(r) => UsageSnapshot {
            official: Official::Rpc(r),
            local_buckets,
            recent_sessions,
            last_updated_at: now,
            parser_warnings: Vec::new(),
        },
        Err(e) => {
            let mut warning = String::from_str("rpc unavailable: ");
            warning.append(e.as_str());
            let mut warnings: Vec<String> = Vec::new();
            warnings.push(warning);
            UsageSnapshot {
                official: match local {
                    Some(l) => Official::Local(l),
                    None => Official::Unavailable,
                },
                local_buckets,
                recent_sessions,
                last_updated_at: now,
                parser_warnings: warnings,
            }
        },
    }
}

/// What the monitor keeps between requests.
pub struct AppState {
    pub settings: AppSettings,
    pub last_snapshot: Option<UsageSnapshot>,
}

impl AppState {
    /// Default settings, no snapshot yet.
    pub fn new() -> (res: AppState)
        ensures
            is_default_settings(res.settings),
            res.last_snapshot is None,
    {
        AppState { settings: AppSettings::default(), last_snapshot: None }
    }

    /// The current settings.
    pub fn get_settings(&self) -> (res: &AppSettings)
        ensures
            *res == self.settings,
    {
        &self.settings
    }

    /// Replaces the settings; the snapshot is kept.
    pub fn update_settings(&mut self, settings: AppSettings)
        ensures
            final(self).settings == settings,
            final(self).last_snapshot == old(self).last_snapshot,
    {
        self.settings = settings;
    }

    /// Sets whether the monitor starts on login; nothing else changes.
    pub fn set_start_on_login(&mut self, enabled: bool)
        ensures
            final(self).settings == with_start_on_login(old(self).settings, enabled),
            final(self).last_snapshot == old(self).last_snapshot,
    {
        self.settings.start_on_login = enabled;
    }

    /// The last snapshot taken, if any.
    pub fn cached_snapshot(&self) -> (res: Option<&UsageSnapshot>)
        ensures
            match self.last_snapshot {
                Some(s) => res == Some(&s),
                None => res is None,
            },
    {
        self.last_snapshot.as_ref()
    }

    /// Keeps a new snapshot; the settings are kept.
    pub fn store_snapshot(&mut self, snapshot: UsageSnapshot)
        ensures
            final(self).last_snapshot == Some(snapshot),
            final(self).settings == old(self).settings,
    {
        self.last_snapshot = Some(snapshot);
    }
}

/// Setting the start-on-login switch twice leaves the last value, and the
/// other settings as they were.
pub proof fn lemma_start_on_login_last_wins(s: AppSettings, first: bool, second: bool)
    ensures
        with_start_on_login(with_start_on_login(s, first), second) == with_start_on_login(s, second),
        with_start_on_login(s, second).start_on_login == second,
        with_start_on_login(s, second).notification_thresholds == s.notification_thresholds,
        with_start_on_login(s, second).refresh_interval_seconds == s.refresh_interval_seconds,
{
}

} // verus!
