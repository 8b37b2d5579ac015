//! Syncing to a remote machine on a schedule: the schedule's state, and what
//! each run reports. The timer and the sync itself run outside.

use vstd::prelude::*;
use crate::deployment::meta::{copy_opt, opt_view};
use crate::file_sync::history::{history_entry, entry_view, trimmed_message, trim_message, SyncHistoryEntry};
use crate::file_sync::SyncResult;
use crate::text::{decimal, decimal_string, trim};

verus! {

/// What to sync, where, and how often.
pub struct SyncScheduleConfig {
    pub source: String,
    pub destination: String,
    pub remote_host: String,
    pub username: Option<String>,
    pub password: Option<String>,
    pub interval_minutes: u64,
}

/// The schedule as the interface shows it.
pub struct SyncScheduleStatus {
    pub source: String,
    pub destination: String,
    pub remote_host: String,
    pub interval_minutes: u64,
    pub last_run: Option<String>,
    pub next_run: Option<String>,
}

/// The contents of a `SyncScheduleConfig`.
pub struct ConfigView {
    pub source: Seq<char>,
    pub destination: Seq<char>,
    pub remote_host: Seq<char>,
    pub username: Option<Seq<char>>,
    pub password: Option<Seq<char>>,
    pub interval_minutes: u64,
}

impl View for SyncScheduleConfig {
    type V = ConfigView;

    open spec fn view(&self) -> ConfigView {
        ConfigView {
            source: self.source@,
            destination: self.destination@,
            remote_host: self.remote_host@,
            username: opt_view(self.username),
            password: opt_view(self.password),
            interval_minutes: self.interval_minutes,
        }
    }
}

impl SyncScheduleConfig {
    /// A copy of this configuration.
    pub fn duplicate(&self) -> (r: Self)
        ensures
            r@ == self@,
    {
        SyncScheduleConfig {
            source: self.source.clone(),
            destination: self.destination.clone(),
            remote_host: self.remote_host.clone(),
            username: copy_opt(&self.username),
            password: copy_opt(&self.password),
            interval_minutes: self.interval_minutes,
        }
    }
}

pub open spec fn interval_message() -> Seq<char> {
    "The sync interval must be at least 1 minute"@
}

pub open spec fn required_message() -> Seq<char> {
    "Source, destination, and remote host are required"@
}

/// Why a schedule is refused, if it is: a zero interval, or a blank source,
/// destination or remote host.
pub open spec fn schedule_problem(c: ConfigView) -> Option<Seq<char>> {
    if c.interval_minutes == 0 {
        Some(interval_message())
    } else if trim(c.source).len() == 0 || trim(c.destination).len() == 0 || trim(c.remote_host).len() == 0 {
        Some(required_message())
    } else {
        None
    }
}

fn is_blank(s: &str) -> (r: bool)
    ensures
        r == (trim(s@).len() == 0),
{
    let t = crate::deployment::trimmed(s);
    t.as_str().is_empty()
}

/// Checks a schedule (see `schedule_problem`).
pub fn validate_schedule(config: &SyncScheduleConfig) -> (r: Result<(), String>)
    ensures
        match schedule_problem(config@) {
            Some(m) => r matches Err(e) && e@ == m,
            None => r is Ok,
        },
{
    if config.interval_minutes == 0 {
        return Err(String::from_str("The sync interval must be at least 1 minute"));
    }
    if is_blank(config.source.as_str()) || is_blank(config.destination.as_str()) || is_blank(
        config.remote_host.as_str(),
    ) {
        return Err(String::from_str("Source, destination, and remote host are required"));
    }
    Ok(())
}

/// The state of the schedule: the active configuration, if any, and when it
/// last ran and will next run.
pub struct Scheduler {
    active: Option<SyncScheduleConfig>,
    last_run: Option<String>,
    next_run: Option<String>,
}

/// The contents of a `Scheduler`.
pub struct SchedulerView {
    pub active: Option<ConfigView>,
    pub last_run: Option<Seq<char>>,
    pub next_run: Option<Seq<char>>,
}

impl View for Scheduler {
    type V = SchedulerView;

    closed spec fn view(&self) -> SchedulerView {
        SchedulerView {
            active: match self.active {
                Some(c) => Some(c@),
                None => None,
            },
            last_run: opt_view(self.last_run),
            next_run: opt_view(self.next_run),
        }
    }
}

/// The longest interval chrono can add to the current time, in minutes.
pub const MAX_INTERVAL_MINUTES: u64 = 153_722_867_280_912;

/// The local time `minutes` from now as `%Y-%m-%d %H:%M:%S`
/// (`chrono::Local::now().checked_add_signed`), when chrono can represent it.
/// Nothing is claimed of the result; longer intervals make chrono panic.
#[verifier::external_body]
fn local_time_in(minutes: u64) -> (r: Option<String>)
    requires
        minutes <= MAX_INTERVAL_MINUTES,
{
    match chrono::Local::now().checked_add_signed(chrono::Duration::minutes(minutes as i64)) {
        Some(time) => Some(time.format("%Y-%m-%d %H:%M:%S").to_string()),
        None => None,
    }
}

impl Scheduler {
    /// No schedule.
    pub fn new() -> (r: Self)
        ensures
            r@.active is None,
            r@.last_run is None,
            r@.next_run is None,
    {
        Scheduler { active: None, last_run: None, next_run: None }
    }

    /// Starts `config` in place of any active schedule, to run next at
    /// `next_run`; a refused schedule changes nothing.
    pub fn start_at(&mut self, config: SyncScheduleConfig, next_run: Option<String>) -> (r: Result<(), String>)
        ensures
            match schedule_problem(config@) {
                Some(m) => (r matches Err(e) && e@ == m) && final(self)@ == old(self)@,
                None => r is Ok && final(self)@ == (SchedulerView {
                    active: Some(config@),
                    last_run: None,
                    next_run: opt_view(next_run),
                }),
            },
    {
        match validate_schedule(&config) {
            Err(e) => Err(e),
            Ok(()) => {
                self.active = Some(config);
                self.last_run = None;
                self.next_run = next_run;
                Ok(())
            },
        }
    }

    /// Starts `config` in place of any active schedule, to run next one
    /// interval from now.
    pub fn start(&mut self, config: SyncScheduleConfig) -> (r: Result<(), String>)
        requires
            config.interval_minutes <= MAX_INTERVAL_MINUTES,
        ensures
            match schedule_problem(config@) {
                Some(m) => (r matches Err(e) && e@ == m) && final(self)@ == old(self)@,
                None => r is Ok && final(self)@.active == Some(config@) && final(self)@.last_run is None,
            },
    {
        if config.interval_minutes == 0 {
            return self.start_at(config, None);
        }
        let next = local_time_in(config.interval_minutes);
        self.start_at(config, next)
    }

    /// Records a run at `timestamp`, the next one due at `next_run`.
    pub fn record_run(&mut self, timestamp: String, next_run: String)
        ensures
            final(self)@ == (SchedulerView {
                last_run: Some(timestamp@),
                next_run: Some(next_run@),
                ..old(self)@
            }),
    {
        self.last_run = Some(timestamp);
        self.next_run = Some(next_run);
    }

    /// Stops the schedule.
    pub fn stop(&mut self)
        ensures
            final(self)@ == (SchedulerView { active: None, last_run: None, next_run: None }),
    {
        self.active = None;
        self.last_run = None;
        self.next_run = None;
    }

    /// The active schedule with its runs, if any.
    pub fn status(&self) -> (r: Option<SyncScheduleStatus>)
        ensures
            match self@.active {
                None => r is None,
                Some(c) => r matches Some(s) && s.source@ == c.source && s.destination@
                    == c.destination && s.remote_host@ == c.remote_host && s.interval_minutes
                    == c.interval_minutes && opt_view(s.last_run) == self@.last_run && opt_view(
                    s.next_run,
                ) == self@.next_run,
            },
    {
        match &self.active {
            None => None,
            Some(c) => Some(
                SyncScheduleStatus {
                    source: c.source.clone(),
                    destination: c.destination.clone(),
                    remote_host: c.remote_host.clone(),
                    interval_minutes: c.interval_minutes,
                    last_run: copy_opt(&self.last_run),
                    next_run: copy_opt(&self.next_run),
                },
            ),
        }
    }

    /// Whether a schedule is active.
    pub fn is_running(&self) -> (r: bool)
        ensures
            r == self@.active is Some,
    {
        self.active.is_some()
    }

    /// The active configuration, if any.
    pub fn config(&self) -> (r: Option<SyncScheduleConfig>)
        ensures
            match self@.active {
                None => r is None,
                Some(c) => r matches Some(x) && x@ == c,
            },
    {
        match &self.active {
            None => None,
            Some(c) => Some(c.duplicate()),
        }
    }
}

/// The wait between runs, in seconds.
pub fn interval_seconds(minutes: u64) -> (r: u64)
    requires
        minutes * 60 <= u64::MAX,
    ensures
        r == minutes * 60,
{
    minutes * 60
}

/// What a scheduled run reports: whether it succeeded, how many items it
/// copied, and its message.
pub open spec fn run_report(
    remote_host: Seq<char>,
    success: Option<bool>,
    files_copied: u64,
    output: Seq<char>,
    error: Seq<char>,
) -> (bool, u64, Seq<char>) {
    match success {
        Some(true) => (
            true,
            files_copied,
            "Scheduled sync to "@ + remote_host + ": "@ + decimal(files_copied as nat) + " items"@,
        ),
        Some(false) => (false, files_copied, "Scheduled sync errors:\n"@ + trimmed_message(output)),
        None => (false, 0, "Scheduled sync failed: "@ + error),
    }
}

/// The report of a scheduled run from the sync's result or error (see
/// `run_report`).
pub fn scheduled_run_report(remote_host: &str, result: &Result<SyncResult, String>) -> (r: (bool, u64, String))
    ensures
        (r.0, r.1, r.2@) == (match result {
            Ok(s) => run_report(remote_host@, Some(s.success), s.files_copied, s.output@, Seq::empty()),
            Err(e) => run_report(remote_host@, None, 0, Seq::empty(), e@),
        }),
{
    match result {
        Ok(sync) => {
            if sync.success {
                let mut m = String::from_str("Scheduled sync to ");
                m.append(remote_host);
                m.append(": ");
                let d = decimal_string(sync.files_copied);
                m.append(d.as_str());
                m.append(" items");
                (true, sync.files_copied, m)
            } else {
                let mut m = String::from_str("Scheduled sync errors:\n");
                let t = trim_message(sync.output.as_str());
                m.append(t.as_str());
                (false, sync.files_copied, m)
            }
        },
        Err(err) => {
            let mut m = String::from_str("Scheduled sync failed: ");
            m.append(err.as_str());
            (false, 0, m)
        },
    }
}

/// The history entry of a scheduled run of `config` that started at
/// `timestamp`.
pub fn scheduled_history_entry(config: &SyncScheduleConfig, timestamp: String, success: bool, message: String) -> (r: SyncHistoryEntry)
    ensures
        entry_view(r) == (
            timestamp@,
            if success {
                "success"@
            } else {
                "error"@
            },
            message@,
            config.remote_host@,
            config.source@,
            config.destination@,
        ),
{
    history_entry(
        timestamp,
        success,
        message,
        config.remote_host.as_str(),
        config.source.as_str(),
        config.destination.as_str(),
    )
}

} // verus!
