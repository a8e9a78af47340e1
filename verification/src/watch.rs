use vstd::prelude::*;

verus! {

// ---------------------------------------------------------------------------
// Host watch schedule: how often each summary tier fires.
// ---------------------------------------------------------------------------

/// Extra delay before the very first tick, milliseconds.
pub const INITIAL_WAIT_MILLIS: u64 = 1000;

#[derive(Debug, Clone, Copy, PartialEq)]
pub struct DailySettings {
    pub log_count: u8,
    pub unit_duration_millis: u64,
}

impl Default for DailySettings {
    /// Two entries per unit, one unit every ten seconds.
    fn default() -> (r: Self)
        ensures
            r.log_count == 2,
            r.unit_duration_millis == 10000,
    {
        DailySettings { log_count: 2, unit_duration_millis: 10000 }
    }
}

#[derive(Debug, Clone, Copy, PartialEq)]
pub struct WeeklySettings {
    pub log_count: u8,
    pub unit_duration_millis: u64,
}

impl Default for WeeklySettings {
    /// Two entries per unit, one unit every ten minutes.
    fn default() -> (r: Self)
        ensures
            r.log_count == 2,
            r.unit_duration_millis == 600000,
    {
        WeeklySettings { log_count: 2, unit_duration_millis: 600000 }
    }
}

#[derive(Debug, Clone, Copy, PartialEq)]
pub struct MonthlySettings {
    pub log_count: u8,
    pub unit_duration_millis: u64,
}

impl Default for MonthlySettings {
    /// Two entries per unit, one unit every hour.
    fn default() -> (r: Self)
        ensures
            r.log_count == 2,
            r.unit_duration_millis == 3600000,
    {
        MonthlySettings { log_count: 2, unit_duration_millis: 3600000 }
    }
}

#[derive(Debug, Clone, Copy, PartialEq)]
pub struct YearlySettings {
    pub log_count: u8,
    pub unit_duration_millis: u64,
}

impl Default for YearlySettings {
    /// Two entries per unit, one unit every day.
    fn default() -> (r: Self)
        ensures
            r.log_count == 2,
            r.unit_duration_millis == 86400000,
    {
        YearlySettings { log_count: 2, unit_duration_millis: 86400000 }
    }
}

#[derive(Debug, Clone, Copy, PartialEq)]
pub struct DurationSettings {
    pub daily: DailySettings,
    pub weekly: WeeklySettings,
    pub monthly: MonthlySettings,
    pub yearly: YearlySettings,
}

impl Default for DurationSettings {
    fn default() -> (r: Self)
        ensures
            r.daily == (DailySettings { log_count: 2u8, unit_duration_millis: 10000u64 }),
            r.weekly == (WeeklySettings { log_count: 2u8, unit_duration_millis: 600000u64 }),
            r.monthly == (MonthlySettings { log_count: 2u8, unit_duration_millis: 3600000u64 }),
            r.yearly == (YearlySettings { log_count: 2u8, unit_duration_millis: 86400000u64 }),
    {
        DurationSettings {
            daily: DailySettings::default(),
            weekly: WeeklySettings::default(),
            monthly: MonthlySettings::default(),
            yearly: YearlySettings::default(),
        }
    }
}

/// Which host devices the watcher samples.
#[derive(Debug, Clone, PartialEq)]
pub struct TargetSettings {
    pub disk_name: String,
    pub net_name: String,
}

/// The watcher's full configuration: how often each tier fires and which
/// devices it watches.
#[derive(Debug, Clone, PartialEq)]
pub struct Settings {
    pub durations: DurationSettings,
    pub targets: TargetSettings,
}

/// The next instant each summary tier fires, milliseconds since the
/// epoch.
#[derive(Debug, Clone, Copy, PartialEq)]
pub struct TargetTimes {
    pub daily: u64,
    pub weekly: u64,
    pub monthly: u64,
    pub yearly: u64,
}

/// Initializes the four tiers' first target times from the current wall
/// clock: the daily tier is aligned to the next whole second plus the
/// initial wait, the others fire one unit from now.
pub fn sync_targets(now: u64, durations: &DurationSettings) -> (r: TargetTimes)
    requires
        now + durations.daily.unit_duration_millis + INITIAL_WAIT_MILLIS <= u64::MAX,
        now + durations.weekly.unit_duration_millis <= u64::MAX,
        now + durations.monthly.unit_duration_millis <= u64::MAX,
        now + durations.yearly.unit_duration_millis <= u64::MAX,
    ensures
        r.daily == now + (durations.daily.unit_duration_millis + INITIAL_WAIT_MILLIS - now
            % 1000),
        r.weekly == now + durations.weekly.unit_duration_millis,
        r.monthly == now + durations.monthly.unit_duration_millis,
        r.yearly == now + durations.yearly.unit_duration_millis,
{
    proof {
        vstd::arithmetic::div_mod::lemma_mod_bound(now as int, 1000);
    }
    let daily = now + (durations.daily.unit_duration_millis + INITIAL_WAIT_MILLIS - now % 1000);
    let weekly = now + durations.weekly.unit_duration_millis;
    let monthly = now + durations.monthly.unit_duration_millis;
    let yearly = now + durations.yearly.unit_duration_millis;
    TargetTimes { daily, weekly, monthly, yearly }
}

} // verus!
