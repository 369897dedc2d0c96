//! The widget's display rules: countdown and "last updated" texts, when
//! to refresh, how fetch results replace what is shown, and the settings.

use vstd::prelude::*;

use crate::config::Config;
use crate::cookies::BrowserKind;
use crate::text::{decimal, push_decimal, str_eq};

verus! {

/// Seconds between refreshes unless configured otherwise.
pub open spec fn default_refresh_secs() -> u64 {
    300
}

/// Idle time after which refreshing pauses.
pub open spec fn idle_threshold_secs() -> u64 {
    60
}

/// `n` in decimal.
pub open spec fn dec(n: int) -> Seq<char> {
    decimal(n as nat)
}

/// The countdown text for a limit that resets in `secs` seconds.
pub open spec fn countdown_text(secs: int) -> Seq<char> {
    if secs <= 0 {
        "Resetting..."@
    } else {
        let m = (secs / 60) % 60;
        let h = secs / 3600;
        if h >= 24 {
            "Resets in "@ + dec(h / 24) + "d "@ + dec(h % 24) + "h"@
        } else if h > 0 {
            "Resets in "@ + dec(h) + " hr "@ + dec(m) + " min"@
        } else {
            "Resets in "@ + dec(m) + " min"@
        }
    }
}

/// The countdown for a limit that resets in `secs` seconds: days and
/// hours beyond a day, hours and minutes beyond an hour, else minutes.
pub fn countdown(secs: i128) -> (r: String)
    requires
        secs <= 100_000_000_000_000_000_000,
    ensures
        r@ == countdown_text(secs as int),
{
    if secs <= 0 {
        return String::from_str("Resetting...");
    }
    assert(secs / 3600 <= 100_000_000_000_000_000) by (nonlinear_arith)
        requires
            0 < secs <= 100_000_000_000_000_000_000,
    ;
    let m = ((secs / 60) % 60) as u64;
    let h = (secs / 3600) as u64;
    let mut r = String::from_str("Resets in ");
    if h >= 24 {
        push_decimal(&mut r, h / 24);
        r.append("d ");
        push_decimal(&mut r, h % 24);
        r.append("h");
    } else if h > 0 {
        push_decimal(&mut r, h);
        r.append(" hr ");
        push_decimal(&mut r, m);
        r.append(" min");
    } else {
        push_decimal(&mut r, m);
        r.append(" min");
    }
    r
}

/// The instant an RFC 3339 timestamp denotes, as seconds since the Unix
/// epoch and nanoseconds within the second; none when `s` is not RFC 3339.
pub uninterp spec fn rfc3339_instant(s: Seq<char>) -> Option<(i64, u32)>;

/// `chrono::DateTime::parse_from_rfc3339`, read as `timestamp()` and
/// `timestamp_subsec_nanos()`: the named instant of the text.
#[verifier::external_body]
fn parse_rfc3339(s: &str) -> (r: Option<(i64, u32)>)
    ensures
        r == rfc3339_instant(s@),
{
    chrono::DateTime::parse_from_rfc3339(s).ok().map(|dt| (dt.timestamp(), dt.timestamp_subsec_nanos()))
}

/// `std::time::SystemTime::now().duration_since(UNIX_EPOCH)`: the clock's
/// reading as seconds and nanoseconds since the Unix epoch; none when the
/// clock reads before the epoch. Nothing else is stated of the reading: it
/// is the clock's.
#[verifier::external_body]
fn clock_since_epoch() -> (r: Option<(u64, u32)>)
    ensures
        r matches Some(t) ==> t.1 < 1_000_000_000,
{
    std::time::SystemTime::now().duration_since(std::time::UNIX_EPOCH).ok().map(
        |d| (d.as_secs(), d.subsec_nanos()),
    )
}

/// The instant as nanoseconds since the Unix epoch.
pub open spec fn instant_nanos(t: (i64, u32)) -> int {
    t.0 * 1_000_000_000 + t.1
}

/// Whole seconds from `now` until `at`, rounded toward zero.
pub open spec fn secs_until(at: (i64, u32), now: (i64, u32)) -> int {
    let d = instant_nanos(at) - instant_nanos(now);
    if d >= 0 {
        d / 1_000_000_000
    } else {
        -((-d) / 1_000_000_000)
    }
}

/// The countdown text for the reset time `resets_at` seen at `now`: empty
/// when there is no reset time or it is not RFC 3339.
pub open spec fn time_left_text(resets_at: Option<Seq<char>>, now: (i64, u32)) -> Seq<char> {
    match resets_at {
        None => seq![],
        Some(s) => match rfc3339_instant(s) {
            None => seq![],
            Some(at) => countdown_text(secs_until(at, now)),
        },
    }
}

/// An optional text as plain characters.
pub open spec fn opt_text(o: Option<&str>) -> Option<Seq<char>> {
    match o {
        Some(s) => Some(s@),
        None => None,
    }
}

/// The countdown for the reset time `resets_at` seen at the instant `now`.
pub fn time_left_at(resets_at: Option<&str>, now: (i64, u32)) -> (r: String)
    ensures
        r@ == time_left_text(opt_text(resets_at), now),
{
    let s = match resets_at {
        Some(s) => s,
        None => {
            return String::new();
        },
    };
    let at = match parse_rfc3339(s) {
        Some(at) => at,
        None => {
            return String::new();
        },
    };
    let d: i128 = (at.0 as i128 * 1_000_000_000 + at.1 as i128) - (now.0 as i128 * 1_000_000_000
        + now.1 as i128);
    let secs: i128 = if d >= 0 {
        d / 1_000_000_000
    } else {
        -((-d) / 1_000_000_000)
    };
    if d >= 0 {
        assert(d / 1_000_000_000 <= 100_000_000_000_000_000_000) by (nonlinear_arith)
            requires
                0 <= d <= 20_000_000_000_000_000_000_000_000_000,
        ;
    }
    countdown(secs)
}

/// The countdown for the reset time `resets_at` given a clock reading
/// (seconds and nanoseconds since the Unix epoch): none, or one past the
/// range of a timestamp, shows no countdown.
pub open spec fn time_left_reading_text(resets_at: Option<Seq<char>>, reading: Option<(u64, u32)>) -> Seq<
    char,
> {
    match reading {
        Some(t) => if t.0 <= i64::MAX {
            time_left_text(resets_at, (t.0 as i64, t.1))
        } else {
            seq![]
        },
        None => seq![],
    }
}

/// The countdown for the reset time `resets_at` given the clock reading
/// `reading` (none when the clock reads before 1970).
pub fn time_left_with_reading(resets_at: Option<&str>, reading: Option<(u64, u32)>) -> (r: String)
    ensures
        r@ == time_left_reading_text(opt_text(resets_at), reading),
{
    match reading {
        Some(t) => if t.0 <= 9_223_372_036_854_775_807u64 {
            time_left_at(resets_at, (t.0 as i64, t.1))
        } else {
            String::new()
        },
        None => String::new(),
    }
}

/// The countdown for the reset time `resets_at`, seen now: for whatever
/// the clock reads, the countdown that reading gives.
pub fn time_left(resets_at: Option<&str>) -> (r: String)
    ensures
        exists|reading: Option<(u64, u32)>| r@ == time_left_reading_text(opt_text(resets_at), reading),
{
    let reading = clock_since_epoch();
    time_left_with_reading(resets_at, reading)
}

/// The footer text for data fetched `ago` seconds ago.
pub open spec fn updated_ago_text(ago: int) -> Seq<char> {
    if ago < 60 {
        "Last updated: just now"@
    } else if ago < 3600 {
        "Last updated: "@ + dec(ago / 60) + " minute"@ + (if ago / 60 != 1 {
            "s"@
        } else {
            seq![]
        }) + " ago"@
    } else {
        "Last updated: "@ + dec(ago / 3600) + " hour"@ + (if ago / 3600 != 1 {
            "s"@
        } else {
            seq![]
        }) + " ago"@
    }
}

/// Within a minute the footer says "just now".
pub proof fn law_updated_just_now(ago: int)
    requires
        ago < 60,
    ensures
        updated_ago_text(ago) == "Last updated: just now"@,
{
}

/// From one minute to one hour the footer counts whole minutes:
/// `floor(ago / 60)`, "minute" only for exactly one.
pub proof fn law_updated_minutes(ago: int)
    requires
        60 <= ago < 3600,
    ensures
        updated_ago_text(ago) == "Last updated: "@ + decimal((ago / 60) as nat) + (if ago >= 120 {
            " minutes ago"@
        } else {
            " minute ago"@
        }),
{
    reveal_strlit(" minute");
    reveal_strlit("s");
    reveal_strlit(" ago");
    reveal_strlit(" minutes ago");
    reveal_strlit(" minute ago");
    let n = decimal((ago / 60) as nat);
    if ago >= 120 {
        assert(" minute"@ + "s"@ + " ago"@ =~= " minutes ago"@);
        assert("Last updated: "@ + n + " minute"@ + "s"@ + " ago"@ =~= "Last updated: "@ + n + " minutes ago"@);
    } else {
        assert(" minute"@ + seq![] + " ago"@ =~= " minute ago"@);
        assert("Last updated: "@ + n + " minute"@ + seq![] + " ago"@ =~= "Last updated: "@ + n + " minute ago"@);
    }
}

/// From one hour on the footer counts whole hours, without bound:
/// `floor(ago / 3600)`, "hour" only for exactly one.
pub proof fn law_updated_hours(ago: int)
    requires
        ago >= 3600,
    ensures
        updated_ago_text(ago) == "Last updated: "@ + decimal((ago / 3600) as nat) + (if ago >= 7200 {
            " hours ago"@
        } else {
            " hour ago"@
        }),
{
    reveal_strlit(" hour");
    reveal_strlit("s");
    reveal_strlit(" ago");
    reveal_strlit(" hours ago");
    reveal_strlit(" hour ago");
    let n = decimal((ago / 3600) as nat);
    if ago >= 7200 {
        assert(" hour"@ + "s"@ + " ago"@ =~= " hours ago"@);
        assert("Last updated: "@ + n + " hour"@ + "s"@ + " ago"@ =~= "Last updated: "@ + n + " hours ago"@);
    } else {
        assert(" hour"@ + seq![] + " ago"@ =~= " hour ago"@);
        assert("Last updated: "@ + n + " hour"@ + seq![] + " ago"@ =~= "Last updated: "@ + n + " hour ago"@);
    }
}

/// The footer text for data fetched `ago` seconds ago.
pub fn updated_ago(ago: u64) -> (r: String)
    ensures
        r@ == updated_ago_text(ago as int),
{
    if ago < 60 {
        return String::from_str("Last updated: just now");
    }
    let mut r = String::from_str("Last updated: ");
    if ago < 3600 {
        let m = ago / 60;
        push_decimal(&mut r, m);
        r.append(" minute");
        if m != 1 {
            r.append("s");
        }
    } else {
        let h = ago / 3600;
        push_decimal(&mut r, h);
        r.append(" hour");
        if h != 1 {
            r.append("s");
        }
    }
    r.append(" ago");
    proof {
        reveal_strlit("s");
    }
    r
}


/// Whether it is time to fetch again: never while the user has been idle
/// for more than a minute; otherwise when no fetch has started yet or the
/// last one started at least `refresh_secs` seconds ago.
pub fn should_refresh(idle_secs: Option<u64>, since_last_start: Option<u64>, refresh_secs: u64) -> (r:
    bool)
    ensures
        r == (!(idle_secs matches Some(i) && i > idle_threshold_secs()) && match since_last_start {
            Some(e) => e >= refresh_secs,
            None => true,
        }),
{
    if let Some(idle) = idle_secs {
        if idle > 60 {
            return false;
        }
    }
    match since_last_start {
        Some(elapsed) => elapsed >= refresh_secs,
        None => true,
    }
}

/// Whether a fetch starts, and whether it also asks for the account name:
/// it needs a chosen browser and no fetch under way; the name is asked for
/// while the title is not given and no name is waiting to be shown.
pub fn fetch_plan(
    browser: Option<BrowserKind>,
    fetching: bool,
    title_explicit: bool,
    name_pending: bool,
) -> (r: Option<bool>)
    ensures
        (browser is None || fetching) ==> r is None,
        browser is Some && !fetching ==> r == Some(!title_explicit && !name_pending),
{
    if browser.is_none() || fetching {
        return None;
    }
    Some(!title_explicit && !name_pending)
}

/// What the widget shows after a fetch: a success always replaces what
/// was shown; a failure is shown only when no success is.
pub open spec fn shown_after<T>(shown: Option<Result<T, String>>, result: Result<T, String>) -> Option<
    Result<T, String>,
> {
    match result {
        Ok(_) => Some(result),
        Err(_) => match shown {
            Some(Ok(_)) => shown,
            _ => Some(result),
        },
    }
}

/// How the display reacts to a fetch result.
pub struct FetchEffect {
    /// The data is fresh: the "last updated" time restarts.
    pub fetched: bool,
    /// The first success after none: the bars animate in.
    pub animate: bool,
}

/// Takes a fetch result into what is shown.
pub fn apply_fetch_result<T>(shown: &mut Option<Result<T, String>>, result: Result<T, String>) -> (e:
    FetchEffect)
    ensures
        *final(shown) == shown_after(*old(shown), result),
        e.fetched == (result is Ok),
        e.animate == (result is Ok && !(*old(shown) matches Some(Ok(_)))),
{
    match result {
        Ok(data) => {
            let first_success = match shown {
                Some(Ok(_)) => false,
                _ => true,
            };
            *shown = Some(Ok(data));
            FetchEffect { fetched: true, animate: first_success }
        },
        Err(e) => {
            let keep = match shown {
                Some(Ok(_)) => true,
                _ => false,
            };
            if !keep {
                *shown = Some(Err(e));
            }
            FetchEffect { fetched: false, animate: false }
        },
    }
}

/// What is shown after a sequence of fetch results.
pub open spec fn shown_after_all<T>(shown: Option<Result<T, String>>, results: Seq<Result<T, String>>) -> Option<
    Result<T, String>,
>
    decreases results.len(),
{
    if results.len() == 0 {
        shown
    } else {
        shown_after(shown_after_all(shown, results.drop_last()), results.last())
    }
}

/// Once data has been fetched successfully, failed fetches never replace
/// it: after any run of failures the last success is still shown.
pub proof fn law_failures_keep_success<T>(data: T, failures: Seq<String>)
    ensures
        shown_after_all(
            Some(Ok::<T, String>(data)),
            failures.map_values(|e: String| Err::<T, String>(e)),
        ) == Some(Ok::<T, String>(data)),
    decreases failures.len(),
{
    if failures.len() > 0 {
        law_failures_keep_success(data, failures.drop_last());
        assert(failures.map_values(|e: String| Err::<T, String>(e)).drop_last() =~= failures.drop_last().map_values(
            |e: String| Err::<T, String>(e),
        ));
    }
}

/// The title after a fetch brought the account name: the name, unless
/// the title was given on the command line.
pub fn apply_account_name(title: &mut String, title_explicit: bool, name: String)
    ensures
        title_explicit ==> *final(title) == *old(title),
        !title_explicit ==> *final(title) == name,
{
    if !title_explicit {
        *title = name;
    }
}

/// The preferences in effect.
#[derive(Clone, Copy, Debug, PartialEq, Eq, Structural)]
pub struct Settings {
    pub refresh_secs: u64,
    pub always_on_top: bool,
    pub all_workspaces: bool,
}

/// The preferences a saved configuration gives: every five minutes, on
/// top, on all workspaces, unless saved otherwise.
pub open spec fn settings_of(c: Config) -> Settings {
    Settings {
        refresh_secs: match c.refresh_secs {
            Some(v) => v,
            None => default_refresh_secs(),
        },
        always_on_top: match c.always_on_top {
            Some(v) => v,
            None => true,
        },
        all_workspaces: match c.all_workspaces {
            Some(v) => v,
            None => true,
        },
    }
}

/// The configuration saving `s`, keeping what else `saved` holds.
pub open spec fn config_of(s: Settings, saved: Config) -> Config {
    Config {
        refresh_secs: Some(s.refresh_secs),
        always_on_top: Some(s.always_on_top),
        all_workspaces: Some(s.all_workspaces),
        chromium_prompted_exe: saved.chromium_prompted_exe,
    }
}

impl Settings {
    /// The preferences from the saved configuration.
    pub fn from_config(c: &Config) -> (s: Settings)
        ensures
            s == settings_of(*c),
    {
        Settings {
            refresh_secs: match c.refresh_secs {
                Some(v) => v,
                None => 300,
            },
            always_on_top: match c.always_on_top {
                Some(v) => v,
                None => true,
            },
            all_workspaces: match c.all_workspaces {
                Some(v) => v,
                None => true,
            },
        }
    }

    /// The configuration to save: these preferences, keeping what else
    /// `saved` holds.
    pub fn to_config(&self, saved: &Config) -> (c: Config)
        ensures
            c == config_of(*self, *saved),
    {
        Config {
            refresh_secs: Some(self.refresh_secs),
            always_on_top: Some(self.always_on_top),
            all_workspaces: Some(self.all_workspaces),
            chromium_prompted_exe: saved.chromium_prompted_exe.clone(),
        }
    }
}

/// Saved preferences are the preferences loaded back: saving and then
/// loading gives the same settings, whatever else the file held.
pub proof fn law_settings_round_trip(s: Settings, saved: Config)
    ensures
        settings_of(config_of(s, saved)) == s,
{
}

/// Loading and saving again changes nothing in a file that holds every
/// preference.
pub proof fn law_config_round_trip(c: Config)
    requires
        c.refresh_secs is Some,
        c.always_on_top is Some,
        c.all_workspaces is Some,
    ensures
        config_of(settings_of(c), c) == c,
{
}

/// The choices of the refresh-interval menu: seconds and label.
pub fn refresh_options() -> (r: Vec<(u64, &'static str)>)
    ensures
        r@.len() == 6,
        r@[0].0 == 60 && r@[0].1@ == "1 min"@,
        r@[1].0 == 120 && r@[1].1@ == "2 min"@,
        r@[2].0 == 300 && r@[2].1@ == "5 min"@,
        r@[3].0 == 600 && r@[3].1@ == "10 min"@,
        r@[4].0 == 900 && r@[4].1@ == "15 min"@,
        r@[5].0 == 1800 && r@[5].1@ == "30 min"@,
{
    vec![
        (60, "1 min"),
        (120, "2 min"),
        (300, "5 min"),
        (600, "10 min"),
        (900, "15 min"),
        (1800, "30 min"),
    ]
}

/// The weekly limits the usage data may hold, in display order: key and
/// label.
pub open spec fn weekly_limits() -> Seq<(Seq<char>, Seq<char>)> {
    seq![
        ("seven_day"@, "All models"@),
        ("seven_day_opus"@, "Opus"@),
        ("seven_day_sonnet"@, "Sonnet"@),
        ("seven_day_cowork"@, "Cowork"@),
    ]
}

fn has_key(keys: &Vec<String>, key: &str) -> (r: bool)
    ensures
        r == keys@.map_values(|k: String| k@).contains(key@),
{
    let ghost kv = keys@.map_values(|k: String| k@);
    let mut i: usize = 0;
    while i < keys.len()
        invariant
            kv == keys@.map_values(|k: String| k@),
            0 <= i <= keys.len(),
            forall|j: int| 0 <= j < i ==> kv[j] != key@,
        decreases keys.len() - i,
    {
        if str_eq(keys[i].as_str(), key) {
            assert(kv[i as int] == key@);
            return true;
        }
        i = i + 1;
    }
    false
}

/// The sections the usage data fills, given the keys it holds: whether
/// the current-session bar (`five_hour`) shows, and the weekly bars that
/// show (key and label, in display order). The "Weekly limits" heading
/// shows when there is at least one weekly bar.
pub fn usage_sections(keys: &Vec<String>) -> (r: (bool, Vec<(&'static str, &'static str)>))
    ensures
        r.0 == keys@.map_values(|k: String| k@).contains("five_hour"@),
        r.1@.map_values(|w: (&str, &str)| (w.0@, w.1@)) == weekly_limits().filter(
            |w: (Seq<char>, Seq<char>)| keys@.map_values(|k: String| k@).contains(w.0),
        ),
{
    let ghost kv = keys@.map_values(|k: String| k@);
    let ghost pred = |w: (Seq<char>, Seq<char>)| kv.contains(w.0);
    let five = has_key(keys, "five_hour");
    let all: [(&'static str, &'static str); 4] = [
        ("seven_day", "All models"),
        ("seven_day_opus", "Opus"),
        ("seven_day_sonnet", "Sonnet"),
        ("seven_day_cowork", "Cowork"),
    ];
    assert(all@.map_values(|w: (&str, &str)| (w.0@, w.1@)) =~= weekly_limits());
    let mut weekly: Vec<(&'static str, &'static str)> = Vec::new();
    let mut i: usize = 0;
    while i < 4
        invariant
            kv == keys@.map_values(|k: String| k@),
            pred == (|w: (Seq<char>, Seq<char>)| kv.contains(w.0)),
            all@.map_values(|w: (&str, &str)| (w.0@, w.1@)) == weekly_limits(),
            0 <= i <= 4,
            weekly@.map_values(|w: (&str, &str)| (w.0@, w.1@)) == weekly_limits().take(i as int).filter(pred),
        decreases 4 - i,
    {
        reveal_with_fuel(Seq::<_>::filter, 1);
        assert(weekly_limits().take(i + 1).drop_last() =~= weekly_limits().take(i as int));
        assert(weekly_limits()[i as int] == (all@[i as int].0@, all@[i as int].1@));
        if has_key(keys, all[i].0) {
            let ghost before = weekly@;
            weekly.push(all[i]);
            assert(weekly@.map_values(|w: (&str, &str)| (w.0@, w.1@)) =~= before.map_values(
                |w: (&str, &str)| (w.0@, w.1@),
            ).push(weekly_limits()[i as int]));
        }
        i = i + 1;
    }
    assert(weekly_limits().take(4) =~= weekly_limits());
    (five, weekly)
}

} // verus!
