//! `au status`: which providers to probe and how their usage reads.

use vstd::prelude::*;

use crate::plugin_runtime::manifest::LoadedPlugin;
use crate::snapshot::{ProviderRec, ProviderStatus, UsagePeriod};

verus! {

/// The arguments of `au status`.
#[derive(Debug, Clone)]
pub struct StatusArgs {
    /// Machine-readable JSON.
    pub json: bool,
    /// Only this provider.
    pub provider: Option<String>,
    /// A Markdown table.
    pub markdown: bool,
}

/// How `au status` reports.
#[derive(Debug, Clone, Copy, PartialEq, Eq, Structural)]
pub enum OutputFormat {
    Json,
    Markdown,
    Human,
}

/// JSON wins over Markdown, Markdown over the human-readable summary.
pub fn output_format(args: &StatusArgs) -> (r: OutputFormat)
    ensures
        r == if args.json {
            OutputFormat::Json
        } else if args.markdown {
            OutputFormat::Markdown
        } else {
            OutputFormat::Human
        },
{
    if args.json {
        OutputFormat::Json
    } else if args.markdown {
        OutputFormat::Markdown
    } else {
        OutputFormat::Human
    }
}

/// `au status --provider` named a provider that no plugin provides.
#[derive(Debug, Clone)]
pub struct ProviderNotFound {
    pub provider_id: String,
}

/// The plugins whose id is `id`, in order.
pub open spec fn plugins_with_id(plugins: Seq<LoadedPlugin>, id: Seq<char>) -> Seq<LoadedPlugin>
    decreases plugins.len(),
{
    if plugins.len() == 0 {
        Seq::empty()
    } else {
        plugins_with_id(plugins.drop_last(), id) + if plugins.last().manifest.id@ == id {
            seq![plugins.last()]
        } else {
            Seq::empty()
        }
    }
}

/// The plugins to probe: all of them, or those of the provider asked for,
/// which must be at least one.
pub fn select_provider(plugins: Vec<LoadedPlugin>, provider: &Option<String>) -> (r: Result<
    Vec<LoadedPlugin>,
    ProviderNotFound,
>)
    ensures
        match provider {
            None => r matches Ok(v) && v@ == plugins@,
            Some(id) => if plugins_with_id(plugins@, id@).len() == 0 {
                r matches Err(e) && e.provider_id@ == id@
            } else {
                r matches Ok(v) && v@ == plugins_with_id(plugins@, id@)
            },
        },
{
    match provider {
        None => Ok(plugins),
        Some(id) => {
            let ghost all = plugins@;
            let mut rest = plugins;
            let mut kept: Vec<LoadedPlugin> = Vec::new();
            let n = rest.len();
            let mut i: usize = 0;
            while i < n
                invariant
                    n == all.len(),
                    i <= n,
                    rest@ == all.skip(i as int),
                    kept@ == plugins_with_id(all.take(i as int), id@),
                decreases n - i,
            {
                let p = rest.remove(0);
                assert(p == all[i as int]);
                assert(all.skip(i as int).drop_first() =~= all.skip(i + 1));
                assert(all.take(i + 1).drop_last() =~= all.take(i as int));
                let ghost before = kept@;
                if p.manifest.id == *id {
                    kept.push(p);
                    assert(kept@ =~= before + seq![all[i as int]]);
                } else {
                    assert(kept@ =~= before + Seq::<LoadedPlugin>::empty());
                }
                i = i + 1;
            }
            assert(all.take(n as int) =~= all);
            if kept.len() == 0 {
                Err(ProviderNotFound { provider_id: id.clone() })
            } else {
                Ok(kept)
            }
        },
    }
}

/// A status's name in JSON output.
pub open spec fn spec_status_name(s: ProviderStatus) -> Seq<char> {
    match s {
        ProviderStatus::Okay => "ok"@,
        ProviderStatus::Error => "error"@,
        ProviderStatus::NotConfigured => "not_configured"@,
    }
}

pub fn status_name(s: ProviderStatus) -> (r: &'static str)
    ensures
        r@ == spec_status_name(s),
{
    match s {
        ProviderStatus::Okay => "ok",
        ProviderStatus::Error => "error",
        ProviderStatus::NotConfigured => "not_configured",
    }
}

/// A status's name in the Markdown table.
pub open spec fn spec_table_status_name(s: ProviderStatus) -> Seq<char> {
    match s {
        ProviderStatus::Okay => "ok"@,
        ProviderStatus::Error => "error"@,
        ProviderStatus::NotConfigured => "notconfigured"@,
    }
}

pub fn table_status_name(s: ProviderStatus) -> (r: &'static str)
    ensures
        r@ == spec_table_status_name(s),
{
    match s {
        ProviderStatus::Okay => "ok",
        ProviderStatus::Error => "error",
        ProviderStatus::NotConfigured => "notconfigured",
    }
}

/// A headroom's name in JSON output.
pub open spec fn spec_rec_name(r: ProviderRec) -> Seq<char> {
    match r {
        ProviderRec::Sufficient => "sufficient"@,
        ProviderRec::Low => "low"@,
        ProviderRec::Exhausted => "exhausted"@,
        ProviderRec::Unknown => "unknown"@,
    }
}

pub fn rec_name(r: ProviderRec) -> (s: &'static str)
    ensures
        s@ == spec_rec_name(r),
{
    match r {
        ProviderRec::Sufficient => "sufficient",
        ProviderRec::Low => "low",
        ProviderRec::Exhausted => "exhausted",
        ProviderRec::Unknown => "unknown",
    }
}

/// The human-readable summary hides providers that are not configured or
/// failed, unless it is verbose.
pub fn shown_in_summary(status: ProviderStatus, verbose: bool) -> (r: bool)
    ensures
        r == (verbose || status == ProviderStatus::Okay),
{
    verbose || status == ProviderStatus::Okay
}

/// Bit pattern of the double `0.5`.
pub const FRACTION_HALF: u64 = 0x3FE0_0000_0000_0000;

/// Bit pattern of the double `0.2`.
pub const FRACTION_FIFTH: u64 = 0x3FC9_9999_9999_999A;

/// The colour of a usage bar.
#[derive(Debug, Clone, Copy, PartialEq, Eq, Structural)]
pub enum Tone {
    /// Green: more than half left.
    Good,
    /// Yellow: more than a fifth left.
    Warning,
    /// Red.
    Critical,
}

pub fn bar_tone(remaining_fraction: u64) -> (r: Tone)
    ensures
        r == if remaining_fraction > FRACTION_HALF {
            Tone::Good
        } else if remaining_fraction > FRACTION_FIFTH {
            Tone::Warning
        } else {
            Tone::Critical
        },
{
    if remaining_fraction > FRACTION_HALF {
        Tone::Good
    } else if remaining_fraction > FRACTION_FIFTH {
        Tone::Warning
    } else {
        Tone::Critical
    }
}

/// Which numbers a period's line shows.
#[derive(Debug, Clone, Copy, PartialEq, Eq, Structural)]
pub enum UsageDisplay {
    /// Tokens used of the limit.
    Tokens,
    /// Dollars spent of the limit.
    Cost,
    /// The remaining percentage.
    Percent,
}

/// Tokens where both are known, else dollars where both are known, else the
/// remaining percentage.
pub fn usage_display(p: &UsagePeriod) -> (r: UsageDisplay)
    ensures
        r == if p.tokens_used is Some && p.tokens_limit is Some {
            UsageDisplay::Tokens
        } else if p.cost_usd is Some && p.cost_limit_usd is Some {
            UsageDisplay::Cost
        } else {
            UsageDisplay::Percent
        },
{
    if p.tokens_used.is_some() && p.tokens_limit.is_some() {
        UsageDisplay::Tokens
    } else if p.cost_usd.is_some() && p.cost_limit_usd.is_some() {
        UsageDisplay::Cost
    } else {
        UsageDisplay::Percent
    }
}

/// A time left, as the summary words it.
#[derive(Debug, Clone, Copy, PartialEq, Eq, Structural)]
pub enum Countdown {
    /// No time left ("soon").
    Soon,
    DaysHours { days: i64, hours: i64 },
    HoursMinutes { hours: i64, minutes: i64 },
    Minutes { minutes: i64 },
}

/// The time until a period resets, from the whole minutes left: days and hours
/// where a day or more is left, else hours and minutes where an hour or more,
/// else minutes.
pub open spec fn spec_reset_countdown(total_minutes: int) -> Countdown {
    if total_minutes <= 0 {
        Countdown::Soon
    } else {
        let days = total_minutes / 1440;
        let hours = (total_minutes % 1440) / 60;
        let minutes = total_minutes % 60;
        if days > 0 {
            Countdown::DaysHours { days: days as i64, hours: hours as i64 }
        } else if hours > 0 {
            Countdown::HoursMinutes { hours: hours as i64, minutes: minutes as i64 }
        } else {
            Countdown::Minutes { minutes: minutes as i64 }
        }
    }
}

pub fn reset_countdown(total_minutes: i64) -> (r: Countdown)
    ensures
        r == spec_reset_countdown(total_minutes as int),
{
    if total_minutes <= 0 {
        return Countdown::Soon;
    }
    let days = total_minutes / 1440;
    let hours = (total_minutes % 1440) / 60;
    let minutes = total_minutes % 60;
    if days > 0 {
        Countdown::DaysHours { days, hours }
    } else if hours > 0 {
        Countdown::HoursMinutes { hours, minutes }
    } else {
        Countdown::Minutes { minutes }
    }
}

/// The time until a period runs out at the current rate, from the whole
/// minutes left: minutes under an hour, else hours and minutes.
pub open spec fn spec_runs_out_countdown(minutes: int) -> Countdown {
    if minutes <= 0 {
        Countdown::Soon
    } else if minutes < 60 {
        Countdown::Minutes { minutes: minutes as i64 }
    } else {
        Countdown::HoursMinutes { hours: (minutes / 60) as i64, minutes: (minutes % 60) as i64 }
    }
}

pub fn runs_out_countdown(minutes: i64) -> (r: Countdown)
    ensures
        r == spec_runs_out_countdown(minutes as int),
{
    if minutes <= 0 {
        Countdown::Soon
    } else if minutes < 60 {
        Countdown::Minutes { minutes }
    } else {
        Countdown::HoursMinutes { hours: minutes / 60, minutes: minutes % 60 }
    }
}

/// The characters of `s` other than `_`, in order.
pub open spec fn without_underscores(s: Seq<char>) -> Seq<char>
    decreases s.len(),
{
    if s.len() == 0 {
        Seq::empty()
    } else {
        without_underscores(s.drop_last()) + if s.last() == '_' {
            Seq::empty()
        } else {
            seq![s.last()]
        }
    }
}

/// Status names tell statuses apart, in JSON and in the table alike; the
/// table's name is the JSON one without its underscores, all lower-case
/// letters.
pub proof fn lemma_status_names(a: ProviderStatus, b: ProviderStatus)
    ensures
        spec_status_name(a) == spec_status_name(b) ==> a == b,
        spec_table_status_name(a) == spec_table_status_name(b) ==> a == b,
        spec_table_status_name(a) == without_underscores(spec_status_name(a)),
        forall|i: int|
            0 <= i < spec_table_status_name(a).len() ==> 'a' <= #[trigger] spec_table_status_name(
                a,
            )[i] <= 'z',
{
    reveal_strlit("ok");
    reveal_strlit("error");
    reveal_strlit("not_configured");
    reveal_strlit("notconfigured");
    reveal_with_fuel(without_underscores, 16);
    assert(without_underscores("ok"@) =~= "ok"@);
    assert(without_underscores("error"@) =~= "error"@);
    assert(without_underscores("not_configured"@) =~= "notconfigured"@);
}

/// A reset countdown adds back up to the minutes left: days and hours where a
/// day or more is left (the minutes dropped), hours and minutes where an hour
/// or more, else the minutes alone; "soon" only where none are left.
pub proof fn lemma_reset_countdown_parts(m: int)
    requires
        i64::MIN <= m <= i64::MAX,
    ensures
        match spec_reset_countdown(m) {
            Countdown::Soon => m <= 0,
            Countdown::DaysHours { days, hours } => {
                &&& days >= 1
                &&& 0 <= hours < 24
                &&& days * 1440 + hours * 60 <= m < days * 1440 + hours * 60 + 60
            },
            Countdown::HoursMinutes { hours, minutes } => {
                &&& 1 <= hours < 24
                &&& 0 <= minutes < 60
                &&& hours * 60 + minutes == m
            },
            Countdown::Minutes { minutes } => 0 < minutes < 60 && minutes == m,
        },
{
    if m > 0 {
        let days = m / 1440;
        let rest = m % 1440;
        assert(m == days * 1440 + rest && 0 <= rest < 1440);
        assert(rest == (rest / 60) * 60 + m % 60) by {
            assert(m % 60 == rest % 60) by (nonlinear_arith)
                requires
                    m == days * 1440 + rest,
                    0 <= rest,
                    days >= 0,
            ;
        }
    }
}

/// A run-out countdown adds back up to the minutes left: the minutes alone
/// under an hour, else hours and minutes; "soon" only where none are left.
pub proof fn lemma_runs_out_countdown_parts(m: int)
    requires
        i64::MIN <= m <= i64::MAX,
    ensures
        match spec_runs_out_countdown(m) {
            Countdown::Soon => m <= 0,
            Countdown::DaysHours { .. } => false,
            Countdown::HoursMinutes { hours, minutes } => {
                &&& hours >= 1
                &&& 0 <= minutes < 60
                &&& hours * 60 + minutes == m
            },
            Countdown::Minutes { minutes } => 0 < minutes < 60 && minutes == m,
        },
{
}

} // verus!
