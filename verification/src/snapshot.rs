//! Provider snapshots: what a probe's lines say about a provider's usage.
//!
//! A remaining fraction lies in `[0, 1]` and is carried as the bit pattern of
//! its IEEE-754 double. On that range the bit patterns order exactly as the
//! numbers do, so `a > b` between two such patterns is `a > b` between the
//! fractions.

use vstd::prelude::*;

use crate::plugin_runtime::manifest::{ManifestLine, PluginManifest};
use crate::plugin_runtime::runtime::{MetricLine, PluginOutput, ProgressFormat};
use crate::text::{copy_opt, opt_view, str_eq};

verus! {

/// Whether a provider could be probed.
#[derive(Debug, Clone, Copy, PartialEq, Eq, Structural)]
pub enum ProviderStatus {
    Okay,
    Error,
    NotConfigured,
}

/// How much headroom a provider has left.
#[derive(Debug, Clone, Copy, PartialEq, Eq, Structural)]
pub enum ProviderRec {
    Sufficient,
    Low,
    Exhausted,
    Unknown,
}

/// Bit pattern of the double `0.3`: above it a provider has sufficient headroom.
pub const FRACTION_SUFFICIENT: u64 = 0x3FD3_3333_3333_3333;

/// Bit pattern of the double `0.05`: at or below it a provider is exhausted.
pub const FRACTION_LOW: u64 = 0x3FA9_9999_9999_999A;

/// One usage period (a session or a week). The doubles of the probe are carried
/// as bit patterns.
#[derive(Debug, Clone)]
pub struct UsagePeriod {
    pub tokens_used: Option<u64>,
    pub tokens_limit: Option<u64>,
    pub remaining_fraction: u64,
    pub cost_usd: Option<u64>,
    pub cost_limit_usd: Option<u64>,
    pub requests_count: Option<u64>,
    pub resets_at: Option<String>,
    pub period_duration_ms: Option<u64>,
}

pub struct UsagePeriodView {
    pub tokens_used: Option<u64>,
    pub tokens_limit: Option<u64>,
    pub remaining_fraction: u64,
    pub cost_usd: Option<u64>,
    pub cost_limit_usd: Option<u64>,
    pub requests_count: Option<u64>,
    pub resets_at: Option<Seq<char>>,
    pub period_duration_ms: Option<u64>,
}

impl View for UsagePeriod {
    type V = UsagePeriodView;

    open spec fn view(&self) -> UsagePeriodView {
        UsagePeriodView {
            tokens_used: self.tokens_used,
            tokens_limit: self.tokens_limit,
            remaining_fraction: self.remaining_fraction,
            cost_usd: self.cost_usd,
            cost_limit_usd: self.cost_limit_usd,
            requests_count: self.requests_count,
            resets_at: opt_view(self.resets_at),
            period_duration_ms: self.period_duration_ms,
        }
    }
}

/// What a probe said about one provider.
#[derive(Debug, Clone)]
pub struct ProviderSnapshot {
    pub id: String,
    pub display_name: String,
    pub status: ProviderStatus,
    pub plan: Option<String>,
    pub session: Option<UsagePeriod>,
    pub weekly: Option<UsagePeriod>,
    pub recommendation: ProviderRec,
}

pub struct ProviderSnapshotView {
    pub id: Seq<char>,
    pub display_name: Seq<char>,
    pub status: ProviderStatus,
    pub plan: Option<Seq<char>>,
    pub session: Option<UsagePeriodView>,
    pub weekly: Option<UsagePeriodView>,
    pub recommendation: ProviderRec,
}

pub open spec fn opt_period_view(p: Option<UsagePeriod>) -> Option<UsagePeriodView> {
    match p {
        Some(u) => Some(u@),
        None => None,
    }
}

impl View for ProviderSnapshot {
    type V = ProviderSnapshotView;

    open spec fn view(&self) -> ProviderSnapshotView {
        ProviderSnapshotView {
            id: self.id@,
            display_name: self.display_name@,
            status: self.status,
            plan: opt_view(self.plan),
            session: opt_period_view(self.session),
            weekly: opt_period_view(self.weekly),
            recommendation: self.recommendation,
        }
    }
}

/// The period that a progress line describes: a dollar line gives costs, a
/// percent line neither tokens nor costs, a count line (the default) tokens.
pub open spec fn spec_period(
    used: u64,
    limit: u64,
    remaining: u64,
    format: Option<ProgressFormat>,
    resets_at: Option<Seq<char>>,
    period_duration_ms: Option<u64>,
) -> UsagePeriodView {
    let dollars = format matches Some(ProgressFormat::Dollars);
    let percent = format matches Some(ProgressFormat::Percent);
    let count = !dollars && !percent;
    UsagePeriodView {
        tokens_used: if count { Some(used) } else { None },
        tokens_limit: if count { Some(limit) } else { None },
        remaining_fraction: remaining,
        cost_usd: if dollars { Some(used) } else { None },
        cost_limit_usd: if dollars { Some(limit) } else { None },
        requests_count: None,
        resets_at,
        period_duration_ms,
    }
}

/// The period of a progress line.
pub open spec fn line_period(line: MetricLine) -> UsagePeriodView
    recommends
        line is Progress,
{
    match line {
        MetricLine::Progress {
            used,
            limit,
            remaining_fraction,
            format,
            resets_at,
            period_duration_ms,
            ..
        } => spec_period(
            used,
            limit,
            remaining_fraction,
            format,
            opt_view(resets_at),
            period_duration_ms,
        ),
        _ => spec_period(0, 0, 0, None, None, None),
    }
}

/// The headroom of a period's remaining fraction: above 0.3 sufficient, above
/// 0.05 low, else exhausted.
pub open spec fn rec_for_fraction(remaining: u64) -> ProviderRec {
    if remaining > FRACTION_SUFFICIENT {
        ProviderRec::Sufficient
    } else if remaining > FRACTION_LOW {
        ProviderRec::Low
    } else {
        ProviderRec::Exhausted
    }
}

/// The headroom of the session period, or else of the weekly one.
pub open spec fn spec_recommendation(
    session: Option<UsagePeriodView>,
    weekly: Option<UsagePeriodView>,
) -> ProviderRec {
    match session {
        Some(p) => rec_for_fraction(p.remaining_fraction),
        None => match weekly {
            Some(p) => rec_for_fraction(p.remaining_fraction),
            None => ProviderRec::Unknown,
        },
    }
}

/// The primary order that the manifest declares for a label: that of the last
/// line with this label that declares one.
pub open spec fn declared_order(mlines: Seq<ManifestLine>, label: Seq<char>) -> Option<u32>
    decreases mlines.len(),
{
    if mlines.len() == 0 {
        None
    } else if mlines.last().label@ == label && mlines.last().primary_order is Some {
        mlines.last().primary_order
    } else {
        declared_order(mlines.drop_last(), label)
    }
}

/// The number of progress lines.
pub open spec fn count_progress(lines: Seq<MetricLine>) -> nat
    decreases lines.len(),
{
    if lines.len() == 0 {
        0
    } else {
        count_progress(lines.drop_last()) + if lines.last() is Progress {
            1nat
        } else {
            0nat
        }
    }
}

/// The primary order of line `i`: the declared one, or else its position among
/// the progress lines, counting from 1. Lines that are not progress lines have
/// none (-1).
pub open spec fn effective_order(lines: Seq<MetricLine>, mlines: Seq<ManifestLine>, i: int) -> int {
    match lines[i] {
        MetricLine::Progress { label, .. } => match declared_order(mlines, label@) {
            Some(o) => o as int,
            None => count_progress(lines.take(i + 1)) as int,
        },
        _ => -1,
    }
}

/// The first line at or after `start` whose primary order is `order`.
pub open spec fn first_with_order(
    lines: Seq<MetricLine>,
    mlines: Seq<ManifestLine>,
    order: int,
    start: int,
) -> Option<int>
    decreases lines.len() - start,
{
    if start < 0 || start >= lines.len() {
        None
    } else if effective_order(lines, mlines, start) == order {
        Some(start)
    } else {
        first_with_order(lines, mlines, order, start + 1)
    }
}

/// The period of the first line whose primary order is `order`.
pub open spec fn selected_period(
    lines: Seq<MetricLine>,
    mlines: Seq<ManifestLine>,
    order: int,
) -> Option<UsagePeriodView> {
    match first_with_order(lines, mlines, order, 0) {
        Some(k) => Some(line_period(lines[k])),
        None => None,
    }
}

pub open spec fn has_progress(lines: Seq<MetricLine>) -> bool {
    exists|i: int| 0 <= i < lines.len() && #[trigger] lines[i] is Progress
}

/// A badge coloured red ("#ef4444" or "red").
pub open spec fn is_error_badge(line: MetricLine) -> bool {
    match line {
        MetricLine::Badge { color: Some(c), .. } => c@ == "#ef4444"@ || c@ == "red"@,
        _ => false,
    }
}

pub open spec fn has_error_badge(lines: Seq<MetricLine>) -> bool {
    exists|i: int| 0 <= i < lines.len() && #[trigger] is_error_badge(lines[i])
}

/// A snapshot without usage periods.
pub open spec fn bare_snapshot(output: PluginOutput, status: ProviderStatus) -> ProviderSnapshotView {
    ProviderSnapshotView {
        id: output.provider_id@,
        display_name: output.display_name@,
        status,
        plan: opt_view(output.plan),
        session: None,
        weekly: None,
        recommendation: ProviderRec::Unknown,
    }
}

/// The snapshot of a probe's output:
/// - no lines: `Error` if the probe failed, else `NotConfigured`;
/// - no progress line but a red badge: `NotConfigured`;
/// - else `Ok`, with the session period from the line of primary order 1 and
///   the weekly one from primary order 2 (the manifest's order, or else the
///   position among the progress lines), and the headroom of the session
///   period, or else of the weekly one.
pub open spec fn spec_translate(output: PluginOutput, manifest: PluginManifest) -> ProviderSnapshotView {
    let lines = output.lines@;
    let mlines = manifest.lines@;
    if lines.len() == 0 {
        bare_snapshot(
            output,
            if output.error is Some {
                ProviderStatus::Error
            } else {
                ProviderStatus::NotConfigured
            },
        )
    } else if !has_progress(lines) && has_error_badge(lines) {
        bare_snapshot(output, ProviderStatus::NotConfigured)
    } else {
        let session = selected_period(lines, mlines, 1);
        let weekly = selected_period(lines, mlines, 2);
        ProviderSnapshotView {
            id: output.provider_id@,
            display_name: output.display_name@,
            status: ProviderStatus::Okay,
            plan: opt_view(output.plan),
            session,
            weekly,
            recommendation: spec_recommendation(session, weekly),
        }
    }
}

proof fn lemma_first_with_order_skip(
    lines: Seq<MetricLine>,
    mlines: Seq<ManifestLine>,
    order: int,
    start: int,
    k: int,
)
    requires
        0 <= start <= k <= lines.len(),
        forall|j: int| start <= j < k ==> effective_order(lines, mlines, j) != order,
    ensures
        first_with_order(lines, mlines, order, start) == first_with_order(lines, mlines, order, k),
    decreases k - start,
{
    if start < k {
        lemma_first_with_order_skip(lines, mlines, order, start + 1, k);
    }
}

proof fn lemma_no_declared_order(mlines: Seq<ManifestLine>, label: Seq<char>)
    requires
        forall|j: int| 0 <= j < mlines.len() ==> (#[trigger] mlines[j]).primary_order is None,
    ensures
        declared_order(mlines, label) is None,
    decreases mlines.len(),
{
    if mlines.len() > 0 {
        assert(mlines.last() == mlines[mlines.len() - 1]);
        lemma_no_declared_order(mlines.drop_last(), label);
    }
}

proof fn lemma_count_progress_monotone(lines: Seq<MetricLine>, j: int, k: int)
    requires
        0 <= j <= k <= lines.len(),
    ensures
        count_progress(lines.take(j)) <= count_progress(lines.take(k)),
        k < lines.len() && lines[k] is Progress ==> count_progress(lines.take(k + 1))
            == count_progress(lines.take(k)) + 1,
    decreases k - j,
{
    if k < lines.len() {
        assert(lines.take(k + 1).drop_last() =~= lines.take(k));
    }
    if j < k {
        assert(lines.take(k).drop_last() =~= lines.take(k - 1));
        lemma_count_progress_monotone(lines, j, k - 1);
    }
}

proof fn lemma_first_with_order_found(
    lines: Seq<MetricLine>,
    mlines: Seq<ManifestLine>,
    order: int,
    start: int,
    k: int,
)
    requires
        first_with_order(lines, mlines, order, start) == Some(k),
    ensures
        0 <= start <= k < lines.len(),
        effective_order(lines, mlines, k) == order,
    decreases lines.len() - start,
{
    if effective_order(lines, mlines, start) != order {
        lemma_first_with_order_found(lines, mlines, order, start + 1, k);
    }
}

/// Where the manifest declares no primary order, the line of primary order `n`
/// is the `n`-th progress line: the session period comes from the first
/// progress line and the weekly one from the second.
pub proof fn lemma_positional_fallback(
    lines: Seq<MetricLine>,
    mlines: Seq<ManifestLine>,
    order: int,
    k: int,
)
    requires
        forall|j: int| 0 <= j < mlines.len() ==> (#[trigger] mlines[j]).primary_order is None,
        order >= 1,
    ensures
        first_with_order(lines, mlines, order, 0) == Some(k) <==> (0 <= k < lines.len()
            && lines[k] is Progress && count_progress(lines.take(k + 1)) == order),
{
    assert forall|i: int| 0 <= i < lines.len() implies effective_order(lines, mlines, i) == if lines[i] is Progress {
        count_progress(lines.take(i + 1)) as int
    } else {
        -1
    } by {
        if let MetricLine::Progress { label, .. } = lines[i] {
            lemma_no_declared_order(mlines, label@);
        }
    }
    if first_with_order(lines, mlines, order, 0) == Some(k) {
        lemma_first_with_order_found(lines, mlines, order, 0, k);
    }
    if 0 <= k < lines.len() && lines[k] is Progress && count_progress(lines.take(k + 1)) == order {
        assert forall|j: int| 0 <= j < k implies effective_order(lines, mlines, j) != order by {
            if lines[j] is Progress {
                lemma_count_progress_monotone(lines, j + 1, k);
                lemma_count_progress_monotone(lines, k, k);
            }
        }
        lemma_first_with_order_skip(lines, mlines, order, 0, k);
    }
}

/// The progress lines, in order.
pub open spec fn progress_lines(lines: Seq<MetricLine>) -> Seq<MetricLine>
    decreases lines.len(),
{
    if lines.len() == 0 {
        Seq::empty()
    } else {
        progress_lines(lines.drop_last()) + if lines.last() is Progress {
            seq![lines.last()]
        } else {
            Seq::empty()
        }
    }
}

proof fn lemma_progress_lines_basics(lines: Seq<MetricLine>)
    ensures
        progress_lines(lines).len() == count_progress(lines),
        forall|j: int|
            0 <= j < progress_lines(lines).len() ==> #[trigger] progress_lines(lines)[j] is Progress,
        has_progress(lines) <==> count_progress(lines) > 0,
    decreases lines.len(),
{
    if lines.len() > 0 {
        let init = lines.drop_last();
        let n = lines.len();
        lemma_progress_lines_basics(init);
        if has_progress(lines) {
            let i = choose|i: int| 0 <= i < lines.len() && #[trigger] lines[i] is Progress;
            if i < n - 1 {
                assert(init[i] is Progress);
            }
        }
        if has_progress(init) {
            let i = choose|i: int| 0 <= i < init.len() && #[trigger] init[i] is Progress;
            assert(lines[i] == init[i]);
        }
        if lines.last() is Progress {
            assert(lines[n - 1] is Progress);
        }
    }
}

proof fn lemma_count_all_progress(s: Seq<MetricLine>)
    requires
        forall|j: int| 0 <= j < s.len() ==> #[trigger] s[j] is Progress,
    ensures
        count_progress(s) == s.len(),
    decreases s.len(),
{
    if s.len() > 0 {
        let init = s.drop_last();
        assert forall|j: int| 0 <= j < init.len() implies #[trigger] init[j] is Progress by {
            assert(init[j] == s[j]);
        }
        lemma_count_all_progress(init);
        assert(s.last() == s[s.len() - 1]);
    }
}

proof fn lemma_progress_line_position(lines: Seq<MetricLine>, i: int)
    requires
        0 <= i < lines.len(),
        lines[i] is Progress,
    ensures
        1 <= count_progress(lines.take(i + 1)) <= count_progress(lines),
        progress_lines(lines)[count_progress(lines.take(i + 1)) - 1] == lines[i],
    decreases lines.len(),
{
    let init = lines.drop_last();
    let n = lines.len();
    lemma_progress_lines_basics(init);
    if i == n - 1 {
        assert(lines.take(i + 1) =~= lines);
        assert(lines.last() == lines[i]);
    } else {
        assert(lines.take(i + 1) =~= init.take(i + 1));
        assert(init[i] == lines[i]);
        lemma_progress_line_position(init, i);
    }
}

proof fn lemma_progress_line_source(lines: Seq<MetricLine>, p: int)
    requires
        0 <= p < count_progress(lines),
    ensures
        exists|i: int|
            0 <= i < lines.len() && lines[i] is Progress && #[trigger] count_progress(
                lines.take(i + 1),
            ) == p + 1,
    decreases lines.len(),
{
    let init = lines.drop_last();
    let n = lines.len();
    if p < count_progress(init) {
        lemma_progress_line_source(init, p);
        let i = choose|i: int|
            0 <= i < init.len() && init[i] is Progress && #[trigger] count_progress(init.take(i + 1))
                == p + 1;
        assert(lines.take(i + 1) =~= init.take(i + 1));
        assert(lines[i] == init[i]);
    } else {
        assert(lines.take(n as int) =~= lines);
        assert(lines[n - 1] == lines.last());
        assert(count_progress(lines.take((n - 1) + 1)) == p + 1);
    }
}

proof fn lemma_order_in_progress_lines(lines: Seq<MetricLine>, mlines: Seq<ManifestLine>, i: int)
    requires
        0 <= i < lines.len(),
        lines[i] is Progress,
    ensures
        0 <= count_progress(lines.take(i + 1)) - 1 < progress_lines(lines).len(),
        effective_order(progress_lines(lines), mlines, count_progress(lines.take(i + 1)) - 1)
            == effective_order(lines, mlines, i),
{
    let pl = progress_lines(lines);
    let q = count_progress(lines.take(i + 1)) - 1;
    lemma_progress_line_position(lines, i);
    lemma_progress_lines_basics(lines);
    let head = pl.take(q + 1);
    assert forall|j: int| 0 <= j < head.len() implies #[trigger] head[j] is Progress by {
        assert(head[j] == pl[j]);
    }
    lemma_count_all_progress(head);
}

proof fn lemma_first_with_order_from(
    lines: Seq<MetricLine>,
    mlines: Seq<ManifestLine>,
    order: int,
    start: int,
)
    requires
        0 <= start <= lines.len(),
    ensures
        match first_with_order(lines, mlines, order, start) {
            Some(k) => start <= k < lines.len() && effective_order(lines, mlines, k) == order
                && forall|j: int| start <= j < k ==> effective_order(lines, mlines, j) != order,
            None => forall|j: int|
                start <= j < lines.len() ==> effective_order(lines, mlines, j) != order,
        },
    decreases lines.len() - start,
{
    if start < lines.len() && effective_order(lines, mlines, start) != order {
        lemma_first_with_order_from(lines, mlines, order, start + 1);
    }
}

proof fn lemma_selected_period_of_progress_lines(
    lines: Seq<MetricLine>,
    mlines: Seq<ManifestLine>,
    order: int,
)
    requires
        order >= 1,
    ensures
        selected_period(progress_lines(lines), mlines, order) == selected_period(lines, mlines, order),
{
    let pl = progress_lines(lines);
    lemma_progress_lines_basics(lines);
    lemma_first_with_order_from(lines, mlines, order, 0);
    lemma_first_with_order_from(pl, mlines, order, 0);
    match first_with_order(lines, mlines, order, 0) {
        Some(k) => {
            assert(lines[k] is Progress);
            let q = count_progress(lines.take(k + 1)) - 1;
            lemma_order_in_progress_lines(lines, mlines, k);
            lemma_progress_line_position(lines, k);
            assert forall|jp: int| 0 <= jp < q implies effective_order(pl, mlines, jp) != order by {
                lemma_progress_line_source(lines, jp);
                let i = choose|i: int|
                    0 <= i < lines.len() && lines[i] is Progress && #[trigger] count_progress(
                        lines.take(i + 1),
                    ) == jp + 1;
                lemma_order_in_progress_lines(lines, mlines, i);
                if i >= k {
                    lemma_count_progress_monotone(lines, k + 1, i + 1);
                }
            }
            match first_with_order(pl, mlines, order, 0) {
                Some(kp) => {
                    if kp > q {
                        assert(effective_order(pl, mlines, q) != order);
                    }
                },
                None => {
                    assert(effective_order(pl, mlines, q) != order);
                },
            }
        },
        None => {
            assert forall|jp: int|
                0 <= jp < pl.len() implies effective_order(pl, mlines, jp) != order by {
                lemma_progress_line_source(lines, jp);
                let i = choose|i: int|
                    0 <= i < lines.len() && lines[i] is Progress && #[trigger] count_progress(
                        lines.take(i + 1),
                    ) == jp + 1;
                lemma_order_in_progress_lines(lines, mlines, i);
            }
        },
    }
}

/// Where a probe reported a progress line, its snapshot depends on the
/// progress lines alone: text and badge lines, wherever they stand and
/// whatever their colour, change nothing.
pub proof fn lemma_translate_reads_progress_lines(
    output: PluginOutput,
    other: PluginOutput,
    manifest: PluginManifest,
)
    requires
        has_progress(output.lines@),
        progress_lines(other.lines@) == progress_lines(output.lines@),
        other.provider_id@ == output.provider_id@,
        other.display_name@ == output.display_name@,
        opt_view(other.plan) == opt_view(output.plan),
    ensures
        spec_translate(other, manifest) == spec_translate(output, manifest),
{
    lemma_progress_lines_basics(output.lines@);
    lemma_progress_lines_basics(other.lines@);
    let mlines = manifest.lines@;
    lemma_selected_period_of_progress_lines(output.lines@, mlines, 1);
    lemma_selected_period_of_progress_lines(output.lines@, mlines, 2);
    lemma_selected_period_of_progress_lines(other.lines@, mlines, 1);
    lemma_selected_period_of_progress_lines(other.lines@, mlines, 2);
}

/// A line that is not a progress line, inserted anywhere, leaves the progress
/// lines as they are.
pub proof fn lemma_progress_lines_insert(lines: Seq<MetricLine>, p: int, x: MetricLine)
    requires
        0 <= p <= lines.len(),
        !(x is Progress),
    ensures
        progress_lines(lines.insert(p, x)) == progress_lines(lines),
    decreases lines.len(),
{
    let ins = lines.insert(p, x);
    if p == lines.len() {
        assert(ins.drop_last() =~= lines);
        assert(ins.last() == x);
        assert(progress_lines(ins) =~= progress_lines(lines));
    } else {
        let init = lines.drop_last();
        lemma_progress_lines_insert(init, p, x);
        assert(ins.drop_last() =~= init.insert(p, x));
        assert(ins.last() == lines.last());
    }
}

/// Inserting a text or badge line anywhere into the lines of a probe that
/// reported a progress line leaves its snapshot as it is.
pub proof fn lemma_translate_ignores_inserted_line(
    output: PluginOutput,
    other: PluginOutput,
    p: int,
    x: MetricLine,
    manifest: PluginManifest,
)
    requires
        has_progress(output.lines@),
        0 <= p <= output.lines@.len(),
        !(x is Progress),
        other.lines@ == output.lines@.insert(p, x),
        other.provider_id@ == output.provider_id@,
        other.display_name@ == output.display_name@,
        opt_view(other.plan) == opt_view(output.plan),
    ensures
        spec_translate(other, manifest) == spec_translate(output, manifest),
{
    lemma_progress_lines_insert(output.lines@, p, x);
    lemma_translate_reads_progress_lines(output, other, manifest);
}

/// A badge coloured red: `#ef4444` or `red`.
pub open spec fn red_badge_at(lines: Seq<MetricLine>, i: int) -> bool {
    lines[i] matches MetricLine::Badge { color: Some(c), .. } && (c@ == "#ef4444"@ || c@ == "red"@)
}

/// Where a probe reported no progress line, a red badge at any position makes
/// the provider not configured, with no periods and unknown headroom.
pub proof fn lemma_red_badge_means_not_configured(
    output: PluginOutput,
    manifest: PluginManifest,
    i: int,
)
    requires
        forall|j: int| 0 <= j < output.lines@.len() ==> !(#[trigger] output.lines@[j] is Progress),
        0 <= i < output.lines@.len(),
        red_badge_at(output.lines@, i),
    ensures
        spec_translate(output, manifest).status == ProviderStatus::NotConfigured,
        spec_translate(output, manifest).session is None,
        spec_translate(output, manifest).weekly is None,
        spec_translate(output, manifest).recommendation == ProviderRec::Unknown,
{
    let lines = output.lines@;
    assert(!has_progress(lines));
    assert(is_error_badge(lines[i]));
}

/// Where a probe reported lines but neither a progress line nor a red badge
/// anywhere, the provider is reported as working, with no periods and unknown
/// headroom.
pub proof fn lemma_no_progress_no_red_badge_is_okay(output: PluginOutput, manifest: PluginManifest)
    requires
        output.lines@.len() > 0,
        forall|j: int| 0 <= j < output.lines@.len() ==> !(#[trigger] output.lines@[j] is Progress),
        forall|j: int| 0 <= j < output.lines@.len() ==> !#[trigger] red_badge_at(output.lines@, j),
    ensures
        spec_translate(output, manifest).status == ProviderStatus::Okay,
        spec_translate(output, manifest).session is None,
        spec_translate(output, manifest).weekly is None,
        spec_translate(output, manifest).recommendation == ProviderRec::Unknown,
{
    let lines = output.lines@;
    let mlines = manifest.lines@;
    assert(!has_progress(lines));
    assert forall|j: int| 0 <= j < lines.len() implies !#[trigger] is_error_badge(lines[j]) by {
        assert(!red_badge_at(lines, j));
    }
    lemma_first_with_order_from(lines, mlines, 1, 0);
    lemma_first_with_order_from(lines, mlines, 2, 0);
    if first_with_order(lines, mlines, 1, 0) is Some {
        let k = first_with_order(lines, mlines, 1, 0)->0;
        assert(!(lines[k] is Progress));
    }
    if first_with_order(lines, mlines, 2, 0) is Some {
        let k = first_with_order(lines, mlines, 2, 0)->0;
        assert(!(lines[k] is Progress));
    }
}

impl UsagePeriod {
    /// The period of a progress line with these numbers and this format.
    pub fn from_progress_line(
        used: u64,
        limit: u64,
        remaining_fraction: u64,
        format: &Option<ProgressFormat>,
        resets_at: Option<String>,
        period_duration_ms: Option<u64>,
    ) -> (r: UsagePeriod)
        ensures
            r@ == spec_period(
                used,
                limit,
                remaining_fraction,
                *format,
                opt_view(resets_at),
                period_duration_ms,
            ),
    {
        let (tokens_used, tokens_limit, cost_usd, cost_limit_usd) = match format {
            Some(ProgressFormat::Dollars) => (None, None, Some(used), Some(limit)),
            Some(ProgressFormat::Percent) => (None, None, None, None),
            _ => (Some(used), Some(limit), None, None),
        };
        UsagePeriod {
            tokens_used,
            tokens_limit,
            remaining_fraction,
            cost_usd,
            cost_limit_usd,
            requests_count: None,
            resets_at,
            period_duration_ms,
        }
    }
}

/// The period of a progress line.
fn period_of_line(line: &MetricLine) -> (r: UsagePeriod)
    requires
        *line is Progress,
    ensures
        r@ == line_period(*line),
{
    match line {
        MetricLine::Progress {
            used,
            limit,
            remaining_fraction,
            format,
            resets_at,
            period_duration_ms,
            ..
        } => UsagePeriod::from_progress_line(
            *used,
            *limit,
            *remaining_fraction,
            format,
            copy_opt(resets_at),
            *period_duration_ms,
        ),
        _ => UsagePeriod::from_progress_line(0, 0, 0, &None, None, None),
    }
}

/// The primary order that the manifest declares for `label`.
pub fn manifest_order(mlines: &Vec<ManifestLine>, label: &String) -> (r: Option<u32>)
    ensures
        r == declared_order(mlines@, label@),
{
    let mut j = mlines.len();
    assert(mlines@.take(j as int) =~= mlines@);
    while j > 0
        invariant
            j <= mlines@.len(),
            declared_order(mlines@, label@) == declared_order(mlines@.take(j as int), label@),
        decreases j,
    {
        let line = &mlines[j - 1];
        assert(mlines@.take(j as int).drop_last() =~= mlines@.take(j - 1));
        if line.primary_order.is_some() && line.label == *label {
            return line.primary_order;
        }
        j = j - 1;
    }
    assert(mlines@.take(0) =~= Seq::<ManifestLine>::empty());
    None
}

/// The headroom of a period's remaining fraction.
pub fn recommendation_for(
    session: &Option<UsagePeriod>,
    weekly: &Option<UsagePeriod>,
) -> (r: ProviderRec)
    ensures
        r == spec_recommendation(opt_period_view(*session), opt_period_view(*weekly)),
{
    let remaining = match session {
        Some(p) => p.remaining_fraction,
        None => match weekly {
            Some(p) => p.remaining_fraction,
            None => return ProviderRec::Unknown,
        },
    };
    if remaining > FRACTION_SUFFICIENT {
        ProviderRec::Sufficient
    } else if remaining > FRACTION_LOW {
        ProviderRec::Low
    } else {
        ProviderRec::Exhausted
    }
}

fn snapshot_without_periods(output: &PluginOutput, status: ProviderStatus) -> (r: ProviderSnapshot)
    ensures
        r@ == bare_snapshot(*output, status),
{
    ProviderSnapshot {
        id: output.provider_id.clone(),
        display_name: output.display_name.clone(),
        status,
        plan: copy_opt(&output.plan),
        session: None,
        weekly: None,
        recommendation: ProviderRec::Unknown,
    }
}

/// Whether a line is a red badge.
fn error_badge(line: &MetricLine) -> (r: bool)
    ensures
        r == is_error_badge(*line),
{
    match line {
        MetricLine::Badge { color: Some(c), .. } => str_eq(c.as_str(), "#ef4444") || str_eq(
            c.as_str(),
            "red",
        ),
        _ => false,
    }
}

/// The snapshot of a probe's output (see `spec_translate`).
pub fn translate(output: &PluginOutput, manifest: &PluginManifest) -> (r: ProviderSnapshot)
    requires
        count_progress(output.lines@) < u32::MAX,
    ensures
        r@ == spec_translate(*output, *manifest),
{
    let lines = &output.lines;
    let n = lines.len();
    if n == 0 {
        let status = if output.error.is_some() {
            ProviderStatus::Error
        } else {
            ProviderStatus::NotConfigured
        };
        return snapshot_without_periods(output, status);
    }
    let mut progress_seen = false;
    let mut i: usize = 0;
    while i < n
        invariant
            n == lines@.len(),
            i <= n,
            progress_seen ==> has_progress(lines@),
            !progress_seen ==> forall|j: int| 0 <= j < i ==> !(#[trigger] lines@[j] is Progress),
        decreases n - i,
    {
        if let MetricLine::Progress { .. } = &lines[i] {
            progress_seen = true;
        }
        i = i + 1;
    }
    if !progress_seen {
        let mut badge_seen = false;
        let mut i: usize = 0;
        while i < n
            invariant
                n == lines@.len(),
                i <= n,
                badge_seen ==> has_error_badge(lines@),
                !badge_seen ==> forall|j: int| 0 <= j < i ==> !#[trigger] is_error_badge(lines@[j]),
            decreases n - i,
        {
            if error_badge(&lines[i]) {
                badge_seen = true;
            }
            i = i + 1;
        }
        if badge_seen {
            return snapshot_without_periods(output, ProviderStatus::NotConfigured);
        }
    }
    let ghost mlines = manifest.lines@;
    let mut positional: u32 = 0;
    let mut session_line: Option<usize> = None;
    let mut weekly_line: Option<usize> = None;
    let mut i: usize = 0;
    while i < n
        invariant
            n == lines@.len(),
            count_progress(lines@) < u32::MAX,
            i <= n,
            mlines == manifest.lines@,
            positional == count_progress(lines@.take(i as int)),
            match session_line {
                Some(k) => k < i && effective_order(lines@, mlines, k as int) == 1
                    && forall|j: int| 0 <= j < k ==> effective_order(lines@, mlines, j) != 1,
                None => forall|j: int| 0 <= j < i ==> effective_order(lines@, mlines, j) != 1,
            },
            match weekly_line {
                Some(k) => k < i && effective_order(lines@, mlines, k as int) == 2
                    && forall|j: int| 0 <= j < k ==> effective_order(lines@, mlines, j) != 2,
                None => forall|j: int| 0 <= j < i ==> effective_order(lines@, mlines, j) != 2,
            },
        decreases n - i,
    {
        proof {
            assert(lines@.take(i + 1).drop_last() =~= lines@.take(i as int));
            lemma_count_progress_monotone(lines@, i + 1, n as int);
            assert(lines@.take(n as int) =~= lines@);
        }
        match &lines[i] {
            MetricLine::Progress { label, .. } => {
                positional = positional + 1;
                let order = match manifest_order(&manifest.lines, label) {
                    Some(o) => o,
                    None => positional,
                };
                assert(effective_order(lines@, mlines, i as int) == order as int);
                if order == 1 && session_line.is_none() {
                    session_line = Some(i);
                }
                if order == 2 && weekly_line.is_none() {
                    weekly_line = Some(i);
                }
            },
            _ => {},
        }
        i = i + 1;
    }
    let session = match session_line {
        Some(k) => {
            proof {
                lemma_first_with_order_skip(lines@, mlines, 1, 0, k as int);
            }
            Some(period_of_line(&lines[k]))
        },
        None => {
            proof {
                lemma_first_with_order_skip(lines@, mlines, 1, 0, n as int);
            }
            None
        },
    };
    let weekly = match weekly_line {
        Some(k) => {
            proof {
                lemma_first_with_order_skip(lines@, mlines, 2, 0, k as int);
            }
            Some(period_of_line(&lines[k]))
        },
        None => {
            proof {
                lemma_first_with_order_skip(lines@, mlines, 2, 0, n as int);
            }
            None
        },
    };
    let recommendation = recommendation_for(&session, &weekly);
    ProviderSnapshot {
        id: output.provider_id.clone(),
        display_name: output.display_name.clone(),
        status: ProviderStatus::Okay,
        plan: copy_opt(&output.plan),
        session,
        weekly,
        recommendation,
    }
}

} // verus!
