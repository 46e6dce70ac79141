use agentusage::plugin_runtime::manifest::{ManifestLine, PluginManifest};
use agentusage::plugin_runtime::runtime::{MetricLine, PluginOutput, ProgressFormat};
use agentusage::snapshot::{translate, ProviderRec, ProviderStatus, UsagePeriod};

fn manifest(lines: Vec<ManifestLine>) -> PluginManifest {
    PluginManifest {
        schema_version: 1,
        id: "kimi".to_string(),
        name: "Kimi".to_string(),
        version: "0.1.0".to_string(),
        entry: "plugin.js".to_string(),
        icon: None,
        brand_color: None,
        lines,
    }
}

fn mline(label: &str, order: Option<u32>) -> ManifestLine {
    ManifestLine { kind: "progress".to_string(), label: label.to_string(), scope: None, primary_order: order }
}

fn progress(label: &str, used: f64, limit: f64, format: Option<ProgressFormat>) -> MetricLine {
    let remaining = if limit > 0.0 { ((limit - used) / limit).clamp(0.0, 1.0) } else { 0.0 };
    MetricLine::Progress {
        label: label.to_string(),
        used: used.to_bits(),
        limit: limit.to_bits(),
        remaining_fraction: remaining.to_bits(),
        format,
        resets_at: Some("2026-03-19T15:00:00Z".to_string()),
        period_duration_ms: Some(18_000_000),
        color: None,
    }
}

fn badge(color: Option<&str>) -> MetricLine {
    MetricLine::Badge {
        label: "Status".to_string(),
        text: "Not logged in".to_string(),
        color: color.map(|c| c.to_string()),
        subtitle: None,
    }
}

fn output(lines: Vec<MetricLine>, error: Option<&str>) -> PluginOutput {
    PluginOutput {
        provider_id: "kimi".to_string(),
        display_name: "Kimi".to_string(),
        lines,
        error: error.map(|e| e.to_string()),
        plan: Some("Max".to_string()),
    }
}

fn fraction(p: &Option<UsagePeriod>) -> f64 {
    f64::from_bits(p.as_ref().unwrap().remaining_fraction)
}

#[test]
fn no_lines_and_an_error_is_an_error() {
    let s = translate(&output(vec![], Some("probe() call failed: boom")), &manifest(vec![]));
    assert_eq!(s.status, ProviderStatus::Error);
    assert_eq!(s.recommendation, ProviderRec::Unknown);
    assert!(s.session.is_none() && s.weekly.is_none());
    assert_eq!(s.plan.as_deref(), Some("Max"));
}

#[test]
fn no_lines_and_no_error_is_not_configured() {
    let s = translate(&output(vec![], None), &manifest(vec![]));
    assert_eq!(s.status, ProviderStatus::NotConfigured);
}

#[test]
fn red_badge_without_progress_is_not_configured() {
    let s = translate(&output(vec![badge(Some("#ef4444"))], None), &manifest(vec![]));
    assert_eq!(s.status, ProviderStatus::NotConfigured);
    let s = translate(&output(vec![badge(Some("red"))], None), &manifest(vec![]));
    assert_eq!(s.status, ProviderStatus::NotConfigured);
}

#[test]
fn other_badge_without_progress_is_okay_without_periods() {
    let s = translate(&output(vec![badge(Some("#22c55e"))], None), &manifest(vec![]));
    assert_eq!(s.status, ProviderStatus::Okay);
    assert!(s.session.is_none() && s.weekly.is_none());
    assert_eq!(s.recommendation, ProviderRec::Unknown);
}

#[test]
fn red_badge_beside_progress_is_still_okay() {
    let s = translate(
        &output(vec![badge(Some("red")), progress("Session", 20.0, 100.0, None)], None),
        &manifest(vec![]),
    );
    assert_eq!(s.status, ProviderStatus::Okay);
    assert_eq!(fraction(&s.session), 0.8);
}

#[test]
fn positional_fallback_gives_session_then_weekly() {
    let s = translate(
        &output(
            vec![progress("A", 10.0, 100.0, None), progress("B", 90.0, 100.0, None)],
            None,
        ),
        &manifest(vec![]),
    );
    assert_eq!(fraction(&s.session), 0.9);
    assert_eq!(fraction(&s.weekly), 0.1);
    assert_eq!(s.recommendation, ProviderRec::Sufficient);
}

#[test]
fn declared_primary_order_wins_over_position() {
    let m = manifest(vec![mline("Weekly", Some(2)), mline("Session", Some(1))]);
    let s = translate(
        &output(
            vec![progress("Weekly", 96.0, 100.0, None), progress("Session", 50.0, 100.0, None)],
            None,
        ),
        &m,
    );
    assert_eq!(fraction(&s.session), 0.5);
    assert_eq!(fraction(&s.weekly), 0.04);
    assert_eq!(s.recommendation, ProviderRec::Sufficient);
}

#[test]
fn last_declaration_of_a_label_counts() {
    let m = manifest(vec![mline("Usage", Some(1)), mline("Usage", Some(2)), mline("Usage", None)]);
    let s = translate(&output(vec![progress("Usage", 0.0, 10.0, None)], None), &m);
    assert!(s.session.is_none());
    assert_eq!(fraction(&s.weekly), 1.0);
}

#[test]
fn headroom_thresholds() {
    let m = manifest(vec![]);
    let low = translate(&output(vec![progress("S", 80.0, 100.0, None)], None), &m);
    assert_eq!(low.recommendation, ProviderRec::Low);
    let exhausted = translate(&output(vec![progress("S", 95.0, 100.0, None)], None), &m);
    assert_eq!(exhausted.recommendation, ProviderRec::Exhausted);
    let at_point_three = translate(&output(vec![progress("S", 7.0, 10.0, None)], None), &m);
    // 3/10 is not above 0.3
    assert_eq!(at_point_three.recommendation, ProviderRec::Low);
    let zero_limit = translate(&output(vec![progress("S", 1.0, 0.0, None)], None), &m);
    assert_eq!(zero_limit.recommendation, ProviderRec::Exhausted);
}

#[test]
fn weekly_decides_without_a_session() {
    let m = manifest(vec![mline("W", Some(2))]);
    let s = translate(&output(vec![progress("W", 60.0, 100.0, None)], None), &m);
    assert!(s.session.is_none());
    assert_eq!(s.recommendation, ProviderRec::Sufficient);
}

#[test]
fn formats_decide_tokens_or_costs() {
    let m = manifest(vec![]);
    let s = translate(
        &output(
            vec![
                progress("Spend", 12.5, 50.0, Some(ProgressFormat::Dollars)),
                progress("Pct", 30.0, 100.0, Some(ProgressFormat::Percent)),
            ],
            None,
        ),
        &m,
    );
    let session = s.session.unwrap();
    assert_eq!(session.cost_usd.map(f64::from_bits), Some(12.5));
    assert_eq!(session.cost_limit_usd.map(f64::from_bits), Some(50.0));
    assert!(session.tokens_used.is_none());
    let weekly = s.weekly.unwrap();
    assert!(weekly.tokens_used.is_none() && weekly.cost_usd.is_none());
    let c = translate(
        &output(vec![progress("T", 1000.0, 4000.0, Some(ProgressFormat::Count { suffix: "tok".to_string() }))], None),
        &m,
    );
    let cs = c.session.unwrap();
    assert_eq!(cs.tokens_used.map(f64::from_bits), Some(1000.0));
    assert_eq!(cs.tokens_limit.map(f64::from_bits), Some(4000.0));
    assert_eq!(cs.resets_at.as_deref(), Some("2026-03-19T15:00:00Z"));
    assert_eq!(cs.period_duration_ms, Some(18_000_000));
    assert_eq!(cs.requests_count, None);
}

#[test]
fn from_progress_line_defaults_to_count() {
    let p = UsagePeriod::from_progress_line(5f64.to_bits(), 10f64.to_bits(), 0.5f64.to_bits(), &None, None, None);
    assert_eq!(p.tokens_used, Some(5f64.to_bits()));
    assert_eq!(p.cost_usd, None);
}

fn text_line(label: &str) -> MetricLine {
    MetricLine::Text { label: label.to_string(), value: "v".to_string(), color: None, subtitle: None }
}

#[test]
fn text_and_badge_lines_do_not_change_the_snapshot() {
    let m = manifest(vec![]);
    let plain = output(
        vec![progress("Session", 20.0, 100.0, None), progress("Weekly", 50.0, 100.0, Some(ProgressFormat::Percent))],
        None,
    );
    let mixed = output(
        vec![
            badge(Some("red")),
            progress("Session", 20.0, 100.0, None),
            text_line("Plan"),
            badge(Some("#ef4444")),
            progress("Weekly", 50.0, 100.0, Some(ProgressFormat::Percent)),
            text_line("Note"),
        ],
        None,
    );
    let a = translate(&plain, &m);
    let b = translate(&mixed, &m);
    assert_eq!(a.status, b.status);
    assert_eq!(b.status, ProviderStatus::Okay);
    assert_eq!(a.recommendation, b.recommendation);
    assert_eq!(a.plan, b.plan);
    assert_eq!(fraction(&a.session), fraction(&b.session));
    assert_eq!(fraction(&a.weekly), fraction(&b.weekly));
    assert_eq!(fraction(&b.session), 0.8);
    assert_eq!(fraction(&b.weekly), 0.5);
    assert_eq!(a.session.as_ref().unwrap().tokens_used, b.session.as_ref().unwrap().tokens_used);
    assert_eq!(a.weekly.as_ref().unwrap().tokens_used, None);
    assert_eq!(b.weekly.as_ref().unwrap().tokens_used, None);
}
