use agentusage::recommendation::{compute, recommendation_block, Candidate, Period};
use agentusage::snapshot::{ProviderRec, ProviderSnapshot, ProviderStatus, UsagePeriod};

fn period(remaining: f64) -> Option<UsagePeriod> {
    Some(UsagePeriod {
        tokens_used: None,
        tokens_limit: None,
        remaining_fraction: remaining.to_bits(),
        cost_usd: None,
        cost_limit_usd: None,
        requests_count: None,
        resets_at: None,
        period_duration_ms: None,
    })
}

fn snap(id: &str, status: ProviderStatus, rec: ProviderRec, session: Option<f64>, weekly: Option<f64>) -> ProviderSnapshot {
    ProviderSnapshot {
        id: id.to_string(),
        display_name: id.to_string(),
        status,
        plan: None,
        session: session.and_then(period),
        weekly: weekly.and_then(period),
        recommendation: rec,
    }
}

#[test]
fn nothing_to_recommend_without_candidates() {
    assert_eq!(compute(&vec![]), None);
    let snaps = vec![
        snap("a", ProviderStatus::Error, ProviderRec::Unknown, Some(0.9), None),
        snap("b", ProviderStatus::Okay, ProviderRec::Exhausted, Some(0.9), None),
        snap("c", ProviderStatus::Okay, ProviderRec::Low, Some(0.05), Some(0.01)),
        snap("d", ProviderStatus::NotConfigured, ProviderRec::Unknown, None, None),
    ];
    assert_eq!(compute(&snaps), None);
}

#[test]
fn highest_remaining_fraction_wins() {
    let snaps = vec![
        snap("kimi", ProviderStatus::Okay, ProviderRec::Sufficient, Some(0.55), Some(0.7)),
        snap("antigravity", ProviderStatus::Okay, ProviderRec::Sufficient, Some(1.0), None),
        snap("codex", ProviderStatus::Okay, ProviderRec::Low, Some(0.2), Some(0.9)),
    ];
    let w = compute(&snaps).unwrap();
    assert_eq!(w, Candidate { snapshot: 1, period: Period::Session, remaining_fraction: 1.0f64.to_bits() });
    let block = recommendation_block(&snaps, &w, "100");
    assert_eq!(block.best_provider, "antigravity");
    assert_eq!(block.best_provider_period, "session");
    assert_eq!(block.reason, "highest remaining fraction (100%) with sufficient headroom");
}

#[test]
fn session_beats_weekly_on_a_tie() {
    let snaps = vec![
        snap("a", ProviderStatus::Okay, ProviderRec::Sufficient, Some(0.4), Some(0.6)),
        snap("b", ProviderStatus::Okay, ProviderRec::Sufficient, Some(0.6), None),
    ];
    let w = compute(&snaps).unwrap();
    assert_eq!(w.snapshot, 1);
    assert_eq!(w.period, Period::Session);
}

#[test]
fn first_provider_wins_a_full_tie() {
    let snaps = vec![
        snap("a", ProviderStatus::Okay, ProviderRec::Sufficient, None, Some(0.6)),
        snap("b", ProviderStatus::Okay, ProviderRec::Sufficient, None, Some(0.6)),
    ];
    let w = compute(&snaps).unwrap();
    assert_eq!(w.snapshot, 0);
    assert_eq!(w.period, Period::Weekly);
    let block = recommendation_block(&snaps, &w, "60");
    assert_eq!(block.best_provider_period, "weekly");
}

#[test]
fn weekly_period_can_win() {
    let snaps = vec![snap("a", ProviderStatus::Okay, ProviderRec::Low, Some(0.1), Some(0.3))];
    let w = compute(&snaps).unwrap();
    assert_eq!(w.period, Period::Weekly);
    assert_eq!(f64::from_bits(w.remaining_fraction), 0.3);
}

#[test]
fn a_snapshot_without_candidates_changes_nothing() {
    let base = vec![
        snap("kimi", ProviderStatus::Okay, ProviderRec::Sufficient, Some(0.55), Some(0.7)),
        snap("codex", ProviderStatus::Okay, ProviderRec::Low, Some(0.2), Some(0.9)),
    ];
    let w = compute(&base).unwrap();
    assert_eq!(w, Candidate { snapshot: 1, period: Period::Weekly, remaining_fraction: 0.9f64.to_bits() });
    for extra in [
        snap("down", ProviderStatus::Error, ProviderRec::Unknown, Some(1.0), Some(1.0)),
        snap("spent", ProviderStatus::Okay, ProviderRec::Exhausted, Some(1.0), None),
        snap("low", ProviderStatus::Okay, ProviderRec::Low, Some(0.05), Some(0.01)),
    ] {
        let mut after = base.clone();
        after.push(extra.clone());
        assert_eq!(compute(&after), Some(w));
        let mut before = vec![extra];
        before.extend(base.clone());
        let b = compute(&before).unwrap();
        assert_eq!(b, Candidate { snapshot: w.snapshot + 1, ..w });
        assert_eq!(before[b.snapshot].id, base[w.snapshot].id);
    }
}
