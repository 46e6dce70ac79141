//! The best provider to use next.
//!
//! Only providers whose probe succeeded and that are not exhausted take part;
//! each contributes its session and its weekly period where their remaining
//! fraction is above 0.05. The period with the highest remaining fraction wins,
//! a session period beating a weekly one of equal fraction, and of equal
//! candidates the first in snapshot order.

use vstd::prelude::*;

use crate::snapshot::{ProviderRec, ProviderSnapshot, ProviderStatus, UsagePeriod, FRACTION_LOW};

verus! {

/// Which of a provider's two periods.
#[derive(Debug, Clone, Copy, PartialEq, Eq, Structural)]
pub enum Period {
    Session,
    Weekly,
}

impl Period {
    /// The period's name in reports: "session" or "weekly".
    pub open spec fn spec_name(self) -> Seq<char> {
        match self {
            Period::Session => "session"@,
            Period::Weekly => "weekly"@,
        }
    }

    pub fn name(&self) -> (r: &'static str)
        ensures
            r@ == self.spec_name(),
    {
        match self {
            Period::Session => "session",
            Period::Weekly => "weekly",
        }
    }
}

/// A period that may be recommended: the index of its snapshot, which period,
/// and its remaining fraction (as bit pattern).
#[derive(Debug, Clone, Copy, PartialEq, Eq)]
pub struct Candidate {
    pub snapshot: usize,
    pub period: Period,
    pub remaining_fraction: u64,
}

/// The recommendation that reports show.
#[derive(Debug, Clone)]
pub struct RecommendationBlock {
    pub best_provider: String,
    pub best_provider_period: String,
    pub reason: String,
}

/// `a` goes before `b`: higher remaining fraction, or equal fraction and `a` is
/// a session period where `b` is a weekly one.
pub open spec fn better(a: Candidate, b: Candidate) -> bool {
    a.remaining_fraction > b.remaining_fraction || (a.remaining_fraction == b.remaining_fraction
        && a.period == Period::Session && b.period == Period::Weekly)
}

/// The candidate of one period, if it has headroom above 0.05.
pub open spec fn period_candidate(p: Option<UsagePeriod>, index: int, period: Period) -> Seq<
    Candidate,
> {
    match p {
        Some(u) => if u.remaining_fraction > FRACTION_LOW {
            seq![Candidate { snapshot: index as usize, period, remaining_fraction: u.remaining_fraction }]
        } else {
            Seq::empty()
        },
        None => Seq::empty(),
    }
}

/// The candidates of snapshot `index`: none unless its status is `Okay` and it is
/// not exhausted; else its session, then its weekly period.
pub open spec fn snapshot_candidates(s: ProviderSnapshot, index: int) -> Seq<Candidate> {
    if s.status != ProviderStatus::Okay || s.recommendation == ProviderRec::Exhausted {
        Seq::empty()
    } else {
        period_candidate(s.session, index, Period::Session) + period_candidate(
            s.weekly,
            index,
            Period::Weekly,
        )
    }
}

/// The candidates of all snapshots, in snapshot order.
pub open spec fn candidates(snapshots: Seq<ProviderSnapshot>) -> Seq<Candidate>
    decreases snapshots.len(),
{
    if snapshots.len() == 0 {
        Seq::empty()
    } else {
        candidates(snapshots.drop_last()) + snapshot_candidates(
            snapshots.last(),
            snapshots.len() - 1,
        )
    }
}

/// Candidate `k` is the first of the best: nothing beats it, and it beats every
/// candidate before it.
pub open spec fn is_winner(cands: Seq<Candidate>, k: int) -> bool {
    &&& 0 <= k < cands.len()
    &&& forall|j: int| 0 <= j < cands.len() ==> !better(#[trigger] cands[j], cands[k])
    &&& forall|j: int| 0 <= j < k ==> better(cands[k], #[trigger] cands[j])
}

/// The text of the recommendation's reason, for the winner's remaining
/// percentage rounded to a whole number.
pub open spec fn reason_text(percent: Seq<char>) -> Seq<char> {
    "highest remaining fraction ("@ + percent + "%) with sufficient headroom"@
}

/// Every candidate comes from a snapshot whose probe succeeded and that is not
/// exhausted, names a period that the snapshot has, and has that period's
/// remaining fraction, which is above 0.05.
pub proof fn lemma_candidates_are_eligible(snapshots: Seq<ProviderSnapshot>)
    requires
        snapshots.len() <= usize::MAX,
    ensures
        forall|k: int|
            0 <= k < candidates(snapshots).len() ==> {
                let c = #[trigger] candidates(snapshots)[k];
                &&& c.snapshot < snapshots.len()
                &&& snapshots[c.snapshot as int].status == ProviderStatus::Okay
                &&& snapshots[c.snapshot as int].recommendation != ProviderRec::Exhausted
                &&& c.remaining_fraction > FRACTION_LOW
                &&& match c.period {
                    Period::Session => snapshots[c.snapshot as int].session is Some,
                    Period::Weekly => snapshots[c.snapshot as int].weekly is Some,
                }
                &&& c.remaining_fraction == match c.period {
                    Period::Session => snapshots[c.snapshot as int].session->0.remaining_fraction,
                    Period::Weekly => snapshots[c.snapshot as int].weekly->0.remaining_fraction,
                }
            },
    decreases snapshots.len(),
{
    if snapshots.len() > 0 {
        let init = snapshots.drop_last();
        lemma_candidates_are_eligible(init);
        let last = snapshots.last();
        let i = snapshots.len() - 1;
        let cs = candidates(snapshots);
        let before = candidates(init);
        assert forall|k: int| 0 <= k < cs.len() implies {
            let c = #[trigger] cs[k];
            &&& c.snapshot < snapshots.len()
            &&& snapshots[c.snapshot as int].status == ProviderStatus::Okay
            &&& snapshots[c.snapshot as int].recommendation != ProviderRec::Exhausted
            &&& c.remaining_fraction > FRACTION_LOW
            &&& match c.period {
                Period::Session => snapshots[c.snapshot as int].session is Some,
                Period::Weekly => snapshots[c.snapshot as int].weekly is Some,
            }
            &&& c.remaining_fraction == match c.period {
                Period::Session => snapshots[c.snapshot as int].session->0.remaining_fraction,
                Period::Weekly => snapshots[c.snapshot as int].weekly->0.remaining_fraction,
            }
        } by {
            if k < before.len() {
                assert(cs[k] == before[k]);
                assert(snapshots[before[k].snapshot as int] == init[before[k].snapshot as int]);
            } else {
                let extra = snapshot_candidates(last, i);
                assert(cs == before + extra);
                assert(cs[k] == extra[k - before.len()]);
                assert(snapshots[i] == last);
                assert((i as usize) as int == i);
                assert(last.status == ProviderStatus::Okay && last.recommendation
                    != ProviderRec::Exhausted);
                let ps = period_candidate(last.session, i, Period::Session);
                let pw = period_candidate(last.weekly, i, Period::Weekly);
                assert(extra == ps + pw);
                if k - before.len() < ps.len() {
                    assert(extra[k - before.len()] == ps[k - before.len()]);
                    assert(last.session is Some);
                } else {
                    assert(extra[k - before.len()] == pw[k - before.len() - ps.len()]);
                    assert(last.weekly is Some);
                }
            }
        }
    }
}

proof fn lemma_winner_after_push(cands: Seq<Candidate>, k: int, x: Candidate)
    requires
        is_winner(cands, k),
    ensures
        better(x, cands[k]) ==> is_winner(cands.push(x), cands.len() as int),
        !better(x, cands[k]) ==> is_winner(cands.push(x), k),
{
    let s = cands.push(x);
    assert forall|j: int| 0 <= j < s.len() implies s[j] == if j < cands.len() {
        cands[j]
    } else {
        x
    } by {}
}

/// Offers one period as a candidate: the best so far is replaced by it where it
/// is better.
fn offer(
    best: &mut Option<Candidate>,
    Ghost(seen): Ghost<Seq<Candidate>>,
    p: &Option<UsagePeriod>,
    index: usize,
    period: Period,
) -> (r: Ghost<Seq<Candidate>>)
    requires
        match *old(best) {
            None => seen.len() == 0,
            Some(c) => exists|k: int| is_winner(seen, k) && seen[k] == c,
        },
    ensures
        r@ == seen + period_candidate(*p, index as int, period),
        match *final(best) {
            None => r@.len() == 0,
            Some(c) => exists|k: int| is_winner(r@, k) && r@[k] == c,
        },
{
    match p {
        Some(u) => {
            if u.remaining_fraction > FRACTION_LOW {
                let x = Candidate { snapshot: index, period, remaining_fraction: u.remaining_fraction };
                let ghost next = seen.push(x);
                assert(seen + period_candidate(*p, index as int, period) =~= next);
                match *best {
                    None => {
                        assert(is_winner(next, 0));
                        *best = Some(x);
                    },
                    Some(c) => {
                        let ghost k = choose|k: int| is_winner(seen, k) && seen[k] == c;
                        proof {
                            lemma_winner_after_push(seen, k, x);
                        }
                        if x.remaining_fraction > c.remaining_fraction || (x.remaining_fraction
                            == c.remaining_fraction && x.period == Period::Session && c.period
                            == Period::Weekly) {
                            assert(next[seen.len() as int] == x);
                            *best = Some(x);
                        } else {
                            assert(next[k] == c);
                        }
                    },
                }
                return Ghost(next);
            }
        },
        None => {},
    }
    assert(seen + period_candidate(*p, index as int, period) =~= seen);
    Ghost(seen)
}

/// `r` is the period to recommend for `snapshots`: the first of the best
/// candidates, or `None` where there is no candidate.
pub open spec fn computes(snapshots: Seq<ProviderSnapshot>, r: Option<Candidate>) -> bool {
    match r {
        None => candidates(snapshots).len() == 0,
        Some(c) => exists|k: int| is_winner(candidates(snapshots), k) && candidates(snapshots)[k] == c,
    }
}

/// The period to recommend: the first of the best candidates, or `None` where
/// there is no candidate.
pub fn compute(snapshots: &Vec<ProviderSnapshot>) -> (r: Option<Candidate>)
    ensures
        computes(snapshots@, r),
        covers_every_period_with_headroom(snapshots@, r),
        breaks_ties_by_period_then_order(snapshots@, r),
{
    let mut best: Option<Candidate> = None;
    let ghost mut seen: Seq<Candidate> = Seq::empty();
    let n = snapshots.len();
    let mut i: usize = 0;
    while i < n
        invariant
            n == snapshots@.len(),
            i <= n,
            seen == candidates(snapshots@.take(i as int)),
            match best {
                None => seen.len() == 0,
                Some(c) => exists|k: int| is_winner(seen, k) && seen[k] == c,
            },
        decreases n - i,
    {
        let snap = &snapshots[i];
        proof {
            assert(snapshots@.take(i + 1).drop_last() =~= snapshots@.take(i as int));
            assert(snapshots@.take(i + 1).last() == *snap);
        }
        if snap.status == ProviderStatus::Okay && snap.recommendation != ProviderRec::Exhausted {
            let Ghost(after_session) = offer(&mut best, Ghost(seen), &snap.session, i, Period::Session);
            let Ghost(after_weekly) = offer(
                &mut best,
                Ghost(after_session),
                &snap.weekly,
                i,
                Period::Weekly,
            );
            proof {
                assert(after_weekly =~= seen + snapshot_candidates(*snap, i as int));
                seen = after_weekly;
            }
        } else {
            assert(seen + snapshot_candidates(*snap, i as int) =~= seen);
        }
        i = i + 1;
    }
    assert(snapshots@.take(n as int) =~= snapshots@);
    proof {
        lemma_recommendation_is_complete(snapshots@, best);
        lemma_recommendation_breaks_ties(snapshots@, best);
    }
    best
}

/// At most one candidate is the winner.
pub proof fn lemma_winner_unique(cands: Seq<Candidate>, k1: int, k2: int)
    requires
        is_winner(cands, k1),
        is_winner(cands, k2),
    ensures
        k1 == k2,
{
    if k1 < k2 {
        assert(better(cands[k2], cands[k1]));
    } else if k2 < k1 {
        assert(better(cands[k1], cands[k2]));
    }
}

/// A period without headroom: absent, or with a remaining fraction of at most
/// 0.05.
pub open spec fn without_headroom(p: Option<UsagePeriod>) -> bool {
    match p {
        Some(u) => u.remaining_fraction <= FRACTION_LOW,
        None => true,
    }
}

/// A snapshot that offers no candidate: its probe failed, it is exhausted, or
/// neither of its periods has headroom.
pub open spec fn no_eligible_period(s: ProviderSnapshot) -> bool {
    s.status != ProviderStatus::Okay || s.recommendation == ProviderRec::Exhausted || (
    without_headroom(s.session) && without_headroom(s.weekly))
}

/// Candidates with their snapshot index one higher.
pub open spec fn shifted(cs: Seq<Candidate>) -> Seq<Candidate> {
    cs.map_values(
        |c: Candidate|
            Candidate {
                snapshot: (c.snapshot + 1) as usize,
                period: c.period,
                remaining_fraction: c.remaining_fraction,
            },
    )
}

proof fn lemma_snapshot_candidates_shift(x: ProviderSnapshot, i: int)
    requires
        0 <= i,
        i + 1 <= usize::MAX,
    ensures
        snapshot_candidates(x, i + 1) == shifted(snapshot_candidates(x, i)),
{
    assert((i as usize) as int == i);
    assert(period_candidate(x.session, i + 1, Period::Session) =~= shifted(
        period_candidate(x.session, i, Period::Session),
    ));
    assert(period_candidate(x.weekly, i + 1, Period::Weekly) =~= shifted(
        period_candidate(x.weekly, i, Period::Weekly),
    ));
    assert(shifted(
        period_candidate(x.session, i, Period::Session) + period_candidate(x.weekly, i, Period::Weekly),
    ) =~= shifted(period_candidate(x.session, i, Period::Session)) + shifted(
        period_candidate(x.weekly, i, Period::Weekly),
    ));
    assert(snapshot_candidates(x, i + 1) =~= shifted(snapshot_candidates(x, i)));
}

proof fn lemma_candidates_prepend(s: ProviderSnapshot, xs: Seq<ProviderSnapshot>)
    requires
        no_eligible_period(s),
        xs.len() + 1 <= usize::MAX,
    ensures
        candidates(seq![s] + xs) == shifted(candidates(xs)),
    decreases xs.len(),
{
    let ys = seq![s] + xs;
    if xs.len() == 0 {
        assert(ys.drop_last() =~= Seq::<ProviderSnapshot>::empty());
        assert(ys.last() == s && ys.len() == 1);
        assert(candidates(Seq::<ProviderSnapshot>::empty()) =~= Seq::<Candidate>::empty());
        assert(snapshot_candidates(s, 0) =~= Seq::<Candidate>::empty());
        assert(candidates(ys) =~= Seq::<Candidate>::empty());
        assert(shifted(candidates(xs)) =~= Seq::<Candidate>::empty());
    } else {
        let init = xs.drop_last();
        let x = xs.last();
        let i = xs.len() - 1;
        lemma_candidates_prepend(s, init);
        assert(ys.drop_last() =~= seq![s] + init);
        assert(ys.last() == x);
        lemma_snapshot_candidates_shift(x, i);
        assert(shifted(candidates(init) + snapshot_candidates(x, i)) =~= shifted(candidates(init))
            + shifted(snapshot_candidates(x, i)));
    }
}

proof fn lemma_winner_shifted(cs: Seq<Candidate>, k: int)
    ensures
        is_winner(shifted(cs), k) <==> is_winner(cs, k),
{
    let t = shifted(cs);
    if is_winner(cs, k) {
        assert forall|j: int| 0 <= j < t.len() implies !better(#[trigger] t[j], t[k]) by {
            assert(!better(cs[j], cs[k]));
        }
        assert forall|j: int| 0 <= j < k implies better(t[k], #[trigger] t[j]) by {
            assert(better(cs[k], cs[j]));
        }
    }
    if is_winner(t, k) {
        assert forall|j: int| 0 <= j < cs.len() implies !better(#[trigger] cs[j], cs[k]) by {
            assert(!better(t[j], t[k]));
        }
        assert forall|j: int| 0 <= j < k implies better(cs[k], #[trigger] cs[j]) by {
            assert(better(t[k], t[j]));
        }
    }
}

/// A snapshot that offers no candidate leaves the recommendation as it is, put
/// after the others or before them: the same period of the same provider, with
/// the same remaining fraction, or none in either case.
pub proof fn lemma_ineligible_snapshot_keeps_recommendation(
    xs: Seq<ProviderSnapshot>,
    s: ProviderSnapshot,
    r: Option<Candidate>,
    r_after: Option<Candidate>,
    r_before: Option<Candidate>,
)
    requires
        no_eligible_period(s),
        xs.len() + 1 <= usize::MAX,
        computes(xs, r),
        computes(xs.push(s), r_after),
        computes(seq![s] + xs, r_before),
    ensures
        r_after == r,
        match (r, r_before) {
            (None, None) => true,
            (Some(a), Some(b)) => {
                &&& b.snapshot == a.snapshot + 1
                &&& b.period == a.period
                &&& b.remaining_fraction == a.remaining_fraction
                &&& (seq![s] + xs)[b.snapshot as int] == xs[a.snapshot as int]
            },
            _ => false,
        },
{
    let cs = candidates(xs);
    assert(xs.push(s).drop_last() =~= xs);
    assert(snapshot_candidates(s, xs.len() as int) =~= Seq::<Candidate>::empty());
    assert(candidates(xs.push(s)) =~= cs);
    lemma_candidates_prepend(s, xs);
    let ts = candidates(seq![s] + xs);
    lemma_candidates_are_eligible(xs);
    match r {
        Some(a) => {
            let k = choose|k: int| is_winner(cs, k) && cs[k] == a;
            let ka = choose|k: int| is_winner(cs, k) && cs[k] == r_after->0;
            lemma_winner_unique(cs, k, ka);
            lemma_winner_shifted(cs, k);
            let kb = choose|k: int| is_winner(ts, k) && ts[k] == r_before->0;
            lemma_winner_unique(ts, k, kb);
            assert(cs[k].snapshot < xs.len());
            assert((seq![s] + xs)[a.snapshot + 1] == xs[a.snapshot as int]);
        },
        None => {},
    }
}

/// Snapshot `i` may be recommended: its probe succeeded and it is not
/// exhausted.
pub open spec fn eligible_snapshot(snapshots: Seq<ProviderSnapshot>, i: int) -> bool {
    &&& 0 <= i < snapshots.len()
    &&& snapshots[i].status == ProviderStatus::Okay
    &&& snapshots[i].recommendation != ProviderRec::Exhausted
}

/// A period with a remaining fraction above 0.05.
pub open spec fn has_headroom(p: Option<UsagePeriod>) -> bool {
    p is Some && p->0.remaining_fraction > FRACTION_LOW
}

/// Every period with headroom of a snapshot that may be recommended is a
/// candidate, with its snapshot, its period and its remaining fraction.
pub proof fn lemma_every_period_with_headroom_is_a_candidate(snapshots: Seq<ProviderSnapshot>, i: int)
    requires
        snapshots.len() <= usize::MAX,
        eligible_snapshot(snapshots, i),
    ensures
        has_headroom(snapshots[i].session) ==> candidates(snapshots).contains(
            Candidate {
                snapshot: i as usize,
                period: Period::Session,
                remaining_fraction: snapshots[i].session->0.remaining_fraction,
            },
        ),
        has_headroom(snapshots[i].weekly) ==> candidates(snapshots).contains(
            Candidate {
                snapshot: i as usize,
                period: Period::Weekly,
                remaining_fraction: snapshots[i].weekly->0.remaining_fraction,
            },
        ),
    decreases snapshots.len(),
{
    let n = snapshots.len();
    let init = snapshots.drop_last();
    let cs = candidates(snapshots);
    let before = candidates(init);
    let extra = snapshot_candidates(snapshots.last(), n - 1);
    assert(cs == before + extra);
    if i < n - 1 {
        assert(init[i] == snapshots[i]);
        lemma_every_period_with_headroom_is_a_candidate(init, i);
        if has_headroom(snapshots[i].session) {
            let x = Candidate {
                snapshot: i as usize,
                period: Period::Session,
                remaining_fraction: snapshots[i].session->0.remaining_fraction,
            };
            let k = choose|k: int| 0 <= k < before.len() && before[k] == x;
            assert(cs[k] == x);
        }
        if has_headroom(snapshots[i].weekly) {
            let x = Candidate {
                snapshot: i as usize,
                period: Period::Weekly,
                remaining_fraction: snapshots[i].weekly->0.remaining_fraction,
            };
            let k = choose|k: int| 0 <= k < before.len() && before[k] == x;
            assert(cs[k] == x);
        }
    } else {
        let last = snapshots.last();
        assert(last == snapshots[i]);
        let ps = period_candidate(last.session, i, Period::Session);
        let pw = period_candidate(last.weekly, i, Period::Weekly);
        assert(extra == ps + pw);
        if has_headroom(last.session) {
            assert(cs[before.len() as int] == ps[0]);
        }
        if has_headroom(last.weekly) {
            assert(cs[(before.len() + ps.len()) as int] == pw[0]);
        }
    }
}

/// The recommendation is at least as good as every period with headroom of a
/// snapshot that may be recommended, and there is none exactly where no such
/// period exists.
pub open spec fn covers_every_period_with_headroom(
    snapshots: Seq<ProviderSnapshot>,
    r: Option<Candidate>,
) -> bool {
    &&& forall|i: int|
        #![trigger snapshots[i]]
        eligible_snapshot(snapshots, i) && has_headroom(snapshots[i].session) ==> r is Some
            && r->0.remaining_fraction >= snapshots[i].session->0.remaining_fraction
    &&& forall|i: int|
        #![trigger snapshots[i]]
        eligible_snapshot(snapshots, i) && has_headroom(snapshots[i].weekly) ==> r is Some
            && r->0.remaining_fraction >= snapshots[i].weekly->0.remaining_fraction
    &&& r is None ==> forall|i: int|
        #![trigger snapshots[i]]
        eligible_snapshot(snapshots, i) ==> !has_headroom(snapshots[i].session) && !has_headroom(
            snapshots[i].weekly,
        )
}

/// The period recommended has the highest remaining fraction of all periods
/// with headroom of providers that may be recommended; none is recommended only
/// where there is no such period.
pub proof fn lemma_recommendation_is_complete(snapshots: Seq<ProviderSnapshot>, r: Option<Candidate>)
    requires
        snapshots.len() <= usize::MAX,
        computes(snapshots, r),
    ensures
        covers_every_period_with_headroom(snapshots, r),
{
    let cs = candidates(snapshots);
    assert forall|i: int| #![trigger snapshots[i]] eligible_snapshot(snapshots, i) implies {
        &&& has_headroom(snapshots[i].session) ==> r is Some && r->0.remaining_fraction
            >= snapshots[i].session->0.remaining_fraction
        &&& has_headroom(snapshots[i].weekly) ==> r is Some && r->0.remaining_fraction
            >= snapshots[i].weekly->0.remaining_fraction
    } by {
        lemma_every_period_with_headroom_is_a_candidate(snapshots, i);
        if has_headroom(snapshots[i].session) {
            let x = Candidate {
                snapshot: i as usize,
                period: Period::Session,
                remaining_fraction: snapshots[i].session->0.remaining_fraction,
            };
            let j = choose|j: int| 0 <= j < cs.len() && cs[j] == x;
            if r is Some {
                let k = choose|k: int| is_winner(cs, k) && cs[k] == r->0;
                assert(!better(cs[j], cs[k]));
            }
        }
        if has_headroom(snapshots[i].weekly) {
            let x = Candidate {
                snapshot: i as usize,
                period: Period::Weekly,
                remaining_fraction: snapshots[i].weekly->0.remaining_fraction,
            };
            let j = choose|j: int| 0 <= j < cs.len() && cs[j] == x;
            if r is Some {
                let k = choose|k: int| is_winner(cs, k) && cs[k] == r->0;
                assert(!better(cs[j], cs[k]));
            }
        }
    }
}

proof fn lemma_candidates_ordered(snapshots: Seq<ProviderSnapshot>)
    requires
        snapshots.len() <= usize::MAX,
    ensures
        forall|j: int, k: int|
            #![trigger candidates(snapshots)[j], candidates(snapshots)[k]]
            0 <= j < k < candidates(snapshots).len() ==> candidates(snapshots)[j].snapshot
                < candidates(snapshots)[k].snapshot || (candidates(snapshots)[j].snapshot
                == candidates(snapshots)[k].snapshot && candidates(snapshots)[j].period
                == Period::Session && candidates(snapshots)[k].period == Period::Weekly),
    decreases snapshots.len(),
{
    if snapshots.len() > 0 {
        let n = snapshots.len();
        let init = snapshots.drop_last();
        let last = snapshots.last();
        let cs = candidates(snapshots);
        let before = candidates(init);
        lemma_candidates_ordered(init);
        lemma_candidates_are_eligible(init);
        let ps = period_candidate(last.session, n - 1, Period::Session);
        let pw = period_candidate(last.weekly, n - 1, Period::Weekly);
        let extra = snapshot_candidates(last, n - 1);
        assert(cs == before + extra);
        assert(((n - 1) as usize) as int == n - 1);
        assert forall|m: int| 0 <= m < extra.len() implies (#[trigger] extra[m]).snapshot == n - 1
            && (extra[m].period == Period::Session <==> m < ps.len()) by {
            assert(extra == ps + pw);
            if m < ps.len() {
                assert(extra[m] == ps[m]);
            } else {
                assert(extra[m] == pw[m - ps.len()]);
            }
        }
        assert forall|j: int, k: int|
            #![trigger cs[j], cs[k]]
            0 <= j < k < cs.len() implies cs[j].snapshot < cs[k].snapshot || (cs[j].snapshot
            == cs[k].snapshot && cs[j].period == Period::Session && cs[k].period
            == Period::Weekly) by {
            if k < before.len() {
                assert(cs[j] == before[j] && cs[k] == before[k]);
            } else if j < before.len() {
                assert(cs[j] == before[j]);
                assert(cs[k] == extra[k - before.len()]);
            } else {
                assert(cs[j] == extra[j - before.len()]);
                assert(cs[k] == extra[k - before.len()]);
                assert(ps.len() <= 1 && pw.len() <= 1 && extra.len() == ps.len() + pw.len());
            }
        }
    }
}

/// How the recommendation breaks ties: a weekly period is recommended only
/// where every session period with headroom has less left, and a period of a
/// later provider only where every period with headroom of an earlier one has
/// less left, or as much where that one is weekly and the recommended one is
/// a session.
pub open spec fn breaks_ties_by_period_then_order(
    snapshots: Seq<ProviderSnapshot>,
    r: Option<Candidate>,
) -> bool {
    r is Some ==> {
        let c = r->0;
        &&& forall|i: int|
            #![trigger snapshots[i]]
            eligible_snapshot(snapshots, i) && has_headroom(snapshots[i].session) && (i
                < c.snapshot || c.period == Period::Weekly) ==> snapshots[i].session->0.remaining_fraction
                < c.remaining_fraction
        &&& forall|i: int|
            #![trigger snapshots[i]]
            eligible_snapshot(snapshots, i) && has_headroom(snapshots[i].weekly) && i < c.snapshot
                ==> snapshots[i].weekly->0.remaining_fraction < c.remaining_fraction || (
            snapshots[i].weekly->0.remaining_fraction == c.remaining_fraction && c.period
                == Period::Session)
    }
}

/// The recommendation prefers a session period to a weekly one with as much
/// left, and the earlier provider among equals.
pub proof fn lemma_recommendation_breaks_ties(snapshots: Seq<ProviderSnapshot>, r: Option<Candidate>)
    requires
        snapshots.len() <= usize::MAX,
        computes(snapshots, r),
    ensures
        breaks_ties_by_period_then_order(snapshots, r),
{
    if r is Some {
        let cs = candidates(snapshots);
        let c = r->0;
        let k = choose|k: int| is_winner(cs, k) && cs[k] == c;
        lemma_candidates_ordered(snapshots);
        assert forall|i: int|
            #![trigger snapshots[i]]
            eligible_snapshot(snapshots, i) && has_headroom(snapshots[i].session) && (i
                < c.snapshot || c.period == Period::Weekly) implies snapshots[i].session->0.remaining_fraction
            < c.remaining_fraction by {
            lemma_every_period_with_headroom_is_a_candidate(snapshots, i);
            let x = Candidate {
                snapshot: i as usize,
                period: Period::Session,
                remaining_fraction: snapshots[i].session->0.remaining_fraction,
            };
            let j = choose|j: int| 0 <= j < cs.len() && cs[j] == x;
            assert(!better(cs[j], cs[k]));
            if c.period == Period::Session {
                assert((i as usize) as int == i);
                if j >= k {
                    assert(j != k);
                    assert(cs[k].snapshot < cs[j].snapshot || (cs[k].snapshot == cs[j].snapshot
                        && cs[j].period == Period::Weekly));
                }
                assert(better(cs[k], cs[j]));
            }
        }
        assert forall|i: int|
            #![trigger snapshots[i]]
            eligible_snapshot(snapshots, i) && has_headroom(snapshots[i].weekly) && i
                < c.snapshot implies snapshots[i].weekly->0.remaining_fraction < c.remaining_fraction
            || (snapshots[i].weekly->0.remaining_fraction == c.remaining_fraction && c.period
            == Period::Session) by {
            lemma_every_period_with_headroom_is_a_candidate(snapshots, i);
            let x = Candidate {
                snapshot: i as usize,
                period: Period::Weekly,
                remaining_fraction: snapshots[i].weekly->0.remaining_fraction,
            };
            let j = choose|j: int| 0 <= j < cs.len() && cs[j] == x;
            assert((i as usize) as int == i);
            if j >= k {
                assert(j != k);
                assert(cs[k].snapshot <= cs[j].snapshot);
            }
            assert(better(cs[k], cs[j]));
        }
    }
}

/// The recommendation block of a candidate, where `percent` is its remaining
/// fraction as a rounded whole percentage.
pub fn recommendation_block(
    snapshots: &Vec<ProviderSnapshot>,
    winner: &Candidate,
    percent: &str,
) -> (r: RecommendationBlock)
    requires
        winner.snapshot < snapshots@.len(),
    ensures
        r.best_provider@ == snapshots@[winner.snapshot as int].id@,
        r.best_provider_period@ == winner.period.spec_name(),
        r.reason@ == reason_text(percent@),
{
    let mut reason = String::from_str("highest remaining fraction (");
    reason.append(percent);
    reason.append("%) with sufficient headroom");
    RecommendationBlock {
        best_provider: snapshots[winner.snapshot].id.clone(),
        best_provider_period: String::from_str(winner.period.name()),
        reason,
    }
}

} // verus!
