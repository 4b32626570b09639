//! What holds of every run of the resolver over a sequence of windows.

use vstd::prelude::*;
use crate::attendant::AttendantModel;
use crate::resolver::{after_pick, eligible, lemma_best_of, pick};
use crate::roster::{day_windows, run, windows_from};
use crate::window::WindowModel;

verus! {

/// Hours of the windows among `ws` whose pick is attendant `a`.
pub open spec fn hours_assigned(ws: Seq<WindowModel>, picks: Seq<Option<int>>, a: int) -> int
    decreases ws.len(),
{
    if ws.len() == 0 {
        0
    } else {
        hours_assigned(ws.drop_last(), picks.drop_last(), a) + if picks.last() == Some(a) {
            ws.last().duration_hours()
        } else {
            0
        }
    }
}

/// A run keeps the number of attendants, makes one pick per window, and
/// picks only existing attendants.
pub proof fn lemma_run_shape(s0: Seq<AttendantModel>, ws: Seq<WindowModel>)
    ensures
        run(s0, ws).0.len() == s0.len(),
        run(s0, ws).1.len() == ws.len(),
        forall|k: int|
            #![trigger run(s0, ws).1[k]]
            0 <= k < ws.len() ==> (run(s0, ws).1[k] matches Some(a) ==> 0 <= a < s0.len()),
    decreases ws.len(),
{
    if ws.len() > 0 {
        let prev = run(s0, ws.drop_last());
        lemma_run_shape(s0, ws.drop_last());
        lemma_best_of(prev.0, ws.last(), prev.0.len());
        assert forall|k: int|
            #![trigger run(s0, ws).1[k]]
            0 <= k < ws.len() implies (run(s0, ws).1[k] matches Some(a) ==> 0 <= a
            < s0.len()) by {
            if k < ws.len() - 1 {
                assert(run(s0, ws).1[k] == prev.1[k]);
            }
        }
    }
}

/// The run over a prefix of the windows is the start of the whole run: its
/// picks are the first picks, and the next pick is made from its ledger.
pub proof fn lemma_run_prefix(s0: Seq<AttendantModel>, ws: Seq<WindowModel>, m: int)
    requires
        0 <= m < ws.len(),
    ensures
        run(s0, ws).1[m] == pick(run(s0, ws.take(m)).0, ws[m]),
        run(s0, ws.take(m + 1)).0 == after_pick(
            run(s0, ws.take(m)).0,
            ws[m],
            run(s0, ws).1[m],
        ),
        forall|j: int| 0 <= j < m ==> run(s0, ws).1[j] == run(s0, ws.take(m)).1[j],
    decreases ws.len(),
{
    lemma_run_shape(s0, ws.take(m));
    assert(ws.take(m + 1).drop_last() =~= ws.take(m));
    if m == ws.len() - 1 {
        assert(ws.take(m + 1) =~= ws);
        assert(ws.drop_last() =~= ws.take(m));
    } else {
        let shorter = ws.drop_last();
        lemma_run_prefix(s0, shorter, m);
        assert(shorter.take(m) =~= ws.take(m));
        assert(shorter.take(m + 1) =~= ws.take(m + 1));
        lemma_run_shape(s0, shorter);
        assert(run(s0, ws).1[m] == run(s0, shorter).1[m]);
        assert forall|j: int| 0 <= j < m implies run(s0, ws).1[j] == run(s0, ws.take(m)).1[j] by {
            assert(run(s0, ws).1[j] == run(s0, shorter).1[j]);
        }
    }
}

/// Every attendant's hours are their starting hours plus the hours of the
/// windows they were given; from a fresh ledger, exactly the latter.
pub proof fn lemma_hours_match_assignments(s0: Seq<AttendantModel>, ws: Seq<WindowModel>, a: int)
    requires
        0 <= a < s0.len(),
    ensures
        run(s0, ws).0[a].total == s0[a].total + hours_assigned(ws, run(s0, ws).1, a),
    decreases ws.len(),
{
    if ws.len() > 0 {
        let prev = run(s0, ws.drop_last());
        lemma_hours_match_assignments(s0, ws.drop_last(), a);
        lemma_run_shape(s0, ws.drop_last());
        lemma_best_of(prev.0, ws.last(), prev.0.len());
        assert(run(s0, ws).1.drop_last() =~= prev.1);
        assert(run(s0, ws).1.last() == pick(prev.0, ws.last()));
        if pick(prev.0, ws.last()) != Some(a) {
            assert(run(s0, ws).0[a] == prev.0[a]);
        }
    }
}

/// Every window given to attendant `a` has its start day in `a`'s days on duty.
pub proof fn lemma_assigned_days_recorded(s0: Seq<AttendantModel>, ws: Seq<WindowModel>, k: int)
    requires
        0 <= k < ws.len(),
        run(s0, ws).1[k] is Some,
    ensures
        run(s0, ws).0[run(s0, ws).1[k]->0].dates.contains(ws[k].start_day),
    decreases ws.len(),
{
    let prev = run(s0, ws.drop_last());
    lemma_run_shape(s0, ws.drop_last());
    lemma_run_shape(s0, ws);
    let a = run(s0, ws).1[k]->0;
    lemma_best_of(prev.0, ws.last(), prev.0.len());
    if k == ws.len() - 1 {
        assert(run(s0, ws).0[a].dates == prev.0[a].dates.push(ws[k].start_day));
        assert(run(s0, ws).0[a].dates.last() == ws[k].start_day);
    } else {
        assert(run(s0, ws).1[k] == prev.1[k]);
        assert(ws.drop_last()[k] == ws[k]);
        lemma_assigned_days_recorded(s0, ws.drop_last(), k);
        let d = prev.0[a].dates;
        let i = choose|i: int| 0 <= i < d.len() && d[i] == ws[k].start_day;
        if let Some(b) = pick(prev.0, ws.last()) {
            if b == a {
                assert(run(s0, ws).0[a].dates[i] == ws[k].start_day);
            } else {
                assert(run(s0, ws).0[a] == prev.0[a]);
            }
        }
    }
}

/// No attendant is given a window that starts the day after another window
/// they were given earlier in the run.
pub proof fn lemma_no_back_to_back(s0: Seq<AttendantModel>, ws: Seq<WindowModel>, k1: int, k2: int)
    requires
        0 <= k1 < k2 < ws.len(),
        run(s0, ws).1[k1] is Some,
        run(s0, ws).1[k1] == run(s0, ws).1[k2],
    ensures
        ws[k2].start_day != ws[k1].start_day + 1,
{
    lemma_run_prefix(s0, ws, k2);
    let before = ws.take(k2);
    let state = run(s0, before).0;
    assert(before[k1] == ws[k1]);
    lemma_assigned_days_recorded(s0, before, k1);
    let a = run(s0, ws).1[k2]->0;
    lemma_best_of(state, ws[k2], state.len());
    assert(eligible(state, state[a], ws[k2]));
}

/// The windows of consecutive days come in order of their start days, none
/// starting after the day that follows the last one.
pub proof fn lemma_windows_ordered(first: int, n: nat)
    ensures
        forall|i: int, j: int|
            #![trigger windows_from(first, n)[i], windows_from(first, n)[j]]
            0 <= i <= j < windows_from(first, n).len() ==> windows_from(first, n)[i].start_day
                <= windows_from(first, n)[j].start_day,
        forall|i: int|
            0 <= i < windows_from(first, n).len() ==> windows_from(first, n)[i].start_day <= first
                + n,
    decreases n,
{
    if n > 0 {
        let d = first + n - 1;
        lemma_windows_ordered(first, (n - 1) as nat);
        let prev = windows_from(first, (n - 1) as nat);
        let ws = windows_from(first, n);
        assert(ws == prev + day_windows(d));
        assert forall|i: int| 0 <= i < ws.len() implies ws[i].start_day <= first + n by {
            if i < prev.len() {
                assert(ws[i] == prev[i]);
            }
        }
        assert forall|i: int, j: int|
            #![trigger ws[i], ws[j]]
            0 <= i <= j < ws.len() implies ws[i].start_day <= ws[j].start_day by {
            if j < prev.len() {
                assert(ws[i] == prev[i]);
                assert(ws[j] == prev[j]);
            } else if i < prev.len() {
                assert(ws[i] == prev[i]);
                assert(prev[i].start_day <= d);
            }
        }
    }
}

/// In a run over the windows of consecutive days, no attendant is given two
/// windows whose start days are consecutive calendar days.
pub proof fn lemma_no_consecutive_days(
    s0: Seq<AttendantModel>,
    first: int,
    n: nat,
    k1: int,
    k2: int,
)
    requires
        0 <= k1 < windows_from(first, n).len(),
        0 <= k2 < windows_from(first, n).len(),
        k1 != k2,
        run(s0, windows_from(first, n)).1[k1] is Some,
        run(s0, windows_from(first, n)).1[k1] == run(s0, windows_from(first, n)).1[k2],
    ensures
        windows_from(first, n)[k2].start_day != windows_from(first, n)[k1].start_day + 1,
{
    let ws = windows_from(first, n);
    lemma_windows_ordered(first, n);
    if k1 < k2 {
        lemma_no_back_to_back(s0, ws, k1, k2);
    } else {
        assert(ws[k2].start_day <= ws[k1].start_day);
    }
}

/// After a run, an attendant's Saturday and Sunday flags are at least those it started with.
pub proof fn lemma_flags_sticky(s0: Seq<AttendantModel>, ws: Seq<WindowModel>, a: int)
    requires
        0 <= a < s0.len(),
    ensures
        s0[a].saturday ==> run(s0, ws).0[a].saturday,
        s0[a].sunday ==> run(s0, ws).0[a].sunday,
    decreases ws.len(),
{
    if ws.len() > 0 {
        let prev = run(s0, ws.drop_last());
        lemma_flags_sticky(s0, ws.drop_last(), a);
        lemma_run_shape(s0, ws.drop_last());
        lemma_best_of(prev.0, ws.last(), prev.0.len());
        if pick(prev.0, ws.last()) != Some(a) {
            assert(run(s0, ws).0[a] == prev.0[a]);
        }
    }
}

/// Once an attendant is given a Saturday window, their Saturday flag is set
/// at every later point of the run.
pub proof fn lemma_saturday_flag_kept(s0: Seq<AttendantModel>, ws: Seq<WindowModel>, k: int, m: int)
    requires
        0 <= k < m <= ws.len(),
        run(s0, ws).1[k] is Some,
        ws[k].is_saturday(),
    ensures
        run(s0, ws.take(m)).0[run(s0, ws).1[k]->0].saturday,
{
    lemma_run_prefix(s0, ws, k);
    lemma_run_shape(s0, ws);
    let a = run(s0, ws).1[k]->0;
    let after = ws.take(k + 1);
    lemma_run_shape(s0, ws.take(k));
    lemma_best_of(run(s0, ws.take(k)).0, ws[k], s0.len());
    assert(run(s0, after).0[a].saturday);
    let rest = ws.subrange(k + 1, m);
    lemma_run_shape(s0, after);
    lemma_run_concat(s0, after, rest);
    assert(after + rest =~= ws.take(m));
    lemma_flags_sticky(run(s0, after).0, rest, a);
}

/// A run over two sequences in turn is the run over their concatenation.
pub proof fn lemma_run_concat(s0: Seq<AttendantModel>, xs: Seq<WindowModel>, ys: Seq<WindowModel>)
    ensures
        run(s0, xs + ys).0 == run(run(s0, xs).0, ys).0,
    decreases ys.len(),
{
    if ys.len() == 0 {
        assert(xs + ys =~= xs);
    } else {
        assert((xs + ys).drop_last() =~= xs + ys.drop_last());
        lemma_run_concat(s0, xs, ys.drop_last());
    }
}

/// Between two attendants eligible for a window, the one with strictly
/// fewer hours is chosen over the other.
pub proof fn lemma_fewer_hours_preferred(
    s: Seq<AttendantModel>,
    w: WindowModel,
    x: int,
    y: int,
)
    requires
        0 <= x < s.len(),
        0 <= y < s.len(),
        eligible(s, s[x], w),
        eligible(s, s[y], w),
        s[x].total < s[y].total,
    ensures
        pick(s, w) != Some(y),
        pick(s, w) is Some,
{
    lemma_best_of(s, w, s.len());
}

} // verus!
