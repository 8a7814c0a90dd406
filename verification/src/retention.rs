//! Local retention: which messages have expired, and the tally of a prune.

use vstd::prelude::*;

verus! {

/// What a prune of an account removed.
#[derive(Clone, Debug)]
pub struct RetentionReport {
    pub account_id: String,
    pub pruned_count: u32,
    pub reclaimed_bytes: u64,
}

impl Default for RetentionReport {
    fn default() -> (r: Self)
        ensures
            r.account_id@.len() == 0,
            r.pruned_count == 0,
            r.reclaimed_bytes == 0,
    {
        RetentionReport { account_id: String::new(), pruned_count: 0, reclaimed_bytes: 0 }
    }
}

/// Seconds in a day.
pub open spec fn day_secs() -> int {
    86400
}

/// The cutoff of a retention policy at time `now_secs`: messages dated
/// before it have expired. No policy, or one of zero days, keeps messages
/// forever.
pub open spec fn retention_cutoff_spec(retention_days: Option<u32>, now_secs: i64) -> Option<int> {
    match retention_days {
        Some(d) => if d > 0 {
            Some(now_secs - d * day_secs())
        } else {
            None
        },
        None => None,
    }
}

/// The cutoff of a retention policy at time `now_secs`, or `None` when
/// messages are kept forever.
pub fn retention_cutoff(retention_days: Option<u32>, now_secs: i64) -> (r: Option<i64>)
    requires
        now_secs >= i64::MIN + 86400 * 4294967295,
    ensures
        r matches Some(c) ==> retention_cutoff_spec(retention_days, now_secs) == Some(c as int),
        r is None <==> retention_cutoff_spec(retention_days, now_secs) is None,
{
    match retention_days {
        Some(d) => if d > 0 {
            let span: i64 = (d as i64) * 86400;
            Some(now_secs - span)
        } else {
            None
        },
        None => None,
    }
}

/// Number of messages whose removal succeeded.
pub open spec fn pruned_count_of(outcomes: Seq<(bool, u64)>) -> nat
    decreases outcomes.len(),
{
    if outcomes.len() == 0 {
        0
    } else {
        pruned_count_of(outcomes.drop_last()) + if outcomes.last().0 {
            1nat
        } else {
            0nat
        }
    }
}

/// Bytes of the messages whose removal succeeded.
pub open spec fn reclaimed_of(outcomes: Seq<(bool, u64)>) -> nat
    decreases outcomes.len(),
{
    if outcomes.len() == 0 {
        0
    } else {
        reclaimed_of(outcomes.drop_last()) + if outcomes.last().0 {
            outcomes.last().1 as nat
        } else {
            0nat
        }
    }
}

proof fn lemma_tally_monotone(outcomes: Seq<(bool, u64)>, i: int)
    requires
        0 <= i <= outcomes.len(),
    ensures
        pruned_count_of(outcomes.take(i)) <= pruned_count_of(outcomes),
        reclaimed_of(outcomes.take(i)) <= reclaimed_of(outcomes),
    decreases outcomes.len() - i,
{
    if i < outcomes.len() {
        lemma_tally_monotone(outcomes, i + 1);
        assert(outcomes.take(i + 1).drop_last() =~= outcomes.take(i));
    } else {
        assert(outcomes.take(i) =~= outcomes);
    }
}

/// The report of a prune of `account_id`: for each expired message, whether
/// its catalogue record was removed, and its size. Only removed messages
/// count.
pub fn retention_report(account_id: &str, outcomes: &Vec<(bool, u64)>) -> (r: RetentionReport)
    requires
        pruned_count_of(outcomes@) <= u32::MAX,
        reclaimed_of(outcomes@) <= u64::MAX,
    ensures
        r.account_id@ == account_id@,
        r.pruned_count == pruned_count_of(outcomes@),
        r.reclaimed_bytes == reclaimed_of(outcomes@),
{
    let mut report = RetentionReport { account_id: String::from_str(account_id), pruned_count: 0, reclaimed_bytes: 0 };
    let mut i: usize = 0;
    assert(outcomes@.take(0) =~= Seq::<(bool, u64)>::empty());
    while i < outcomes.len()
        invariant
            i <= outcomes.len(),
            report.account_id@ == account_id@,
            pruned_count_of(outcomes@) <= u32::MAX,
            reclaimed_of(outcomes@) <= u64::MAX,
            report.pruned_count == pruned_count_of(outcomes@.take(i as int)),
            report.reclaimed_bytes == reclaimed_of(outcomes@.take(i as int)),
        decreases outcomes.len() - i,
    {
        let ghost p = outcomes@.take(i + 1);
        assert(p.drop_last() =~= outcomes@.take(i as int));
        proof {
            lemma_tally_monotone(outcomes@, i + 1);
        }
        let (removed, size) = outcomes[i];
        if removed {
            report.pruned_count = report.pruned_count + 1;
            report.reclaimed_bytes = report.reclaimed_bytes + size;
        }
        i += 1;
    }
    assert(outcomes@.take(outcomes.len() as int) =~= outcomes@);
    report
}

} // verus!
verus! {

/// A retention policy of `d` days prunes exactly the messages more than `d`
/// days old: for `d > 0` the cutoff is `now - d * 86400` seconds, so a
/// message dated `t` falls before it exactly when it is more than `d` days
/// older than `now`; a longer policy has a strictly earlier cutoff; no
/// policy, or one of 0 days, keeps every message.
pub proof fn law_retention_cutoff_is_days_before_now(d: u32, e: u32, now_secs: i64, t: int)
    ensures
        d > 0 ==> retention_cutoff_spec(Some(d), now_secs) == Some(now_secs - d * 86400),
        d > 0 ==> (retention_cutoff_spec(Some(d), now_secs) matches Some(c) && (t < c <==> now_secs - t > d * 86400)),
        0 < d < e ==> (retention_cutoff_spec(Some(e), now_secs) matches Some(ce) && retention_cutoff_spec(
            Some(d),
            now_secs,
        ) matches Some(cd) && ce < cd),
        retention_cutoff_spec(Some(0), now_secs) is None,
        retention_cutoff_spec(None, now_secs) is None,
{
    if 0 < d < e {
        assert(d * 86400 < e * 86400) by (nonlinear_arith)
            requires
                d < e,
        ;
    }
}

} // verus!
