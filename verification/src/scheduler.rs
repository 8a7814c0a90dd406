//! Backup schedules: cron expressions and the jobs a configuration asks for.

use crate::config::AppConfig;
use crate::text::{
    chars_of, is_ws, lemma_trim_fixed, lemma_trim_idempotent, lemma_trim_shape, lemma_word_count_concat,
    starts_with, starts_with_chars, string_of, trim, trim_chars, word_count, word_count_exec,
};
use vstd::prelude::*;

verus! {

/// The scheduler's form of a cron expression: five-field expressions get a
/// leading seconds field `0`; `every ...` and `@...` forms and anything else
/// are kept (trimmed).
pub open spec fn normalized_cron(expr: Seq<char>) -> Seq<char> {
    let t = trim(expr);
    if starts_with(t, "every "@) || (t.len() > 0 && t[0] == '@') {
        t
    } else if word_count(t) == 5 {
        "0 "@ + t
    } else {
        t
    }
}

/// Normalizes a 5-field cron expression to the 6-field form with seconds.
pub fn normalize_cron(expr: &str) -> (r: String)
    ensures
        r@ == normalized_cron(expr@),
{
    let c = chars_of(expr);
    let t = trim_chars(&c);
    let ts = string_of(&t);
    let every = chars_of("every ");
    if starts_with_chars(&t, &every) || (t.len() > 0 && t[0] == '@') {
        return ts;
    }
    if word_count_exec(&t) == 5 {
        String::from_str("0 ").concat(ts.as_str())
    } else {
        ts
    }
}

/// Normalizing twice is normalizing once.
pub proof fn law_normalize_cron_idempotent(expr: Seq<char>)
    ensures
        normalized_cron(normalized_cron(expr)) == normalized_cron(expr),
{
    let t = trim(expr);
    lemma_trim_idempotent(expr);
    lemma_trim_shape(expr);
    if starts_with(t, "every "@) || (t.len() > 0 && t[0] == '@') {
    } else if word_count(t) == 5 {
        reveal_strlit("0 ");
        reveal_strlit("every ");
        let r = "0 "@ + t;
        assert(t.len() > 0);
        assert(r[0] == '0');
        assert(r.last() == t.last());
        lemma_trim_fixed(r);
        lemma_word_count_concat("0 "@, t);
        assert("0 "@ =~= seq!['0', ' ']);
        assert(seq!['0', ' '].drop_last() =~= seq!['0']);
        assert(seq!['0'].drop_last() =~= Seq::<char>::empty());
        assert(word_count(Seq::<char>::empty()) == 0);
        assert(word_count(seq!['0']) == 1);
        assert(word_count(seq!['0', ' ']) == 1);
        assert(word_count("0 "@) == 1);
        assert(!starts_with(r, "every "@)) by {
            if starts_with(r, "every "@) {
                assert(r.subrange(0, 6)[0] == 'e');
            }
        }
    } else {
    }
}

/// A backup job: the account (by position in the configuration) and the cron
/// expression it runs on.
#[derive(Clone, Debug)]
pub struct ScheduledJob {
    pub account_index: usize,
    pub cron: String,
}

/// The jobs for a configuration: one per enabled account, on its own schedule
/// or the default one, normalized.
pub open spec fn planned_jobs(config: AppConfig, n: int) -> Seq<(usize, Seq<char>)>
    decreases n,
{
    if n <= 0 {
        Seq::empty()
    } else {
        let p = planned_jobs(config, n - 1);
        let a = config.accounts@[n - 1];
        if a.enabled {
            let raw = match a.schedule {
                Some(s) => s@,
                None => config.settings.default_schedule@,
            };
            p.push(((n - 1) as usize, normalized_cron(raw)))
        } else {
            p
        }
    }
}

/// The backup jobs a configuration asks for.
pub fn scheduled_jobs(config: &AppConfig) -> (r: Vec<ScheduledJob>)
    ensures
        r@.len() == planned_jobs(*config, config.accounts@.len() as int).len(),
        forall|i: int|
            0 <= i < r@.len() ==> (#[trigger] r@[i]).account_index == planned_jobs(
                *config,
                config.accounts@.len() as int,
            )[i].0 && r@[i].cron@ == planned_jobs(*config, config.accounts@.len() as int)[i].1,
{
    let mut out: Vec<ScheduledJob> = Vec::new();
    let mut i: usize = 0;
    while i < config.accounts.len()
        invariant
            i <= config.accounts@.len(),
            out@.len() == planned_jobs(*config, i as int).len(),
            forall|j: int|
                0 <= j < out@.len() ==> (#[trigger] out@[j]).account_index == planned_jobs(
                    *config,
                    i as int,
                )[j].0 && out@[j].cron@ == planned_jobs(*config, i as int)[j].1,
        decreases config.accounts@.len() - i,
    {
        let a = &config.accounts[i];
        let ghost before = planned_jobs(*config, i as int);
        if a.enabled {
            let cron = match &a.schedule {
                Some(s) => normalize_cron(s.as_str()),
                None => normalize_cron(config.settings.default_schedule.as_str()),
            };
            out.push(ScheduledJob { account_index: i, cron });
        }
        assert forall|j: int| 0 <= j < out@.len() implies (#[trigger] out@[j]).account_index == planned_jobs(
            *config,
            i + 1,
        )[j].0 && out@[j].cron@ == planned_jobs(*config, i + 1)[j].1 by {
            if j < before.len() {
                assert(planned_jobs(*config, i + 1)[j] == before[j]);
            }
        }
        i += 1;
    }
    out
}

} // verus!
