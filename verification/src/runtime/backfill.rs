//! Background job status (daily-bar backfill, backtest, screener) and the
//! backfill run's report.

use vstd::prelude::*;
use crate::kis::auth::{base_url_for, kis_base_url};
use crate::text::{int_text, u64_text};
use crate::types::Symbol;

verus! {

/// Credential snapshot injected at startup; the web layer never reads
/// secrets itself.
#[derive(Debug, Clone)]
pub struct BackfillCredentials {
    /// "real" | "mock" — quotation endpoints are read-only, so real is safe.
    pub environment: String,
    pub app_key: String,
    pub app_secret: String,
    pub account: String,
    /// Tests point this at a dead local port to exercise the failure path
    /// offline; production leaves it `None` and the environment decides.
    pub base_url_override: Option<String>,
}

/// Where a backfill run talks to: the override, else the environment's
/// KIS domain.
pub fn backfill_base_url(credentials: &BackfillCredentials) -> (r: String)
    ensures
        r@ == match credentials.base_url_override {
            Some(u) => u@,
            None => base_url_for(credentials.environment@),
        },
{
    match &credentials.base_url_override {
        Some(u) => u.clone(),
        None => String::from_str(kis_base_url(credentials.environment.as_str())),
    }
}

#[derive(Debug, Clone)]
pub enum BackfillStatus {
    Idle,
    Running,
    Done { at: String, summary: String },
    Failed { at: String, reason: String },
}

impl BackfillStatus {
    /// Short label for the status page (values are page-safe words).
    pub fn label(&self) -> (r: &'static str)
        ensures
            r@ == match self {
                BackfillStatus::Idle => "idle"@,
                BackfillStatus::Running => "running"@,
                BackfillStatus::Done { .. } => "done"@,
                BackfillStatus::Failed { .. } => "failed"@,
            },
    {
        match self {
            BackfillStatus::Idle => "idle",
            BackfillStatus::Running => "running",
            BackfillStatus::Done { .. } => "done",
            BackfillStatus::Failed { .. } => "failed",
        }
    }

    pub fn is_running(&self) -> (r: bool)
        ensures
            r == (self is Running),
    {
        match self {
            BackfillStatus::Running => true,
            _ => false,
        }
    }
}

/// The one-line status of a job for the page: `"{job}: 대기"`,
/// `"{job}: 실행 중…"`, `"{job} 완료 {at} — {summary}"` or
/// `"{job} 실패 {at} — {reason}"`.
pub open spec fn status_line_text(job: Seq<char>, status: BackfillStatus) -> Seq<char> {
    match status {
        BackfillStatus::Idle => job + ": 대기"@,
        BackfillStatus::Running => job + ": 실행 중…"@,
        BackfillStatus::Done { at, summary } => job + " 완료 "@ + at@ + " — "@ + summary@,
        BackfillStatus::Failed { at, reason } => job + " 실패 "@ + at@ + " — "@ + reason@,
    }
}

pub fn status_line(job: &str, status: &BackfillStatus) -> (r: String)
    ensures
        r@ == status_line_text(job@, *status),
{
    let mut r = String::from_str(job);
    match status {
        BackfillStatus::Idle => {
            r.append(": 대기");
        },
        BackfillStatus::Running => {
            r.append(": 실행 중…");
        },
        BackfillStatus::Done { at, summary } => {
            r.append(" 완료 ");
            r.append(at.as_str());
            r.append(" — ");
            r.append(summary.as_str());
        },
        BackfillStatus::Failed { at, reason } => {
            r.append(" 실패 ");
            r.append(at.as_str());
            r.append(" — ");
            r.append(reason.as_str());
        },
    }
    r
}

/// Bars stored by the symbols that succeeded.
pub open spec fn stored_total(outcomes: Seq<(Symbol, Result<u64, String>)>) -> int
    decreases outcomes.len(),
{
    if outcomes.len() == 0 {
        0
    } else {
        stored_total(outcomes.drop_last()) + match outcomes.last().1 {
            Ok(n) => n as int,
            Err(_) => 0,
        }
    }
}

/// Symbols that failed.
pub open spec fn failed_count(outcomes: Seq<(Symbol, Result<u64, String>)>) -> int
    decreases outcomes.len(),
{
    if outcomes.len() == 0 {
        0
    } else {
        failed_count(outcomes.drop_last()) + if outcomes.last().1 is Err { 1int } else { 0 }
    }
}

/// A line per failed symbol: `"\n{symbol}: {error}"`.
pub open spec fn failure_lines(outcomes: Seq<(Symbol, Result<u64, String>)>) -> Seq<char>
    decreases outcomes.len(),
{
    if outcomes.len() == 0 {
        Seq::empty()
    } else {
        failure_lines(outcomes.drop_last()) + match outcomes.last().1 {
            Ok(_) => Seq::empty(),
            Err(e) => "\n"@ + outcomes.last().0@ + ": "@ + e@,
        }
    }
}

pub open spec fn backfill_report_text(outcomes: Seq<(Symbol, Result<u64, String>)>) -> Seq<char> {
    int_text(stored_total(outcomes)) + " bars stored, "@ + int_text(failed_count(outcomes)) + "/"@
        + int_text(outcomes.len() as int) + " symbols failed"@ + failure_lines(outcomes)
}

proof fn lemma_counts_bounded(outcomes: Seq<(Symbol, Result<u64, String>)>)
    ensures
        0 <= failed_count(outcomes) <= outcomes.len(),
        0 <= stored_total(outcomes) <= outcomes.len() * 0xffff_ffff_ffff_ffff,
    decreases outcomes.len(),
{
    if outcomes.len() > 0 {
        lemma_counts_bounded(outcomes.drop_last());
    }
}

/// The report of one backfill pass: bars stored, symbols failed, and each
/// failure's detail; `Err` when any symbol failed.
pub fn backfill_report(outcomes: &Vec<(Symbol, Result<u64, String>)>) -> (r: Result<String, String>)
    requires
        stored_total(outcomes@) <= u64::MAX,
    ensures
        match r {
            Ok(t) => failed_count(outcomes@) == 0 && t@ == backfill_report_text(outcomes@),
            Err(t) => failed_count(outcomes@) > 0 && t@ == backfill_report_text(outcomes@),
        },
{
    let n = outcomes.len();
    let mut total: u64 = 0;
    let mut failures: u64 = 0;
    let mut lines = String::new();
    let mut i: usize = 0;
    assert(outcomes@.take(0) =~= Seq::<(Symbol, Result<u64, String>)>::empty());
    while i < n
        invariant
            n == outcomes@.len(),
            0 <= i <= n,
            stored_total(outcomes@) <= u64::MAX,
            total == stored_total(outcomes@.take(i as int)),
            failures == failed_count(outcomes@.take(i as int)),
            lines@ == failure_lines(outcomes@.take(i as int)),
        decreases n - i,
    {
        proof {
            assert(outcomes@.take(i + 1).drop_last() =~= outcomes@.take(i as int));
            lemma_total_prefix(outcomes@, i + 1);
            lemma_counts_bounded(outcomes@.take(i + 1));
        }
        let (symbol, outcome) = &outcomes[i];
        match outcome {
            Ok(count) => {
                total = total + *count;
            },
            Err(e) => {
                failures = failures + 1;
                lines.append("\n");
                lines.append(symbol.as_str());
                lines.append(": ");
                lines.append(e.as_str());
            },
        }
        i = i + 1;
    }
    assert(outcomes@.take(n as int) =~= outcomes@);
    let mut report = u64_text(total);
    report.append(" bars stored, ");
    let f = u64_text(failures);
    report.append(f.as_str());
    report.append("/");
    let c = u64_text(n as u64);
    report.append(c.as_str());
    report.append(" symbols failed");
    report.append(lines.as_str());
    if failures == 0 {
        Ok(report)
    } else {
        Err(report)
    }
}

/// A prefix stores no more than the whole.
proof fn lemma_total_prefix(outcomes: Seq<(Symbol, Result<u64, String>)>, k: int)
    requires
        0 <= k <= outcomes.len(),
    ensures
        stored_total(outcomes.take(k)) <= stored_total(outcomes),
    decreases outcomes.len() - k,
{
    if k < outcomes.len() {
        lemma_total_prefix(outcomes.drop_last(), k);
        assert(outcomes.drop_last().take(k) =~= outcomes.take(k));
    } else {
        assert(outcomes.take(k) =~= outcomes);
    }
}

} // verus!
