//! The text report of the two passes of a benchmark.

use crate::sampler::effective_count_of;
use crate::sampler::RunSummary;
use crate::sampler::SamplingRun;
use crate::text::decimal_text;
use crate::text::duration_text;
use crate::text::push_decimal;
use crate::text::push_duration;
use vstd::prelude::*;
use vstd::string::StringExecFns;

verus! {

/// The text that stands for the average of a pass that attempted nothing.
pub open spec fn not_applicable() -> Seq<char> {
    "not applicable"@
}

/// The average time per element of a pass, in nanoseconds and rounded down;
/// none for a pass that attempted nothing.
pub open spec fn average_nanos(run: RunSummary) -> Option<nat> {
    if run.sample_size == 0 {
        None
    } else {
        Some(run.total_nanos / run.sample_size)
    }
}

/// The text of the average time per element of a pass.
pub open spec fn average_text(run: RunSummary) -> Seq<char> {
    match average_nanos(run) {
        Some(nanos) => duration_text(nanos),
        None => not_applicable(),
    }
}

/// The line of the sample size, counted in `unit`.
pub open spec fn sample_size_line(unit: Seq<char>, run: RunSummary) -> Seq<char> {
    "  Sample Size: "@ + decimal_text(run.sample_size) + " "@ + unit + "\n"@
}

/// The line of the successes.
pub open spec fn successes_line(run: RunSummary) -> Seq<char> {
    "  Successful: "@ + decimal_text(run.successes) + "\n"@
}

/// The line of the failures: their number, and how many are of each kind.
pub open spec fn failures_line(run: RunSummary) -> Seq<char> {
    "  Failed: "@ + decimal_text(run.failures()) + " (invalid identifiers: "@ + decimal_text(
        run.invalid,
    ) + ", remote errors: "@ + decimal_text(run.remote) + ")\n"@
}

/// The line of the total time.
pub open spec fn total_time_line(run: RunSummary) -> Seq<char> {
    "  Total Time: "@ + duration_text(run.total_nanos) + "\n"@
}

/// The line of the average time per `item`.
pub open spec fn average_line(item: Seq<char>, run: RunSummary) -> Seq<char> {
    "  Average Time per "@ + item + ": "@ + average_text(run) + "\n"@
}

/// The block of the report for one pass: a title line, then the sample size
/// in `unit`, the successes, the failures with both their kinds, the total
/// time and the average time per `item`.
pub open spec fn run_block(
    title: Seq<char>,
    unit: Seq<char>,
    item: Seq<char>,
    run: RunSummary,
) -> Seq<char> {
    title + "\n"@ + sample_size_line(unit, run) + successes_line(run) + failures_line(run)
        + total_time_line(run) + average_line(item, run)
}

/// The whole report: a header line with the time of writing, a rule, the
/// block of the address pass, an empty line and the block of the transaction
/// pass.
pub open spec fn report_text(
    timestamp: Seq<char>,
    address_run: RunSummary,
    transaction_run: RunSummary,
) -> Seq<char> {
    "Electrum Benchmark Results - "@ + timestamp + "\n"@
        + "--------------------------------------\n"@ + run_block(
        "Address UTXO Lookup:"@,
        "addresses"@,
        "Address"@,
        address_run,
    ) + "\n"@ + run_block("Transaction Fetch:"@, "transactions"@, "Transaction"@, transaction_run)
}

/// Appends the line of the sample size to `out`.
fn push_sample_size_line(out: &mut String, unit: &str, run: &SamplingRun)
    ensures
        final(out)@ == old(out)@ + sample_size_line(unit@, run@),
{
    out.append("  Sample Size: ");
    push_decimal(out, run.sample_size() as u128);
    out.append(" ");
    out.append(unit);
    out.append("\n");
    assert(out@ =~= old(out)@ + sample_size_line(unit@, run@));
}

/// Appends the line of the successes to `out`.
fn push_successes_line(out: &mut String, run: &SamplingRun)
    ensures
        final(out)@ == old(out)@ + successes_line(run@),
{
    out.append("  Successful: ");
    push_decimal(out, run.success_count() as u128);
    out.append("\n");
    assert(out@ =~= old(out)@ + successes_line(run@));
}

/// Appends the line of the failures to `out`.
fn push_failures_line(out: &mut String, run: &SamplingRun)
    ensures
        final(out)@ == old(out)@ + failures_line(run@),
{
    out.append("  Failed: ");
    push_decimal(out, run.failure_count() as u128);
    out.append(" (invalid identifiers: ");
    push_decimal(out, run.invalid_count() as u128);
    out.append(", remote errors: ");
    push_decimal(out, run.remote_failure_count() as u128);
    out.append(")\n");
    assert(out@ =~= old(out)@ + failures_line(run@));
}

/// Appends the line of the total time to `out`.
fn push_total_time_line(out: &mut String, run: &SamplingRun)
    ensures
        final(out)@ == old(out)@ + total_time_line(run@),
{
    out.append("  Total Time: ");
    let total = run.total_duration();
    push_duration(out, &total);
    out.append("\n");
    assert(out@ =~= old(out)@ + total_time_line(run@));
}

/// Appends the line of the average time to `out`. For a pass that attempted
/// nothing no division is made.
fn push_average_line(out: &mut String, item: &str, run: &SamplingRun)
    ensures
        final(out)@ == old(out)@ + average_line(item@, run@),
{
    out.append("  Average Time per ");
    out.append(item);
    out.append(": ");
    match run.average_duration() {
        Some(share) => {
            push_duration(out, &share);
        },
        None => {
            out.append("not applicable");
        },
    }
    out.append("\n");
    assert(out@ =~= old(out)@ + average_line(item@, run@));
}

/// Appends the block of one pass to `out`.
fn push_run_block(out: &mut String, title: &str, unit: &str, item: &str, run: &SamplingRun)
    ensures
        final(out)@ == old(out)@ + run_block(title@, unit@, item@, run@),
{
    out.append(title);
    out.append("\n");
    push_sample_size_line(out, unit, run);
    push_successes_line(out, run);
    push_failures_line(out, run);
    push_total_time_line(out, run);
    push_average_line(out, item, run);
    assert(out@ =~= old(out)@ + run_block(title@, unit@, item@, run@));
}

/// Renders the report of the two passes, headed by `timestamp`.
pub fn render_report(timestamp: &str, address_run: &SamplingRun, transaction_run: &SamplingRun) -> (text:
    String)
    ensures
        text@ == report_text(timestamp@, address_run@, transaction_run@),
{
    let mut text = String::new();
    text.append("Electrum Benchmark Results - ");
    text.append(timestamp);
    text.append("\n");
    text.append("--------------------------------------\n");
    push_run_block(&mut text, "Address UTXO Lookup:", "addresses", "Address", address_run);
    text.append("\n");
    push_run_block(&mut text, "Transaction Fetch:", "transactions", "Transaction", transaction_run);
    assert(text@ =~= report_text(timestamp@, address_run@, transaction_run@));
    text
}

/// `Local::now` reads the system clock in the machine's time zone, and
/// `DateTime::format` writes it as year, month, day, hour, minute and second.
/// The clock and the zone decide the text: nothing is claimed of it.
#[verifier::external_body]
fn local_timestamp() -> (text: String) {
    chrono::Local::now().format("%Y-%m-%d %H:%M:%S").to_string()
}

/// The two passes of a benchmark and the time at which they were put together.
pub struct BenchmarkReport {
    pub timestamp: String,
    pub address_run: SamplingRun,
    pub transaction_run: SamplingRun,
}

impl BenchmarkReport {
    /// Puts the two passes together under the current local time.
    pub fn generate(address_run: SamplingRun, transaction_run: SamplingRun) -> (report:
        BenchmarkReport)
        ensures
            report.address_run == address_run,
            report.transaction_run == transaction_run,
    {
        BenchmarkReport { timestamp: local_timestamp(), address_run, transaction_run }
    }

    /// The text of the report.
    pub fn render(&self) -> (text: String)
        ensures
            text@ == report_text(self.timestamp@, self.address_run@, self.transaction_run@),
    {
        render_report(self.timestamp.as_str(), &self.address_run, &self.transaction_run)
    }
}

/// Hands the report of the two passes, stamped with the current local time,
/// to `sink`, which stores it in place of whatever the destination held, and
/// returns what `sink` returned: an error of the destination reaches the
/// caller as it is, and nothing is tried again.
pub fn write_benchmark_results<E, W: FnOnce(String) -> Result<(), E>>(
    sink: W,
    address_run: &SamplingRun,
    transaction_run: &SamplingRun,
) -> (written: Result<(), E>)
    requires
        forall|text: String| call_requires(sink, (text,)),
    ensures
        exists|text: String, timestamp: Seq<char>|
            #![trigger call_ensures(sink, (text,), written), report_text(timestamp, address_run@, transaction_run@)]
            text@ == report_text(timestamp, address_run@, transaction_run@) && call_ensures(
                sink,
                (text,),
                written,
            ),
{
    let timestamp = local_timestamp();
    let text = render_report(timestamp.as_str(), address_run, transaction_run);
    sink(text)
}

/// A pass over an empty list attempts nothing, whatever sample size was
/// asked for, and a pass that attempted nothing has no average: the report
/// gives it as not applicable.
pub proof fn lemma_empty_pass_has_no_average(requested: nat, item: Seq<char>, run: RunSummary)
    requires
        run.sample_size == effective_count_of(0, requested),
    ensures
        run.sample_size == 0,
        average_nanos(run) is None,
        average_text(run) == not_applicable(),
        average_line(item, run) == "  Average Time per "@ + item + ": "@ + "not applicable"@
            + "\n"@,
{
}

} // verus!
