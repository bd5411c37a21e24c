use electrum_benchmark::benchmark::run_sample;
use electrum_benchmark::outcome::{FailureReason, SampleDetail, SampleOutcome};
use electrum_benchmark::report::{render_report, write_benchmark_results, BenchmarkReport};
use electrum_benchmark::sampler::{Notice, Sampler, SamplingRun};
use electrum_benchmark::timing::Elapsed;
use std::cell::RefCell;

fn run_with(successes: usize, invalid: usize, remote: usize, total: Elapsed) -> SamplingRun {
    let count = successes + invalid + remote;
    let mut sampler = Sampler::new(count, count);
    for _ in 0..successes {
        let _ = sampler.record(SampleOutcome::Success(SampleDetail::Transaction));
    }
    for _ in 0..invalid {
        let _ = sampler.record(SampleOutcome::Failure(FailureReason::InvalidIdentifier));
    }
    for _ in 0..remote {
        let _ = sampler.record(SampleOutcome::Failure(FailureReason::Remote));
    }
    assert_eq!(sampler.next_index(), None);
    sampler.finish(total)
}

fn is_timestamp(text: &str) -> bool {
    let bytes = text.as_bytes();
    bytes.len() == 19
        && bytes.iter().enumerate().all(|(i, b)| match i {
            4 | 7 => *b == b'-',
            10 => *b == b' ',
            13 | 16 => *b == b':',
            _ => b.is_ascii_digit(),
        })
}

#[test]
fn report_has_the_expected_text() {
    let address_run = run_with(90, 0, 10, Elapsed::new(12, 500_000_000).unwrap());
    let transaction_run = run_with(5, 2, 1, Elapsed::new(0, 4_000_000).unwrap());
    let text = render_report("2024-05-06 07:08:09", &address_run, &transaction_run);
    let expected = "Electrum Benchmark Results - 2024-05-06 07:08:09\n\
--------------------------------------\n\
Address UTXO Lookup:\n\
\x20 Sample Size: 100 addresses\n\
\x20 Successful: 90\n\
\x20 Failed: 10 (invalid identifiers: 0, remote errors: 10)\n\
\x20 Total Time: 12.5s\n\
\x20 Average Time per Address: 125ms\n\
\n\
Transaction Fetch:\n\
\x20 Sample Size: 8 transactions\n\
\x20 Successful: 5\n\
\x20 Failed: 3 (invalid identifiers: 2, remote errors: 1)\n\
\x20 Total Time: 4ms\n\
\x20 Average Time per Transaction: 500µs\n";
    assert_eq!(text, expected);
}

#[test]
fn empty_passes_report_no_average() {
    let inputs: Vec<String> = Vec::new();
    let run = run_sample(
        &inputs,
        100,
        |_text: &String| SampleOutcome::Success(SampleDetail::Transaction),
        |_notice: Notice| {},
    );
    let text = render_report("now", &run, &run);
    assert!(text.contains("  Sample Size: 0 addresses\n"));
    assert!(text.contains("  Sample Size: 0 transactions\n"));
    assert!(text.contains("  Average Time per Address: not applicable\n"));
    assert!(text.contains("  Average Time per Transaction: not applicable\n"));
    assert_eq!(text.matches("not applicable").count(), 2);
}

#[test]
fn empty_pass_with_a_known_time_has_the_expected_text() {
    let empty = run_with(0, 0, 0, Elapsed::zero());
    let text = render_report("t", &empty, &empty);
    let expected = "Electrum Benchmark Results - t\n\
--------------------------------------\n\
Address UTXO Lookup:\n\
\x20 Sample Size: 0 addresses\n\
\x20 Successful: 0\n\
\x20 Failed: 0 (invalid identifiers: 0, remote errors: 0)\n\
\x20 Total Time: 0ns\n\
\x20 Average Time per Address: not applicable\n\
\n\
Transaction Fetch:\n\
\x20 Sample Size: 0 transactions\n\
\x20 Successful: 0\n\
\x20 Failed: 0 (invalid identifiers: 0, remote errors: 0)\n\
\x20 Total Time: 0ns\n\
\x20 Average Time per Transaction: not applicable\n";
    assert_eq!(text, expected);
}

#[test]
fn alternating_outcomes_are_reported_in_their_split() {
    let inputs: Vec<String> = (0..10).map(|i| format!("{}", i)).collect();
    let turn: RefCell<usize> = RefCell::new(0);
    let run = run_sample(
        &inputs,
        10,
        |_text: &String| {
            let mut turn = turn.borrow_mut();
            *turn += 1;
            if *turn % 2 == 1 {
                SampleOutcome::Success(SampleDetail::Utxos(1))
            } else {
                SampleOutcome::Failure(FailureReason::Remote)
            }
        },
        |_notice: Notice| {},
    );
    let text = render_report("now", &run, &run);
    assert!(text.contains("  Sample Size: 10 addresses\n  Successful: 5\n  Failed: 5 (invalid identifiers: 0, remote errors: 5)\n"));
}

#[test]
fn average_is_rounded_down_in_the_report() {
    let run = run_with(3, 0, 0, Elapsed::new(10, 0).unwrap());
    let text = render_report("now", &run, &run);
    assert!(text.contains("  Total Time: 10s\n"));
    assert!(text.contains("  Average Time per Address: 3.333333333s\n"));
}

#[test]
fn generated_report_is_stamped_with_a_local_time() {
    let address_run = run_with(1, 0, 0, Elapsed::new(0, 10).unwrap());
    let transaction_run = run_with(0, 1, 1, Elapsed::new(0, 20).unwrap());
    let report = BenchmarkReport::generate(address_run, transaction_run);
    assert!(is_timestamp(&report.timestamp));
    assert_eq!(report.address_run.sample_size(), 1);
    assert_eq!(report.transaction_run.sample_size(), 2);
    let text = report.render();
    assert_eq!(text, render_report(&report.timestamp, &report.address_run, &report.transaction_run));
    assert!(text.starts_with(&format!("Electrum Benchmark Results - {}\n", report.timestamp)));
}

#[test]
fn write_hands_the_report_to_the_sink() {
    let address_run = run_with(2, 0, 0, Elapsed::new(0, 2_000).unwrap());
    let transaction_run = run_with(1, 1, 0, Elapsed::new(1, 0).unwrap());
    let stored: RefCell<Option<String>> = RefCell::new(None);
    let written: Result<(), String> = write_benchmark_results(
        |text: String| {
            *stored.borrow_mut() = Some(text);
            Ok(())
        },
        &address_run,
        &transaction_run,
    );
    assert_eq!(written, Ok(()));
    let text = stored.borrow().clone().unwrap();
    let header = "Electrum Benchmark Results - ";
    assert!(text.starts_with(header));
    let first_line = text.lines().next().unwrap();
    let timestamp = &first_line[header.len()..];
    assert!(is_timestamp(timestamp));
    assert_eq!(text, render_report(timestamp, &address_run, &transaction_run));
}

#[test]
fn write_returns_the_error_of_the_sink() {
    let run = run_with(0, 0, 0, Elapsed::zero());
    let calls: RefCell<usize> = RefCell::new(0);
    let written: Result<(), String> = write_benchmark_results(
        |_text: String| {
            *calls.borrow_mut() += 1;
            Err("disk full".to_string())
        },
        &run,
        &run,
    );
    assert_eq!(written, Err("disk full".to_string()));
    assert_eq!(*calls.borrow(), 1);
}

#[test]
fn a_short_report_stored_after_a_long_one_leaves_no_residue() {
    let long_run = run_with(1_000_000, 0, 0, Elapsed::new(123_456, 789_000_000).unwrap());
    let short_run = run_with(0, 0, 0, Elapsed::zero());
    let destination: RefCell<String> = RefCell::new(String::new());
    let store = |text: String| -> Result<(), String> {
        *destination.borrow_mut() = text;
        Ok(())
    };
    write_benchmark_results(store, &long_run, &long_run).unwrap();
    let long_len = destination.borrow().len();
    write_benchmark_results(store, &short_run, &short_run).unwrap();
    let kept = destination.borrow().clone();
    assert!(kept.len() < long_len);
    assert!(!kept.contains("1000000"));
    assert!(kept.ends_with("  Average Time per Transaction: not applicable\n"));
}
