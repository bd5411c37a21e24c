use electrum_benchmark::sampler::Sampler;
use electrum_benchmark::outcome::{SampleDetail, SampleOutcome};
use electrum_benchmark::text::{decimal_string, duration_string};
use electrum_benchmark::timing::{Elapsed, Stopwatch, NANOS_PER_SEC};
use std::time::Duration;

fn span(secs: u64, nanos: u32) -> Elapsed {
    Elapsed::new(secs, nanos).unwrap()
}

fn run_of(count: usize, total: Elapsed) -> electrum_benchmark::sampler::SamplingRun {
    let mut sampler = Sampler::new(count, count);
    while sampler.next_index().is_some() {
        let _ = sampler.record(SampleOutcome::Success(SampleDetail::Transaction));
    }
    sampler.finish(total)
}

#[test]
fn elapsed_keeps_its_parts() {
    assert_eq!(NANOS_PER_SEC, 1_000_000_000);
    let e = span(3, 250_000_000);
    assert_eq!(e.as_secs(), 3);
    assert_eq!(e.subsec_nanos(), 250_000_000);
    assert_eq!(e.as_nanos(), 3_250_000_000);
    assert_eq!(Elapsed::zero().as_nanos(), 0);
    let top = span(u64::MAX, 999_999_999);
    assert_eq!(top.as_nanos(), u64::MAX as u128 * 1_000_000_000 + 999_999_999);
}

#[test]
fn elapsed_rejects_a_full_second_of_nanos() {
    assert!(Elapsed::new(0, 999_999_999).is_some());
    assert!(Elapsed::new(0, 1_000_000_000).is_none());
    assert!(Elapsed::new(5, u32::MAX).is_none());
}

#[test]
fn per_item_divides_and_rounds_down() {
    assert!(span(1, 0).per_item(0).is_none());
    assert_eq!(span(1, 0).per_item(4).unwrap().as_nanos(), 250_000_000);
    assert_eq!(span(10, 0).per_item(3).unwrap().as_nanos(), 3_333_333_333);
    assert_eq!(span(0, 7).per_item(8).unwrap().as_nanos(), 0);
    assert_eq!(span(0, 7).per_item(1).unwrap().as_nanos(), 7);
    let top = span(u64::MAX, 999_999_999);
    assert_eq!(top.per_item(1).unwrap().as_nanos(), top.as_nanos());
    assert_eq!(top.per_item(usize::MAX).unwrap().as_nanos(), top.as_nanos() / usize::MAX as u128);
}

#[test]
fn average_of_a_run_is_total_over_sample_size() {
    let run = run_of(4, span(2, 2));
    assert_eq!(run.average_duration().unwrap().as_nanos(), 500_000_000);
    let run = run_of(3, span(0, 100));
    assert_eq!(run.average_duration().unwrap().as_nanos(), 33);
    let run = run_of(0, span(9, 9));
    assert!(run.average_duration().is_none());
}

#[test]
fn stopwatch_does_not_run_backwards() {
    let watch = Stopwatch::start();
    let first = watch.elapsed();
    let mut previous = first.as_nanos();
    let mut rounds: u64 = 0;
    while watch.elapsed().as_nanos() < first.as_nanos() + 1_000_000 {
        let now = watch.elapsed().as_nanos();
        assert!(now >= previous);
        previous = now;
        rounds += 1;
    }
    let last = watch.elapsed();
    assert!(last.as_nanos() >= first.as_nanos() + 1_000_000);
    assert!(last.subsec_nanos() < NANOS_PER_SEC);
    assert!(rounds < u64::MAX);
}

#[test]
fn decimal_text_of_counts() {
    assert_eq!(decimal_string(0), "0");
    assert_eq!(decimal_string(7), "7");
    assert_eq!(decimal_string(10), "10");
    assert_eq!(decimal_string(100), "100");
    assert_eq!(decimal_string(9_081_726), "9081726");
    assert_eq!(decimal_string(usize::MAX), usize::MAX.to_string());
}

#[test]
fn duration_text_in_each_unit() {
    assert_eq!(duration_string(&span(0, 0)), "0ns");
    assert_eq!(duration_string(&span(0, 999)), "999ns");
    assert_eq!(duration_string(&span(0, 1_000)), "1µs");
    assert_eq!(duration_string(&span(0, 1_500)), "1.5µs");
    assert_eq!(duration_string(&span(0, 999_999)), "999.999µs");
    assert_eq!(duration_string(&span(0, 1_000_000)), "1ms");
    assert_eq!(duration_string(&span(0, 2_345_000)), "2.345ms");
    assert_eq!(duration_string(&span(0, 100_000_001)), "100.000001ms");
    assert_eq!(duration_string(&span(1, 0)), "1s");
    assert_eq!(duration_string(&span(1, 500_000_000)), "1.5s");
    assert_eq!(duration_string(&span(1, 1)), "1.000000001s");
    assert_eq!(duration_string(&span(12, 34_000_000)), "12.034s");
    assert_eq!(duration_string(&span(u64::MAX, 999_999_999)), "18446744073709551615.999999999s");
}

#[test]
fn duration_text_reads_like_the_standard_debug_form() {
    let nanos: [u32; 18] = [
        0, 1, 9, 10, 999, 1_000, 1_001, 10_500, 999_999, 1_000_000, 1_000_001, 20_300_000,
        999_999_999, 500_000_000, 123_456_789, 100, 7_000, 40_000_000,
    ];
    let secs: [u64; 6] = [0, 1, 2, 59, 3_600, u64::MAX];
    for s in secs {
        for n in nanos {
            let ours = duration_string(&span(s, n));
            let theirs = format!("{:?}", Duration::new(s, n));
            assert_eq!(ours, theirs);
        }
    }
}
