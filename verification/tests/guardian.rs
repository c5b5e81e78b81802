use std::cell::RefCell;
use std::rc::Rc;

use resource_guardian::{
    Binary64, ConservationTracker, NoticeLevel, ResourceBudget, ResourceGuardian, ResourcePhase,
    WorkerUsage,
};

const CPUS: Option<usize> = Some(4);

fn number(x: f64) -> Binary64 {
    Binary64 { bits: x.to_bits() }
}

fn value(x: Binary64) -> f64 {
    f64::from_bits(x.bits)
}

fn hundreds() -> ResourceBudget {
    ResourceBudget { memory: 100, cpu: 100, network: 100, file_handles: 100 }
}

#[test]
fn test_phase_from_ratio() {
    assert_eq!(ResourcePhase::from_ratio(number(0.0)), ResourcePhase::Normal);
    assert_eq!(ResourcePhase::from_ratio(number(0.69)), ResourcePhase::Normal);
    assert_eq!(ResourcePhase::from_ratio(number(0.70)), ResourcePhase::Warning);
    assert_eq!(ResourcePhase::from_ratio(number(0.84)), ResourcePhase::Warning);
    assert_eq!(ResourcePhase::from_ratio(number(0.85)), ResourcePhase::Degraded);
    assert_eq!(ResourcePhase::from_ratio(number(0.99)), ResourcePhase::Degraded);
    assert_eq!(ResourcePhase::from_ratio(number(1.0)), ResourcePhase::HardStop);
    assert_eq!(ResourcePhase::from_ratio(number(1.5)), ResourcePhase::HardStop);
}

#[test]
fn test_worker_usage_defaults() {
    let u = WorkerUsage::new(ResourceBudget::default());
    assert_eq!(value(u.memory_ratio()), 0.0);
    assert_eq!(value(u.cpu_ratio()), 0.0);
    assert_eq!(value(u.network_ratio()), 0.0);
    assert_eq!(value(u.file_ratio()), 0.0);
}

#[test]
fn test_worker_usage_ratios() {
    let mut u = WorkerUsage::new(ResourceBudget {
        memory: 100,
        cpu: 100,
        network: 100,
        file_handles: 100,
    });
    u.peak_heap = 50;
    u.cpu_ms = 75;
    u.network_bytes = 90;
    u.open_files = 10;

    assert!((value(u.memory_ratio()) - 0.5).abs() < 1e-9);
    assert!((value(u.cpu_ratio()) - 0.75).abs() < 1e-9);
    assert!((value(u.network_ratio()) - 0.9).abs() < 1e-9);
    assert!((value(u.file_ratio()) - 0.1).abs() < 1e-9);
    assert!((value(u.max_ratio()) - 0.9).abs() < 1e-9);
}

#[test]
fn test_guardian_register_and_enforce() {
    let mut g = ResourceGuardian::new(CPUS);
    let _ = g.register_worker("test-1".into(), ResourceBudget::small());
    let _ = g.register_worker("test-2".into(), ResourceBudget::heavy());

    // No usage yet: should be empty.
    let stop = g.enforce();
    assert!(stop.is_empty());
}

#[test]
fn test_guardian_enforce_hard_stop() {
    let mut g = ResourceGuardian::new(CPUS);
    let usage = g.register_worker("rogue".into(), ResourceBudget {
        memory: 512 * 1024 * 1024,
        cpu: 100_000,
        network: 100_000_000,
        file_handles: 1000,
    });

    // Simulate exceeding the memory budget.
    g.usage_mut(&usage).peak_heap = 600 * 1024 * 1024; // > 512 MB

    let stop = g.enforce();
    assert_eq!(stop.len(), 1);
    assert_eq!(stop[0], "rogue");
}

#[test]
fn test_conservation_tracker() {
    let mut ct = ConservationTracker::<fn(&str)>::new(CPUS);
    // Within limits initially.
    assert!(ct.charge_cpu(1));
    ct.reset_window();
    // Even after reset, the old values are gone.
    assert_eq!(value(ct.usage_fraction()), 0.0);
}

#[test]
fn test_summary_format() {
    let u = WorkerUsage::new(ResourceBudget::default());
    let s = u.summary();
    assert!(s.contains("mem="));
    assert!(s.contains("cpu="));
    assert!(s.contains("net="));
    assert!(s.contains("files="));
}

#[test]
fn test_status_empty() {
    let g = ResourceGuardian::new(CPUS);
    assert!(g.status().contains("no workers tracked"));
}

#[test]
fn test_window_config() {
    let mut g = ResourceGuardian::new(CPUS);
    let _usage = g.register_worker("test".into(), ResourceBudget::default());
    assert!(g.is_enabled());
    let stop = g.enforce();
    assert!(stop.is_empty());
    g.unregister_worker("test");
    let s = g.status();
    assert!(s.contains("no workers"));
}

#[test]
fn test_set_enabled() {
    let mut g = ResourceGuardian::new(CPUS);
    assert!(g.is_enabled());
    g.set_enabled(false);
    assert!(!g.is_enabled());
    // Enforcement should be a no-op when disabled.
    let stop = g.enforce();
    assert!(stop.is_empty());
}

#[test]
fn test_v8_near_heap_callback() {
    let mut usage = WorkerUsage::new(ResourceBudget {
        memory: 100,
        cpu: 100,
        network: 100,
        file_handles: 100,
    });

    // Under budget: allow V8 to double.
    usage.peak_heap = 40;
    let result = ResourceGuardian::v8_near_heap_limit_callback(&usage, 50, 25);
    assert_eq!(result, 100); // doubled, up to budget

    // Over budget: should return current_limit to block growth.
    usage.peak_heap = 120;
    let result = ResourceGuardian::v8_near_heap_limit_callback(&usage, 100, 25);
    assert_eq!(result, 100);
}

#[test]
fn test_budget_presets() {
    let s = ResourceBudget::small();
    assert!(s.memory < ResourceBudget::default().memory);

    let h = ResourceBudget::heavy();
    assert!(h.memory > ResourceBudget::default().memory);
}

#[test]
fn presets_have_the_documented_limits() {
    let mb: u64 = 1024 * 1024;
    let expect = |b: ResourceBudget, memory: u64, cpu: u64, network: u64, file_handles: u64| {
        assert_eq!(b, ResourceBudget { memory, cpu, network, file_handles });
    };
    expect(ResourceBudget::default(), 256 * mb, 1_000, 10 * mb, 256);
    expect(ResourceBudget::small(), 64 * mb, 1_000, 10 * mb, 256);
    expect(ResourceBudget::medium(), 256 * mb, 5_000, 50 * mb, 512);
    expect(ResourceBudget::heavy(), 1024 * mb, 15_000, 200 * mb, 2048);
    assert_eq!(ResourceBudget::heavy().clone(), ResourceBudget::heavy());
    assert_eq!(ResourcePhase::default(), ResourcePhase::Normal);
    assert_eq!(WorkerUsage::default().budget, ResourceBudget::default());
}

#[test]
fn summary_is_exact() {
    let mut u = WorkerUsage::new(ResourceBudget {
        memory: 1000,
        cpu: 3,
        network: 7,
        file_handles: 0,
    });
    u.peak_heap = 452;
    u.cpu_ms = 1;
    u.network_bytes = 8;
    u.open_files = 12;
    assert_eq!(u.summary(), "mem=45.2% cpu=33.3% net=114.3% files=0.0%");
}

/// A guardian with one worker under `label`, at `peak` of 1000 bytes and 120 of
/// 1000 ms.
fn guardian_with(label: &str, peak: u64) -> ResourceGuardian {
    let mut g = ResourceGuardian::new(CPUS);
    let usage = g.register_worker(label.into(), ResourceBudget {
        memory: 1000,
        cpu: 1000,
        network: 1000,
        file_handles: 1000,
    });
    g.usage_mut(&usage).cpu_ms = 120;
    g.usage_mut(&usage).peak_heap = peak;
    g
}

#[test]
fn notices_are_exact() {
    let (stop, notices) = guardian_with("data-pipeline", 699).enforce_with_notices();
    assert!(stop.is_empty() && notices.is_empty());

    let (stop, notices) = guardian_with("data-pipeline", 723).enforce_with_notices();
    assert!(stop.is_empty());
    assert_eq!(notices.len(), 1);
    assert_eq!(notices[0].level, NoticeLevel::Warn);
    assert_eq!(
        notices[0].message,
        "[resource-guardian] WARNING 'data-pipeline' at 72.3% — mem=72.3% cpu=12.0% net=0.0% files=0.0%"
    );

    let (stop, notices) = guardian_with("data-pipeline", 861).enforce_with_notices();
    assert!(stop.is_empty());
    assert_eq!(notices.len(), 1);
    assert_eq!(notices[0].level, NoticeLevel::Warn);
    assert_eq!(
        notices[0].message,
        "[resource-guardian] DEGRADED 'data-pipeline' at 86.1% — mem=86.1% cpu=12.0% net=0.0% files=0.0%"
    );

    let (stop, notices) = guardian_with("data-pipeline", 1012).enforce_with_notices();
    assert_eq!(stop, vec!["data-pipeline".to_string()]);
    assert_eq!(notices.len(), 1);
    assert_eq!(notices[0].level, NoticeLevel::Error);
    assert_eq!(
        notices[0].message,
        "[resource-guardian] HARD STOP 'data-pipeline' — mem=101.2% cpu=12.0% net=0.0% files=0.0%"
    );
}

#[test]
fn enforcement_records_phases_and_says_nothing_twice() {
    let mut g = ResourceGuardian::new(CPUS);
    let usage = g.register_worker("w".into(), hundreds());
    for (peak, phase, lines, throttled) in [
        (69, ResourcePhase::Normal, 0, false),
        (72, ResourcePhase::Warning, 1, false),
        (90, ResourcePhase::Degraded, 1, true),
        (100, ResourcePhase::HardStop, 1, true),
        (150, ResourcePhase::HardStop, 0, true),
        (90, ResourcePhase::Degraded, 0, true),
        (75, ResourcePhase::Warning, 0, false),
        (10, ResourcePhase::Normal, 0, false),
        (90, ResourcePhase::Degraded, 1, true),
    ] {
        g.usage_mut(&usage).peak_heap = peak;
        let (stop, notices) = g.enforce_with_notices();
        assert_eq!(stop.is_empty(), peak < 100);
        assert_eq!(notices.len(), lines);
        assert_eq!(g.usage(&usage).last_phase, phase);
        assert_eq!(g.usage(&usage).is_throttled(), throttled);
        let (again, silence) = g.enforce_with_notices();
        assert_eq!(again, stop);
        assert!(silence.is_empty());
    }
}

#[test]
fn a_flagged_worker_in_hard_stop_is_returned() {
    let mut g = ResourceGuardian::new(CPUS);
    let u = g.register_worker("w".into(), hundreds());
    g.usage_mut(&u).peak_heap = 150;
    g.usage_mut(&u).last_phase = ResourcePhase::HardStop;
    assert_eq!(g.enforce(), vec!["w".to_string()]);
}

#[test]
fn recorded_phases_silence_notices() {
    let mut g = ResourceGuardian::new(CPUS);
    let usage = g.register_worker("w".into(), hundreds());
    for (phase, at_90) in [
        (ResourcePhase::Normal, true),
        (ResourcePhase::Warning, true),
        (ResourcePhase::Degraded, false),
        (ResourcePhase::HardStop, false),
    ] {
        g.usage_mut(&usage).last_phase = phase;
        g.usage_mut(&usage).open_files = 90;
        let (stop, notices) = g.enforce_with_notices();
        assert!(stop.is_empty());
        assert_eq!(!notices.is_empty(), at_90);
        g.usage_mut(&usage).last_phase = phase;
        g.usage_mut(&usage).open_files = 100;
        let (stop, notices) = g.enforce_with_notices();
        assert_eq!(stop, vec!["w".to_string()]);
        if phase == ResourcePhase::HardStop {
            assert!(notices.is_empty());
        } else {
            assert_eq!(notices[0].level, NoticeLevel::Error);
        }
    }
}

#[test]
fn a_climbing_worker_is_announced_in_every_phase() {
    let mut g = ResourceGuardian::new(CPUS);
    let usage = g.register_worker("data-pipeline".into(), hundreds());
    let mut lines = Vec::new();
    for peak in [50, 72, 73, 86, 87, 101, 102] {
        g.usage_mut(&usage).peak_heap = peak;
        for notice in g.enforce_with_notices().1 {
            lines.push(notice.message);
        }
    }
    assert_eq!(
        lines,
        vec![
            "[resource-guardian] WARNING 'data-pipeline' at 72.0% — mem=72.0% cpu=0.0% net=0.0% files=0.0%".to_string(),
            "[resource-guardian] DEGRADED 'data-pipeline' at 86.0% — mem=86.0% cpu=0.0% net=0.0% files=0.0%".to_string(),
            "[resource-guardian] HARD STOP 'data-pipeline' — mem=101.0% cpu=0.0% net=0.0% files=0.0%".to_string(),
        ]
    );
}

#[test]
fn no_one_is_called_back_within_limits() {
    let mut ct = ConservationTracker::<Box<dyn Fn(&str)>>::new(None);
    ct.on_violation(Box::new(|text| panic!("called back with {}", text)));
    assert!(ct.charge_cpu(500));
    assert!(ct.charge_cpu(300));
}

#[test]
fn every_dimension_can_stop_a_worker() {
    for dimension in 0..4 {
        let mut g = ResourceGuardian::new(CPUS);
        let usage = g.register_worker("w".into(), hundreds());
        let u = g.usage_mut(&usage);
        match dimension {
            0 => u.peak_heap = 100,
            1 => u.cpu_ms = 100,
            2 => u.network_bytes = 100,
            _ => u.open_files = 100,
        }
        assert_eq!(g.enforce(), vec!["w".to_string()]);
    }
}

#[test]
fn empty_budgets_are_not_enforced() {
    let mut g = ResourceGuardian::new(CPUS);
    let usage = g.register_worker("w".into(), ResourceBudget {
        memory: 0,
        cpu: 0,
        network: 0,
        file_handles: 0,
    });
    let u = g.usage_mut(&usage);
    u.peak_heap = u64::MAX;
    u.cpu_ms = u64::MAX;
    u.network_bytes = u64::MAX;
    u.open_files = u32::MAX;
    assert!(g.enforce().is_empty());
}

#[test]
fn only_the_rogue_is_stopped() {
    let mut g = ResourceGuardian::new(CPUS);
    let mut handles = Vec::new();
    for i in 0..12 {
        handles.push(g.register_worker(format!("worker-{}", i), hundreds()));
    }
    g.usage_mut(&handles[7]).peak_heap = 1_000_000;
    assert_eq!(g.enforce(), vec!["worker-7".to_string()]);
    g.unregister_worker("worker-7");
    assert!(g.enforce().is_empty());
    // Counters of a worker that is gone can be read, and matter no more.
    assert_eq!(g.usage(&handles[7]).peak_heap, 1_000_000);
    g.usage_mut(&handles[7]).cpu_ms = 1_000_000;
    assert!(g.enforce().is_empty());
    g.unregister_worker("worker-7");
    g.usage_mut(&handles[3]).cpu_ms = 100;
    g.usage_mut(&handles[9]).cpu_ms = 101;
    let mut stop = g.enforce();
    stop.sort();
    assert_eq!(stop, vec!["worker-3".to_string(), "worker-9".to_string()]);
}

#[test]
fn registering_again_replaces_a_worker() {
    let mut g = ResourceGuardian::new(CPUS);
    let first = g.register_worker("w".into(), hundreds());
    g.usage_mut(&first).peak_heap = 100;
    assert_eq!(g.enforce(), vec!["w".to_string()]);
    let second = g.register_worker("w".into(), ResourceBudget::small());
    assert!(g.enforce().is_empty());
    assert_eq!(g.usage(&first).peak_heap, 100);
    assert_eq!(g.usage(&second).peak_heap, 0);
    assert_eq!(g.usage(&second).budget, ResourceBudget::small());
    g.usage_mut(&second).peak_heap = u64::MAX;
    assert_eq!(g.enforce(), vec!["w".to_string()]);
    assert_eq!(g.status().lines().count(), 3);
}

#[test]
fn pausing_and_resuming_keeps_workers() {
    let mut g = ResourceGuardian::new(CPUS);
    let usage = g.register_worker("w".into(), hundreds());
    g.usage_mut(&usage).peak_heap = 100;
    g.set_enabled(false);
    let (stop, notices) = g.enforce_with_notices();
    assert!(stop.is_empty() && notices.is_empty());
    g.set_enabled(true);
    assert_eq!(g.enforce(), vec!["w".to_string()]);
}

#[test]
fn status_is_exact() {
    let mut g = ResourceGuardian::new(Some(1));
    assert_eq!(g.status(), "resource-guardian: no workers tracked");
    let a = g.register_worker("data-pipeline".into(), ResourceBudget::default());
    let b = g.register_worker("http-handler".into(), hundreds());
    g.usage_mut(&a).cpu_ms = 120;
    g.usage_mut(&b).network_bytes = 2;
    g.usage_mut(&b).cpu_ms = 60;
    assert_eq!(g.charge_cpu(7), None);
    assert_eq!(
        g.status(),
        "resource-guardian status:\n  data-pipeline  mem=0.0% cpu=12.0% net=0.0% files=0.0%\n  http-handler  mem=0.0% cpu=60.0% net=2.0% files=0.0%\n  conservation: CPU at 23.4% of 80% target"
    );
}

#[test]
fn counters_are_per_window() {
    let mut g = ResourceGuardian::new(Some(1));
    let u = g.register_worker("w".into(), hundreds());
    let heap = g.register_worker("heap".into(), hundreds());
    g.usage_mut(&u).cpu_ms = 100;
    g.usage_mut(&u).network_bytes = 50;
    g.usage_mut(&heap).peak_heap = 100;
    g.usage_mut(&heap).open_files = 3;
    g.charge_cpu(10);
    assert_eq!(g.enforce(), vec!["w".to_string(), "heap".to_string()]);
    assert!(!g.elapse(4_999));
    assert_eq!(g.usage(&u).cpu_ms, 100);
    assert!(g.elapse(1));
    assert_eq!(g.usage(&u).cpu_ms, 0);
    assert_eq!(g.usage(&u).network_bytes, 0);
    assert_eq!(g.usage(&heap).open_files, 3);
    // The heap is still as large as it was.
    assert_eq!(g.enforce(), vec!["heap".to_string()]);
    assert!(g.status().ends_with("conservation: CPU at 0.0% of 80% target"));
    // What is left of a span counts for the next window.
    assert!(g.elapse(7_000));
    assert!(!g.elapse(2_999));
    assert!(g.elapse(1));
    assert!(g.elapse(u64::MAX));
    let mut g = g.with_window_ms(0);
    assert!(g.elapse(0));
}

#[test]
fn a_window_leaves_unregistered_counters() {
    let mut g = ResourceGuardian::new(Some(1));
    let u = g.register_worker("w".into(), hundreds());
    g.usage_mut(&u).cpu_ms = 100;
    g.unregister_worker("w");
    assert!(g.elapse(5_000));
    assert_eq!(g.usage(&u).cpu_ms, 100);
}

#[test]
fn released_counters_are_reclaimed() {
    let mut g = ResourceGuardian::new(CPUS);
    let keep = g.register_worker("keep".into(), hundreds());
    g.usage_mut(&keep).peak_heap = 7;
    for round in 0..100 {
        let h = g.register_worker("churn".into(), ResourceBudget::small());
        assert_eq!(g.usage(&h).peak_heap, 0);
        g.usage_mut(&h).peak_heap = 1 + round;
        if round % 2 == 0 {
            g.release(h);
            g.unregister_worker("churn");
        } else {
            g.unregister_worker("churn");
            assert_eq!(g.usage(&h).peak_heap, 1 + round);
            g.release(h);
        }
    }
    assert_eq!(g.usage(&keep).peak_heap, 7);
    assert_eq!(format!("{:?}", g).matches("peak_heap").count(), 2);
}

#[test]
fn workers_with_released_handles_are_still_enforced() {
    let mut g = ResourceGuardian::new(CPUS);
    let h = g.register_worker("w".into(), hundreds());
    g.usage_mut(&h).peak_heap = 100;
    g.release(h);
    let other = g.register_worker("other".into(), hundreds());
    assert_eq!(g.usage(&other).peak_heap, 0);
    assert_eq!(g.enforce(), vec!["w".to_string()]);
}

#[test]
fn the_window_can_be_set() {
    let g = ResourceGuardian::new(CPUS);
    assert_eq!(g.window_ms(), 5_000);
    let g = g.with_window_ms(250);
    assert_eq!(g.window_ms(), 250);
    assert!(g.is_enabled());
}

#[test]
fn charges_add_up_to_a_breach() {
    // One CPU: 800 ms are allowed.
    let mut ct = ConservationTracker::<fn(&str)>::new(None);
    assert!(ct.charge_cpu(500));
    assert!(ct.charge_cpu(300));
    assert_eq!(value(ct.usage_fraction()), 1.0);
    assert_eq!(ct.breach(), None);
    assert_eq!(
        ct.charge(1).unwrap(),
        "conservation breach: 801/800 allowed CPU ms consumed"
    );
    assert_eq!(ct.total_cpu_ms(), 801);
    assert_eq!(ct.system_cpus(), 1);
    assert!(!ct.charge_cpu(0));
    ct.reset_window();
    assert_eq!(ct.charge(800), None);
}

#[test]
fn totals_saturate() {
    let mut ct = ConservationTracker::<fn(&str)>::new(None);
    assert!(!ct.charge_cpu(u64::MAX));
    assert!(!ct.charge_cpu(1));
    assert_eq!(ct.total_cpu_ms(), u64::MAX);
    let mut g = ResourceGuardian::new(Some(1));
    for label in ["a", "b"] {
        let h = g.register_worker(label.into(), ResourceBudget {
            memory: 0,
            cpu: 0,
            network: 0,
            file_handles: 0,
        });
        g.usage_mut(&h).cpu_ms = u64::MAX;
    }
    assert_eq!(
        g.charge_cpu(u64::MAX).unwrap(),
        "conservation breach: 18446744073709551615/800 allowed CPU ms consumed"
    );
    assert_eq!(
        value(g.conservation_fraction()),
        u64::MAX as f64 / 800.0
    );
    assert!(g.status().contains(&format!("{:.1}", u64::MAX as f64 / 800.0 * 100.0)));
}

#[test]
fn breaches_are_called_back() {
    let heard = Rc::new(RefCell::new(Vec::new()));
    let mut ct = ConservationTracker::<Box<dyn Fn(&str)>>::new(None);
    assert!(ct.callback().is_none());
    assert!(!ct.charge_cpu(900));
    for name in ["first", "second"] {
        let log = heard.clone();
        ct.on_violation(Box::new(move |text| {
            log.borrow_mut().push(format!("{}: {}", name, text));
        }));
        assert_eq!(ct.total_cpu_ms(), 900);
        assert!(ct.callback().is_some());
    }
    // Registering calls no one.
    assert!(heard.borrow().is_empty());
    assert!(!ct.charge_cpu(1));
    assert_eq!(
        *heard.borrow(),
        vec!["second: conservation breach: 901/800 allowed CPU ms consumed".to_string()]
    );
    ct.reset_window();
    assert!(ct.charge_cpu(800));
    assert_eq!(heard.borrow().len(), 1);
}

#[test]
fn worker_cpu_counts_against_the_limit() {
    let mut g = ResourceGuardian::new(Some(2));
    let a = g.register_worker("a".into(), ResourceBudget::heavy());
    let b = g.register_worker("b".into(), ResourceBudget::heavy());
    g.usage_mut(&a).cpu_ms = 1000;
    g.usage_mut(&b).cpu_ms = 600;
    assert!(g.enforce_with_notices().1.is_empty());
    assert_eq!(g.charge_cpu(0), None);
    g.usage_mut(&b).cpu_ms = 640;
    assert_eq!(
        g.charge_cpu(40).unwrap(),
        "conservation breach: 1680/1600 allowed CPU ms consumed"
    );
    let (stop, notices) = g.enforce_with_notices();
    assert!(stop.is_empty());
    assert_eq!(notices.len(), 1);
    assert_eq!(notices[0].level, NoticeLevel::Warn);
    assert_eq!(
        notices[0].message,
        "[resource-guardian] CONSERVATION: system CPU at 105.0% of 80% target"
    );
    g.unregister_worker("b");
    assert!(g.enforce_with_notices().1.is_empty());
    assert!(g.status().ends_with("conservation: CPU at 65.0% of 80% target"));
}

#[test]
fn a_system_without_cpus_shows_no_fraction() {
    let mut ct = ConservationTracker::<fn(&str)>::new(Some(0));
    assert!(!ct.charge_cpu(1));
    assert_eq!(value(ct.usage_fraction()), 0.0);
}

#[test]
fn a_system_of_any_size_has_an_allowance() {
    let mut ct = ConservationTracker::<fn(&str)>::new(Some(usize::MAX));
    assert!(ct.charge_cpu(u64::MAX));
    assert_eq!(
        value(ct.usage_fraction()),
        u64::MAX as f64 / (usize::MAX as u128 * 800) as f64
    );
}

#[test]
fn heap_limits_double_up_to_the_budget() {
    let mut u = WorkerUsage::new(ResourceBudget::small());
    let budget = 64 * 1024 * 1024;
    let (limit, notice) = u.near_heap_limit(1000);
    assert_eq!(limit, 2000);
    assert!(notice.is_none());
    let (limit, notice) = u.near_heap_limit(budget / 2);
    assert_eq!(limit, budget);
    let notice = notice.unwrap();
    assert_eq!(notice.level, NoticeLevel::Info);
    assert_eq!(
        notice.message,
        "[resource-guardian] near-heap-limit: capping at budget 67108864"
    );
    assert_eq!(u.near_heap_limit(budget).0, budget);
    // A limit that is over the budget comes down to it.
    assert_eq!(u.near_heap_limit(budget * 3).0, budget);
    // Doubling does not have to fit the machine.
    assert_eq!(u.near_heap_limit(usize::MAX / 2 + 1).0, budget);
    assert_eq!(u.near_heap_limit(usize::MAX).0, budget);
    // At the budget, growth is not blocked yet.
    u.peak_heap = budget as u64;
    assert_eq!(u.near_heap_limit(10).0, 20);
    u.peak_heap = budget as u64 + 1;
    let (limit, notice) = u.near_heap_limit(usize::MAX);
    assert_eq!(limit, usize::MAX);
    let notice = notice.unwrap();
    assert_eq!(notice.level, NoticeLevel::Warn);
    assert_eq!(
        notice.message,
        "[resource-guardian] near-heap-limit: peak=67108865 budget=67108864 — blocking growth"
    );
}
