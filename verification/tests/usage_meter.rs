use umadev::runtime::Usage;
use umadev::usage_meter::SessionUsageMeter;

#[test]
fn incomplete_and_missing_reports_never_become_exact_or_free() {
    let mut meter = SessionUsageMeter::default();
    let incomplete = Usage {
        usage_incomplete: true,
        cost_usd_ticks: Some(99),
        ..Usage::exact(12, 3)
    };
    meter.apply(Some(incomplete));
    assert_eq!(meter.tokens(), 15);
    assert!(meter.is_incomplete());
    assert_eq!(meter.exact_cost_usd_ticks(), None);
    assert_eq!(meter.exact_context_input(), None);

    meter.apply(None);
    assert_eq!(meter.tokens(), 15);
    assert!(meter.is_incomplete());
    assert_eq!(meter.exact_cost_usd_ticks(), None);

    meter.reset();
    meter.apply(Some(Usage::default()));
    assert!(meter.has_report());
    assert_eq!(meter.tokens(), 0);
    assert!(meter.is_incomplete());
    assert_eq!(meter.exact_cost_usd_ticks(), None);
}

#[test]
fn exact_cost_accumulates_only_while_every_turn_has_one() {
    let mut meter = SessionUsageMeter::default();
    meter.apply(Some(Usage {
        cost_usd_ticks: Some(10),
        ..Usage::exact(3, 2)
    }));
    meter.apply(Some(Usage {
        cost_usd_ticks: Some(20),
        ..Usage::exact(4, 1)
    }));
    assert_eq!(meter.tokens(), 10);
    assert_eq!(meter.exact_cost_usd_ticks(), Some(30));
    meter.apply(Some(Usage::exact(1, 1)));
    assert_eq!(meter.exact_cost_usd_ticks(), None);
}

#[test]
fn estimate_accumulates_separately_and_never_merges_with_real_tokens() {
    let mut meter = SessionUsageMeter::default();
    meter.apply(None);
    meter.observe_estimate(120);
    meter.apply(None);
    meter.observe_estimate(80);
    assert_eq!(meter.tokens(), 0, "no real usage was ever reported");
    assert_eq!(
        meter.est_tokens(),
        200,
        "the estimate accumulates across turns in its own field"
    );
    assert!(meter.is_incomplete());

    meter.apply(Some(Usage::exact(300, 200)));
    meter.observe_estimate(50);
    assert_eq!(
        meter.tokens(),
        500,
        "the real count is the base's own number, never the estimate"
    );
    assert_eq!(
        meter.est_tokens(),
        250,
        "the estimate stays strictly separate — never summed into the real total"
    );
}

#[test]
fn reset_clears_the_estimate_too() {
    let mut meter = SessionUsageMeter::default();
    meter.observe_estimate(999);
    assert_eq!(meter.est_tokens(), 999);
    meter.reset();
    assert_eq!(meter.est_tokens(), 0, "/clear starts a fresh estimate");
    assert_eq!(meter.tokens(), 0);
}

#[test]
fn complete_report_exposes_exact_context_and_cost() {
    let mut meter = SessionUsageMeter::new();
    assert!(!meter.has_report());
    meter.apply(Some(Usage {
        cost_usd_ticks: Some(7),
        ..Usage::exact(40, 2)
    }));
    assert_eq!(meter.exact_context_input(), Some(40));
    assert_eq!(meter.exact_cost_usd_ticks(), Some(7));
    assert!(!meter.is_incomplete());
}

#[test]
fn cost_overflow_is_not_an_exact_cost() {
    let mut meter = SessionUsageMeter::new();
    meter.apply(Some(Usage {
        cost_usd_ticks: Some(i64::MAX),
        ..Usage::exact(1, 1)
    }));
    meter.apply(Some(Usage {
        cost_usd_ticks: Some(1),
        ..Usage::exact(1, 1)
    }));
    assert_eq!(meter.exact_cost_usd_ticks(), None);
    assert_eq!(Usage::exact(u64::MAX, 5).total_tokens, u64::MAX);
}
