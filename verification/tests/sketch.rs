use hyper_log_log::{init, try_init, Log, SketchError};

/// The linear-counting estimate over the sketch's verified counters:
/// `m * ln(m / zeros)`, with the documented fallback to 0.0 when no
/// register is empty.
fn estimate(s: &Log) -> f64 {
    let zeros = s.count_zero_registers();
    if zeros == 0 {
        return 0.0;
    }
    let m = s.register_count() as f64;
    m * (m / (zeros as f64)).ln()
}

/// Inclusion-exclusion intersection estimate: `|A| + |B| - |A ∪ B|`.
fn similarity(a: &Log, b: &Log) -> f64 {
    let ea = estimate(a);
    let eb = estimate(b);
    let u = a.set_union(b.copy());
    ea + eb - estimate(&u)
}

fn registers(s: &Log) -> Vec<u8> {
    let mut out = Vec::new();
    let n = s.register_count() as usize;
    let mut i = 0;
    while i < n {
        out.push(s.register(i));
        i += 1;
    }
    out
}

#[test]
fn init_makes_all_registers_zero() {
    let s = init(4);
    assert_eq!(s.precision(), 4);
    assert_eq!(s.register_count(), 16);
    for i in 0..16 {
        assert_eq!(s.register(i), 0);
    }
    assert_eq!(s.count_zero_registers(), 16);
}

#[test]
fn init_precision_bounds() {
    assert_eq!(try_init(0).unwrap_err(), SketchError::InvalidPrecision);
    assert_eq!(try_init(32).unwrap_err(), SketchError::InvalidPrecision);
    let s = try_init(1).unwrap();
    assert_eq!(s.register_count(), 2);
}

#[test]
fn calculate_hash_is_deterministic() {
    assert_eq!(Log::calculate_hash(&12345), Log::calculate_hash(&12345));
    assert_ne!(Log::calculate_hash(&0), Log::calculate_hash(&1));
}

#[test]
fn estimate_of_empty_sketch_is_zero() {
    let s = init(4);
    // all registers zero, so zeros == m and m * ln(m / m) == 0.0 exactly
    assert_eq!(s.count_zero_registers(), s.register_count());
    assert_eq!(estimate(&s), 0.0);
}

#[test]
fn registers_never_decrease() {
    let mut s = init(4);
    let mut previous = registers(&s);
    for d in 0..200 {
        s.add_datum(d);
        let current = registers(&s);
        for i in 0..current.len() {
            assert!(previous[i] <= current[i]);
        }
        previous = current;
    }
}

#[test]
fn adding_twice_equals_adding_once() {
    let mut once = init(6);
    let mut twice = init(6);
    for d in [7u32, 42, 7, 99999] {
        once.add_datum(d);
    }
    for d in [7u32, 42, 7, 99999] {
        twice.add_datum(d);
        twice.add_datum(d);
    }
    assert_eq!(registers(&once), registers(&twice));
}

#[test]
fn full_saturation_falls_back_to_zero() {
    let mut s = init(2);
    let mut d: u32 = 0;
    while s.count_zero_registers() != 0 {
        assert!(d < 100_000, "could not saturate all four registers");
        s.add_datum(d);
        d += 1;
    }
    assert_eq!(s.count_zero_registers(), 0);
    assert_eq!(estimate(&s), 0.0);
}

#[test]
fn merge_is_commutative() {
    let mut a = init(5);
    let mut b = init(5);
    for d in 0..40 {
        a.add_datum(d);
    }
    for d in 30..70 {
        b.add_datum(d);
    }
    let ab = a.set_union(b.copy());
    let ba = b.set_union(a.copy());
    assert_eq!(registers(&ab), registers(&ba));
}

#[test]
fn merge_is_associative() {
    let mut a = init(5);
    let mut b = init(5);
    let mut c = init(5);
    for d in 0..25 {
        a.add_datum(d);
    }
    for d in 20..45 {
        b.add_datum(d);
    }
    for d in 40..65 {
        c.add_datum(d);
    }
    let left = a.set_union(b.copy()).set_union(c.copy());
    let right = a.set_union(b.set_union(c.copy()));
    assert_eq!(registers(&left), registers(&right));
}

#[test]
fn merge_takes_pointwise_maximum() {
    let mut a = init(4);
    let mut b = init(4);
    for d in 0..30 {
        a.add_datum(d);
    }
    for d in 15..60 {
        b.add_datum(d);
    }
    let u = a.set_union(b.copy());
    let ra = registers(&a);
    let rb = registers(&b);
    let ru = registers(&u);
    for i in 0..ra.len() {
        assert_eq!(ru[i], ra[i].max(rb[i]));
    }
}

#[test]
fn union_mutates_the_receiver() {
    let mut a = init(4);
    let mut b = init(4);
    for d in 0..20 {
        a.add_datum(d);
    }
    for d in 100..140 {
        b.add_datum(d);
    }
    let ra = registers(&a);
    let rb = registers(&b);
    a.union(b);
    let ra_after = registers(&a);
    for i in 0..ra.len() {
        assert_eq!(ra_after[i], ra[i].max(rb[i]));
    }
}

#[test]
fn mismatched_precisions_are_refused() {
    let mut a = init(4);
    let mut b = init(5);
    for d in 0..10 {
        a.add_datum(d);
        b.add_datum(d);
    }
    assert_eq!(a.try_set_union(&b).unwrap_err(), SketchError::PrecisionMismatch);
    assert_eq!(b.try_set_union(&a).unwrap_err(), SketchError::PrecisionMismatch);
    let ok = a.try_set_union(&a.copy()).unwrap();
    assert_eq!(ok.precision(), 4);
}

#[test]
fn copy_is_independent_storage() {
    let mut a = init(4);
    for d in 0..10 {
        a.add_datum(d);
    }
    let snapshot = a.copy();
    let before = registers(&a);
    assert_eq!(registers(&snapshot), before);
    for d in 10..200 {
        a.add_datum(d);
    }
    assert_eq!(registers(&snapshot), before);
    assert_ne!(registers(&a), before);
}

#[test]
fn self_similarity_matches_own_estimate() {
    let mut s = init(8);
    for d in 0..150 {
        s.add_datum(d);
    }
    let e = estimate(&s);
    let sim = similarity(&s, &s.copy());
    assert!(e > 0.0);
    assert!((sim - e).abs() < 1e-9);
}

#[test]
fn thousand_distinct_data_estimate_band() {
    let mut s = init(10);
    for d in 0..1000 {
        s.add_datum(d);
    }
    let e = estimate(&s);
    // linear counting at 1024 registers: empirically within a few
    // percent of the true 1000 distinct data
    assert!(e > 900.0, "estimate too low: {e}");
    assert!(e < 1100.0, "estimate too high: {e}");
}
