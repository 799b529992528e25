use rand::RngExt;
use rsbloom::BloomFilter;
use rsbloom::ConfigError;
use std::collections::HashSet;

fn random_str(len: usize) -> String {
    rand::rng()
        .sample_iter(rand::distr::Alphanumeric)
        .take(len)
        .map(char::from)
        .collect()
}

/// A false-positive rate `p` as the library carries it: `round(-ln(p) * 2^32)`.
/// Rates at or above one have no positive representation and map to zero.
fn scaled_neg_ln(p: f64) -> u64 {
    (-(p.ln()) * 4294967296.0_f64).round() as u64
}

#[test]
fn test_bloom_filter() {
    let n = 1000;
    let mut items = HashSet::<String>::new();

    // generate random strings to insert
    for _ in 0..n {
        items.insert(random_str(30));
    }

    let mut bf = BloomFilter::new(items.len() as u64).unwrap();

    // test inclusion
    for item in items.iter() {
        bf.set(item.as_bytes());

        let exists = bf.has(item.as_bytes()).unwrap();
        assert_eq!(
            exists, true,
            "item {} should result in a positive inclusion",
            item,
        );
    }

    // test false negatives
    for _ in 0..n {
        let item = random_str(30);
        let exists = bf.has(item.as_bytes()).unwrap();

        if items.contains(&item) {
            assert_eq!(exists, true, "item {} resulted in a false negative", item);
        }
    }
}

#[test]
fn test_optimal_num_bits() {
    assert_eq!(rsbloom::optimal_num_bits(10, scaled_neg_ln(0.04)), 67);
    assert_eq!(rsbloom::optimal_num_bits(5000, scaled_neg_ln(0.01)), 47926);
    assert_eq!(rsbloom::optimal_num_bits(100000, scaled_neg_ln(0.01)), 958506);
}

#[test]
fn test_optimal_num_hashes() {
    assert_eq!(rsbloom::optimal_num_hashes(67, 10), 5);
    assert_eq!(rsbloom::optimal_num_hashes(47926, 5000), 7);
    assert_eq!(rsbloom::optimal_num_hashes(958506, 100000), 7);
}

#[test]
fn test_default_rate_matches_scaled_constant() {
    assert_eq!(rsbloom::DEFAULT_NEG_LN_FP, scaled_neg_ln(0.01));
}

#[test]
fn test_constructor_sizing() {
    let bf = BloomFilter::new(5000).unwrap();
    assert_eq!(bf.bit_len(), 47926);
    assert_eq!(bf.hash_fn_count(), 7);
    assert_eq!(bf.set_bits_count(), 0);
    assert_eq!(bf.num_items_approx(), 0);

    let bf2 = BloomFilter::new_with_rate(10, scaled_neg_ln(0.04)).unwrap();
    assert_eq!(bf2.bit_len(), 67);
    assert_eq!(bf2.hash_fn_count(), 5);
}

#[test]
fn test_construction_rejects_invalid_input() {
    // Zero expected items is invalid: the sizing math divides by it.
    assert!(matches!(
        BloomFilter::new_with_rate(0, scaled_neg_ln(0.01)),
        Err(ConfigError::ZeroItems)
    ));
    assert!(matches!(BloomFilter::new(0), Err(ConfigError::ZeroItems)));

    // A rate of 1.5 is outside (0, 1): its negated log is negative and has
    // no fixed-point representation above zero.
    assert_eq!(scaled_neg_ln(1.5), 0);
    assert!(matches!(
        BloomFilter::new_with_rate(100, scaled_neg_ln(1.5)),
        Err(ConfigError::RateOutOfRange)
    ));

    // A rate absurdly close to zero is rejected too.
    assert!(matches!(
        BloomFilter::new_with_rate(100, rsbloom::MAX_NEG_LN_FP + 1),
        Err(ConfigError::RateOutOfRange)
    ));
}

#[test]
fn test_empty_filter_reports_absent() {
    let bf = BloomFilter::new(100).unwrap();
    assert_eq!(bf.has(b"foo"), Some(false));
    assert_eq!(bf.has(b""), Some(false));
    assert_eq!(bf.set_bits_count(), 0);
}

#[test]
fn test_set_is_idempotent() {
    let mut bf = BloomFilter::new(100).unwrap();
    bf.set(b"foo");
    let bits_after_one = bf.set_bits_count();
    let estimate_after_one = bf.num_items_approx();
    assert_eq!(bf.has(b"foo"), Some(true));

    bf.set(b"foo");
    assert_eq!(bf.set_bits_count(), bits_after_one);
    assert_eq!(bf.num_items_approx(), estimate_after_one);
    assert_eq!(bf.has(b"foo"), Some(true));
}

#[test]
fn test_distinct_items_probe_differently() {
    // Sized so tightly that a digest function ignoring its input would make
    // every query positive; a miss here shows the real hashes at work.
    let mut bf = BloomFilter::new_with_rate(1000, scaled_neg_ln(0.000001)).unwrap();
    bf.set(b"alpha");
    assert_eq!(bf.has(b"alpha"), Some(true));
    assert_eq!(bf.has(b"beta"), Some(false));
    assert!(bf.set_bits_count() > 0);
}

#[test]
fn test_false_positive_rate_bounded() {
    let n = 1000;
    let p = 0.04;
    let mut items = HashSet::<String>::new();
    while items.len() < n {
        items.insert(random_str(30));
    }

    let mut bf = BloomFilter::new_with_rate(n as u64, scaled_neg_ln(p)).unwrap();
    for item in items.iter() {
        bf.set(item.as_bytes());
    }

    let queries = 2000;
    let mut positives = 0;
    let mut asked = 0;
    while asked < queries {
        let other = random_str(30);
        if items.contains(&other) {
            continue;
        }
        asked += 1;
        if bf.has(other.as_bytes()).unwrap() {
            positives += 1;
        }
    }
    let observed = positives as f64 / queries as f64;
    assert!(
        observed <= 5.0 * p,
        "observed false-positive rate {} grossly exceeds the target {}",
        observed,
        p,
    );
}

#[test]
fn test_cardinality_estimate_monotone_and_close() {
    let n: usize = 5000;
    let mut items = HashSet::<String>::new();
    while items.len() < n {
        items.insert(random_str(30));
    }

    let mut bf = BloomFilter::new(n as u64).unwrap();
    let mut last_estimate = 0u64;
    let mut inserted = 0usize;
    for item in items.iter() {
        bf.set(item.as_bytes());
        inserted += 1;
        let estimate = bf.num_items_approx();
        assert!(
            estimate >= last_estimate,
            "estimate fell from {} to {} after insertion {}",
            last_estimate,
            estimate,
            inserted,
        );
        last_estimate = estimate;
    }

    let final_estimate = bf.num_items_approx() as f64;
    let true_count = n as f64;
    let relative_error = (final_estimate - true_count).abs() / true_count;
    assert!(
        relative_error < 0.2,
        "cardinality estimate {} is not within 20% of {}",
        final_estimate,
        true_count,
    );
}
