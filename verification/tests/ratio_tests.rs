use nerja::ratio::{calculate_aspect_ratio, gcd, gcd_cached, GcdCache, ReducedRatio};

#[test]
fn gcd_of_known_pairs() {
    assert_eq!(gcd(12, 8), 4);
    assert_eq!(gcd(8, 12), 4);
    assert_eq!(gcd(7, 0), 7);
    assert_eq!(gcd(0, 5), 5);
    assert_eq!(gcd(1920, 1080), 120);
    assert_eq!(gcd(17, 13), 1);
    assert_eq!(gcd(0, 0), 0);
}

#[test]
fn gcd_cached_matches_gcd_and_reuses_entries() {
    let mut cache = GcdCache::new();
    assert_eq!(gcd_cached(1920, 1080, &mut cache), 120);
    // second lookup of the same pair comes from the cache
    assert_eq!(gcd_cached(1920, 1080, &mut cache), 120);
    // the unordered pair shares the entry
    assert_eq!(gcd_cached(1080, 1920, &mut cache), 120);
    assert_eq!(gcd_cached(2000, 1000, &mut cache), 1000);
}

#[test]
fn aspect_ratio_reduces_to_lowest_terms() {
    let mut cache = GcdCache::new();
    assert_eq!(calculate_aspect_ratio(2000, 1000, &mut cache), ReducedRatio { num: 2, den: 1 });
    assert_eq!(calculate_aspect_ratio(1920, 1080, &mut cache), ReducedRatio { num: 16, den: 9 });
    assert_eq!(calculate_aspect_ratio(3840, 1600, &mut cache), ReducedRatio { num: 12, den: 5 });
    assert_eq!(calculate_aspect_ratio(2560, 1080, &mut cache), ReducedRatio { num: 64, den: 27 });
}

#[test]
fn aspect_ratio_is_idempotent() {
    let mut cache = GcdCache::new();
    let first = calculate_aspect_ratio(2000, 1000, &mut cache);
    let again = calculate_aspect_ratio(first.num, first.den, &mut cache);
    assert_eq!(first, again);
}
