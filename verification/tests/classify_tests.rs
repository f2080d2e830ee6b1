use nerja::classify::{classify, is_hd, is_widescreen_suitable, Orientation};
use nerja::ratio::ReducedRatio;

#[test]
fn orientation_by_width_and_height() {
    assert_eq!(classify(2000, 1000), Orientation::Landscape);
    assert_eq!(classify(1000, 2000), Orientation::Portrait);
    assert_eq!(classify(5, 5), Orientation::SquareOrInvalid);
    assert_eq!(classify(0, 10), Orientation::SquareOrInvalid);
    assert_eq!(classify(10, 0), Orientation::SquareOrInvalid);
    assert_eq!(classify(0, 0), Orientation::SquareOrInvalid);
}

#[test]
fn hd_gate_is_exclusive_at_threshold() {
    assert!(!is_hd(0));
    assert!(!is_hd(1919));
    assert!(!is_hd(1920));
    assert!(is_hd(1921));
    assert!(is_hd(4000));
}

#[test]
fn widescreen_band_admits_standard_wide_ratios() {
    // 16:9 is about 1.78, 16:10 reduced is 8:5 = 1.6, ultra-wide 2.4:1 is 12:5
    assert!(is_widescreen_suitable(&ReducedRatio { num: 16, den: 9 }));
    assert!(is_widescreen_suitable(&ReducedRatio { num: 8, den: 5 }));
    assert!(is_widescreen_suitable(&ReducedRatio { num: 12, den: 5 }));
    assert!(is_widescreen_suitable(&ReducedRatio { num: 2, den: 1 }));
}

#[test]
fn widescreen_band_rejects_narrow_and_extreme_ratios() {
    // near-square and classic 4:3 fall below the band
    assert!(!is_widescreen_suitable(&ReducedRatio { num: 1, den: 1 }));
    assert!(!is_widescreen_suitable(&ReducedRatio { num: 4, den: 3 }));
    assert!(!is_widescreen_suitable(&ReducedRatio { num: 3, den: 2 }));
    // beyond the upper bound
    assert!(!is_widescreen_suitable(&ReducedRatio { num: 14, den: 5 }));
    assert!(!is_widescreen_suitable(&ReducedRatio { num: 3, den: 1 }));
}

#[test]
fn widescreen_band_bounds_are_inclusive() {
    // exactly 1.6 and exactly 2.7
    assert!(is_widescreen_suitable(&ReducedRatio { num: 8, den: 5 }));
    assert!(is_widescreen_suitable(&ReducedRatio { num: 27, den: 10 }));
    // one step outside on either side
    assert!(!is_widescreen_suitable(&ReducedRatio { num: 159, den: 100 }));
    assert!(!is_widescreen_suitable(&ReducedRatio { num: 271, den: 100 }));
}
