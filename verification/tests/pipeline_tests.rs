use nerja::copying::should_copy;
use nerja::naming::structural_dest_path;
use nerja::scan::{CopyRequest, Scanner};
use nerja::stats::{CopyOutcome, Stats};

#[test]
fn report_only_scan_counts_without_copy_requests() {
    // source holds a.jpg (2000 x 1000), b.png (1000 x 2000) and c.txt
    let mut scanner = Scanner::new(false, false);
    let req_txt = scanner.process_entry(false, 0, 0);
    let req_a = scanner.process_entry(true, 2000, 1000);
    let req_b = scanner.process_entry(true, 1000, 2000);
    assert!(matches!(req_txt, CopyRequest::NotRequested));
    assert!(matches!(req_a, CopyRequest::NotRequested));
    assert!(matches!(req_b, CopyRequest::NotRequested));
    assert_eq!(scanner.stats.total_files, 3);
    assert_eq!(scanner.stats.total_images, 2);
    assert_eq!(scanner.stats.total_hd, 1);
    assert_eq!(scanner.stats.total_landscape, 1);
    // the width threshold is checked before orientation: a 1000-pixel-wide
    // portrait image is excluded and counts toward no orientation counter
    assert_eq!(scanner.stats.total_portrait, 0);
    assert_eq!(scanner.stats.total_copied, 0);
    assert_eq!(scanner.stats.total_skipped, 0);
}

#[test]
fn hd_portrait_is_counted() {
    let mut scanner = Scanner::new(false, false);
    let req = scanner.process_entry(true, 2000, 3000);
    assert!(matches!(req, CopyRequest::NotRequested));
    assert_eq!(scanner.stats.total_hd, 1);
    assert_eq!(scanner.stats.total_portrait, 1);
    assert_eq!(scanner.stats.total_landscape, 0);
}

#[test]
fn configured_scan_requests_and_copies_widescreen_image() {
    // a.jpg is 2000 x 1000: landscape, ratio 2:1, inside the band [1.6, 2.7]
    let mut scanner = Scanner::new(true, false);
    let req = scanner.process_entry(true, 2000, 1000);
    assert!(matches!(req, CopyRequest::Requested { widescreen_suitable: true }));
    assert_eq!(structural_dest_path("dest", true, "a.jpg"), "dest/widescreen/a.jpg");
    // the destination does not exist yet: the copy is performed
    assert!(should_copy(false));
    scanner.stats.record_outcome(CopyOutcome::Copied { bytes: 12345 });
    assert_eq!(scanner.stats.total_copied, 1);
    assert_eq!(scanner.stats.total_skipped, 0);
    assert_eq!(scanner.stats.total_bytes, 12345);
    assert_eq!(scanner.stats.total_suitable, 1);
    assert_eq!(scanner.stats.total_unsuitable, 0);
}

#[test]
fn rerun_with_existing_destination_skips_without_error() {
    // a.jpg is already present at widescreen/a.jpg from the first run
    let mut scanner = Scanner::new(true, false);
    let req = scanner.process_entry(true, 2000, 1000);
    assert!(matches!(req, CopyRequest::Requested { widescreen_suitable: true }));
    assert!(!should_copy(true));
    scanner.stats.record_outcome(CopyOutcome::Skipped);
    assert_eq!(scanner.stats.total_copied, 0);
    assert_eq!(scanner.stats.total_skipped, 1);
    assert_eq!(scanner.stats.total_bytes, 0);
}

#[test]
fn probe_failure_counts_image_but_classifies_nothing() {
    // the dimension probe failed for a .jpg file: dimensions are (0, 0)
    let mut scanner = Scanner::new(true, false);
    let req = scanner.process_entry(true, 0, 0);
    assert!(matches!(req, CopyRequest::NotRequested));
    assert_eq!(scanner.stats.total_files, 1);
    assert_eq!(scanner.stats.total_images, 1);
    assert_eq!(scanner.stats.total_hd, 0);
    assert_eq!(scanner.stats.total_landscape, 0);
    assert_eq!(scanner.stats.total_portrait, 0);
}

#[test]
fn hd_gate_excludes_small_landscape_images() {
    // landscape but not wider than 1920 pixels: excluded by the width threshold
    let mut scanner = Scanner::new(true, false);
    let req = scanner.process_entry(true, 1920, 1080);
    assert!(matches!(req, CopyRequest::NotRequested));
    assert_eq!(scanner.stats.total_images, 1);
    assert_eq!(scanner.stats.total_hd, 0);
    assert_eq!(scanner.stats.total_landscape, 0);
}

#[test]
fn square_hd_image_increments_no_orientation_counter() {
    let mut scanner = Scanner::new(true, false);
    let req = scanner.process_entry(true, 2000, 2000);
    assert!(matches!(req, CopyRequest::NotRequested));
    assert_eq!(scanner.stats.total_hd, 1);
    assert_eq!(scanner.stats.total_landscape, 0);
    assert_eq!(scanner.stats.total_portrait, 0);
    assert_eq!(scanner.stats.total_suitable, 0);
    assert_eq!(scanner.stats.total_unsuitable, 0);
}

#[test]
fn unsuitable_landscape_is_counted_and_copied_to_normal() {
    // 2400 x 800 reduces to 3:1, outside the band
    let mut scanner = Scanner::new(true, false);
    let req = scanner.process_entry(true, 2400, 800);
    assert!(matches!(req, CopyRequest::Requested { widescreen_suitable: false }));
    assert_eq!(scanner.stats.total_suitable, 0);
    assert_eq!(scanner.stats.total_unsuitable, 1);
    assert_eq!(structural_dest_path("dest", false, "wide.jpg"), "dest/normal/wide.jpg");
}

#[test]
fn distinct_ratios_are_counted_once() {
    let mut scanner = Scanner::new(false, false);
    scanner.process_entry(true, 2000, 1000);
    scanner.process_entry(true, 3000, 1500);
    scanner.process_entry(true, 2560, 1080);
    assert_eq!(scanner.stats.distinct_ratio_count(), 2);
}

#[test]
fn failed_copy_counts_as_neither_copied_nor_skipped() {
    let mut stats = Stats::new();
    stats.record_outcome(CopyOutcome::Failed { cause: "permission denied".to_string() });
    assert_eq!(stats.total_copied, 0);
    assert_eq!(stats.total_skipped, 0);
    assert_eq!(stats.total_bytes, 0);
}
