use nerja::naming::{
    category_dir, content_filename, extension_of, is_supported_extension, is_supported_image_path,
    random_filename, structural_dest_path, RandomNameSearch,
};

#[test]
fn extension_of_finds_final_component_extension() {
    assert_eq!(extension_of("dir/photo.JPG"), Some("JPG"));
    assert_eq!(extension_of("archive.tar.gz"), Some("gz"));
    assert_eq!(extension_of("a/b.c/x.png"), Some("png"));
    assert_eq!(extension_of("trailing."), Some(""));
}

#[test]
fn extension_of_rejects_hidden_and_plain_names() {
    assert_eq!(extension_of(".hidden"), None);
    assert_eq!(extension_of("dir/.hidden"), None);
    assert_eq!(extension_of("noext"), None);
    assert_eq!(extension_of("dir.with.dots/file"), None);
    assert_eq!(extension_of("dir/"), None);
    assert_eq!(extension_of(""), None);
}

#[test]
fn supported_extensions_are_case_insensitive() {
    assert!(is_supported_extension("jpg"));
    assert!(is_supported_extension("JPG"));
    assert!(is_supported_extension("jPeG"));
    assert!(is_supported_extension("jpeg"));
    assert!(is_supported_extension("png"));
    assert!(is_supported_extension("PNG"));
    assert!(!is_supported_extension("gif"));
    assert!(!is_supported_extension("jpe"));
    assert!(!is_supported_extension("jpgx"));
    assert!(!is_supported_extension(""));
}

#[test]
fn image_path_filter_goes_by_extension() {
    assert!(is_supported_image_path("x/y.png"));
    assert!(is_supported_image_path("x/y.JPEG"));
    assert!(!is_supported_image_path("x/y.txt"));
    assert!(!is_supported_image_path("x/png"));
    assert!(!is_supported_image_path(".png"));
}

#[test]
fn category_dirs() {
    assert_eq!(category_dir(true), "widescreen");
    assert_eq!(category_dir(false), "normal");
}

#[test]
fn structural_path_preserves_relative_path() {
    assert_eq!(structural_dest_path("dest", true, "a.jpg"), "dest/widescreen/a.jpg");
    assert_eq!(structural_dest_path("dest", false, "sub/b.png"), "dest/normal/sub/b.png");
}

#[test]
fn content_filename_is_deterministic() {
    let a = content_filename(b"hello", "jpg");
    let b = content_filename(b"hello", "jpg");
    let c = content_filename(b"hello!", "jpg");
    assert_eq!(a, b);
    assert_ne!(a, c);
    assert_eq!(a.len(), 64 + 1 + 3);
    assert!(a.ends_with(".jpg"));
}

#[test]
fn content_filename_matches_known_digest() {
    // the digest of empty input is a published test vector
    assert_eq!(
        content_filename(b"", "png"),
        "af1349b9f5f9a1a6a0404dea36dcc9499bcb25c9adc112b7cc9a93cae41f3262.png"
    );
}

#[test]
fn random_filenames_have_identifier_shape_and_vary() {
    let a = random_filename("jpg");
    let b = random_filename("jpg");
    assert_eq!(a.len(), 36 + 1 + 3);
    assert!(a.ends_with(".jpg"));
    assert_ne!(a, b);
}

#[test]
fn random_name_search_stops_on_free_name() {
    let mut search = RandomNameSearch::new("png");
    assert!(!search.is_exhausted());
    assert!(search.candidate().ends_with(".png"));
    let kept = search.candidate().to_string();
    assert!(search.advance(false));
    assert!(!search.is_exhausted());
    assert_eq!(search.candidate(), kept);
}

#[test]
fn random_name_search_exhausts_after_bounded_collisions() {
    let mut search = RandomNameSearch::new("jpg");
    // nine colliding probes draw fresh candidates
    for _ in 0..9 {
        assert!(!search.advance(true));
        assert!(!search.is_exhausted());
    }
    // the tenth collision ends the search, keeping the last name
    let last = search.candidate().to_string();
    assert!(search.advance(true));
    assert!(search.is_exhausted());
    assert_eq!(search.candidate(), last);
}
