use expodify2::{
    select_media_roots, search_paths, ExtractError, Extractor, ExtractorBuilderError,
};

fn tried() -> Vec<String> {
    vec![
        "iPod_Control/Music".to_string(),
        "iTunes_Control/iPod_Control/Music".to_string(),
    ]
}

#[test]
fn search_paths_in_order() {
    assert_eq!(search_paths(), tried());
}

#[test]
fn build_needs_source() {
    let r = Extractor::builder().destination("/tmp/out").build();
    assert!(matches!(r, Err(ExtractorBuilderError::MissingSource)));
}

#[test]
fn build_checks_source_before_destination() {
    let r = Extractor::builder().build();
    assert!(matches!(r, Err(ExtractorBuilderError::MissingSource)));
}

#[test]
fn build_needs_destination() {
    let r = Extractor::builder().source("/media/ipod").build();
    assert!(matches!(r, Err(ExtractorBuilderError::MissingDestination)));
}

#[test]
fn build_keeps_settings() {
    let e = Extractor::builder()
        .source("/media/ipod")
        .destination("/tmp/out")
        .build()
        .unwrap();
    assert_eq!(e.source, "/media/ipod");
    assert_eq!(e.destination, "/tmp/out");
    assert!(!e.dry_run);
    let d = Extractor::builder()
        .dry_run()
        .source("/media/ipod")
        .destination("/tmp/out")
        .build()
        .unwrap();
    assert!(d.dry_run);
}

#[test]
fn builder_error_messages() {
    assert_eq!(ExtractorBuilderError::MissingSource.message(), "no source provided");
    assert_eq!(
        ExtractorBuilderError::MissingDestination.message(),
        "no destination provided"
    );
}

#[test]
fn no_root_found_fails() {
    match select_media_roots(&vec![false, false]) {
        Err(ExtractError::NoMediaRootFound(paths)) => assert_eq!(paths, tried()),
        _ => panic!("expected NoMediaRootFound"),
    }
    assert!(select_media_roots(&vec![]).is_err());
}

#[test]
fn every_present_root_is_walked() {
    assert_eq!(select_media_roots(&vec![true, false]).unwrap(), vec![tried()[0].clone()]);
    assert_eq!(select_media_roots(&vec![false, true]).unwrap(), vec![tried()[1].clone()]);
    assert_eq!(select_media_roots(&vec![true, true]).unwrap(), tried());
}

#[test]
fn no_root_message_lists_paths() {
    let e = ExtractError::NoMediaRootFound(tried());
    assert_eq!(
        e.message(),
        "No media directory found after searching these paths: \
         [\"iPod_Control/Music\", \"iTunes_Control/iPod_Control/Music\"]"
    );
}

#[test]
fn io_error_message_is_the_error_text() {
    let e = ExtractError::IoError(std::io::Error::new(std::io::ErrorKind::Other, "disk gone"));
    assert_eq!(e.message(), "disk gone");
}

#[test]
fn dry_run_plans_no_copy() {
    let e = Extractor::builder()
        .source("/media/ipod")
        .destination("/tmp/out")
        .dry_run()
        .build()
        .unwrap();
    let p = e.plan_copy("Song.mp3", false);
    assert_eq!(p.name, "Song.mp3");
    assert!(!p.copy);
    let q = e.plan_copy("Song.mp3", true);
    assert!(!q.copy);
    assert_ne!(q.name, "Song.mp3");
}

#[test]
fn real_run_plans_one_copy_per_file() {
    let e = Extractor::builder()
        .source("/media/ipod")
        .destination("/tmp/out")
        .build()
        .unwrap();
    let names = ["a.mp3", "b.mp3", "a.mp3"];
    let copies = names
        .iter()
        .enumerate()
        .map(|(i, n)| e.plan_copy(n, i == 2))
        .filter(|p| p.copy)
        .count();
    assert_eq!(copies, 3);
}
