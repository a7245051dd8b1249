use project_commentator::brains::{active, cache_dir, catalog, find, join_path, ACTIVE};

#[test]
fn catalog_holds_the_gemma_brain() {
    let c = catalog();
    assert_eq!(c.len(), 1);
    assert_eq!(c[0].id, "gemma-4-e2b");
    assert_eq!(c[0].repo, "google/gemma-4-E2B-it-qat-q4_0-gguf");
    assert_eq!(c[0].main_size_bytes, 3_350_000_000);
    assert_eq!(c[0].mmproj_size_bytes, 1_280_000_000);
}

#[test]
fn find_by_id() {
    let b = find("gemma-4-e2b").expect("present");
    assert_eq!(b.label, "Gemma 4 E2B QAT");
    assert!(find("gemma-4-E2B").is_none());
    assert!(find("").is_none());
}

#[test]
fn active_brain_is_in_catalog() {
    let b = active();
    assert_eq!(b.id, ACTIVE);
    assert_eq!(b.main_file, "gemma-4-E2B_q4_0-it.gguf");
    assert_eq!(b.mmproj_file, "gemma-4-E2B-it-mmproj.gguf");
}

#[test]
fn cache_dir_under_home() {
    assert_eq!(cache_dir(Some("/home/u".to_string())), "/home/u/.project-commentator/brains");
    assert_eq!(cache_dir(Some("/home/u/".to_string())), "/home/u/.project-commentator/brains");
    assert_eq!(cache_dir(None), "./.project-commentator/brains");
    assert_eq!(cache_dir(Some(String::new())), ".project-commentator/brains");
}

#[test]
fn cache_dir_matches_std_path_join() {
    let expected = std::path::Path::new("/Users/me").join(".project-commentator").join("brains");
    assert_eq!(cache_dir(Some("/Users/me".to_string())), expected.to_string_lossy());
}

#[test]
fn join_follows_path_push() {
    for (base, part) in [("a", "b"), ("a/", "b"), ("", "b"), ("a", "/b"), ("a", ""), ("/", "x")] {
        let expected = std::path::Path::new(base).join(part);
        assert_eq!(join_path(base, part), expected.to_string_lossy(), "{base:?} + {part:?}");
    }
}

#[test]
fn file_paths_and_urls() {
    let b = active();
    assert_eq!(b.main_path("/c"), "/c/gemma-4-E2B_q4_0-it.gguf");
    assert_eq!(b.mmproj_path("/c/"), "/c/gemma-4-E2B-it-mmproj.gguf");
    assert_eq!(
        b.resolve_url(b.main_file),
        "https://huggingface.co/google/gemma-4-E2B-it-qat-q4_0-gguf/resolve/main/gemma-4-E2B_q4_0-it.gguf"
    );
}

#[test]
fn download_state() {
    let b = active();
    assert!(b.is_downloaded(true, true));
    assert!(!b.is_downloaded(true, false));
    assert!(!b.is_downloaded(false, true));
    assert_eq!(
        b.pending_downloads(false, false),
        vec![(b.main_file, b.main_size_bytes), (b.mmproj_file, b.mmproj_size_bytes)]
    );
    assert_eq!(b.pending_downloads(true, false), vec![(b.mmproj_file, b.mmproj_size_bytes)]);
    assert!(b.pending_downloads(true, true).is_empty());
}
