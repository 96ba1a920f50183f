use gemini_rag::files::{
    ingest_embedding_model, ingest_store, inspect_file_entry, is_image_file, is_hidden, max_depth, no_files_message, path_less_than,
    sort_paths, EntryDecision, StoreChoice,
};

fn strings(items: &[&str]) -> Vec<String> {
    items.iter().map(|s| s.to_string()).collect()
}

#[test]
fn entries_are_uploaded_when_they_are_files_within_the_limit() {
    assert_eq!(inspect_file_entry(false, 10, None), EntryDecision::Skip);
    assert_eq!(inspect_file_entry(true, 10, Some(9)), EntryDecision::TooLarge);
    assert_eq!(inspect_file_entry(true, 10, Some(10)), EntryDecision::Upload);
    assert_eq!(inspect_file_entry(true, u64::MAX, None), EntryDecision::Upload);
    assert!(is_hidden(".git"));
    assert!(!is_hidden("docs"));
    assert!(!is_hidden(""));
    assert_eq!(max_depth(true), usize::MAX);
    assert_eq!(max_depth(false), 1);
}

#[test]
fn ingest_uses_the_given_store_or_creates_one() {
    assert!(matches!(ingest_store(Some("fileSearchStores/a".to_string()), None, "/x"),
        StoreChoice::Existing(s) if s == "fileSearchStores/a"));
    assert!(matches!(ingest_store(None, Some("named".to_string()), "/x/docs"),
        StoreChoice::Create(s) if s == "named"));
    assert!(matches!(ingest_store(None, None, "/home/me/docs"), StoreChoice::Create(s) if s == "docs"));
    assert!(matches!(ingest_store(None, None, "/"), StoreChoice::Create(s) if s == "rag-docs"));
    assert_eq!(no_files_message("/x"), "no files found in /x");
}

#[test]
fn paths_sort_by_components() {
    assert!(path_less_than("/a/b", "/a-c"));
    assert!(!path_less_than("/a-c", "/a/b"));
    assert!(path_less_than("/a", "/a/b"));
    assert!(!path_less_than("/a//b", "/a/b"));
    assert!(!path_less_than("/a/b", "/a//b"));
    assert!(path_less_than("/Z", "/a"));
    assert!(path_less_than("/", "a"));
    assert!(path_less_than("./x", "x"));
    assert!(path_less_than("../x", "x"));
}

#[test]
fn sort_paths_is_stable_and_ordered() {
    let sorted = sort_paths(strings(&["/d/b.txt", "/d/a-c", "/d/a/z", "/d//a/z", "/d/A"]));
    assert_eq!(sorted, strings(&["/d/A", "/d/a/z", "/d//a/z", "/d/a-c", "/d/b.txt"]));
    assert_eq!(sort_paths(Vec::new()), Vec::<String>::new());
}

#[test]
fn created_stores_use_the_multimodal_model_for_images() {
    let with_image = strings(&["/d/notes.txt", "/d/scan.JPEG"]);
    let text_only = strings(&["/d/notes.txt", "/d/readme.md"]);
    assert_eq!(ingest_embedding_model(None, &with_image).as_deref(), Some("models/gemini-embedding-2"));
    assert_eq!(ingest_embedding_model(None, &text_only), None);
    assert_eq!(
        ingest_embedding_model(Some("models/custom".to_string()), &with_image).as_deref(),
        Some("models/custom")
    );
    assert!(is_image_file("/d/a.png"));
    assert!(is_image_file("/d/a.Jpg"));
    assert!(!is_image_file("/d/a.gif"));
    assert!(!is_image_file("/d/.png"));
}
