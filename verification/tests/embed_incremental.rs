use infiniloom_cli::embed_diff::{
    compute_incremental_diff, resolve_since_ref, ManifestChunk, NewChunk, SinceFallback,
};

fn entry(key: &str, id: &str) -> ManifestChunk {
    ManifestChunk { location_key: key.to_owned(), chunk_id: id.to_owned() }
}

fn chunk(file: &str, key: &str, id: &str) -> NewChunk {
    NewChunk { file: file.to_owned(), location_key: key.to_owned(), chunk_id: id.to_owned() }
}

#[test]
fn incremental_diff_sorts_chunks_into_added_modified_removed() {
    let manifest = vec![
        entry("a.rs::f::function", "id1"),
        entry("a.rs::g::function", "id2"),
        entry("a.rs::old::function", "id5"),
        entry("b.rs::h::function", "id3"),
        entry("c.rs::k::function", "id4"),
    ];
    let new = vec![
        chunk("a.rs", "a.rs::f::function", "id1"),
        chunk("a.rs", "a.rs::g::function", "id7"),
        chunk("a.rs", "a.rs::n::function", "id9"),
    ];
    let deleted = vec!["c.rs".to_owned()];
    let diff = compute_incremental_diff(&manifest, &new, &deleted);
    assert_eq!(diff.removed, vec![4, 2]);
    assert_eq!(diff.added, vec![2]);
    assert_eq!(diff.modified, vec![(1, 1)]);
    assert_eq!(diff.unchanged, 2);
    assert_eq!(diff.total_chunks, 5);
}

#[test]
fn incremental_diff_with_nothing_changed_keeps_everything() {
    let manifest = vec![entry("a.rs::f", "1"), entry("README.md", "2")];
    let diff = compute_incremental_diff(&manifest, &vec![], &vec![]);
    assert!(diff.removed.is_empty() && diff.added.is_empty() && diff.modified.is_empty());
    assert_eq!(diff.unchanged, 2);
    assert_eq!(diff.total_chunks, 2);
}

#[test]
fn key_without_separator_is_its_own_file() {
    let manifest = vec![entry("README.md", "2"), entry("README.md.bak::x", "3")];
    let diff = compute_incremental_diff(&manifest, &vec![], &vec!["README.md".to_owned()]);
    assert_eq!(diff.removed, vec![0]);
    assert_eq!(diff.unchanged, 1);
}

#[test]
fn since_ref_prefers_the_flag_then_the_manifest() {
    let given = Some("v1.0".to_owned());
    assert_eq!(resolve_since_ref(&given, true, &Some(Some("abc".to_owned()))), (given.clone(), None));
    assert_eq!(
        resolve_since_ref(&None, true, &Some(Some("abc".to_owned()))),
        (Some("abc".to_owned()), None)
    );
    assert_eq!(resolve_since_ref(&None, true, &Some(None)), (None, Some(SinceFallback::NoCommitInManifest)));
    assert_eq!(resolve_since_ref(&None, true, &None), (None, Some(SinceFallback::NoManifest)));
    assert_eq!(resolve_since_ref(&None, false, &Some(Some("abc".to_owned()))), (None, None));
}
