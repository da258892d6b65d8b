use infiniloom_cli::ranking::{file_rank, order_by_change_frequency, rank_files_fast};

#[test]
fn ranks_follow_the_rules() {
    assert_eq!(file_rank("src/main.rs"), 1000 - 5000 - 1000);
    assert_eq!(file_rank("Cargo.toml"), 1000 - 3000);
    assert_eq!(file_rank("pkg/lib/api/x.go"), 1000 - 800 - 600);
    assert_eq!(file_rank("tests/foo_test.rs"), 1000 + 2000);
    assert_eq!(file_rank("README.md"), 1000 + 1500);
    assert_eq!(file_rank("web/node_modules/a/index.js"), 1000 - 5000 + 3000);
    assert_eq!(file_rank("data/blob.bin"), 1000);
}

#[test]
fn ranking_is_stable_and_important_first() {
    let mut files = vec![
        "docs/guide.md".to_owned(),
        "b.txt".to_owned(),
        "src/main.rs".to_owned(),
        "a.txt".to_owned(),
        "Cargo.toml".to_owned(),
        "vendor/x/lib.rs".to_owned(),
    ];
    rank_files_fast(&mut files);
    assert_eq!(
        files,
        vec![
            "src/main.rs".to_owned(),
            "vendor/x/lib.rs".to_owned(),
            "Cargo.toml".to_owned(),
            "b.txt".to_owned(),
            "a.txt".to_owned(),
            "docs/guide.md".to_owned(),
        ]
    );
}

#[test]
fn change_frequency_order_is_stable_and_descending() {
    let freqs: Vec<u32> = vec![3, 7, 3, 0, 7, 5];
    assert_eq!(order_by_change_frequency(&freqs), vec![1, 4, 5, 0, 2, 3]);
    assert_eq!(order_by_change_frequency(&vec![]), Vec::<usize>::new());
    assert_eq!(order_by_change_frequency(&vec![2, 2, 2]), vec![0, 1, 2]);
}
