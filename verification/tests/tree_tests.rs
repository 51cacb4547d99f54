use gh_dir::github::GitHubFile;
use gh_dir::tree::{classify_listing_status, TreeError, TreeResolver};

fn file(path: &str, size: u64) -> GitHubFile {
    GitHubFile {
        path: path.to_string(),
        name: path.rsplit('/').next().unwrap().to_string(),
        file_type: "file".to_string(),
        download_url: Some(format!("https://raw.example/{}", path)),
        sha: "a1b2c3".to_string(),
        size,
    }
}

fn dir(path: &str) -> GitHubFile {
    GitHubFile {
        path: path.to_string(),
        name: path.rsplit('/').next().unwrap().to_string(),
        file_type: "dir".to_string(),
        download_url: None,
        sha: "d4e5f6".to_string(),
        size: 0,
    }
}

#[test]
fn test_resolve_nested_tree() {
    // root/ holds a.txt (10 bytes), dir1/b.txt (20 bytes), dir1/dir2/c.txt (5 bytes).
    let mut r = TreeResolver::new("root".to_string());
    assert_eq!(r.next_dir(), Some("root".to_string()));
    assert!(r.apply_listing(vec![file("root/a.txt", 10), dir("root/dir1")]));
    assert_eq!(r.next_dir(), Some("root/dir1".to_string()));
    assert!(r.apply_listing(vec![file("root/dir1/b.txt", 20), dir("root/dir1/dir2")]));
    assert_eq!(r.next_dir(), Some("root/dir1/dir2".to_string()));
    assert!(r.apply_listing(vec![file("root/dir1/dir2/c.txt", 5)]));
    assert!(r.is_done());
    let manifest = r.finish().unwrap();
    assert_eq!(manifest.entries.len(), 3);
    assert_eq!(manifest.total_size_bytes, 35);
    let paths: Vec<&str> = manifest.entries.iter().map(|e| e.path.as_str()).collect();
    assert!(paths.contains(&"root/a.txt"));
    assert!(paths.contains(&"root/dir1/b.txt"));
    assert!(paths.contains(&"root/dir1/dir2/c.txt"));
    for e in &manifest.entries {
        assert_ne!(e.file_type, "dir");
    }
}

#[test]
fn test_resolve_mixed_listing_keeps_files_only() {
    let mut r = TreeResolver::new("src".to_string());
    assert_eq!(r.next_dir(), Some("src".to_string()));
    assert!(r.apply_listing(vec![
        dir("src/a"),
        file("src/lib.rs", 100),
        dir("src/b"),
        file("src/main.rs", 200),
    ]));
    assert_eq!(r.next_dir(), Some("src/b".to_string()));
    assert!(r.apply_listing(vec![file("src/b/mod.rs", 7)]));
    assert_eq!(r.next_dir(), Some("src/a".to_string()));
    assert!(r.apply_listing(vec![]));
    assert!(r.is_done());
    let manifest = r.finish().unwrap();
    assert_eq!(manifest.entries.len(), 3);
    assert_eq!(manifest.total_size_bytes, 307);
}

#[test]
fn test_resolve_root_not_found() {
    let mut r = TreeResolver::new("root".to_string());
    assert_eq!(r.next_dir(), Some("root".to_string()));
    r.apply_error(TreeError::RemoteNotFound);
    assert!(r.has_failed());
    assert_eq!(r.next_dir(), None);
    let err = r.finish().unwrap_err();
    assert!(matches!(err, TreeError::RemoteNotFound));
}

#[test]
fn test_resolve_nested_failure_yields_no_manifest() {
    let mut r = TreeResolver::new("root".to_string());
    assert_eq!(r.next_dir(), Some("root".to_string()));
    assert!(r.apply_listing(vec![file("root/a.txt", 10), dir("root/dir1")]));
    assert_eq!(r.next_dir(), Some("root/dir1".to_string()));
    r.apply_error(TreeError::TransientNetwork { detail: "connection reset".to_string() });
    assert!(r.has_failed());
    let err = r.finish().unwrap_err();
    assert!(matches!(err, TreeError::TransientNetwork { .. }));
}

#[test]
fn test_classify_listing_status() {
    assert!(classify_listing_status(200, String::new()).is_ok());
    assert!(classify_listing_status(204, String::new()).is_ok());
    assert!(matches!(
        classify_listing_status(404, String::new()),
        Err(TreeError::RemoteNotFound)
    ));
    assert!(matches!(
        classify_listing_status(401, String::new()),
        Err(TreeError::RemoteAuthRequired)
    ));
    assert!(matches!(
        classify_listing_status(403, String::new()),
        Err(TreeError::RemoteAuthRequired)
    ));
    match classify_listing_status(500, "boom".to_string()) {
        Err(TreeError::RemoteOther { status, body }) => {
            assert_eq!(status, 500);
            assert_eq!(body, "boom");
        }
        other => panic!("expected RemoteOther, got {:?}", other),
    }
}

#[test]
fn test_fetch_plan_selects_entries_with_content_url() {
    let mut no_url = file("root/skipped.txt", 9);
    no_url.download_url = None;
    let manifest = gh_dir::tree::Manifest {
        entries: vec![file("root/a.txt", 10), no_url, file("root/b.txt", 20)],
        total_size_bytes: 39,
    };
    let plan = gh_dir::batch::fetch_plan(&manifest);
    assert_eq!(plan.len(), 2);
    assert_eq!(plan[0].0, "root/a.txt");
    assert_eq!(plan[0].1, "https://raw.example/root/a.txt");
    assert_eq!(plan[0].2, 10);
    assert_eq!(plan[1].0, "root/b.txt");
    assert_eq!(plan[1].2, 20);
}
