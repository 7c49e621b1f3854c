use seafile_share::entry::{all_consistent, find_entry, Client, DirEnt, DirEntry, Error, Timestamp, WebFileOptions};

fn ts(s: i64) -> Timestamp {
    Timestamp { seconds: s, nanos: 0 }
}

fn client() -> Client {
    Client::new("https://cloud.example".to_string())
}

#[test]
fn directory_url_template() {
    let c = client();
    assert_eq!(c.dir_url("abc", None), "https://cloud.example/d/abc/");
    assert_eq!(c.dir_url("abc", Some("/a b/c")), "https://cloud.example/d/abc/?p=%2Fa+b%2Fc");
}

#[test]
fn file_url_template() {
    let c = client();
    assert_eq!(c.file_url("abc", "/a/b.txt", false), "https://cloud.example/d/abc/files/?p=%2Fa%2Fb.txt");
    assert_eq!(
        c.file_url("abc", "/a/b.txt", true),
        "https://cloud.example/d/abc/files/?p=%2Fa%2Fb.txt&dl=1"
    );
    assert_eq!(c.file_url("abc", "/é&", false), "https://cloud.example/d/abc/files/?p=%2F%C3%A9%26");
}

#[test]
fn listing_url_template() {
    let c = client();
    assert_eq!(c.api_url("abc", None), "https://cloud.example/api/v2.1/share-links/abc/dirents/");
    assert_eq!(
        c.api_url("abc", Some("/A/2")),
        "https://cloud.example/api/v2.1/share-links/abc/dirents/?path=%2FA%2F2"
    );
}

#[test]
fn listing_records_become_entries() {
    let c = client();
    let dirents = vec![
        DirEnt::File {
            is_dir: false,
            last_modified: ts(100),
            path: "/A/1".to_string(),
            name: "1".to_string(),
            size: 5,
            encoded_thumbnail_src: None,
        },
        DirEnt::Directory { is_dir: true, last_modified: ts(200), path: "/A/2".to_string(), name: "2".to_string(), size: 0 },
    ];
    assert!(dirents[0].is_file() && !dirents[0].is_dir());
    assert!(dirents[0].is_consistent() && dirents[1].is_consistent());
    assert_eq!(dirents[0].size(), Some(5));
    assert_eq!(dirents[1].size(), None);
    assert_eq!(dirents[1].last_modified(), ts(200));
    assert_eq!(dirents[1].name(), "2");
    assert_eq!(dirents[1].path(), "/A/2");
    let entries = c.entries("abc", &dirents);
    assert_eq!(entries.len(), 2);
    assert!(entries[0].is_file());
    assert_eq!(entries[0].name(), "1");
    assert_eq!(entries[0].path(), "/A/1");
    assert_eq!(entries[0].size(), Some(5));
    assert_eq!(entries[0].last_modified(), Some(ts(100)));
    assert_eq!(entries[0].download_url(), Some("https://cloud.example/d/abc/files/?p=%2FA%2F1&dl=1"));
    assert_eq!(entries[0].view_url(), "https://cloud.example/d/abc/files/?p=%2FA%2F1");
    match &entries[0] {
        DirEntry::File { view_url, .. } => assert_eq!(view_url, "https://cloud.example/d/abc/files/?p=%2FA%2F1"),
        _ => panic!("expected a file"),
    }
    assert!(entries[1].is_dir());
    assert_eq!(entries[1].size(), None);
    assert_eq!(entries[1].last_modified(), Some(ts(200)));
    assert_eq!(entries[1].download_url(), None);
    assert_eq!(entries[1].view_url(), "https://cloud.example/d/abc/?p=%2FA%2F2");
}

#[test]
fn single_file_entry() {
    let c = client();
    let opts = WebFileOptions {
        repo_id: "r".to_string(),
        path: "/doc.pdf".to_string(),
        name: "doc.pdf".to_string(),
        size: 42,
        raw_path: "https://cloud.example/seafhttp/files/x/doc.pdf".to_string(),
        can_download: true,
    };
    let e = c.single_file("https://cloud.example/f/abc/", &opts);
    assert!(e.is_file());
    assert_eq!(e.name(), "doc.pdf");
    assert_eq!(e.path(), "/doc.pdf");
    assert_eq!(e.size(), Some(42));
    assert_eq!(e.last_modified(), None);
    assert_eq!(e.download_url(), Some("https://cloud.example/seafhttp/files/x/doc.pdf"));
    match &e {
        DirEntry::File { view_url, .. } => assert_eq!(view_url, "https://cloud.example/f/abc/"),
        _ => panic!("expected a file"),
    }
}

#[test]
fn file_found_in_parent_listing() {
    let c = client();
    let dirents = vec![
        DirEnt::Directory { is_dir: true, last_modified: ts(1), path: "/a/b".to_string(), name: "b".to_string(), size: 0 },
        DirEnt::File {
            is_dir: false,
            last_modified: ts(2),
            path: "/a/b.txt".to_string(),
            name: "b.txt".to_string(),
            size: 3,
            encoded_thumbnail_src: Some("/thumb".to_string()),
        },
    ];
    let entries = c.entries("ff", &dirents);
    assert_eq!(find_entry(&entries, "/a/b.txt"), Some(1));
    assert_eq!(find_entry(&entries, "/a/b"), Some(0));
    assert_eq!(find_entry(&entries, "/a/c"), None);
    assert_eq!(find_entry(&Vec::new(), "/a"), None);
}

#[test]
fn error_messages() {
    assert_eq!(Error::InvalidShare.message(), "invalid share");
    assert_eq!(Error::ProtocolViolation.message(), "protocol violation");
    assert_eq!(Error::Network.message(), "network failure");
    assert_eq!(Error::Filesystem.message(), "filesystem failure");
}

#[test]
fn flag_must_match_record_shape() {
    let d = DirEnt::Directory { is_dir: false, last_modified: ts(1), path: "/d".to_string(), name: "d".to_string(), size: 0 };
    assert!(!d.is_consistent());
    let f = DirEnt::File {
        is_dir: true,
        last_modified: ts(1),
        path: "/f".to_string(),
        name: "f".to_string(),
        size: 1,
        encoded_thumbnail_src: None,
    };
    assert!(!f.is_consistent());
    let good = DirEnt::Directory { is_dir: true, last_modified: ts(1), path: "/g".to_string(), name: "g".to_string(), size: 0 };
    assert!(all_consistent(&vec![good.clone()]));
    assert!(all_consistent(&Vec::new()));
    assert!(!all_consistent(&vec![good, f]));
}
