use seafile_share::entry::{DirEntry, Error, Timestamp};
use seafile_share::transfer::{
    check_range_reply, conflict_file_options, destination, plan_transfer, preserved_mtime, range_header,
    verify_fetched, ConflictAction, DownloadResult, OpenMode, Plan,
};

fn file(size: u64, mtime: Option<i64>) -> DirEntry {
    DirEntry::File {
        name: "f".to_string(),
        path: "/a/f".to_string(),
        size,
        last_modified: mtime.map(|s| Timestamp { seconds: s, nanos: 0 }),
        download_url: "https://h/f?dl=1".to_string(),
        view_url: "https://h/f".to_string(),
    }
}

fn folder() -> DirEntry {
    DirEntry::Directory {
        name: "a".to_string(),
        path: "/a".to_string(),
        last_modified: Timestamp { seconds: 7, nanos: 0 },
        view_url: "https://h/a".to_string(),
    }
}

/// Carries out a plan on an in-memory local file, as the transfer does on disk.
fn run(entry: &DirEntry, local: &mut Option<Vec<u8>>, remote: &[u8], conflict: ConflictAction) -> DownloadResult {
    let plan = plan_transfer(entry, local.as_ref().map(|l| l.len() as u64), conflict);
    match plan {
        Plan::Keep(r) => r,
        Plan::Fetch(_, r) => {
            *local = Some(remote.to_vec());
            r
        }
        Plan::FetchRange(start, end) => {
            local.as_mut().unwrap().extend_from_slice(&remote[start as usize..end as usize]);
            DownloadResult::Continued
        }
        Plan::Verify => {
            let r = verify_fetched(local.as_ref().unwrap(), &remote.to_vec());
            if r == DownloadResult::Overwritten {
                *local = Some(remote.to_vec());
            }
            r
        }
    }
}

#[test]
fn open_modes_per_action() {
    let m = conflict_file_options(ConflictAction::Skip);
    assert_eq!(m, OpenMode { read: true, write: false, append: false, truncate: false, create: false });
    let m = conflict_file_options(ConflictAction::Check);
    assert!(m.read && m.write && !m.append && !m.truncate);
    let m = conflict_file_options(ConflictAction::Continue);
    assert!(m.append && !m.write && !m.truncate && !m.read);
    let m = conflict_file_options(ConflictAction::Overwrite);
    assert!(m.write && m.truncate && !m.append);
}

#[test]
fn missing_file_is_created() {
    let mut local = None;
    assert_eq!(run(&file(3, None), &mut local, b"abc", ConflictAction::Skip), DownloadResult::Complete);
    assert_eq!(local.as_deref(), Some(&b"abc"[..]));
    match plan_transfer(&file(3, None), None, ConflictAction::Overwrite) {
        Plan::Fetch(mode, DownloadResult::Complete) => assert!(mode.create && mode.write && mode.truncate),
        other => panic!("{other:?}"),
    }
}

#[test]
fn skip_existing_writes_nothing() {
    let mut local = Some(b"old".to_vec());
    assert_eq!(run(&file(5, None), &mut local, b"newer", ConflictAction::Skip), DownloadResult::Skipped);
    assert_eq!(local.as_deref(), Some(&b"old"[..]));
}

#[test]
fn overwrite_existing_rewrites_whole_file() {
    let mut local = Some(b"old contents".to_vec());
    assert_eq!(run(&file(3, None), &mut local, b"new", ConflictAction::Overwrite), DownloadResult::Overwritten);
    assert_eq!(local.as_deref(), Some(&b"new"[..]));
}

#[test]
fn continue_appends_missing_tail() {
    let mut local = Some(b"hello".to_vec());
    assert_eq!(plan_transfer(&file(11, None), Some(5), ConflictAction::Continue), Plan::FetchRange(5, 11));
    assert_eq!(run(&file(11, None), &mut local, b"hello world", ConflictAction::Continue), DownloadResult::Continued);
    assert_eq!(local.as_deref(), Some(&b"hello world"[..]));
}

#[test]
fn continue_complete_file_is_skipped() {
    let mut local = Some(b"hello world".to_vec());
    assert_eq!(run(&file(11, None), &mut local, b"hello world", ConflictAction::Continue), DownloadResult::Skipped);
    let mut longer = Some(b"hello world!".to_vec());
    assert_eq!(run(&file(11, None), &mut longer, b"hello world", ConflictAction::Continue), DownloadResult::Skipped);
    assert_eq!(longer.as_deref(), Some(&b"hello world!"[..]));
}

#[test]
fn check_keeps_equal_and_replaces_different() {
    let mut same = Some(b"abc".to_vec());
    assert_eq!(run(&file(3, None), &mut same, b"abc", ConflictAction::Check), DownloadResult::Skipped);
    let mut differs = Some(b"abd".to_vec());
    assert_eq!(run(&file(3, None), &mut differs, b"abc", ConflictAction::Check), DownloadResult::Overwritten);
    assert_eq!(differs.as_deref(), Some(&b"abc"[..]));
    assert_eq!(verify_fetched(&b"ab".to_vec(), &b"abc".to_vec()), DownloadResult::Overwritten);
    assert_eq!(verify_fetched(&Vec::new(), &Vec::new()), DownloadResult::Skipped);
}

#[test]
fn skip_rerun_is_skipped_and_unchanged() {
    let mut local = None;
    let remote = b"payload";
    assert_eq!(run(&file(7, None), &mut local, remote, ConflictAction::Skip), DownloadResult::Complete);
    let after_first = local.clone();
    assert_eq!(run(&file(7, None), &mut local, remote, ConflictAction::Skip), DownloadResult::Skipped);
    assert_eq!(local, after_first);
}

#[test]
fn directories_are_skipped() {
    assert_eq!(plan_transfer(&folder(), None, ConflictAction::Overwrite), Plan::Keep(DownloadResult::Skipped));
}

#[test]
fn range_header_names_last_byte() {
    assert_eq!(range_header(5, 11), "bytes=5-10");
    assert_eq!(range_header(0, 1), "bytes=0-0");
    assert_eq!(range_header(1234567, 18446744073709551615), "bytes=1234567-18446744073709551614");
}

#[test]
fn range_reply_must_be_partial() {
    assert_eq!(check_range_reply(206), Ok(()));
    assert_eq!(check_range_reply(200), Err(Error::ProtocolViolation));
    assert_eq!(check_range_reply(416), Err(Error::ProtocolViolation));
}

#[test]
fn destinations_under_root() {
    assert_eq!(destination("./out", "/", "/a/b.txt"), Some("./out/a/b.txt".to_string()));
    assert_eq!(destination("./out/", "/a", "/a/b.txt"), Some("./out/b.txt".to_string()));
    assert_eq!(destination("out", "/a/", "/a/b/c"), Some("out/b/c".to_string()));
    assert_eq!(destination("out", "/a", "/a"), Some("out".to_string()));
    assert_eq!(destination("out", "/a", "/ab/c"), None);
    assert_eq!(destination("out", "/a", "/b"), None);
}

#[test]
fn mtime_kept_only_in_archive_mode_after_a_transfer() {
    let e = file(1, Some(99));
    assert_eq!(preserved_mtime(true, DownloadResult::Complete, &e), Some(Timestamp { seconds: 99, nanos: 0 }));
    assert_eq!(preserved_mtime(true, DownloadResult::Skipped, &e), None);
    assert_eq!(preserved_mtime(false, DownloadResult::Overwritten, &e), None);
    assert_eq!(preserved_mtime(true, DownloadResult::Continued, &file(1, None)), None);
}

#[test]
fn result_labels() {
    assert_eq!(DownloadResult::Skipped.label(), "skipped");
    assert_eq!(DownloadResult::Overwritten.label(), "overwritten");
    assert_eq!(DownloadResult::Continued.label(), "continued");
    assert_eq!(DownloadResult::Complete.label(), "complete");
}
