use vstd::prelude::*;

use crate::entry::{DirEntry, EntryView, Error, Timestamp};
use crate::share_link::{has_at, opt_view, trim_slash};

verus! {

/// What to do when a file to download already exists locally.
#[derive(Debug, Clone, Copy, PartialEq, Eq, Structural)]
pub enum ConflictAction {
    /// Leave the local file as it is.
    Skip,
    /// Fetch the remote file into memory, compare it with the local one byte
    /// for byte, and overwrite only on a difference.
    Check,
    /// Fetch only the missing tail with a range request and append it.
    Continue,
    /// Always overwrite.
    Overwrite,
}

/// How one file transfer ended.
#[derive(Debug, Clone, Copy, PartialEq, Eq, Structural)]
pub enum DownloadResult {
    Skipped,
    Overwritten,
    Continued,
    Complete,
}

impl DownloadResult {
    pub fn label(&self) -> (r: &'static str)
        ensures
            r@ == match *self {
                DownloadResult::Skipped => "skipped"@,
                DownloadResult::Overwritten => "overwritten"@,
                DownloadResult::Continued => "continued"@,
                DownloadResult::Complete => "complete"@,
            },
    {
        match self {
            DownloadResult::Skipped => "skipped",
            DownloadResult::Overwritten => "overwritten",
            DownloadResult::Continued => "continued",
            DownloadResult::Complete => "complete",
        }
    }
}

/// How a local file is opened.
#[derive(Debug, Clone, Copy, PartialEq, Eq, Structural)]
pub struct OpenMode {
    pub read: bool,
    pub write: bool,
    pub append: bool,
    pub truncate: bool,
    pub create: bool,
}

pub open spec fn open_mode_of(conflict: ConflictAction) -> OpenMode {
    match conflict {
        ConflictAction::Skip => OpenMode { read: true, write: false, append: false, truncate: false, create: false },
        ConflictAction::Check => OpenMode { read: true, write: true, append: false, truncate: false, create: false },
        ConflictAction::Continue => OpenMode { read: false, write: false, append: true, truncate: false, create: false },
        ConflictAction::Overwrite => OpenMode { read: false, write: true, append: false, truncate: true, create: false },
    }
}

/// How an existing local file is opened under each conflict action:
/// read-only to skip, read and write to check, append to continue, and
/// truncated to overwrite.
pub fn conflict_file_options(conflict: ConflictAction) -> (r: OpenMode)
    ensures
        r == open_mode_of(conflict),
{
    match conflict {
        ConflictAction::Skip => OpenMode { read: true, write: false, append: false, truncate: false, create: false },
        ConflictAction::Check => OpenMode { read: true, write: true, append: false, truncate: false, create: false },
        ConflictAction::Continue => OpenMode { read: false, write: false, append: true, truncate: false, create: false },
        ConflictAction::Overwrite => OpenMode { read: false, write: true, append: false, truncate: true, create: false },
    }
}

/// The mode for a file that does not exist yet: created and written.
pub open spec fn create_mode() -> OpenMode {
    OpenMode { read: false, write: true, append: false, truncate: true, create: true }
}

/// What one file transfer does.
#[derive(Debug, Clone, Copy, PartialEq, Eq, Structural)]
pub enum Plan {
    /// Nothing is fetched or written.
    Keep(DownloadResult),
    /// The whole file is fetched and written from the start.
    Fetch(OpenMode, DownloadResult),
    /// The bytes `[start, end)` are fetched with a range request and appended.
    FetchRange(u64, u64),
    /// The whole file is fetched into memory and compared with the local copy
    /// (see `verify_fetched`).
    Verify,
}

/// The plan for a transfer of `e`, given the length of the local file if
/// one exists.
pub open spec fn plan_of(e: EntryView, local_len: Option<u64>, conflict: ConflictAction) -> Plan {
    match e {
        EntryView::Directory { .. } => Plan::Keep(DownloadResult::Skipped),
        EntryView::File { size, .. } => match local_len {
            None => Plan::Fetch(create_mode(), DownloadResult::Complete),
            Some(len) => match conflict {
                ConflictAction::Skip => Plan::Keep(DownloadResult::Skipped),
                ConflictAction::Check => Plan::Verify,
                ConflictAction::Continue => if len < size {
                    Plan::FetchRange(len, size)
                } else {
                    Plan::Keep(DownloadResult::Skipped)
                },
                ConflictAction::Overwrite => Plan::Fetch(
                    open_mode_of(ConflictAction::Overwrite),
                    DownloadResult::Overwritten,
                ),
            },
        },
    }
}

/// Decides how the transfer of `entry` proceeds: `local_len` is the length of
/// the local file, or `None` where there is none.
pub fn plan_transfer(entry: &DirEntry, local_len: Option<u64>, conflict: ConflictAction) -> (r: Plan)
    ensures
        r == plan_of(entry@, local_len, conflict),
{
    match entry {
        DirEntry::Directory { .. } => Plan::Keep(DownloadResult::Skipped),
        DirEntry::File { size, .. } => match local_len {
            None => Plan::Fetch(
                OpenMode { read: false, write: true, append: false, truncate: true, create: true },
                DownloadResult::Complete,
            ),
            Some(len) => match conflict {
                ConflictAction::Skip => Plan::Keep(DownloadResult::Skipped),
                ConflictAction::Check => Plan::Verify,
                ConflictAction::Continue => if len < *size {
                    Plan::FetchRange(len, *size)
                } else {
                    Plan::Keep(DownloadResult::Skipped)
                },
                ConflictAction::Overwrite => Plan::Fetch(
                    conflict_file_options(ConflictAction::Overwrite),
                    DownloadResult::Overwritten,
                ),
            },
        },
    }
}

/// The outcome of a checked transfer: a local copy equal to the fetched
/// bytes is kept (`Skipped`), any other is overwritten with them.
pub fn verify_fetched(local: &Vec<u8>, remote: &Vec<u8>) -> (r: DownloadResult)
    ensures
        r == (if local@ == remote@ {
            DownloadResult::Skipped
        } else {
            DownloadResult::Overwritten
        }),
{
    if local.len() != remote.len() {
        return DownloadResult::Overwritten;
    }
    let mut i: usize = 0;
    while i < local.len()
        invariant
            local@.len() == remote@.len(),
            i <= local@.len(),
            forall|j: int| 0 <= j < i ==> local@[j] == remote@[j],
        decreases local.len() - i,
    {
        if local[i] != remote[i] {
            return DownloadResult::Overwritten;
        }
        i += 1;
    }
    assert(local@ =~= remote@);
    DownloadResult::Skipped
}

/// The local file's contents after carrying out `plan`, where `remote` is
/// the remote file and `local` the local one (empty if there was none).
pub open spec fn contents_after(plan: Plan, local: Seq<u8>, remote: Seq<u8>) -> Seq<u8> {
    match plan {
        Plan::Keep(_) => local,
        Plan::Fetch(_, _) => remote,
        Plan::FetchRange(start, end) => local + remote.subrange(start as int, end as int),
        Plan::Verify => remote,
    }
}

/// The outcome reported for `plan`, where `remote` is the remote file and
/// `local` the local one.
pub open spec fn result_of(plan: Plan, local: Seq<u8>, remote: Seq<u8>) -> DownloadResult {
    match plan {
        Plan::Keep(r) => r,
        Plan::Fetch(_, r) => r,
        Plan::FetchRange(_, _) => DownloadResult::Continued,
        Plan::Verify => if local == remote {
            DownloadResult::Skipped
        } else {
            DownloadResult::Overwritten
        },
    }
}

/// A reply to a range request must be partial content (206); any other
/// status breaks the protocol.
pub fn check_range_reply(status: u16) -> (r: Result<(), Error>)
    ensures
        status == 206 ==> r is Ok,
        status != 206 ==> r == Err::<(), Error>(Error::ProtocolViolation),
{
    if status == 206 {
        Ok(())
    } else {
        Err(Error::ProtocolViolation)
    }
}

pub open spec fn digit_char(d: nat) -> char {
    seq!['0', '1', '2', '3', '4', '5', '6', '7', '8', '9'][d as int]
}

/// The decimal notation of `n`, without leading zeros.
pub open spec fn decimal(n: nat) -> Seq<char>
    decreases n,
{
    if n < 10 {
        seq![digit_char(n)]
    } else {
        decimal(n / 10).push(digit_char(n % 10))
    }
}

/// The one-character text of a decimal digit.
fn digit_text(d: u64) -> (r: &'static str)
    requires
        d < 10,
    ensures
        r@ == seq![digit_char(d as nat)],
{
    proof {
        reveal_strlit("0");
        reveal_strlit("1");
        reveal_strlit("2");
        reveal_strlit("3");
        reveal_strlit("4");
        reveal_strlit("5");
        reveal_strlit("6");
        reveal_strlit("7");
        reveal_strlit("8");
        reveal_strlit("9");
    }
    let r = match d {
        0 => "0",
        1 => "1",
        2 => "2",
        3 => "3",
        4 => "4",
        5 => "5",
        6 => "6",
        7 => "7",
        8 => "8",
        _ => "9",
    };
    assert(r@ =~= seq![digit_char(d as nat)]);
    r
}

/// The decimal notation of `n`.
fn decimal_string(n: u64) -> (r: String)
    ensures
        r@ == decimal(n as nat),
    decreases n,
{
    if n < 10 {
        String::from_str(digit_text(n))
    } else {
        let mut s = decimal_string(n / 10);
        s.append(digit_text(n % 10));
        s
    }
}

/// The value of the range header that asks for bytes `[start, end)`: the
/// wire form names the last byte, `bytes={start}-{end - 1}`.
pub open spec fn range_header_of(start: nat, end: nat) -> Seq<char> {
    seq!['b', 'y', 't', 'e', 's', '='] + decimal(start) + seq!['-'] + decimal((end - 1) as nat)
}

pub fn range_header(start: u64, end: u64) -> (r: String)
    requires
        start < end,
    ensures
        r@ == range_header_of(start as nat, end as nat),
{
    let mut h = String::from_str("bytes=");
    let a = decimal_string(start);
    h.append(a.as_str());
    h.append("-");
    let b = decimal_string(end - 1);
    h.append(b.as_str());
    proof {
        reveal_strlit("bytes=");
        reveal_strlit("-");
    }
    assert(h@ =~= range_header_of(start as nat, end as nat));
    h
}

/// The modification time to give the local file after a transfer: the
/// entry's, in archive mode and after any transfer that was not skipped.
pub fn preserved_mtime(archive: bool, result: DownloadResult, entry: &DirEntry) -> (r: Option<Timestamp>)
    ensures
        r == (if archive && result != DownloadResult::Skipped {
            match entry@ {
                EntryView::Directory { last_modified, .. } => Some(last_modified),
                EntryView::File { last_modified, .. } => last_modified,
            }
        } else {
            None
        }),
{
    if archive && result != DownloadResult::Skipped {
        entry.last_modified()
    } else {
        None
    }
}

/// The remote path relative to the walk's base: empty for the base itself,
/// the rest after the base and a slash below it, nothing elsewhere. A
/// trailing slash of the base is ignored.
pub open spec fn relative_to(base: Seq<char>, path: Seq<char>) -> Option<Seq<char>> {
    let b = trim_slash(base);
    if path == b {
        Some(seq![])
    } else if path.len() > b.len() && path.subrange(0, b.len() as int) == b && path[b.len() as int] == '/' {
        Some(path.subrange(b.len() as int + 1, path.len() as int))
    } else {
        None
    }
}

/// A relative path placed under a local root.
pub open spec fn joined(root: Seq<char>, rest: Seq<char>) -> Seq<char> {
    if rest.len() == 0 {
        root
    } else if root.len() == 0 || root.last() == '/' {
        root + rest
    } else {
        root + seq!['/'] + rest
    }
}

pub open spec fn destination_of(root: Seq<char>, base: Seq<char>, path: Seq<char>) -> Option<Seq<char>> {
    match relative_to(base, path) {
        Some(rest) => Some(joined(root, rest)),
        None => None,
    }
}

/// Where the remote file `path` goes under the local directory `root`, for a
/// walk that started at the remote directory `base`; `None` for a path that
/// does not lie under `base`.
pub fn destination(root: &str, base: &str, path: &str) -> (r: Option<String>)
    ensures
        opt_view(r) == destination_of(root@, base@, path@),
{
    let bn = base.unicode_len();
    let blen: usize = if bn > 0 && base.get_char(bn - 1) == '/' {
        bn - 1
    } else {
        bn
    };
    let ghost b = trim_slash(base@);
    assert(b =~= base@.subrange(0, blen as int));
    let b_str = base.substring_char(0, blen);
    let n = path.unicode_len();
    let starts = has_at(path, n, 0, b_str);
    assert(starts == (blen <= n && path@.subrange(0, blen as int) == b));
    if starts && n == blen {
        assert(path@ =~= b);
        let out = String::from_str(root);
        return Some(out);
    }
    if !(starts && n > blen && path.get_char(blen) == '/') {
        proof {
            if path@ == b {
                assert(path@.subrange(0, blen as int) =~= path@);
            }
        }
        return None;
    }
    proof {
        assert(path@ != b);
    }
    let rest = path.substring_char(blen + 1, n);
    let rn = rest.unicode_len();
    let mut out = String::from_str(root);
    if rn == 0 {
        return Some(out);
    }
    let m = root.unicode_len();
    if m == 0 || root.get_char(m - 1) == '/' {
        out.append(rest);
    } else {
        out.append("/");
        out.append(rest);
        proof {
            reveal_strlit("/");
        }
        assert(out@ =~= root@ + seq!['/'] + rest@);
    }
    Some(out)
}

/// Under each conflict action, with an existing local file and a remote file
/// of the entry's declared size: skipping writes nothing; overwriting leaves
/// exactly the remote bytes; continuing a shorter local file appends exactly
/// the missing `size - len` bytes of the remote file; continuing a local file
/// that is not shorter skips it.
pub proof fn lemma_conflict_table(e: EntryView, local: Seq<u8>, remote: Seq<u8>)
    requires
        e is File,
        remote.len() == e->File_size,
        local.len() <= u64::MAX,
    ensures
        ({
            let l = Some(local.len() as u64);
            let skip = plan_of(e, l, ConflictAction::Skip);
            let over = plan_of(e, l, ConflictAction::Overwrite);
            let cont = plan_of(e, l, ConflictAction::Continue);
            &&& result_of(skip, local, remote) == DownloadResult::Skipped
            &&& contents_after(skip, local, remote) == local
            &&& result_of(over, local, remote) == DownloadResult::Overwritten
            &&& contents_after(over, local, remote) == remote
            &&& over == Plan::Fetch(open_mode_of(ConflictAction::Overwrite), DownloadResult::Overwritten)
            &&& open_mode_of(ConflictAction::Overwrite).truncate
            &&& local.len() < remote.len() ==> {
                &&& result_of(cont, local, remote) == DownloadResult::Continued
                &&& contents_after(cont, local, remote) == local + remote.subrange(
                    local.len() as int,
                    remote.len() as int,
                )
                &&& contents_after(cont, local, remote).len() - local.len() == remote.len()
                    - local.len()
            }
            &&& local.len() >= remote.len() ==> {
                &&& result_of(cont, local, remote) == DownloadResult::Skipped
                &&& contents_after(cont, local, remote) == local
            }
        }),
{
}

/// Running a skipping download a second time against the same destination
/// reports `Skipped` and leaves the contents that the first run produced.
pub proof fn lemma_skip_twice(e: EntryView, local: Option<Seq<u8>>, remote: Seq<u8>)
    requires
        remote.len() <= u64::MAX,
        local matches Some(l) ==> l.len() <= u64::MAX,
    ensures
        ({
            let before = match local {
                Some(l) => l,
                None => Seq::<u8>::empty(),
            };
            let first = plan_of(e, match local {
                Some(l) => Some(l.len() as u64),
                None => None,
            }, ConflictAction::Skip);
            let c1 = contents_after(first, before, remote);
            let second = plan_of(e, Some(c1.len() as u64), ConflictAction::Skip);
            &&& c1.len() <= u64::MAX
            &&& result_of(second, c1, remote) == DownloadResult::Skipped
            &&& contents_after(second, c1, remote) == c1
        }),
{
}

} // verus!
