use vstd::prelude::*;
use vstd::utf8::encode_utf8;

use crate::share_link::has_at;

verus! {

/// A point in time as seconds and nanoseconds since the Unix epoch (UTC).
#[derive(Debug, Clone, Copy, PartialEq, Eq, Structural)]
pub struct Timestamp {
    pub seconds: i64,
    pub nanos: u32,
}

/// Failures of the metadata and transfer paths.
#[derive(Debug, Clone, Copy, PartialEq, Eq, Structural)]
pub enum Error {
    /// The share's metadata could not be located or decoded.
    InvalidShare,
    /// Transport failure or a non-success status.
    Network,
    /// A reply that breaks the protocol, such as a full reply to a range request.
    ProtocolViolation,
    /// A local file or directory could not be opened or created.
    Filesystem,
}

impl Error {
    pub fn message(&self) -> (r: &'static str)
        ensures
            r@ == match *self {
                Error::InvalidShare => "invalid share"@,
                Error::Network => "network failure"@,
                Error::ProtocolViolation => "protocol violation"@,
                Error::Filesystem => "filesystem failure"@,
            },
    {
        match self {
            Error::InvalidShare => "invalid share",
            Error::Network => "network failure",
            Error::ProtocolViolation => "protocol violation",
            Error::Filesystem => "filesystem failure",
        }
    }
}

/// One record of a remote directory listing.
#[derive(Debug, Clone)]
pub enum DirEnt {
    Directory { is_dir: bool, last_modified: Timestamp, path: String, name: String, size: u64 },
    File {
        is_dir: bool,
        last_modified: Timestamp,
        path: String,
        name: String,
        size: u64,
        encoded_thumbnail_src: Option<String>,
    },
}

pub struct DirEntView {
    pub is_file: bool,
    pub last_modified: Timestamp,
    pub path: Seq<char>,
    pub name: Seq<char>,
    pub size: u64,
}

impl View for DirEnt {
    type V = DirEntView;

    open spec fn view(&self) -> DirEntView {
        match self {
            DirEnt::Directory { last_modified, path, name, size, .. } => DirEntView {
                is_file: false,
                last_modified: *last_modified,
                path: path@,
                name: name@,
                size: *size,
            },
            DirEnt::File { last_modified, path, name, size, .. } => DirEntView {
                is_file: true,
                last_modified: *last_modified,
                path: path@,
                name: name@,
                size: *size,
            },
        }
    }
}

impl DirEnt {
    pub fn is_file(&self) -> (r: bool)
        ensures
            r == self@.is_file,
    {
        match self {
            DirEnt::Directory { .. } => false,
            DirEnt::File { .. } => true,
        }
    }

    pub fn is_dir(&self) -> (r: bool)
        ensures
            r == !self@.is_file,
    {
        !self.is_file()
    }

    /// Whether the record's `is_dir` flag agrees with its shape: a record
    /// whose flag names the other kind is malformed.
    pub fn is_consistent(&self) -> (r: bool)
        ensures
            r == record_consistent(*self),
    {
        match self {
            DirEnt::Directory { is_dir, .. } => *is_dir,
            DirEnt::File { is_dir, .. } => !*is_dir,
        }
    }

    /// The size of a file record; directories have none.
    pub fn size(&self) -> (r: Option<u64>)
        ensures
            r == (if self@.is_file {
                Some(self@.size)
            } else {
                None
            }),
    {
        match self {
            DirEnt::Directory { .. } => None,
            DirEnt::File { size, .. } => Some(*size),
        }
    }

    pub fn last_modified(&self) -> (r: Timestamp)
        ensures
            r == self@.last_modified,
    {
        match self {
            DirEnt::Directory { last_modified, .. } => *last_modified,
            DirEnt::File { last_modified, .. } => *last_modified,
        }
    }

    pub fn name(&self) -> (r: &str)
        ensures
            r@ == self@.name,
    {
        match self {
            DirEnt::Directory { name, .. } => name.as_str(),
            DirEnt::File { name, .. } => name.as_str(),
        }
    }

    pub fn path(&self) -> (r: &str)
        ensures
            r@ == self@.path,
    {
        match self {
            DirEnt::Directory { path, .. } => path.as_str(),
            DirEnt::File { path, .. } => path.as_str(),
        }
    }
}

/// Whether a record's `is_dir` flag agrees with its shape.
pub open spec fn record_consistent(d: DirEnt) -> bool {
    match d {
        DirEnt::Directory { is_dir, .. } => is_dir,
        DirEnt::File { is_dir, .. } => !is_dir,
    }
}

/// Whether every record of a listing is consistent; a listing that holds a
/// malformed record is rejected as a whole.
pub fn all_consistent(dirents: &Vec<DirEnt>) -> (r: bool)
    ensures
        r == forall|i: int| 0 <= i < dirents@.len() ==> record_consistent(#[trigger] dirents@[i]),
{
    let mut i: usize = 0;
    while i < dirents.len()
        invariant
            i <= dirents@.len(),
            forall|j: int| 0 <= j < i ==> record_consistent(#[trigger] dirents@[j]),
        decreases dirents.len() - i,
    {
        if !dirents[i].is_consistent() {
            assert(!record_consistent(dirents@[i as int]));
            return false;
        }
        i += 1;
    }
    true
}

/// A normalised entry of a share: a directory or a file with its URLs.
#[derive(Debug, Clone)]
pub enum DirEntry {
    Directory { name: String, path: String, last_modified: Timestamp, view_url: String },
    File {
        name: String,
        path: String,
        size: u64,
        last_modified: Option<Timestamp>,
        download_url: String,
        view_url: String,
    },
}

pub enum EntryView {
    Directory { name: Seq<char>, path: Seq<char>, last_modified: Timestamp, view_url: Seq<char> },
    File {
        name: Seq<char>,
        path: Seq<char>,
        size: u64,
        last_modified: Option<Timestamp>,
        download_url: Seq<char>,
        view_url: Seq<char>,
    },
}

impl EntryView {
    pub open spec fn path(self) -> Seq<char> {
        match self {
            EntryView::Directory { path, .. } => path,
            EntryView::File { path, .. } => path,
        }
    }

    pub open spec fn name(self) -> Seq<char> {
        match self {
            EntryView::Directory { name, .. } => name,
            EntryView::File { name, .. } => name,
        }
    }
}

impl View for DirEntry {
    type V = EntryView;

    open spec fn view(&self) -> EntryView {
        match self {
            DirEntry::Directory { name, path, last_modified, view_url } => EntryView::Directory {
                name: name@,
                path: path@,
                last_modified: *last_modified,
                view_url: view_url@,
            },
            DirEntry::File { name, path, size, last_modified, download_url, view_url } =>
                EntryView::File {
                name: name@,
                path: path@,
                size: *size,
                last_modified: *last_modified,
                download_url: download_url@,
                view_url: view_url@,
            },
        }
    }
}

impl DirEntry {
    pub fn is_file(&self) -> (r: bool)
        ensures
            r == self@ is File,
    {
        match self {
            DirEntry::Directory { .. } => false,
            DirEntry::File { .. } => true,
        }
    }

    pub fn is_dir(&self) -> (r: bool)
        ensures
            r == self@ is Directory,
    {
        match self {
            DirEntry::Directory { .. } => true,
            DirEntry::File { .. } => false,
        }
    }

    pub fn name(&self) -> (r: &str)
        ensures
            r@ == self@.name(),
    {
        match self {
            DirEntry::Directory { name, .. } => name.as_str(),
            DirEntry::File { name, .. } => name.as_str(),
        }
    }

    pub fn path(&self) -> (r: &str)
        ensures
            r@ == self@.path(),
    {
        match self {
            DirEntry::Directory { path, .. } => path.as_str(),
            DirEntry::File { path, .. } => path.as_str(),
        }
    }

    pub fn size(&self) -> (r: Option<u64>)
        ensures
            r == match self@ {
                EntryView::Directory { .. } => None,
                EntryView::File { size, .. } => Some(size),
            },
    {
        match self {
            DirEntry::Directory { .. } => None,
            DirEntry::File { size, .. } => Some(*size),
        }
    }

    pub fn last_modified(&self) -> (r: Option<Timestamp>)
        ensures
            r == match self@ {
                EntryView::Directory { last_modified, .. } => Some(last_modified),
                EntryView::File { last_modified, .. } => last_modified,
            },
    {
        match self {
            DirEntry::Directory { last_modified, .. } => Some(*last_modified),
            DirEntry::File { last_modified, .. } => *last_modified,
        }
    }

    pub fn download_url(&self) -> (r: Option<&str>)
        ensures
            match (r, self@) {
                (Some(u), EntryView::File { download_url, .. }) => u@ == download_url,
                (None, EntryView::Directory { .. }) => true,
                _ => false,
            },
    {
        match self {
            DirEntry::Directory { .. } => None,
            DirEntry::File { download_url, .. } => Some(download_url.as_str()),
        }
    }

    /// The browse URL of the entry, for a directory and for a file alike.
    pub fn view_url(&self) -> (r: &str)
        ensures
            r@ == match self@ {
                EntryView::Directory { view_url, .. } => view_url,
                EntryView::File { view_url, .. } => view_url,
            },
    {
        match self {
            DirEntry::Directory { view_url, .. } => view_url.as_str(),
            DirEntry::File { view_url, .. } => view_url.as_str(),
        }
    }
}

/// A byte that form encoding keeps as it is.
pub open spec fn form_unchanged(b: u8) -> bool {
    b == 42 || b == 45 || b == 46 || (48 <= b <= 57) || (65 <= b <= 90) || b == 95 || (97 <= b
        <= 122)
}

pub open spec fn upper_hex_digit(d: u8) -> char {
    seq!['0', '1', '2', '3', '4', '5', '6', '7', '8', '9', 'A', 'B', 'C', 'D', 'E', 'F'][d as int]
}

/// The form encoding (`application/x-www-form-urlencoded`) of one byte.
pub open spec fn form_byte(b: u8) -> Seq<char> {
    if form_unchanged(b) {
        seq![b as char]
    } else if b == 32 {
        seq!['+']
    } else {
        seq!['%', upper_hex_digit(b / 16), upper_hex_digit(b % 16)]
    }
}

/// The form encoding of a byte string.
pub open spec fn form_encoded(bytes: Seq<u8>) -> Seq<char>
    decreases bytes.len(),
{
    if bytes.len() == 0 {
        seq![]
    } else {
        form_byte(bytes[0]) + form_encoded(bytes.drop_first())
    }
}

/// Relies on url::form_urlencoded::byte_serialize: each byte of the UTF-8
/// encoding is kept, turned into `+` (a space) or written as `%XX`.
#[verifier::external_body]
fn form_encode(s: &str) -> (r: String)
    ensures
        r@ == form_encoded(encode_utf8(s@)),
{
    url::form_urlencoded::byte_serialize(s.as_bytes()).collect()
}

/// The query `?p={path}` with the path form-encoded.
pub open spec fn path_query(path: Seq<char>) -> Seq<char> {
    seq!['?', 'p', '='] + form_encoded(encode_utf8(path))
}

/// The browse URL of a directory of a share.
pub open spec fn dir_url_of(base: Seq<char>, token: Seq<char>, path: Option<Seq<char>>) -> Seq<char> {
    base + seq!['/', 'd', '/'] + token + seq!['/'] + match path {
        Some(p) => path_query(p),
        None => seq![],
    }
}

/// The browse URL of a file of a share, or with `dl` its download URL.
pub open spec fn file_url_of(base: Seq<char>, token: Seq<char>, path: Seq<char>, dl: bool) -> Seq<char> {
    base + seq!['/', 'd', '/'] + token + seq!['/', 'f', 'i', 'l', 'e', 's', '/'] + path_query(path)
        + if dl {
        seq!['&', 'd', 'l', '=', '1']
    } else {
        seq![]
    }
}

/// The listing endpoint of a directory of a share, with `?path={path}`
/// form-encoded when a path is given.
pub open spec fn api_url_of(base: Seq<char>, token: Seq<char>, path: Option<Seq<char>>) -> Seq<char> {
    base + seq!['/', 'a', 'p', 'i', '/', 'v', '2', '.', '1', '/', 's', 'h', 'a', 'r', 'e', '-', 'l', 'i', 'n', 'k', 's', '/']
        + token + seq!['/', 'd', 'i', 'r', 'e', 'n', 't', 's', '/'] + match path {
        Some(p) => seq!['?', 'p', 'a', 't', 'h', '='] + form_encoded(encode_utf8(p)),
        None => seq![],
    }
}

/// The entry a listing record of the share `token` stands for.
pub open spec fn entry_of(base: Seq<char>, token: Seq<char>, d: DirEntView) -> EntryView {
    if d.is_file {
        EntryView::File {
            name: d.name,
            path: d.path,
            size: d.size,
            last_modified: Some(d.last_modified),
            download_url: file_url_of(base, token, d.path, true),
            view_url: file_url_of(base, token, d.path, false),
        }
    } else {
        EntryView::Directory {
            name: d.name,
            path: d.path,
            last_modified: d.last_modified,
            view_url: dir_url_of(base, token, Some(d.path)),
        }
    }
}

/// The metadata of a single-file share, as its page states it.
#[derive(Debug, Clone)]
pub struct WebFileOptions {
    pub repo_id: String,
    pub path: String,
    pub name: String,
    pub size: u64,
    pub raw_path: String,
    pub can_download: bool,
}

/// Builds the URLs and entries of one server, named by its origin (scheme,
/// host and port, without a trailing slash).
pub struct Client {
    pub base: String,
}

impl Client {
    pub fn new(base: String) -> (r: Client)
        ensures
            r.base@ == base@,
    {
        Client { base }
    }

    pub fn dir_url(&self, token: &str, path: Option<&str>) -> (r: String)
        ensures
            r@ == dir_url_of(self.base@, token@, match path {
                Some(p) => Some(p@),
                None => None,
            }),
    {
        let mut url = self.base.clone();
        url.append("/d/");
        url.append(token);
        url.append("/");
        if let Some(p) = path {
            url.append("?p=");
            let enc = form_encode(p);
            url.append(enc.as_str());
        }
        proof {
            reveal_strlit("/d/");
            reveal_strlit("/");
            reveal_strlit("?p=");
        }
        assert(url@ =~= dir_url_of(self.base@, token@, match path {
            Some(p) => Some(p@),
            None => None,
        }));
        url
    }

    pub fn file_url(&self, token: &str, path: &str, dl: bool) -> (r: String)
        ensures
            r@ == file_url_of(self.base@, token@, path@, dl),
    {
        let mut url = self.base.clone();
        url.append("/d/");
        url.append(token);
        url.append("/files/");
        url.append("?p=");
        let enc = form_encode(path);
        url.append(enc.as_str());
        if dl {
            url.append("&dl=1");
        }
        proof {
            reveal_strlit("/d/");
            reveal_strlit("/files/");
            reveal_strlit("?p=");
            reveal_strlit("&dl=1");
        }
        assert(url@ =~= file_url_of(self.base@, token@, path@, dl));
        url
    }

    /// The URL that lists one directory level of the share `token`.
    pub fn api_url(&self, token: &str, path: Option<&str>) -> (r: String)
        ensures
            r@ == api_url_of(self.base@, token@, match path {
                Some(p) => Some(p@),
                None => None,
            }),
    {
        let mut url = self.base.clone();
        url.append("/api/v2.1/share-links/");
        url.append(token);
        url.append("/dirents/");
        if let Some(p) = path {
            url.append("?path=");
            let enc = form_encode(p);
            url.append(enc.as_str());
        }
        proof {
            reveal_strlit("/api/v2.1/share-links/");
            reveal_strlit("/dirents/");
            reveal_strlit("?path=");
        }
        assert(url@ =~= api_url_of(self.base@, token@, match path {
            Some(p) => Some(p@),
            None => None,
        }));
        url
    }

    /// The entry of one listing record.
    pub fn entry(&self, token: &str, d: &DirEnt) -> (r: DirEntry)
        ensures
            r@ == entry_of(self.base@, token@, d@),
    {
        match d {
            DirEnt::File { last_modified, path, name, size, .. } => DirEntry::File {
                name: name.clone(),
                path: path.clone(),
                size: *size,
                last_modified: Some(*last_modified),
                download_url: self.file_url(token, path.as_str(), true),
                view_url: self.file_url(token, path.as_str(), false),
            },
            DirEnt::Directory { last_modified, path, name, .. } => DirEntry::Directory {
                name: name.clone(),
                path: path.clone(),
                last_modified: *last_modified,
                view_url: self.dir_url(token, Some(path.as_str())),
            },
        }
    }

    /// The entries of one listing of the share `token`, in listing order.
    pub fn entries(&self, token: &str, dirents: &Vec<DirEnt>) -> (r: Vec<DirEntry>)
        ensures
            r@.len() == dirents@.len(),
            forall|i: int|
                0 <= i < r@.len() ==> #[trigger] r@[i]@ == entry_of(self.base@, token@, dirents@[i]@),
    {
        let mut out: Vec<DirEntry> = Vec::new();
        let mut i: usize = 0;
        while i < dirents.len()
            invariant
                i <= dirents@.len(),
                out@.len() == i,
                forall|j: int|
                    0 <= j < i ==> #[trigger] out@[j]@ == entry_of(self.base@, token@, dirents@[j]@),
            decreases dirents.len() - i,
        {
            out.push(self.entry(token, &dirents[i]));
            i += 1;
        }
        out
    }

    /// The entry of a single-file share, from the metadata of its page at
    /// `url`: it carries no modification time, browses at `url` and downloads
    /// from the raw content URL.
    pub fn single_file(&self, url: &str, file: &WebFileOptions) -> (r: DirEntry)
        ensures
            r@ == (EntryView::File {
                name: file.name@,
                path: file.path@,
                size: file.size,
                last_modified: None,
                download_url: file.raw_path@,
                view_url: url@,
            }),
    {
        DirEntry::File {
            name: file.name.clone(),
            path: file.path.clone(),
            size: file.size,
            last_modified: None,
            view_url: url.to_string(),
            download_url: file.raw_path.clone(),
        }
    }
}

/// The position of the first entry whose path is `path`.
pub open spec fn first_with_path(entries: Seq<DirEntry>, path: Seq<char>, from: int) -> Option<int>
    decreases entries.len() - from,
{
    if from < 0 || from >= entries.len() {
        None
    } else if entries[from]@.path() == path {
        Some(from)
    } else {
        first_with_path(entries, path, from + 1)
    }
}

/// Finds the entry of a file in the listing of its parent directory.
pub fn find_entry(entries: &Vec<DirEntry>, path: &str) -> (r: Option<usize>)
    ensures
        match r {
            Some(i) => first_with_path(entries@, path@, 0) == Some(i as int),
            None => first_with_path(entries@, path@, 0) is None,
        },
{
    let n = path.unicode_len();
    let mut i: usize = 0;
    while i < entries.len()
        invariant
            i <= entries@.len(),
            n == path@.len(),
            first_with_path(entries@, path@, 0) == first_with_path(entries@, path@, i as int),
        decreases entries.len() - i,
    {
        let p = entries[i].path();
        let m = p.unicode_len();
        if m == n && has_at(p, m, 0, path) {
            assert(p@ =~= p@.subrange(0, n as int));
            return Some(i);
        }
        proof {
            if p@ == path@ {
                assert(p@.subrange(0, n as int) =~= p@);
            }
        }
        i += 1;
    }
    None
}

} // verus!
