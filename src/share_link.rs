use vstd::prelude::*;

verus! {

/// A lower-case hexadecimal digit, the alphabet of share tokens.
pub open spec fn is_token_char(c: char) -> bool {
    ('0' <= c && c <= '9') || ('a' <= c && c <= 'f')
}

/// One or more lower-case hexadecimal digits.
pub open spec fn is_token(t: Seq<char>) -> bool {
    t.len() > 0 && forall|i: int| 0 <= i < t.len() ==> is_token_char(#[trigger] t[i])
}

pub open spec fn dir_prefix() -> Seq<char> {
    seq!['/', 'd', '/']
}

pub open spec fn file_prefix() -> Seq<char> {
    seq!['/', 'f', '/']
}

pub open spec fn files_marker() -> Seq<char> {
    seq!['/', 'f', 'i', 'l', 'e', 's']
}

/// The path without one trailing slash, if it has one.
pub open spec fn trim_slash(p: Seq<char>) -> Seq<char> {
    if p.len() > 0 && p.last() == '/' {
        p.drop_last()
    } else {
        p
    }
}

/// What follows `prefix` in `p`, when `p` starts with it.
pub open spec fn after(prefix: Seq<char>, p: Seq<char>) -> Option<Seq<char>> {
    if p.len() >= prefix.len() && p.subrange(0, prefix.len() as int) == prefix {
        Some(p.subrange(prefix.len() as int, p.len() as int))
    } else {
        None
    }
}

/// The shape `{prefix}{token}`, or with `with_marker` also
/// `{prefix}{token}/files`, with an optional trailing slash: the token, and
/// whether the files marker is there.
pub open spec fn token_shape(prefix: Seq<char>, with_marker: bool, path: Seq<char>) -> Option<(Seq<char>, bool)> {
    match after(prefix, trim_slash(path)) {
        Some(rest) => if is_token(rest) {
            Some((rest, false))
        } else if with_marker && rest.len() > 6 && rest.subrange(rest.len() - 6, rest.len() as int)
            == files_marker() && is_token(rest.subrange(0, rest.len() - 6)) {
            Some((rest.subrange(0, rest.len() - 6), true))
        } else {
            None
        },
        None => None,
    }
}

/// The value of the first query pair named `p`.
pub open spec fn first_p(pairs: Seq<(Seq<char>, Seq<char>)>) -> Option<Seq<char>>
    decreases pairs.len(),
{
    if pairs.len() == 0 {
        None
    } else if pairs[0].0 == seq!['p'] {
        Some(pairs[0].1)
    } else {
        first_p(pairs.drop_first())
    }
}

/// Where a share link points, as plain values.
pub enum LinkView {
    Directory { token: Seq<char>, path: Option<Seq<char>>, file: bool },
    SingleFile { token: Seq<char> },
}

/// The share a URL with this path and these decoded query pairs denotes; the
/// directory shape is tried first.
pub open spec fn link_of(path: Seq<char>, pairs: Seq<(Seq<char>, Seq<char>)>) -> Option<LinkView> {
    match token_shape(dir_prefix(), true, path) {
        Some(d) => Some(LinkView::Directory { token: d.0, path: first_p(pairs), file: d.1 }),
        None => match token_shape(file_prefix(), false, path) {
            Some(t) => Some(LinkView::SingleFile { token: t.0 }),
            None => None,
        },
    }
}

/// A URL is a share link exactly when its path has one of the accepted
/// shapes: `/d/{token}` or `/d/{token}/files`, or else `/f/{token}`, each with
/// an optional trailing slash, where a token is one or more lower-case hex
/// digits. The query only supplies the subpath of a directory share.
pub proof fn lemma_link_shapes(path: Seq<char>, pairs: Seq<(Seq<char>, Seq<char>)>)
    ensures
        link_of(path, pairs) is Some <==> (token_shape(dir_prefix(), true, path) is Some
            || token_shape(file_prefix(), false, path) is Some),
        token_shape(dir_prefix(), true, path) matches Some(d) ==> is_token(d.0) && trim_slash(path)
            == dir_prefix() + d.0 + if d.1 {
            files_marker()
        } else {
            Seq::empty()
        },
        token_shape(file_prefix(), false, path) matches Some(f) ==> is_token(f.0) && !f.1
            && trim_slash(path) == file_prefix() + f.0,
        link_of(path, pairs) matches Some(LinkView::Directory { path: p, .. }) ==> p == first_p(
            pairs,
        ),
{
    let t = trim_slash(path);
    if let Some(d) = token_shape(dir_prefix(), true, path) {
        let rest = t.subrange(3, t.len() as int);
        if d.1 {
            assert(t =~= dir_prefix() + rest.subrange(0, rest.len() - 6) + files_marker());
        } else {
            assert(t =~= dir_prefix() + rest + Seq::empty());
        }
    }
    if let Some(f) = token_shape(file_prefix(), false, path) {
        assert(t =~= file_prefix() + t.subrange(3, t.len() as int));
    }
}

/// What a URL query decodes to, as name/value pairs in order.
pub uninterp spec fn query_pairs_of(query: Seq<char>) -> Seq<(Seq<char>, Seq<char>)>;

pub open spec fn pair_view(p: (String, String)) -> (Seq<char>, Seq<char>) {
    (p.0@, p.1@)
}

/// Relies on url::form_urlencoded::parse: the percent-decoded name/value pairs
/// of a query, in order; an empty query has none.
#[verifier::external_body]
fn decode_query(query: &str) -> (r: Vec<(String, String)>)
    ensures
        r@.map_values(|p: (String, String)| pair_view(p)) == query_pairs_of(query@),
        query@.len() == 0 ==> r@.len() == 0,
{
    url::form_urlencoded::parse(query.as_bytes()).map(|(k, v)| (k.into_owned(), v.into_owned())).collect()
}

/// A classified share link.
#[derive(Debug, Clone)]
pub enum ShareLink {
    Directory { token: String, path: Option<String>, file: bool },
    SingleFile { token: String },
}

pub open spec fn opt_view(o: Option<String>) -> Option<Seq<char>> {
    match o {
        Some(s) => Some(s@),
        None => None,
    }
}

impl View for ShareLink {
    type V = LinkView;

    open spec fn view(&self) -> LinkView {
        match self {
            ShareLink::Directory { token, path, file } => LinkView::Directory {
                token: token@,
                path: opt_view(*path),
                file: *file,
            },
            ShareLink::SingleFile { token } => LinkView::SingleFile { token: token@ },
        }
    }
}

pub open spec fn link_opt_view(o: Option<ShareLink>) -> Option<LinkView> {
    match o {
        Some(l) => Some(l@),
        None => None,
    }
}

/// Whether `s` holds `prefix` at `at`.
pub(crate) fn has_at(s: &str, n: usize, at: usize, prefix: &str) -> (r: bool)
    requires
        n == s@.len(),
    ensures
        r == (at + prefix@.len() <= n && s@.subrange(at as int, at + prefix@.len()) == prefix@),
{
    let m = prefix.unicode_len();
    if at > n || m > n - at {
        return false;
    }
    let mut i: usize = 0;
    while i < m
        invariant
            m == prefix@.len(),
            at + m <= n,
            n == s@.len(),
            i <= m,
            forall|j: int| 0 <= j < i ==> s@[at + j] == prefix@[j],
        decreases m - i,
    {
        if s.get_char(at + i) != prefix.get_char(i) {
            assert(s@.subrange(at as int, at + m)[i as int] != prefix@[i as int]);
            return false;
        }
        i += 1;
    }
    assert(s@.subrange(at as int, at + m) =~= prefix@);
    true
}

/// Whether the characters of `s` in `[from, to)` form a token.
fn token_between(s: &str, from: usize, to: usize) -> (r: bool)
    requires
        from <= to <= s@.len(),
    ensures
        r == is_token(s@.subrange(from as int, to as int)),
{
    let ghost t = s@.subrange(from as int, to as int);
    if from == to {
        return false;
    }
    let mut i: usize = from;
    while i < to
        invariant
            from <= i <= to <= s@.len(),
            t == s@.subrange(from as int, to as int),
            forall|j: int| 0 <= j < i - from ==> is_token_char(#[trigger] t[j]),
        decreases to - i,
    {
        let c = s.get_char(i);
        if !(('0' <= c && c <= '9') || ('a' <= c && c <= 'f')) {
            assert(!is_token_char(t[i - from]));
            return false;
        }
        i += 1;
    }
    true
}

/// The token of the shape `{prefix}{token}` (see `token_shape`), as a
/// character range of `path`.
fn match_shape(path: &str, prefix: &str, with_marker: bool) -> (r: Option<(usize, usize, bool)>)
    requires
        prefix@.len() == 3,
    ensures
        match (r, token_shape(prefix@, with_marker, path@)) {
            (Some(x), Some(d)) => x.0 <= x.1 <= path@.len() && path@.subrange(x.0 as int, x.1 as int)
                == d.0 && x.2 == d.1,
            (None, None) => true,
            _ => false,
        },
{
    let n = path.unicode_len();
    let ghost p = path@;
    let ghost tp = trim_slash(p);
    let end: usize = if n > 0 && path.get_char(n - 1) == '/' {
        n - 1
    } else {
        n
    };
    assert(tp =~= p.subrange(0, end as int));
    if end < 3 || !has_at(path, n, 0, prefix) {
        assert(after(prefix@, tp) is None) by {
            if end >= 3 {
                assert(tp.subrange(0, 3) =~= p.subrange(0, 3));
            }
        }
        return None;
    }
    assert(tp.subrange(0, 3) =~= p.subrange(0, 3));
    let ghost rest = tp.subrange(3, tp.len() as int);
    assert(rest =~= p.subrange(3, end as int));
    if token_between(path, 3, end) {
        return Some((3, end, false));
    }
    let marker = "/files";
    proof {
        reveal_strlit("/files");
        assert(marker@ =~= files_marker());
    }
    if with_marker && end >= 10 && has_at(path, n, end - 6, marker) && token_between(path, 3, end - 6) {
        assert(rest.subrange(rest.len() - 6, rest.len() as int) =~= p.subrange(end - 6, end as int));
        assert(rest.subrange(0, rest.len() - 6) =~= p.subrange(3, end - 6));
        return Some((3, end - 6, true));
    }
    proof {
        if with_marker && rest.len() > 6 && rest.subrange(rest.len() - 6, rest.len() as int)
            == files_marker() && is_token(rest.subrange(0, rest.len() - 6)) {
            assert(rest.subrange(rest.len() - 6, rest.len() as int) =~= p.subrange(end - 6, end as int));
            assert(rest.subrange(0, rest.len() - 6) =~= p.subrange(3, end - 6));
            assert(rest.subrange(0, rest.len() - 6)[0] == p[3]);
        }
    }
    None
}

/// The value of the first pair named `p`.
fn find_p(pairs: &Vec<(String, String)>) -> (r: Option<String>)
    ensures
        opt_view(r) == first_p(pairs@.map_values(|p: (String, String)| pair_view(p))),
{
    let ghost pv = pairs@.map_values(|p: (String, String)| pair_view(p));
    let mut i: usize = 0;
    assert(pv.subrange(0, pv.len() as int) =~= pv);
    while i < pairs.len()
        invariant
            i <= pairs@.len(),
            pv == pairs@.map_values(|p: (String, String)| pair_view(p)),
            first_p(pv) == first_p(pv.subrange(i as int, pv.len() as int)),
        decreases pairs.len() - i,
    {
        let ghost tail = pv.subrange(i as int, pv.len() as int);
        assert(tail.drop_first() =~= pv.subrange(i + 1, pv.len() as int));
        let key: &str = pairs[i].0.as_str();
        if key.unicode_len() == 1 && key.get_char(0) == 'p' {
            assert(key@ =~= seq!['p']);
            return Some(pairs[i].1.clone());
        }
        proof {
            if key@ == seq!['p'] {
                assert(key@[0] == 'p');
            }
        }
        i += 1;
    }
    assert(pv.subrange(i as int, pv.len() as int).len() == 0);
    None
}

impl ShareLink {
    /// Classifies a URL given by its path and its raw (still encoded) query.
    /// The path must be one of `/d/{token}`, `/d/{token}/files` or
    /// `/f/{token}`, with an optional trailing slash; the directory shape
    /// takes its subpath from the first `p` query parameter.
    pub fn from_url(path: &str, query: &str) -> (r: Option<ShareLink>)
        ensures
            link_opt_view(r) == link_of(path@, query_pairs_of(query@)),
            query@.len() == 0 ==> link_opt_view(r) == link_of(path@, Seq::empty()),
    {
        let pairs = decode_query(query);
        proof {
            if query@.len() == 0 {
                assert(query_pairs_of(query@) =~= Seq::<(Seq<char>, Seq<char>)>::empty());
            }
        }
        ShareLink::from_parts(path, &pairs)
    }

    pub fn token(&self) -> (r: &str)
        ensures
            r@ == match self@ {
                LinkView::Directory { token, .. } => token,
                LinkView::SingleFile { token } => token,
            },
    {
        match self {
            ShareLink::Directory { token, .. } => token.as_str(),
            ShareLink::SingleFile { token } => token.as_str(),
        }
    }

    pub fn is_single_file(&self) -> (r: bool)
        ensures
            r == self@ is SingleFile,
    {
        match self {
            ShareLink::Directory { .. } => false,
            ShareLink::SingleFile { .. } => true,
        }
    }

    /// Whether the link points at a single file: a single-file share, or a
    /// directory share with the files marker.
    pub fn is_file(&self) -> (r: bool)
        ensures
            r == match self@ {
                LinkView::Directory { file, .. } => file,
                LinkView::SingleFile { .. } => true,
            },
    {
        match self {
            ShareLink::Directory { file, .. } => *file,
            ShareLink::SingleFile { .. } => true,
        }
    }

    pub fn is_dir(&self) -> (r: bool)
        ensures
            r == match self@ {
                LinkView::Directory { file, .. } => !file,
                LinkView::SingleFile { .. } => false,
            },
    {
        !self.is_file()
    }

    /// The remote subpath named by a directory share, if any.
    pub fn path(&self) -> (r: Option<&str>)
        ensures
            r matches Some(p) ==> self@ matches LinkView::Directory { path: Some(q), .. } && p@ == q,
            r is None ==> !(self@ matches LinkView::Directory { path: Some(_), .. }),
    {
        match self {
            ShareLink::Directory { path: Some(p), .. } => Some(p.as_str()),
            _ => None,
        }
    }

    /// Classifies a URL given by its path and its decoded query pairs.
    pub fn from_parts(path: &str, pairs: &Vec<(String, String)>) -> (r: Option<ShareLink>)
        ensures
            link_opt_view(r) == link_of(path@, pairs@.map_values(|p: (String, String)| pair_view(p))),
    {
        proof {
            reveal_strlit("/d/");
            reveal_strlit("/f/");
            assert("/d/"@ =~= dir_prefix());
            assert("/f/"@ =~= file_prefix());
        }
        let dir = match_shape(path, "/d/", true);
        match dir {
            Some((from, to, file)) => {
                let token = path.substring_char(from, to).to_string();
                Some(ShareLink::Directory { token, path: find_p(pairs), file })
            },
            None => match match_shape(path, "/f/", false) {
                Some((from, to, _)) => {
                    let token = path.substring_char(from, to).to_string();
                    Some(ShareLink::SingleFile { token })
                },
                None => None,
            },
        }
    }
}

/// The remote directory a walk starts from: a requested path that is
/// absolute replaces the share's own subpath, a relative one is placed under
/// it (or under the root); with no request the share's subpath is kept.
pub open spec fn start_path_of(link_path: Option<Seq<char>>, requested: Option<Seq<char>>) -> Option<Seq<char>> {
    match requested {
        None => link_path,
        Some(q) => if q.len() > 0 && q[0] == '/' {
            Some(q)
        } else {
            let b = match link_path {
                Some(b) => b,
                None => seq!['/'],
            };
            if q.len() == 0 || (b.len() > 0 && b.last() == '/') {
                Some(b + q)
            } else {
                Some(b + seq!['/'] + q)
            }
        },
    }
}

pub fn start_path(link_path: Option<&str>, requested: Option<&str>) -> (r: Option<String>)
    ensures
        opt_view(r) == start_path_of(
            match link_path {
                Some(p) => Some(p@),
                None => None,
            },
            match requested {
                Some(q) => Some(q@),
                None => None,
            },
        ),
{
    match requested {
        None => match link_path {
            Some(p) => Some(p.to_string()),
            None => None,
        },
        Some(q) => {
            let qn = q.unicode_len();
            if qn > 0 && q.get_char(0) == '/' {
                return Some(q.to_string());
            }
            let b: &str = match link_path {
                Some(b) => b,
                None => "/",
            };
            proof {
                reveal_strlit("/");
            }
            let bn = b.unicode_len();
            let mut out = String::from_str(b);
            if qn == 0 || (bn > 0 && b.get_char(bn - 1) == '/') {
                out.append(q);
            } else {
                out.append("/");
                out.append(q);
                assert(out@ =~= b@ + seq!['/'] + q@);
            }
            Some(out)
        },
    }
}

/// The position of the last slash of `p` before `end`.
pub open spec fn last_slash(p: Seq<char>, end: int) -> Option<int>
    decreases end,
{
    if end <= 0 || end > p.len() {
        None
    } else if p[end - 1] == '/' {
        Some(end - 1)
    } else {
        last_slash(p, end - 1)
    }
}

/// The directory that holds `p`: everything before its last slash, or the
/// root for a top-level path; none for the root itself or a path without a
/// slash. One trailing slash of `p` is ignored.
pub open spec fn parent_of(p: Seq<char>) -> Option<Seq<char>> {
    let t = if p.len() > 1 { trim_slash(p) } else { p };
    match last_slash(t, t.len() as int) {
        None => None,
        Some(i) => if i > 0 {
            Some(t.subrange(0, i))
        } else if t.len() > 1 {
            Some(seq!['/'])
        } else {
            None
        },
    }
}

pub fn parent_path(p: &str) -> (r: Option<String>)
    ensures
        opt_view(r) == parent_of(p@),
{
    let n = p.unicode_len();
    let end: usize = if n > 1 && p.get_char(n - 1) == '/' {
        n - 1
    } else {
        n
    };
    let ghost t = if p@.len() > 1 { trim_slash(p@) } else { p@ };
    assert(t =~= p@.subrange(0, end as int));
    let mut k: usize = end;
    while k > 0 && p.get_char(k - 1) != '/'
        invariant
            k <= end <= n,
            n == p@.len(),
            t == p@.subrange(0, end as int),
            last_slash(t, end as int) == last_slash(t, k as int),
        decreases k,
    {
        k -= 1;
    }
    if k == 0 {
        return None;
    }
    let i = k - 1;
    if i == 0 {
        if end > 1 {
            let root = String::from_str("/");
            proof {
                reveal_strlit("/");
            }
            return Some(root);
        }
        return None;
    }
    Some(p.substring_char(0, i).to_string())
}

} // verus!
