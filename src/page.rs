use vstd::prelude::*;

verus! {

/// ASCII white space: space, tab, line feed, vertical tab, form feed and
/// carriage return. The statement `window.shared = {` is recognised with
/// this spacing only: other Unicode white space around `=` does not count.
pub open spec fn is_space(b: u8) -> bool {
    b == 32 || (9 <= b && b <= 13)
}

/// The first position at or after `i` that does not hold white space.
pub open spec fn skip_spaces(s: Seq<u8>, i: int) -> int
    decreases s.len() - i,
{
    if 0 <= i < s.len() && is_space(s[i]) {
        skip_spaces(s, i + 1)
    } else {
        i
    }
}

/// The bytes of `window.shared`, the global that a single-file page assigns.
pub open spec fn shared_global() -> Seq<u8> {
    seq![119, 105, 110, 100, 111, 119, 46, 115, 104, 97, 114, 101, 100]
}

/// The first position at or after `k` where `};` starts.
pub open spec fn first_close(s: Seq<u8>, k: int) -> Option<int>
    decreases s.len() - k,
{
    if k < 0 || k + 1 >= s.len() {
        None
    } else if s[k] == 125 && s[k + 1] == 59 {
        Some(k)
    } else {
        first_close(s, k + 1)
    }
}

/// Where the assignment `window.shared = { ... };` that starts at `i` ends
/// (just after its `;`), the object being closed by the first `};`.
pub open spec fn assignment_at(s: Seq<u8>, i: int) -> Option<int> {
    if 0 <= i && i + 13 <= s.len() && s.subrange(i, i + 13) == shared_global() {
        let j = skip_spaces(s, i + 13);
        if j < s.len() && s[j] == 61 {
            let k = skip_spaces(s, j + 1);
            if k < s.len() && s[k] == 123 {
                match first_close(s, k + 1) {
                    Some(c) => Some(c + 2),
                    None => None,
                }
            } else {
                None
            }
        } else {
            None
        }
    } else {
        None
    }
}

/// The first assignment that starts at or after `i`, as a byte range.
pub open spec fn first_assignment(s: Seq<u8>, i: int) -> Option<(int, int)>
    decreases s.len() - i,
{
    if i < 0 || i >= s.len() {
        None
    } else {
        match assignment_at(s, i) {
            Some(e) => Some((i, e)),
            None => first_assignment(s, i + 1),
        }
    }
}

fn skip_spaces_from(s: &[u8], i: usize) -> (r: usize)
    requires
        i <= s@.len(),
    ensures
        r as int == skip_spaces(s@, i as int),
        i <= r <= s@.len(),
{
    let mut j = i;
    while j < s.len() && (s[j] == 32 || (9 <= s[j] && s[j] <= 13))
        invariant
            i <= j <= s@.len(),
            skip_spaces(s@, i as int) == skip_spaces(s@, j as int),
        decreases s.len() - j,
    {
        j += 1;
    }
    j
}

fn first_close_from(s: &[u8], k: usize) -> (r: Option<usize>)
    requires
        k <= s@.len(),
    ensures
        match r {
            Some(c) => first_close(s@, k as int) == Some(c as int),
            None => first_close(s@, k as int) is None,
        },
{
    let mut c = k;
    while s.len() > c && s.len() - c >= 2
        invariant
            k <= c <= s@.len(),
            first_close(s@, k as int) == first_close(s@, c as int),
        decreases s.len() - c,
    {
        if s[c] == 125 && s[c + 1] == 59 {
            return Some(c);
        }
        c += 1;
    }
    None
}

fn assignment_end(s: &[u8], i: usize) -> (r: Option<usize>)
    requires
        i < s@.len(),
    ensures
        match r {
            Some(e) => assignment_at(s@, i as int) == Some(e as int) && i < e <= s@.len(),
            None => assignment_at(s@, i as int) is None,
        },
{
    let n = s.len();
    if n - i < 13 {
        return None;
    }
    let named = s[i] == 119 && s[i + 1] == 105 && s[i + 2] == 110 && s[i + 3] == 100 && s[i + 4]
        == 111 && s[i + 5] == 119 && s[i + 6] == 46 && s[i + 7] == 115 && s[i + 8] == 104 && s[i
        + 9] == 97 && s[i + 10] == 114 && s[i + 11] == 101 && s[i + 12] == 100;
    if !named {
        proof {
            let w = s@.subrange(i as int, i + 13);
            if w == shared_global() {
                assert(w[0] == s@[i as int] && w[1] == s@[i + 1] && w[2] == s@[i + 2] && w[3]
                    == s@[i + 3] && w[4] == s@[i + 4] && w[5] == s@[i + 5] && w[6] == s@[i + 6]
                    && w[7] == s@[i + 7] && w[8] == s@[i + 8] && w[9] == s@[i + 9] && w[10]
                    == s@[i + 10] && w[11] == s@[i + 11] && w[12] == s@[i + 12]);
            }
        }
        return None;
    }
    assert(s@.subrange(i as int, i + 13) =~= shared_global());
    let j = skip_spaces_from(s, i + 13);
    if j >= n || s[j] != 61 {
        return None;
    }
    let k = skip_spaces_from(s, j + 1);
    if k >= n || s[k] != 123 {
        return None;
    }
    match first_close_from(s, k + 1) {
        Some(c) => {
            proof {
                lemma_first_close_bounds(s@, (k + 1) as int);
            }
            Some(c + 2)
        },
        None => None,
    }
}

proof fn lemma_first_close_bounds(s: Seq<u8>, k: int)
    ensures
        first_close(s, k) matches Some(c) ==> k <= c && c + 1 < s.len(),
    decreases s.len() - k,
{
    if k >= 0 && k + 1 < s.len() && !(s[k] == 125 && s[k + 1] == 59) {
        lemma_first_close_bounds(s, k + 1);
    }
}

/// Locates, in the bytes of a single-file share page, the script statement
/// `window.shared = { ... };` whose object holds the page options: the byte
/// range of the first such statement, the object ending at the first `};`.
/// Both ends fall on ASCII bytes, so they are character boundaries of the
/// page text.
pub fn locate_page_options(page: &[u8]) -> (r: Option<(usize, usize)>)
    ensures
        match r {
            Some((a, b)) => first_assignment(page@, 0) == Some((a as int, b as int)) && a < b
                <= page@.len(),
            None => first_assignment(page@, 0) is None,
        },
{
    let mut i: usize = 0;
    while i < page.len()
        invariant
            i <= page@.len(),
            first_assignment(page@, 0) == first_assignment(page@, i as int),
        decreases page.len() - i,
    {
        match assignment_end(page, i) {
            Some(e) => {
                return Some((i, e));
            },
            None => {},
        }
        i += 1;
    }
    None
}

} // verus!
