//! Filter: decides whether a settled path qualifies for upload by its
//! extension (case-insensitively) and by being a regular file.
use vstd::prelude::*;
use vstd::string::*;

verus! {

/// Index of the last occurrence of `c` in `s`, or -1 when there is none.
pub open spec fn last_index_of(s: Seq<char>, c: char) -> int
    decreases s.len(),
{
    if s.len() == 0 {
        -1
    } else if s.last() == c {
        s.len() - 1
    } else {
        last_index_of(s.drop_last(), c)
    }
}

/// The final component of a `/`-separated path: everything after the last `/`.
pub open spec fn file_name_of(p: Seq<char>) -> Seq<char> {
    p.subrange(last_index_of(p, '/') + 1, p.len() as int)
}

/// The extension of a path: what follows the last `.` of its file name, unless
/// the file name has no `.` or its only `.` is its first character
/// (a hidden file such as `.profile`).
pub open spec fn extension_of(p: Seq<char>) -> Option<Seq<char>> {
    let n = file_name_of(p);
    let d = last_index_of(n, '.');
    if d <= 0 {
        None
    } else {
        Some(n.subrange(d + 1, n.len() as int))
    }
}

/// The views of a list of strings.
pub open spec fn views_of(v: Seq<String>) -> Seq<Seq<char>> {
    v.map_values(|s: String| s@)
}

/// What `str::to_lowercase` returns for a string.
pub uninterp spec fn lower_of(s: Seq<char>) -> Seq<char>;

proof fn lemma_last_index_bounds(s: Seq<char>, c: char)
    ensures
        -1 <= last_index_of(s, c) < s.len(),
        last_index_of(s, c) >= 0 ==> s[last_index_of(s, c)] == c,
    decreases s.len(),
{
    if s.len() > 0 {
        lemma_last_index_bounds(s.drop_last(), c);
    }
}

/// Position of the last `c` in `s`, found by one forward scan.
fn last_index(s: &str, c: char) -> (r: Option<usize>)
    ensures
        match r {
            Some(i) => i as int == last_index_of(s@, c),
            None => last_index_of(s@, c) == -1,
        },
{
    let n = s.unicode_len();
    let mut found: Option<usize> = None;
    let mut i: usize = 0;
    while i < n
        invariant
            n == s@.len(),
            i <= n,
            match found {
                Some(k) => k as int == last_index_of(s@.take(i as int), c),
                None => last_index_of(s@.take(i as int), c) == -1,
            },
        decreases n - i,
    {
        assert(s@.take(i + 1).drop_last() =~= s@.take(i as int));
        if s.get_char(i) == c {
            found = Some(i);
        }
        i = i + 1;
    }
    assert(s@.take(n as int) =~= s@);
    found
}

/// The extension of `path`, as `extension_of` states it.
pub fn extension(path: &str) -> (r: Option<String>)
    ensures
        match r {
            Some(e) => extension_of(path@) == Some(e@),
            None => extension_of(path@) is None,
        },
{
    proof {
        lemma_last_index_bounds(path@, '/');
    }
    let n = path.unicode_len();
    let start: usize = match last_index(path, '/') {
        Some(k) => k + 1,
        None => 0,
    };
    let name = path.substring_char(start, n);
    proof {
        lemma_last_index_bounds(name@, '.');
    }
    match last_index(name, '.') {
        Some(d) => {
            if d == 0 {
                None
            } else {
                let m = name.unicode_len();
                Some(String::from_str(name.substring_char(d + 1, m)))
            }
        },
        None => None,
    }
}

/// Relies on `str::to_lowercase`: the result depends on the characters alone.
#[verifier::external_body]
fn lowercase(s: &str) -> (r: String)
    ensures
        r@ == lower_of(s@),
{
    s.to_lowercase()
}

/// Whether `s` is one of the strings of `v`.
pub fn contains_view(v: &Vec<String>, s: &String) -> (r: bool)
    ensures
        r == views_of(v@).contains(s@),
{
    let mut i: usize = 0;
    while i < v.len()
        invariant
            i <= v@.len(),
            forall|k: int| 0 <= k < i ==> v@[k]@ != s@,
        decreases v.len() - i,
    {
        if v[i] == *s {
            assert(views_of(v@)[i as int] == s@);
            return true;
        }
        i = i + 1;
    }
    assert(!views_of(v@).contains(s@)) by {
        if views_of(v@).contains(s@) {
            let k = choose|k: int| 0 <= k < v@.len() && views_of(v@)[k] == s@;
            assert(v@[k]@ == s@);
        }
    }
    false
}

/// Whether an already lower-cased extension is a member of the allow-list.
pub fn extension_allowed(lower_ext: &String, allow_list: &Vec<String>) -> (r: bool)
    ensures
        r == views_of(allow_list@).contains(lower_ext@),
{
    contains_view(allow_list, lower_ext)
}

/// Case normalisation of an allow-list: every entry lower-cased, order kept.
pub fn normalize_allow_list(list: &Vec<String>) -> (r: Vec<String>)
    ensures
        r@.len() == list@.len(),
        forall|k: int| 0 <= k < list@.len() ==> #[trigger] r@[k]@ == lower_of(list@[k]@),
{
    let mut out: Vec<String> = Vec::new();
    let mut i: usize = 0;
    while i < list.len()
        invariant
            i <= list@.len(),
            out@.len() == i,
            forall|k: int| 0 <= k < i ==> #[trigger] out@[k]@ == lower_of(list@[k]@),
        decreases list.len() - i,
    {
        out.push(lowercase(list[i].as_str()));
        i = i + 1;
    }
    out
}

/// Whether `path` passes the extension filter: with no allow-list every path
/// passes; with one, the lower-cased extension must be in it.
pub open spec fn extension_passes(path: Seq<char>, allow_list: Option<Seq<Seq<char>>>) -> bool {
    match allow_list {
        None => true,
        Some(l) => match extension_of(path) {
            None => false,
            Some(e) => l.contains(lower_of(e)),
        },
    }
}

/// Whether `path` qualifies: it is a regular file and passes the extension filter.
pub open spec fn qualifies_of(path: Seq<char>, allow_list: Option<Vec<String>>, is_file: bool) -> bool {
    is_file && extension_passes(
        path,
        match allow_list {
            None => None,
            Some(l) => Some(views_of(l@)),
        },
    )
}

/// The filter is case-insensitive: two paths whose extensions lower-case alike
/// qualify alike, under any allow-list and for either file state.
pub proof fn lemma_filter_ignores_case(
    p1: Seq<char>,
    p2: Seq<char>,
    allow_list: Option<Vec<String>>,
    is_file: bool,
)
    requires
        extension_of(p1) is Some,
        extension_of(p2) is Some,
        lower_of(extension_of(p1)->0) == lower_of(extension_of(p2)->0),
    ensures
        qualifies_of(p1, allow_list, is_file) == qualifies_of(p2, allow_list, is_file),
{
}

/// The filter: `path` qualifies when it is a regular file (`is_file`, observed
/// at drain time) and passes the extension filter.
pub fn qualifies(path: &str, allow_list: &Option<Vec<String>>, is_file: bool) -> (r: bool)
    ensures
        r == qualifies_of(path@, *allow_list, is_file),
{
    if !is_file {
        return false;
    }
    match allow_list {
        None => true,
        Some(l) => match extension(path) {
            None => false,
            Some(e) => {
                let lower = lowercase(e.as_str());
                extension_allowed(&lower, l)
            },
        },
    }
}

} // verus!
