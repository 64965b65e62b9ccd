//! Path Resolver: the directory segments between the watch root and a file,
//! and the comma-joined text form in which they travel to the server.
use vstd::prelude::*;
use vstd::string::*;
use crate::filter::views_of;

verus! {

/// Scanning state after reading `s`: the segments completed so far, and the
/// segment still being read. Empty segments (from a leading `/` or from
/// repeated separators) are not kept.
pub open spec fn split_state(s: Seq<char>) -> (Seq<Seq<char>>, Seq<char>)
    decreases s.len(),
{
    if s.len() == 0 {
        (Seq::empty(), Seq::empty())
    } else {
        let (done, cur) = split_state(s.drop_last());
        if s.last() == '/' {
            if cur.len() > 0 {
                (done.push(cur), Seq::empty())
            } else {
                (done, Seq::empty())
            }
        } else {
            (done, cur.push(s.last()))
        }
    }
}

/// The non-empty `/`-separated segments of a path, in order.
pub open spec fn segments_of(s: Seq<char>) -> Seq<Seq<char>> {
    let (done, cur) = split_state(s);
    if cur.len() > 0 {
        done.push(cur)
    } else {
        done
    }
}

/// The directory segments between `root` and `file`, both canonical paths:
/// defined when the root's segments are a proper prefix of the file's, and
/// then the file's segments after the root's, without the file name.
pub open spec fn routing_of(root: Seq<char>, file: Seq<char>) -> Option<Seq<Seq<char>>> {
    let r = segments_of(root);
    let f = segments_of(file);
    if r.len() < f.len() && f.take(r.len() as int) == r {
        Some(f.subrange(r.len() as int, f.len() - 1))
    } else {
        None
    }
}

/// The segments joined with `,` between neighbours.
pub open spec fn joined(segs: Seq<Seq<char>>) -> Seq<char>
    decreases segs.len(),
{
    if segs.len() == 0 {
        Seq::empty()
    } else if segs.len() == 1 {
        segs[0]
    } else {
        joined(segs.drop_last()) + seq![','] + segs.last()
    }
}

/// A file whose segments are the root's, then some directories, then its own
/// name, is routed by exactly those directories; with none it is routed by
/// the empty list, whose text is empty.
pub proof fn lemma_routing_of_nested_file(
    root: Seq<char>,
    file: Seq<char>,
    dirs: Seq<Seq<char>>,
    name: Seq<char>,
)
    requires
        segments_of(file) == segments_of(root) + dirs.push(name),
    ensures
        routing_of(root, file) == Some(dirs),
        dirs.len() == 0 ==> joined(dirs) == Seq::<char>::empty(),
{
    let r = segments_of(root);
    let f = segments_of(file);
    assert(f.take(r.len() as int) =~= r);
    assert(f.subrange(r.len() as int, f.len() - 1) =~= dirs);
}

/// A path that does not lie under the watch root.
#[derive(Debug, Clone, Copy, PartialEq, Eq, Structural)]
pub enum PathError {
    /// The path could not be canonicalised (it vanished, or is unreadable).
    Unresolvable,
    /// The canonical path lies outside the watch root (a symlink escape).
    OutsideRoot,
}

/// Splits a path into its non-empty `/`-separated segments.
pub fn split_segments(s: &str) -> (r: Vec<String>)
    ensures
        views_of(r@) == segments_of(s@),
{
    let n = s.unicode_len();
    let mut done: Vec<String> = Vec::new();
    let mut start: usize = 0;
    let mut i: usize = 0;
    while i < n
        invariant
            n == s@.len(),
            start <= i <= n,
            split_state(s@.take(i as int)) == (views_of(done@), s@.subrange(start as int, i as int)),
        decreases n - i,
    {
        let ghost prev = done@;
        assert(s@.take(i + 1).drop_last() =~= s@.take(i as int));
        let c = s.get_char(i);
        if c == '/' {
            if i > start {
                let seg = String::from_str(s.substring_char(start, i));
                done.push(seg);
                assert(views_of(done@) =~= views_of(prev).push(s@.subrange(start as int, i as int)));
            }
            start = i + 1;
            assert(s@.subrange(start as int, i + 1) =~= Seq::<char>::empty());
        } else {
            assert(s@.subrange(start as int, i + 1) =~= s@.subrange(start as int, i as int).push(c));
        }
        i = i + 1;
    }
    assert(s@.take(n as int) =~= s@);
    if n > start {
        let ghost prev = done@;
        let seg = String::from_str(s.substring_char(start, n));
        done.push(seg);
        assert(views_of(done@) =~= views_of(prev).push(s@.subrange(start as int, n as int)));
    }
    done
}

/// Path Resolver: the directory segments between the canonical watch root and
/// a canonical file path, excluding the file name; `OutsideRoot` when the file
/// does not lie strictly under the root.
pub fn relative_segments(root: &str, file: &str) -> (r: Result<Vec<String>, PathError>)
    ensures
        match r {
            Ok(v) => routing_of(root@, file@) == Some(views_of(v@)),
            Err(e) => e == PathError::OutsideRoot && routing_of(root@, file@) is None,
        },
{
    let rs = split_segments(root);
    let fs = split_segments(file);
    let ghost rv = views_of(rs@);
    let ghost fv = views_of(fs@);
    if rs.len() >= fs.len() {
        return Err(PathError::OutsideRoot);
    }
    let mut i: usize = 0;
    while i < rs.len()
        invariant
            rs@.len() < fs@.len(),
            rv == views_of(rs@),
            fv == views_of(fs@),
            rv == segments_of(root@),
            fv == segments_of(file@),
            i <= rs@.len(),
            fv.take(i as int) =~= rv.take(i as int),
        decreases rs.len() - i,
    {
        if !(rs[i] == fs[i]) {
            assert(fv[i as int] == fs@[i as int]@ && rv[i as int] == rs@[i as int]@);
            assert(fv.take(rs@.len() as int)[i as int] != rv[i as int]);
            assert(fv.take(rv.len() as int) != rv);
            return Err(PathError::OutsideRoot);
        }
        assert(fv.take(i + 1) =~= rv.take(i + 1)) by {
            assert(fv.take(i + 1) =~= fv.take(i as int).push(fv[i as int]));
            assert(rv.take(i + 1) =~= rv.take(i as int).push(rv[i as int]));
        }
        i = i + 1;
    }
    assert(rv.take(rs@.len() as int) =~= rv);
    let mut out: Vec<String> = Vec::new();
    let mut j: usize = rs.len();
    let last = fs.len() - 1;
    while j < last
        invariant
            rs@.len() <= j <= last,
            last == fs@.len() - 1,
            fv == views_of(fs@),
            views_of(out@) =~= fv.subrange(rs@.len() as int, j as int),
        decreases last - j,
    {
        let ghost prev = out@;
        out.push(fs[j].clone());
        assert(views_of(out@) =~= views_of(prev).push(fv[j as int]));
        j = j + 1;
    }
    Ok(out)
}

/// The routing field's text: the segments joined with `,`.
pub fn join_segments(segs: &Vec<String>) -> (r: String)
    ensures
        r@ == joined(views_of(segs@)),
{
    let mut out = String::new();
    let mut i: usize = 0;
    while i < segs.len()
        invariant
            i <= segs@.len(),
            out@ == joined(views_of(segs@).take(i as int)),
        decreases segs.len() - i,
    {
        let ghost v = views_of(segs@);
        assert(v.take(i + 1).drop_last() =~= v.take(i as int));
        if i > 0 {
            proof {
                reveal_strlit(",");
            }
            out.append(",");
        } else {
            assert(v.take(1) =~= seq![v[0]]);
        }
        out.append(segs[i].as_str());
        i = i + 1;
    }
    assert(views_of(segs@).take(segs@.len() as int) =~= views_of(segs@));
    out
}

} // verus!
