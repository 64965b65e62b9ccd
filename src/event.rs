//! Settled batches: which paths of one batch from the debouncer become upload
//! candidates. Only content modifications count, and each path is offered at
//! most once per batch; nothing is remembered from one batch to the next.
use vstd::prelude::*;
use crate::filter::{contains_view, views_of};

verus! {

/// The kind of a filesystem change, as far as delivery cares.
#[derive(Debug, Clone, Copy, PartialEq, Eq, Structural)]
pub enum ChangeKind {
    /// The content of a file changed.
    Modified,
    /// A file or directory was created.
    Created,
    /// A file or directory was removed.
    Removed,
    /// A file or directory was renamed.
    Renamed,
    /// Only metadata (permissions, times) changed.
    Metadata,
    /// Any other activity.
    Other,
}

/// One change reported by the event source: its kind and the path(s) it
/// concerns.
#[derive(Debug, Clone)]
pub struct RawEvent {
    pub kind: ChangeKind,
    pub paths: Vec<String>,
}

/// `acc` extended by the paths it does not hold yet, in order.
pub open spec fn add_paths(acc: Seq<Seq<char>>, paths: Seq<Seq<char>>) -> Seq<Seq<char>>
    decreases paths.len(),
{
    if paths.len() == 0 {
        acc
    } else {
        let a = add_paths(acc, paths.drop_last());
        if a.contains(paths.last()) {
            a
        } else {
            a.push(paths.last())
        }
    }
}

/// The candidates of a batch: the paths of its modification events, each once,
/// in order of first appearance.
pub open spec fn candidates_of(batch: Seq<RawEvent>) -> Seq<Seq<char>>
    decreases batch.len(),
{
    if batch.len() == 0 {
        Seq::empty()
    } else {
        let acc = candidates_of(batch.drop_last());
        if batch.last().kind == ChangeKind::Modified {
            add_paths(acc, views_of(batch.last().paths@))
        } else {
            acc
        }
    }
}

/// Whether some modification event of the batch concerns `p`.
pub open spec fn modified_in(batch: Seq<RawEvent>, p: Seq<char>) -> bool {
    exists|i: int|
        0 <= i < batch.len() && batch[i].kind == ChangeKind::Modified && #[trigger] views_of(
            batch[i].paths@,
        ).contains(p)
}

/// How many times `p` occurs in `s`.
pub open spec fn occurrences(s: Seq<Seq<char>>, p: Seq<char>) -> nat
    decreases s.len(),
{
    if s.len() == 0 {
        0
    } else {
        occurrences(s.drop_last(), p) + if s.last() == p {
            1nat
        } else {
            0nat
        }
    }
}

/// How many candidates for `p` a run of batches yields, all batches together.
pub open spec fn total_occurrences(batches: Seq<Seq<RawEvent>>, p: Seq<char>) -> nat
    decreases batches.len(),
{
    if batches.len() == 0 {
        0
    } else {
        total_occurrences(batches.drop_last(), p) + occurrences(candidates_of(batches.last()), p)
    }
}

proof fn lemma_occurrences_push(s: Seq<Seq<char>>, x: Seq<char>, p: Seq<char>)
    ensures
        occurrences(s.push(x), p) == occurrences(s, p) + if x == p {
            1nat
        } else {
            0nat
        },
{
    assert(s.push(x).drop_last() =~= s);
}

proof fn lemma_occurrences_contains(s: Seq<Seq<char>>, p: Seq<char>)
    ensures
        (occurrences(s, p) > 0) == s.contains(p),
    decreases s.len(),
{
    if s.len() > 0 {
        let d = s.drop_last();
        lemma_occurrences_contains(d, p);
        if d.contains(p) {
            let k = choose|k: int| 0 <= k < d.len() && d[k] == p;
            assert(s[k] == p);
        }
        if s.contains(p) && s.last() != p {
            let k = choose|k: int| 0 <= k < s.len() && s[k] == p;
            assert(d[k] == p);
        }
    }
}

proof fn lemma_contains_drop_last(s: Seq<Seq<char>>, p: Seq<char>)
    requires
        s.len() > 0,
    ensures
        s.contains(p) == (s.drop_last().contains(p) || s.last() == p),
{
    let d = s.drop_last();
    if d.contains(p) {
        let k = choose|k: int| 0 <= k < d.len() && d[k] == p;
        assert(s[k] == p);
    }
    if s.contains(p) && s.last() != p {
        let k = choose|k: int| 0 <= k < s.len() && s[k] == p;
        assert(d[k] == p);
    }
}

proof fn lemma_add_paths(acc: Seq<Seq<char>>, paths: Seq<Seq<char>>, p: Seq<char>)
    requires
        occurrences(acc, p) <= 1,
    ensures
        occurrences(add_paths(acc, paths), p) == if acc.contains(p) || paths.contains(p) {
            1nat
        } else {
            0nat
        },
    decreases paths.len(),
{
    lemma_occurrences_contains(acc, p);
    if paths.len() > 0 {
        let a = add_paths(acc, paths.drop_last());
        lemma_add_paths(acc, paths.drop_last(), p);
        lemma_contains_drop_last(paths, p);
        lemma_occurrences_contains(a, p);
        if !a.contains(paths.last()) {
            lemma_occurrences_push(a, paths.last(), p);
        }
    }
}

/// A path modified any number of times within one settled batch is offered
/// for delivery exactly once, and a path that no modification event of the
/// batch concerns is not offered at all.
pub proof fn lemma_one_candidate_per_path(batch: Seq<RawEvent>, p: Seq<char>)
    ensures
        occurrences(candidates_of(batch), p) == if modified_in(batch, p) {
            1nat
        } else {
            0nat
        },
    decreases batch.len(),
{
    if batch.len() > 0 {
        let d = batch.drop_last();
        lemma_one_candidate_per_path(d, p);
        let acc = candidates_of(d);
        let last = batch.last();
        let here = last.kind == ChangeKind::Modified && views_of(last.paths@).contains(p);
        assert(modified_in(batch, p) == (modified_in(d, p) || here)) by {
            if modified_in(d, p) {
                let i = choose|i: int|
                    0 <= i < d.len() && d[i].kind == ChangeKind::Modified && #[trigger] views_of(
                        d[i].paths@,
                    ).contains(p);
                assert(batch[i] == d[i]);
            }
            if here {
                assert(batch[batch.len() - 1] == last);
            }
            if modified_in(batch, p) && !here {
                let i = choose|i: int|
                    0 <= i < batch.len() && batch[i].kind == ChangeKind::Modified
                        && #[trigger] views_of(batch[i].paths@).contains(p);
                assert(i != batch.len() - 1);
                assert(d[i] == batch[i]);
            }
        }
        lemma_occurrences_contains(acc, p);
        if last.kind == ChangeKind::Modified {
            lemma_add_paths(acc, views_of(last.paths@), p);
        }
    }
}

/// Modifications of one path that fall into separate settled batches are not
/// coalesced: a run of batches that each modify `p` yields one candidate for
/// `p` per batch.
pub proof fn lemma_one_candidate_per_batch(batches: Seq<Seq<RawEvent>>, p: Seq<char>)
    requires
        forall|i: int| 0 <= i < batches.len() ==> modified_in(#[trigger] batches[i], p),
    ensures
        total_occurrences(batches, p) == batches.len(),
    decreases batches.len(),
{
    if batches.len() > 0 {
        let d = batches.drop_last();
        assert forall|i: int| 0 <= i < d.len() implies modified_in(#[trigger] d[i], p) by {
            assert(d[i] == batches[i]);
        }
        lemma_one_candidate_per_batch(d, p);
        assert(modified_in(batches[batches.len() - 1], p));
        lemma_one_candidate_per_path(batches.last(), p);
    }
}

/// The upload candidates of a settled batch: the paths of its modification
/// events, each once, in order of first appearance.
pub fn settled_candidates(batch: &Vec<RawEvent>) -> (r: Vec<String>)
    ensures
        views_of(r@) == candidates_of(batch@),
{
    let mut out: Vec<String> = Vec::new();
    let mut i: usize = 0;
    while i < batch.len()
        invariant
            i <= batch@.len(),
            views_of(out@) == candidates_of(batch@.take(i as int)),
        decreases batch.len() - i,
    {
        assert(batch@.take(i + 1).drop_last() =~= batch@.take(i as int));
        let ev = &batch[i];
        if ev.kind == ChangeKind::Modified {
            let ghost acc = views_of(out@);
            let ghost pv = views_of(ev.paths@);
            let mut j: usize = 0;
            while j < ev.paths.len()
                invariant
                    j <= ev.paths@.len(),
                    pv == views_of(ev.paths@),
                    views_of(out@) == add_paths(acc, pv.take(j as int)),
                decreases ev.paths.len() - j,
            {
                assert(pv.take(j + 1).drop_last() =~= pv.take(j as int));
                let p = &ev.paths[j];
                if !contains_view(&out, p) {
                    let ghost prev = out@;
                    out.push(p.clone());
                    assert(views_of(out@) =~= views_of(prev).push(p@));
                }
                j = j + 1;
            }
            assert(pv.take(pv.len() as int) =~= pv);
        }
        i = i + 1;
    }
    assert(batch@.take(batch@.len() as int) =~= batch@);
    out
}

} // verus!
