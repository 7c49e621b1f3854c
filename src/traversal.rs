use std::collections::VecDeque;
use vstd::prelude::*;

use crate::entry::{DirEntry, EntryView};

verus! {

/// How far and in what order a download walks the remote tree.
#[derive(Debug, Clone, Copy, PartialEq, Eq, Structural)]
pub enum Recursive {
    /// Do not look into subdirectories.
    Off,
    /// Depth first.
    Dfs,
    /// Breadth first.
    Bfs,
}

/// Whether a glob pattern matches a remote path.
pub uninterp spec fn glob_match(pattern: Seq<char>, path: Seq<char>) -> bool;

/// Relies on glob::Pattern::new and glob::Pattern::matches: whether the path
/// matches the pattern, which depends on the two texts alone; a pattern that
/// does not compile matches nothing.
#[verifier::external_body]
fn glob_matches(pattern: &str, path: &str) -> (r: bool)
    ensures
        r == glob_match(pattern@, path@),
{
    match glob::Pattern::new(pattern) {
        Ok(p) => p.matches(path),
        Err(_) => false,
    }
}

/// Whether some pattern of `patterns` matches `path`.
pub open spec fn excluded(patterns: Seq<String>, path: Seq<char>) -> bool {
    exists|i: int| 0 <= i < patterns.len() && glob_match(#[trigger] patterns[i]@, path)
}

/// What the walk does with the next entry it takes.
#[derive(Debug)]
pub enum Step {
    /// An exclude pattern matched: the entry is dropped, and a directory is
    /// not expanded.
    Excluded(DirEntry),
    /// A directory that the mode does not descend into.
    Skipped(DirEntry),
    /// A file, to be handed to the transfer.
    Transfer(DirEntry),
    /// A directory whose listing the caller fetches and hands to `expand`.
    Expand(DirEntry),
}

/// The step for entry `e`: exclusion first, then files, then directories
/// by mode.
pub open spec fn step_of(mode: Recursive, patterns: Seq<String>, e: DirEntry) -> Step {
    if excluded(patterns, e@.path()) {
        Step::Excluded(e)
    } else if e@ is File {
        Step::Transfer(e)
    } else if mode == Recursive::Off {
        Step::Skipped(e)
    } else {
        Step::Expand(e)
    }
}

/// An entry that an exclude pattern matches is dropped: its step is
/// `Excluded`, so a directory is never expanded (no listing of it is awaited,
/// and `expand` then queues nothing) and a file never transferred.
pub proof fn lemma_excluded_not_expanded(mode: Recursive, patterns: Seq<String>, e: DirEntry, i: int)
    requires
        0 <= i < patterns.len(),
        glob_match(patterns[i]@, e@.path()),
    ensures
        step_of(mode, patterns, e) == Step::Excluded(e),
        !(step_of(mode, patterns, e) is Expand),
        !(step_of(mode, patterns, e) is Transfer),
        expanded_path(Some(step_of(mode, patterns, e))) is None,
{
    assert(excluded(patterns, e@.path()));
}

/// The sequence in reverse order.
pub open spec fn reversed(s: Seq<DirEntry>) -> Seq<DirEntry> {
    Seq::new(s.len(), |i: int| s[s.len() - 1 - i])
}

/// The entries as the queue holds them: reversed under depth-first order,
/// whose queue is taken from the back, so that they still come out in order.
pub open spec fn queued(mode: Recursive, items: Seq<DirEntry>) -> Seq<DirEntry> {
    if mode == Recursive::Dfs {
        reversed(items)
    } else {
        items
    }
}

/// Under depth-first order the children of an expanded directory come out
/// next, in listing order, before anything queued earlier: after `k` takes
/// from the back of `pending + queued(Dfs, children)`, the next one is the
/// child at `k`.
pub proof fn lemma_dfs_children_next(pending: Seq<DirEntry>, children: Seq<DirEntry>, k: int)
    requires
        0 <= k < children.len(),
    ensures
        ({
            let s = pending + queued(Recursive::Dfs, children);
            s.subrange(0, s.len() - k).last() == children[k]
        }),
{
    let s = pending + queued(Recursive::Dfs, children);
    assert(s[s.len() - k - 1] == reversed(children)[children.len() - k - 1]);
}

/// Under breadth-first order the children of an expanded directory come out
/// after every entry that was already pending, in listing order: after
/// `pending.len() + k` takes from the front, the next one is the child at `k`.
pub proof fn lemma_bfs_children_after(pending: Seq<DirEntry>, children: Seq<DirEntry>, k: int)
    requires
        0 <= k < children.len(),
    ensures
        ({
            let s = pending + queued(Recursive::Bfs, children);
            s.subrange(pending.len() + k, s.len() as int)[0] == children[k]
        }),
{
}

/// A walk over a share's tree: the pending entries, the order, the exclude
/// patterns, and the path of the directory whose listing is awaited (the one
/// the last step asked to expand).
pub struct Traversal {
    queue: VecDeque<DirEntry>,
    mode: Recursive,
    excludes: Vec<String>,
    awaiting: Option<String>,
}

/// The path of the directory that a step asks to expand, if it does.
pub open spec fn expanded_path(r: Option<Step>) -> Option<Seq<char>> {
    match r {
        Some(Step::Expand(e)) => Some(e@.path()),
        _ => None,
    }
}

/// Appends `items` to the back of `queue`, last item first.
fn push_reversed(queue: &mut VecDeque<DirEntry>, items: Vec<DirEntry>)
    ensures
        final(queue)@ == old(queue)@ + reversed(items@),
{
    let ghost q0 = queue@;
    let ghost all = items@;
    let mut items = items;
    while items.len() > 0
        invariant
            items@.len() <= all.len(),
            items@ == all.subrange(0, items@.len() as int),
            queue@ == q0 + reversed(all).subrange(0, all.len() - items@.len()),
        decreases items.len(),
    {
        let ghost k = all.len() - items@.len();
        let x = items.pop().unwrap();
        assert(x == all[all.len() - 1 - k]);
        queue.push_back(x);
        assert(reversed(all).subrange(0, k + 1) =~= reversed(all).subrange(0, k).push(x));
        assert(items@ =~= all.subrange(0, items@.len() as int));
    }
    assert(reversed(all).subrange(0, all.len() as int) =~= reversed(all));
}

/// Appends `items` to the back of `queue` in order.
fn push_in_order(queue: &mut VecDeque<DirEntry>, items: Vec<DirEntry>)
    ensures
        final(queue)@ == old(queue)@ + items@,
{
    let ghost all = items@;
    let mut items = items;
    let mut back: Vec<DirEntry> = Vec::new();
    while items.len() > 0
        invariant
            items@.len() <= all.len(),
            items@ == all.subrange(0, items@.len() as int),
            back@ == reversed(all).subrange(0, all.len() - items@.len()),
        decreases items.len(),
    {
        let ghost k = all.len() - items@.len();
        let x = items.pop().unwrap();
        assert(x == all[all.len() - 1 - k]);
        back.push(x);
        assert(reversed(all).subrange(0, k + 1) =~= reversed(all).subrange(0, k).push(x));
        assert(items@ =~= all.subrange(0, items@.len() as int));
    }
    assert(reversed(all).subrange(0, all.len() as int) =~= reversed(all));
    push_reversed(queue, back);
    assert(reversed(reversed(all)) =~= all);
}

impl Traversal {
    /// The entries still to be taken, in queue order.
    pub closed spec fn pending(&self) -> Seq<DirEntry> {
        self.queue@
    }

    pub closed spec fn mode(&self) -> Recursive {
        self.mode
    }

    pub closed spec fn excludes(&self) -> Seq<String> {
        self.excludes@
    }

    /// The directory whose listing `expand` takes next, if any.
    pub closed spec fn awaiting(&self) -> Option<Seq<char>> {
        match self.awaiting {
            Some(p) => Some(p@),
            None => None,
        }
    }

    /// A walk seeded with the start directory's children (or with the one
    /// file of a file share).
    pub fn new(mode: Recursive, excludes: Vec<String>, start: Vec<DirEntry>) -> (r: Traversal)
        ensures
            r.pending() == queued(mode, start@),
            r.mode() == mode,
            r.excludes() == excludes@,
            r.awaiting() is None,
    {
        let mut queue: VecDeque<DirEntry> = VecDeque::new();
        if mode == Recursive::Dfs {
            push_reversed(&mut queue, start);
        } else {
            push_in_order(&mut queue, start);
        }
        assert(queue@ =~= queued(mode, start@));
        Traversal { queue, mode, excludes, awaiting: None }
    }

    pub fn is_done(&self) -> (r: bool)
        ensures
            r == (self.pending().len() == 0),
    {
        self.queue.len() == 0
    }

    /// Takes the next entry, from the back under depth-first order and from
    /// the front otherwise, and says what to do with it; `None` once the walk
    /// is over. Only a step that asks to expand a directory lets the next
    /// `expand` queue a listing: after any other step, an excluded directory
    /// included, none is awaited.
    pub fn next_step(&mut self) -> (r: Option<Step>)
        ensures
            final(self).awaiting() == expanded_path(r),
            final(self).mode() == old(self).mode(),
            final(self).excludes() == old(self).excludes(),
            old(self).pending().len() == 0 ==> r is None && final(self).pending() == old(self).pending(),
            old(self).pending().len() > 0 ==> {
                let q = old(self).pending();
                if old(self).mode() == Recursive::Dfs {
                    &&& r == Some(step_of(old(self).mode(), old(self).excludes(), q.last()))
                    &&& final(self).pending() == q.drop_last()
                } else {
                    &&& r == Some(step_of(old(self).mode(), old(self).excludes(), q[0]))
                    &&& final(self).pending() == q.drop_first()
                }
            },
    {
        self.awaiting = None;
        let popped = if self.mode == Recursive::Dfs {
            self.queue.pop_back()
        } else {
            self.queue.pop_front()
        };
        match popped {
            None => None,
            Some(e) => {
                let path = e.path();
                let mut i: usize = 0;
                let mut hit = false;
                while i < self.excludes.len() && !hit
                    invariant
                        i <= self.excludes@.len(),
                        path@ == e@.path(),
                        hit == (exists|j: int| 0 <= j < i && glob_match(#[trigger] self.excludes@[j]@, path@)),
                    decreases self.excludes.len() - i,
                {
                    hit = glob_matches(self.excludes[i].as_str(), path);
                    i += 1;
                }
                proof {
                    if !hit {
                        assert(i == self.excludes@.len());
                    }
                }
                if hit {
                    Some(Step::Excluded(e))
                } else if e.is_file() {
                    Some(Step::Transfer(e))
                } else if self.mode == Recursive::Off {
                    Some(Step::Skipped(e))
                } else {
                    self.awaiting = Some(path.to_string());
                    Some(Step::Expand(e))
                }
            },
        }
    }

    /// Queues the listing of the directory that the last step asked to
    /// expand: in reverse under depth-first order, so that the children come
    /// out first and in order, and in order behind the rest under
    /// breadth-first order. Where no listing is awaited (the last step did
    /// not ask for one, or it was already given), nothing is queued.
    pub fn expand(&mut self, children: Vec<DirEntry>)
        ensures
            final(self).mode() == old(self).mode(),
            final(self).excludes() == old(self).excludes(),
            final(self).awaiting() is None,
            old(self).awaiting() is Some ==> final(self).pending() == old(self).pending() + queued(
                old(self).mode(),
                children@,
            ),
            old(self).awaiting() is None ==> final(self).pending() == old(self).pending(),
    {
        if self.awaiting.is_none() {
            return;
        }
        self.awaiting = None;
        if self.mode == Recursive::Dfs {
            push_reversed(&mut self.queue, children);
        } else {
            push_in_order(&mut self.queue, children);
        }
    }
}

} // verus!
