//! The directory walker's decision core: an explicit work-list of pending
//! directories. The traversal is iterative by construction — expanding a
//! directory only grows the heap-allocated work-list, never the call stack —
//! so arbitrarily deep trees are walked in constant stack space. The caller
//! performs the filesystem reads and hands each directory's entries back.

use vstd::prelude::*;

verus! {

/// One directory entry, classified by the caller's metadata lookup.
pub struct EntryInfo {
    pub path: String,
    pub is_dir: bool,
}

/// The paths of the directory entries among `entries`, in order.
pub open spec fn dirs_of(entries: Seq<EntryInfo>) -> Seq<Seq<char>>
    decreases entries.len(),
{
    if entries.len() == 0 {
        Seq::empty()
    } else {
        let init = dirs_of(entries.drop_last());
        if entries.last().is_dir {
            init.push(entries.last().path@)
        } else {
            init
        }
    }
}

/// The paths of the file entries among `entries`, in order.
pub open spec fn files_of(entries: Seq<EntryInfo>) -> Seq<Seq<char>>
    decreases entries.len(),
{
    if entries.len() == 0 {
        Seq::empty()
    } else {
        let init = files_of(entries.drop_last());
        if entries.last().is_dir {
            init
        } else {
            init.push(entries.last().path@)
        }
    }
}

/// The traversal state: the work-list of directories still to be listed.
pub struct Walker {
    pending: Vec<String>,
}

impl View for Walker {
    type V = Seq<Seq<char>>;

    closed spec fn view(&self) -> Seq<Seq<char>> {
        self.pending@.map_values(|p: String| p@)
    }
}

impl Walker {
    /// A walk about to start: only the root directory is pending.
    pub fn new(root: String) -> (w: Walker)
        ensures
            w@ =~= seq![root@],
    {
        let mut pending: Vec<String> = Vec::new();
        pending.push(root);
        Walker { pending }
    }

    /// Takes one pending directory off the work-list, or reports that the
    /// walk is complete. Every other pending directory stays in place, so
    /// abandoning the returned directory — as the caller does when it cannot
    /// be listed — never discards the rest of the walk.
    pub fn next_directory(&mut self) -> (r: Option<String>)
        ensures
            old(self)@.len() == 0 ==> r is None && final(self)@ == old(self)@,
            old(self)@.len() > 0 ==> (r matches Some(d) && d@ == old(self)@.last() && final(self)@ == old(
                self,
            )@.drop_last()),
    {
        let r = self.pending.pop();
        proof {
            if old(self)@.len() > 0 {
                assert(self@ =~= old(self)@.drop_last());
            }
        }
        r
    }

    /// Records one listed directory: its subdirectories join the work-list,
    /// in order, and its files are returned, in order, for the caller to
    /// emit. Nothing already pending is touched.
    pub fn record_entries(&mut self, entries: Vec<EntryInfo>) -> (files: Vec<String>)
        ensures
            final(self)@ =~= old(self)@ + dirs_of(entries@),
            files@.map_values(|f: String| f@) =~= files_of(entries@),
    {
        let mut files: Vec<String> = Vec::new();
        let mut i: usize = 0;
        while i < entries.len()
            invariant
                i <= entries@.len(),
                self@ =~= old(self)@ + dirs_of(entries@.subrange(0, i as int)),
                files@.map_values(|f: String| f@) =~= files_of(entries@.subrange(0, i as int)),
            decreases entries@.len() - i,
        {
            proof {
                assert(entries@.subrange(0, i + 1).drop_last() =~= entries@.subrange(0, i as int));
                assert(entries@.subrange(0, i + 1).last() == entries@[i as int]);
            }
            let entry = &entries[i];
            if entry.is_dir {
                let ghost prior = self@;
                self.pending.push(entry.path.clone());
                proof {
                    assert(self@ =~= prior.push(entries@[i as int].path@));
                    assert(self@ =~= old(self)@ + dirs_of(entries@.subrange(0, i + 1)));
                }
            } else {
                let ghost prior = files@.map_values(|f: String| f@);
                files.push(entry.path.clone());
                proof {
                    assert(files@.map_values(|f: String| f@) =~= prior.push(
                        entries@[i as int].path@,
                    ));
                }
            }
            i = i + 1;
        }
        proof {
            assert(entries@.subrange(0, entries@.len() as int) =~= entries@);
        }
        files
    }

    /// The number of directories still pending.
    pub fn pending_count(&self) -> (n: usize)
        ensures
            n == self@.len(),
    {
        self.pending.len()
    }
}

/// Law: when one directory is taken from the work-list and abandoned, every
/// other pending directory — sibling or deeper — is still there to be walked.
pub proof fn lemma_abandoned_directory_spares_the_rest(before: Seq<Seq<char>>, after: Seq<Seq<char>>)
    requires
        before.len() > 0,
        after == before.drop_last(),
    ensures
        after.len() == before.len() - 1,
        forall|k: int| 0 <= k < before.len() - 1 ==> after[k] == before[k],
{
}

} // verus!
