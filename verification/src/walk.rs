//! Bookkeeping for the recursive file-tree walk: the driver reads
//! directories and hands their entries in; this type fixes the visit order
//! so that the resulting listing is a depth-first preorder — every path
//! precedes the paths found under it, and siblings keep directory order.

use vstd::prelude::*;

verus! {

/// State of one walk: the paths already visited, in output order, and the
/// paths discovered but not yet visited (a stack whose top is next).
pub struct FileWalk {
    pub files: Vec<String>,
    pub pending: Vec<String>,
}

impl FileWalk {
    /// An empty walk.
    pub fn new() -> (w: FileWalk)
        ensures
            w.files@.len() == 0,
            w.pending@.len() == 0,
    {
        FileWalk { files: Vec::new(), pending: Vec::new() }
    }

    /// Hand in one directory's entries, in directory order. They are
    /// stacked in reverse so that the first entry is visited next — before
    /// anything discovered earlier, and before its own siblings.
    pub fn expand(&mut self, entries: Vec<String>)
        ensures
            final(self).files == old(self).files,
            final(self).pending@ =~= old(self).pending@ + entries@.reverse(),
    {
        let mut entries = entries;
        let ghost ev = entries@;
        let mut k: usize = entries.len();
        while k > 0
            invariant
                k <= ev.len(),
                entries@ =~= ev.take(k as int),
                self.files == old(self).files,
                self.pending@ =~= old(self).pending@ + Seq::new(
                    (ev.len() - k) as nat,
                    |i: int| ev[ev.len() - 1 - i],
                ),
            decreases k,
        {
            let e = entries.pop();
            match e {
                Some(p) => {
                    self.pending.push(p);
                },
                None => {
                },
            }
            k -= 1;
        }
        proof {
            assert(self.pending@ =~= old(self).pending@ + ev.reverse());
        }
    }

    /// Visit the next pending path: it is appended to the listing and
    /// returned so the driver can expand it if it is a directory. `None`
    /// once nothing is pending.
    pub fn visit_next(&mut self) -> (r: Option<String>)
        ensures
            old(self).pending@.len() == 0 ==> r is None && final(self).files == old(self).files
                && final(self).pending@ == old(self).pending@,
            old(self).pending@.len() > 0 ==> {
                &&& r == Some(old(self).pending@.last())
                &&& final(self).pending@ == old(self).pending@.drop_last()
                &&& final(self).files@ == old(self).files@.push(old(self).pending@.last())
            },
    {
        match self.pending.pop() {
            Some(p) => {
                self.files.push(p.clone());
                Some(p)
            },
            None => None,
        }
    }
}

} // verus!
