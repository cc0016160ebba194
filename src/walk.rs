//! The walk over a root path: a file is one unit to search, a directory's
//! entries are visited in turn, and a directory that cannot be listed is
//! passed over without a unit and without an error.

use std::sync::Arc;
use vstd::prelude::*;

use crate::{SearchInput, SearchMessage, SearchOptions};

verus! {

/// What the file system said of a path.
pub enum PathKind {
    /// A regular file.
    File,
    /// A directory, with the paths of its entries in listing order.
    Dir(Vec<String>),
    /// A directory that could not be listed.
    Unreadable,
    /// Anything else: a path that does not exist, or is neither file nor directory.
    Other,
}

/// The paths still to visit; the next one is at the end.
pub struct Walker {
    pub pending: Vec<String>,
}

impl Walker {
    /// A walk that starts at `root`.
    pub fn new(root: String) -> (r: Walker)
        ensures
            r.pending@ == seq![root],
    {
        let mut pending: Vec<String> = Vec::new();
        pending.push(root);
        Walker { pending }
    }

    /// The next path to visit, or `None` when the walk is over.
    pub fn next_path(&mut self) -> (r: Option<String>)
        ensures
            old(self).pending@.len() == 0 ==> r is None && final(self).pending@ == old(
                self,
            ).pending@,
            old(self).pending@.len() > 0 ==> r == Some(old(self).pending@.last())
                && final(self).pending@ == old(self).pending@.drop_last(),
    {
        self.pending.pop()
    }
}

/// Visits `path`, of which the file system said `kind`: a file gives the
/// message that searches it; a directory's entries are queued so that they
/// are visited in listing order; anything else gives nothing.
pub fn search_path(walker: &mut Walker, path: String, kind: PathKind, options: Arc<SearchOptions>) -> (r:
    Option<SearchMessage>)
    ensures
        match kind {
            PathKind::File => r matches Some(m) && m.input == SearchInput::File(path)
                && m.options == options && final(walker).pending@ == old(walker).pending@,
            PathKind::Dir(entries) => r is None && final(walker).pending@ == old(walker).pending@
                + entries@.reverse(),
            _ => r is None && final(walker).pending@ == old(walker).pending@,
        },
{
    match kind {
        PathKind::File => Some(SearchMessage::new(SearchInput::File(path), options)),
        PathKind::Dir(entries) => {
            let ghost before = walker.pending@;
            let n: usize = entries.len();
            let mut k: usize = n;
            while k > 0
                invariant
                    k <= n,
                    n == entries@.len(),
                    walker.pending@ == before + entries@.subrange(k as int, n as int).reverse(),
                decreases k,
            {
                k = k - 1;
                walker.pending.push(entries[k].clone());
                assert(walker.pending@ =~= before + entries@.subrange(k as int, n as int).reverse());
            }
            assert(entries@.subrange(0, n as int) =~= entries@);
            None
        },
        _ => None,
    }
}

} // verus!
