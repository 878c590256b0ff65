//! A sink for backups that only records what it is given.

use vstd::prelude::*;

verus! {

/// Records every batch of `(path, content)` pairs that is stored.
#[derive(Debug)]
pub struct MockSink {
    pub calls: Vec<Vec<(String, String)>>,
}

impl MockSink {
    /// A sink that has recorded nothing yet.
    pub fn new() -> (s: MockSink)
        ensures
            s.calls@.len() == 0,
    {
        MockSink { calls: Vec::new() }
    }

    /// Records one batch.
    pub fn store(&mut self, items: Vec<(String, String)>)
        ensures
            final(self).calls@ == old(self).calls@.push(items),
    {
        self.calls.push(items);
    }
}

} // verus!
