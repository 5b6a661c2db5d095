use crate::primitive::StatsSink;
use vstd::prelude::*;

verus! {

/// A statistics sink that keeps every fragment it is handed, in order.
pub struct CollectingSink {
    fragments: Vec<String>,
}

impl CollectingSink {
    /// A sink that has received nothing yet.
    pub fn new() -> (r: CollectingSink)
        ensures
            r.received() == Seq::<Seq<char>>::empty(),
    {
        let r = CollectingSink { fragments: Vec::new() };
        proof {
            assert(r.fragments@.map_values(|s: String| s@) =~= Seq::<Seq<char>>::empty());
        }
        r
    }

    /// The fragments received so far.
    pub fn fragments(&self) -> (r: &Vec<String>)
        ensures
            r@.map_values(|s: String| s@) == self.received(),
    {
        &self.fragments
    }
}

impl StatsSink for CollectingSink {
    closed spec fn received(&self) -> Seq<Seq<char>> {
        self.fragments@.map_values(|s: String| s@)
    }

    fn put(&mut self, fragment: &str) {
        self.fragments.push(fragment.to_owned());
        proof {
            assert(self.fragments@.map_values(|s: String| s@) =~= old(self).fragments@.map_values(
                |s: String| s@,
            ).push(fragment@));
        }
    }
}

} // verus!
