use vstd::prelude::*;

verus! {

/// The search for the pair of free local ports the node is started
/// with. Candidates drawn from the probing range are offered one by
/// one together with the outcome of trying to bind them; the first two
/// free ones are kept, in the order they were offered.
#[derive(Debug)]
pub struct PortSearch {
    pub found: Vec<u16>,
}

impl PortSearch {
    /// The search has found the two ports it needs.
    pub open spec fn complete_spec(self) -> bool {
        self.found@.len() >= 2
    }

    pub fn new() -> (r: Self)
        ensures
            r.found@ == Seq::<u16>::empty(),
    {
        PortSearch { found: Vec::new() }
    }

    /// Offers one probed candidate: a free port is kept until the pair
    /// is complete; a busy port, or any candidate after completion, is
    /// discarded.
    pub fn offer(&mut self, port: u16, available: bool)
        ensures
            final(self).found@ == if old(self).found@.len() < 2 && available {
                old(self).found@.push(port)
            } else {
                old(self).found@
            },
    {
        if available && self.found.len() < 2 {
            self.found.push(port);
        }
    }

    pub fn complete(&self) -> (b: bool)
        ensures
            b == self.complete_spec(),
    {
        self.found.len() >= 2
    }

    /// The chosen (listen port, control port) pair, once complete.
    pub fn pair(&self) -> (r: Option<(u16, u16)>)
        ensures
            self.found@.len() >= 2 ==> r == Some((self.found@[0], self.found@[1])),
            self.found@.len() < 2 ==> r is None,
    {
        if self.found.len() >= 2 {
            Some((self.found[0], self.found[1]))
        } else {
            None
        }
    }
}

} // verus!
