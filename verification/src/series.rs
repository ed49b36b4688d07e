use vstd::prelude::*;

verus! {

/// One poll tick's readings: the time elapsed since the collection
/// loop started, and the two scalar metrics read at that moment.
/// `metric_a` is the cumulative counter (block height), `metric_b`
/// the gauge (peer count).
#[derive(Clone, Copy, PartialEq, Eq, Structural, Debug)]
pub struct Sample {
    pub elapsed_ms: u64,
    pub metric_a: u64,
    pub metric_b: u64,
}

/// The elapsed times of a sequence of samples are strictly increasing.
pub open spec fn strictly_ordered(s: Seq<Sample>) -> bool {
    forall|i: int, j: int|
        0 <= i < j < s.len() ==> #[trigger] s[i].elapsed_ms < #[trigger] s[j].elapsed_ms
}

/// The raw time series of one run: the samples recorded by the
/// collection loop, in the order they were taken.
#[derive(Debug)]
pub struct RunSeries {
    pub samples: Vec<Sample>,
}

impl RunSeries {
    /// Well-formed: samples are strictly ordered by elapsed time.
    pub open spec fn wf(self) -> bool {
        strictly_ordered(self.samples@)
    }

    pub fn new() -> (r: Self)
        ensures
            r.samples@ == Seq::<Sample>::empty(),
            r.wf(),
    {
        RunSeries { samples: Vec::new() }
    }

    /// Appends one sample; it must be later than everything recorded so far.
    pub fn push(&mut self, s: Sample)
        requires
            old(self).wf(),
            old(self).samples@.len() > 0 ==> old(self).samples@.last().elapsed_ms < s.elapsed_ms,
        ensures
            final(self).samples@ == old(self).samples@.push(s),
            final(self).wf(),
    {
        self.samples.push(s);
    }

    pub fn len(&self) -> (n: usize)
        ensures
            n == self.samples@.len(),
    {
        self.samples.len()
    }
}

impl Clone for RunSeries {
    fn clone(&self) -> (r: Self)
        ensures
            r.samples@ == self.samples@,
    {
        let mut samples: Vec<Sample> = Vec::new();
        let mut i: usize = 0;
        while i < self.samples.len()
            invariant
                i <= self.samples@.len(),
                samples@ == self.samples@.subrange(0, i as int),
            decreases self.samples@.len() - i,
        {
            samples.push(self.samples[i]);
            i = i + 1;
        }
        proof {
            assert(samples@ =~= self.samples@);
        }
        RunSeries { samples }
    }
}

} // verus!
